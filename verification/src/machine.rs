//! The transfer sequence as a step of a machine with two stacks.
//!
//! At any instant one context runs on the machine's live stack while the other
//! is suspended on the idle one. A transfer spills the running context's
//! preserved registers onto its own stack, exchanges the stacks, and resumes
//! the other context from the frame that its descriptor points at.

use vstd::prelude::*;
use crate::arch::{Arch, MIN_STACK_WORDS};
use crate::layout::{block_ok, entry_slot, spec_entry_addr};

verus! {

/// What a stack block is to a contract: its first address and its words.
pub struct StackView {
    pub base: usize,
    pub words: Seq<usize>,
}

impl StackView {
    /// The block is word aligned and ends inside the address space.
    pub open spec fn wf(self) -> bool {
        block_ok(self.base as int, self.words.len() as int)
    }

    /// The address just past the last word.
    pub open spec fn end(self) -> int {
        self.base + 8 * self.words.len()
    }

    /// Whether `addr` is the address of a word of the block.
    pub open spec fn holds(self, addr: int) -> bool {
        self.base <= addr && addr + 8 <= self.end() && addr % 8 == 0
    }

    /// The word at address `addr`.
    pub open spec fn word(self, addr: int) -> usize
        recommends
            self.holds(addr),
    {
        self.words[(addr - self.base) / 8]
    }

    /// The block with `w` written at address `addr`.
    pub open spec fn store(self, addr: int, w: usize) -> StackView
        recommends
            self.holds(addr),
    {
        StackView { base: self.base, words: self.words.update((addr - self.base) / 8, w) }
    }

    /// The block with `regs` written downward from address `top`: the first of
    /// them in the word just below `top`, each next one a word lower.
    pub open spec fn spill(self, top: int, regs: Seq<usize>) -> StackView {
        StackView {
            base: self.base,
            words: Seq::new(
                self.words.len(),
                |j: int|
                    if top - 8 * regs.len() <= self.base + 8 * j < top {
                        regs[(top - (self.base + 8 * j)) / 8 - 1]
                    } else {
                        self.words[j]
                    },
            ),
        }
    }

    /// The `n` words below address `top`, the highest first.
    pub open spec fn frame(self, top: int, n: int) -> Seq<usize> {
        Seq::new(n as nat, |i: int| self.word(top - 8 * (i + 1)))
    }
}

/// A block of machine words that serves one context as its call stack.
pub struct Stack {
    base: usize,
    words: Vec<usize>,
}

impl View for Stack {
    type V = StackView;

    closed spec fn view(&self) -> StackView {
        StackView { base: self.base, words: self.words@ }
    }
}

impl Stack {
    /// The block that holds `words` from address `base` upward.
    pub fn new(base: usize, words: Vec<usize>) -> (stack: Stack)
        requires
            block_ok(base as int, words@.len() as int),
        ensures
            stack@ == (StackView { base, words: words@ }),
            stack@.wf(),
    {
        Stack { base, words }
    }

    /// The address of the first word.
    pub fn base(&self) -> (base: usize)
        ensures
            base == self@.base,
    {
        self.base
    }

    /// The number of words.
    pub fn len(&self) -> (len: usize)
        ensures
            len == self@.words.len(),
    {
        self.words.len()
    }

    /// The word at address `addr`.
    pub fn load(&self, addr: usize) -> (w: usize)
        requires
            self@.wf(),
            self@.holds(addr as int),
        ensures
            w == self@.word(addr as int),
    {
        self.words[(addr - self.base) / 8]
    }

    /// Writes `w` at address `addr`.
    pub fn store(&mut self, addr: usize, w: usize)
        requires
            old(self)@.wf(),
            old(self)@.holds(addr as int),
        ensures
            final(self)@ == old(self)@.store(addr as int, w),
            final(self)@.wf(),
    {
        let slot: usize = (addr - self.base) / 8;
        self.words.set(slot, w);
    }

    /// Writes `regs` downward from address `top`.
    pub fn spill(&mut self, top: usize, regs: &Vec<usize>)
        requires
            old(self)@.wf(),
            top % 8 == 0,
            old(self)@.base + 8 * regs@.len() <= top <= old(self)@.end(),
        ensures
            final(self)@ == old(self)@.spill(top as int, regs@),
            final(self)@.wf(),
    {
        let n: usize = regs.len();
        let ghost before: StackView = self@;
        let mut i: usize = 0;
        assert(self@.words =~= before.spill(top as int, regs@.take(0)).words);
        while i < n
            invariant
                i <= n,
                n == regs@.len(),
                before.wf(),
                top % 8 == 0,
                before.base + 8 * n <= top <= before.end(),
                self@.wf(),
                self@ == before.spill(top as int, regs@.take(i as int)),
            decreases n - i,
        {
            let addr: usize = top - 8 * (i + 1);
            self.store(addr, regs[i]);
            proof {
                let k = (addr - before.base) / 8;
                let sooner = before.spill(top as int, regs@.take(i as int));
                let later = before.spill(top as int, regs@.take(i + 1));
                assert(before.base + 8 * k == addr);
                assert forall|j: int| 0 <= j < before.words.len() implies self@.words[j]
                    == later.words[j] by {
                    let at = before.base + 8 * j;
                    if j == k {
                        assert((top - at) / 8 - 1 == i);
                    } else {
                        assert(self@.words[j] == sooner.words[j]);
                        if top - 8 * i <= at < top {
                            assert(0 <= (top - at) / 8 - 1 < i);
                        } else {
                            assert(!(top - 8 * (i + 1) <= at < top));
                        }
                    }
                }
                assert(self@.words =~= later.words);
            }
            i += 1;
        }
        assert(regs@.take(n as int) =~= regs@);
    }

    /// The `n` words below address `top`, the highest first.
    pub fn frame(&self, top: usize, n: usize) -> (regs: Vec<usize>)
        requires
            self@.wf(),
            top % 8 == 0,
            self@.base + 8 * n <= top <= self@.end(),
        ensures
            regs@ == self@.frame(top as int, n as int),
    {
        let mut regs: Vec<usize> = Vec::new();
        let mut i: usize = 0;
        while i < n
            invariant
                i <= n,
                self@.wf(),
                top % 8 == 0,
                self@.base + 8 * n <= top <= self@.end(),
                regs@ =~= self@.frame(top as int, i as int),
            decreases n - i,
        {
            regs.push(self.load(top - 8 * (i + 1)));
            i += 1;
        }
        regs
    }
}

/// Identifies a suspended, or not yet started, context: the address in the
/// context's own stack at which its frame begins, and, where the architecture
/// keeps the return address in a register, the address at which it resumes.
#[derive(Clone, Copy)]
pub struct RawCrob {
    pub(crate) sp: usize,
    pub(crate) ra: usize,
}

/// Whether `target` denotes, in the block `stack`, a context not yet started:
/// its frame lies where `RawCrob::new` puts it, and it leads into an entry
/// routine, on x86-64 by a first word that is not the address `resume`, on
/// RISC-V by resuming at the trampoline `shim`.
pub open spec fn unstarted_in(
    arch: Arch,
    stack: StackView,
    target: RawCrob,
    resume: usize,
    shim: usize,
) -> bool {
    &&& stack.words.len() > MIN_STACK_WORDS
    &&& target.saved_sp() == spec_entry_addr(arch, stack.base as int, stack.words.len() as int)
    &&& match arch {
        Arch::X86_64 => target.saved_ra() == 0 && stack.word(target.saved_sp() as int) != resume,
        Arch::Riscv64 => target.saved_ra() == shim,
    }
}

impl RawCrob {
    /// The descriptor with the given saved stack pointer and resumption address.
    pub open(crate) spec fn of(sp: usize, ra: usize) -> RawCrob {
        RawCrob { sp, ra }
    }

    /// The saved stack pointer.
    pub open(crate) spec fn saved_sp(self) -> usize {
        self.sp
    }

    /// The saved resumption address; zero where the frame itself holds it.
    pub open(crate) spec fn saved_ra(self) -> usize {
        self.ra
    }

    /// Whether the descriptor denotes the context that `new` leaves in `stack`
    /// for the entry routine at `start`: its frame lies at the aligned top of
    /// the block and holds `start`, and on RISC-V it resumes through the
    /// trampoline at `shim`.
    pub open spec fn fresh(self, arch: Arch, stack: StackView, start: usize, shim: usize) -> bool {
        &&& self.saved_sp() == spec_entry_addr(arch, stack.base as int, stack.words.len() as int)
        &&& stack.word(self.saved_sp() as int) == start
        &&& self.saved_ra() == if arch == Arch::Riscv64 { shim } else { 0 }
    }

    /// Prepares `stack` for a context that starts in the entry routine at
    /// address `start`, and returns its descriptor. Nothing runs yet. `shim` is
    /// the address of the entry trampoline, which only RISC-V uses.
    pub fn new(arch: Arch, stack: &mut Stack, start: usize, shim: usize) -> (crob: RawCrob)
        requires
            old(stack)@.wf(),
            old(stack)@.words.len() > MIN_STACK_WORDS,
        ensures
            final(stack)@ == old(stack)@.store(
                spec_entry_addr(arch, old(stack)@.base as int, old(stack)@.words.len() as int),
                start,
            ),
            final(stack)@.wf(),
            crob.fresh(arch, final(stack)@, start, shim),
            crob.saved_sp() % 16 == 0,
            final(stack)@.holds(crob.saved_sp() as int),
    {
        let slot: usize = entry_slot(arch, stack.base(), stack.len());
        let sp: usize = stack.base() + 8 * slot;
        stack.store(sp, start);
        let ra: usize = match arch {
            Arch::X86_64 => 0,
            Arch::Riscv64 => shim,
        };
        RawCrob { sp, ra }
    }

    /// Transfers control to the context that `self` denotes, with the payload
    /// `data`. The machine is left where that context continues; `self` then
    /// denotes the context that made the call, and the result is the payload as
    /// it arrives there. `self` must be the descriptor of the idle context as
    /// it now stands: a copy kept from before an earlier transfer is refused.
    pub fn call(&mut self, machine: &mut Machine, data: usize) -> (received: usize)
        requires
            old(machine)@.inv(),
            old(machine)@.accepts(*old(self)),
        ensures
            final(machine)@ == old(machine)@.switch(*old(self), data),
            *final(self) == final(machine)@.peer,
            received == final(machine)@.data,
            final(machine)@.inv(),
    {
        let (back, word) = machine.switch(*self, data);
        *self = back;
        word
    }
}

/// What the machine is to a contract.
pub struct State {
    pub arch: Arch,
    /// Address of the instruction that follows the transfer sequence's jump.
    pub resume: usize,
    /// Address of the entry trampoline.
    pub shim: usize,
    /// The stack pointer.
    pub sp: int,
    /// Address of the instruction at which execution continues.
    pub pc: usize,
    /// The registers that the calling convention preserves across a call, in
    /// the order in which `Arch::spec_preserved_words` names them.
    pub regs: Seq<usize>,
    /// The descriptor of the idle context. After a transfer it is what that
    /// transfer handed to the running context: its entry routine's first
    /// argument, or the new value of the descriptor that its pending call was
    /// made on. Before the first transfer it is the descriptor of the context
    /// not yet started.
    pub peer: RawCrob,
    /// The payload that the last transfer handed to the running context: its
    /// entry routine's second argument, or the result of its pending call.
    pub data: usize,
    /// Stack of the running context.
    pub live: StackView,
    /// Stack of the suspended context.
    pub idle: StackView,
}

impl State {
    /// Both stacks are blocks of memory, the stack pointer is a word address in
    /// the live one or its end, every preserved register is there, and the
    /// idle stack holds, whole and within its block, the frame of the idle
    /// context: one that a transfer spilled, or the first frame of a context
    /// not yet started.
    pub open spec fn inv(self) -> bool {
        &&& self.live.wf()
        &&& self.idle.wf()
        &&& self.live.base <= self.sp <= self.live.end()
        &&& self.sp % 8 == 0
        &&& self.resume != self.shim
        &&& self.regs.len() == self.arch.spec_preserved_words()
        &&& self.idle.holds(self.peer.saved_sp() as int)
        &&& self.peer.saved_sp() + self.released(self.peer) <= self.idle.end()
        &&& self.suspended(self.peer) || self.unstarted(self.peer)
    }

    /// Bytes that the transfer sequence spills onto the live stack.
    pub open spec fn frame_bytes(self) -> int {
        8 * self.arch.spec_frame_words()
    }

    /// Whether the frame at `target` is one that a transfer left behind.
    pub open spec fn suspended(self, target: RawCrob) -> bool {
        match self.arch {
            Arch::X86_64 => self.idle.word(target.saved_sp() as int) == self.resume,
            Arch::Riscv64 => target.saved_ra() == self.resume,
        }
    }

    /// Whether `target` denotes, in the idle stack, a context not yet started.
    pub open spec fn unstarted(self, target: RawCrob) -> bool {
        unstarted_in(self.arch, self.idle, target, self.resume, self.shim)
    }

    /// Bytes of the idle stack that resuming `target` releases.
    pub open spec fn released(self, target: RawCrob) -> int {
        if self.suspended(target) {
            self.frame_bytes()
        } else {
            8 * self.arch.spec_entry_words()
        }
    }

    /// Whether the running context may transfer to `target`: its own stack has
    /// room for the spilled frame, and `target` is the descriptor of the idle
    /// context as it now stands, whose frame the invariant keeps whole.
    pub open spec fn accepts(self, target: RawCrob) -> bool {
        &&& self.live.base + self.frame_bytes() <= self.sp
        &&& target == self.peer
    }

    /// The first half of a transfer: every preserved register, and on x86-64
    /// the resumption address below them, is spilled below the stack pointer.
    pub open spec fn suspend(self) -> State {
        let spilled = self.live.spill(self.sp, self.regs);
        match self.arch {
            Arch::X86_64 => State {
                sp: self.sp - self.frame_bytes(),
                live: spilled.store(self.sp - self.frame_bytes(), self.resume),
                ..self
            },
            Arch::Riscv64 => State { sp: self.sp - self.frame_bytes(), live: spilled, ..self },
        }
    }

    /// The descriptor of the running context once it has spilled its frame.
    pub open spec fn handle(self) -> RawCrob {
        RawCrob::of(
            self.sp as usize,
            if self.arch == Arch::Riscv64 { self.resume } else { 0 },
        )
    }

    /// The second half of a transfer: the stacks change roles, and execution
    /// continues from the frame at `target`. A suspended context gets its
    /// preserved registers back and continues behind its own transfer; a
    /// context not yet started continues in its entry routine, on x86-64 by
    /// the return that pops the routine's address, on RISC-V by way of the
    /// trampoline, which releases the first frame.
    pub open spec fn land(self, target: RawCrob, data: usize) -> State {
        let sp = target.saved_sp() as int;
        let stack = self.idle;
        let peer = self.handle();
        if self.suspended(target) {
            State {
                sp: sp + self.frame_bytes(),
                pc: self.resume,
                regs: stack.frame(sp + self.frame_bytes(), self.arch.spec_preserved_words()),
                peer,
                data,
                live: stack,
                idle: self.live,
                ..self
            }
        } else {
            State {
                sp: sp + 8 * self.arch.spec_entry_words(),
                pc: stack.word(sp),
                peer,
                data,
                live: stack,
                idle: self.live,
                ..self
            }
        }
    }

    /// A whole transfer from the running context to `target`, with the
    /// payload `data`.
    pub open spec fn switch(self, target: RawCrob, data: usize) -> State {
        self.suspend().land(target, data)
    }

    /// Whether each transfer of the run that `relay` describes is accepted in
    /// the state in which it is made.
    pub open spec fn relays(self, payloads: Seq<usize>) -> bool
        decreases payloads.len(),
    {
        payloads.len() == 0 || {
            &&& self.accepts(self.peer)
            &&& self.switch(self.peer, payloads[0]).relays(payloads.drop_first())
        }
    }

    /// The state after one transfer for each payload of `payloads`, in turn,
    /// each to the context that is idle when it is made.
    pub open spec fn relay(self, payloads: Seq<usize>) -> State
        decreases payloads.len(),
    {
        if payloads.len() == 0 {
            self
        } else {
            self.switch(self.peer, payloads[0]).relay(payloads.drop_first())
        }
    }

    /// How many transfers of the run that `relay` describes start an entry
    /// routine.
    pub open spec fn entries(self, payloads: Seq<usize>) -> nat
        decreases payloads.len(),
    {
        if payloads.len() == 0 {
            0
        } else {
            let first: nat = if self.suspended(self.peer) { 0 } else { 1 };
            first + self.switch(self.peer, payloads[0]).entries(payloads.drop_first())
        }
    }
}

/// A processor with the stacks of two contexts, one of which is running.
pub struct Machine {
    arch: Arch,
    resume: usize,
    shim: usize,
    sp: usize,
    pc: usize,
    regs: Vec<usize>,
    peer: RawCrob,
    data: usize,
    live: Stack,
    idle: Stack,
}

impl View for Machine {
    type V = State;

    closed spec fn view(&self) -> State {
        State {
            arch: self.arch,
            resume: self.resume,
            shim: self.shim,
            sp: self.sp as int,
            pc: self.pc,
            regs: self.regs@,
            peer: self.peer,
            data: self.data,
            live: self.live@,
            idle: self.idle@,
        }
    }
}

impl Machine {
    /// A machine that runs, at address `pc`, a context whose stack is `live`
    /// and whose stack pointer is `sp`, beside the stack `idle` of a context
    /// not yet started, whose descriptor is `crob`. `resume` and `shim` are the
    /// addresses of the instruction behind the transfer sequence's jump and of
    /// the entry trampoline. Every preserved register starts as zero.
    pub fn new(
        arch: Arch,
        resume: usize,
        shim: usize,
        live: Stack,
        sp: usize,
        pc: usize,
        idle: Stack,
        crob: RawCrob,
    ) -> (machine: Machine)
        requires
            live@.wf(),
            idle@.wf(),
            live@.base <= sp <= live@.end(),
            sp % 8 == 0,
            resume != shim,
            unstarted_in(arch, idle@, crob, resume, shim),
        ensures
            machine@ == (State {
                arch,
                resume,
                shim,
                sp: sp as int,
                pc,
                regs: Seq::new(arch.spec_preserved_words() as nat, |i: int| 0usize),
                peer: crob,
                data: 0,
                live: live@,
                idle: idle@,
            }),
            machine@.inv(),
    {
        let regs: Vec<usize> = zeros(arch.preserved_words());
        proof {
            lemma_first_frame(arch, idle@, crob, resume, shim);
        }
        let machine = Machine { arch, resume, shim, sp, pc, regs, peer: crob, data: 0, live, idle };
        assert(!machine@.suspended(crob));
        machine
    }

    /// Address of the instruction at which the running context continues.
    pub fn pc(&self) -> (pc: usize)
        ensures
            pc == self@.pc,
    {
        self.pc
    }

    /// The stack pointer of the running context.
    pub fn sp(&self) -> (sp: usize)
        ensures
            sp == self@.sp,
    {
        self.sp
    }

    /// The preserved register with index `i` of the running context.
    pub fn preserved(&self, i: usize) -> (w: usize)
        requires
            i < self@.regs.len(),
        ensures
            w == self@.regs[i as int],
    {
        self.regs[i]
    }

    /// Whether the running context may transfer to `target`: whether its own
    /// stack has room for the spilled frame and `target` is the descriptor of
    /// the idle context as it now stands.
    pub fn accepts(&self, target: RawCrob) -> (ok: bool)
        requires
            self@.inv(),
        ensures
            ok == self@.accepts(target),
    {
        let frame: usize = 8 * self.arch.frame_words();
        self.sp - self.live.base() >= frame && target.sp == self.peer.sp && target.ra
            == self.peer.ra
    }

    /// The running context overwrites its preserved register with index `i`.
    pub fn set_preserved(&mut self, i: usize, w: usize)
        requires
            i < old(self)@.regs.len(),
        ensures
            final(self)@ == (State { regs: old(self)@.regs.update(i as int, w), ..old(self)@ }),
    {
        self.regs.set(i, w);
    }

    /// The running context pushes `w` onto its stack.
    pub fn push(&mut self, w: usize)
        requires
            old(self)@.inv(),
            old(self)@.live.base + 8 <= old(self)@.sp,
        ensures
            final(self)@ == (State {
                sp: old(self)@.sp - 8,
                live: old(self)@.live.store(old(self)@.sp - 8, w),
                ..old(self)@
            }),
            final(self)@.inv(),
    {
        self.sp = self.sp - 8;
        self.live.store(self.sp, w);
        assert(self@ =~= (State {
            sp: old(self)@.sp - 8,
            live: old(self)@.live.store(old(self)@.sp - 8, w),
            ..old(self)@
        }));
    }

    /// The running context pops the word at the top of its stack.
    pub fn pop(&mut self) -> (w: usize)
        requires
            old(self)@.inv(),
            old(self)@.sp + 8 <= old(self)@.live.end(),
        ensures
            final(self)@ == (State { sp: old(self)@.sp + 8, ..old(self)@ }),
            w == old(self)@.live.word(old(self)@.sp),
            final(self)@.inv(),
    {
        let w: usize = self.live.load(self.sp);
        self.sp = self.sp + 8;
        w
    }

    /// Carries out one transfer from the running context to `target` and
    /// returns what the context that continues is handed: the descriptor of the
    /// context just suspended, and the payload.
    pub fn switch(&mut self, target: RawCrob, data: usize) -> (handed: (RawCrob, usize))
        requires
            old(self)@.inv(),
            old(self)@.accepts(target),
        ensures
            final(self)@ == old(self)@.switch(target, data),
            handed.0 == final(self)@.peer,
            handed.1 == final(self)@.data,
            final(self)@.inv(),
    {
        let n: usize = self.arch.preserved_words();
        let frame: usize = 8 * self.arch.frame_words();
        let below: usize = self.sp - frame;
        self.live.spill(self.sp, &self.regs);
        let back: RawCrob = match self.arch {
            Arch::X86_64 => {
                self.live.store(below, self.resume);
                RawCrob { sp: below, ra: 0 }
            },
            Arch::Riscv64 => RawCrob { sp: below, ra: self.resume },
        };
        std::mem::swap(&mut self.live, &mut self.idle);
        let sp: usize = target.sp;
        let suspended: bool = match self.arch {
            Arch::X86_64 => self.live.load(sp) == self.resume,
            Arch::Riscv64 => target.ra == self.resume,
        };
        if suspended {
            self.regs = self.live.frame(sp + frame, n);
            self.pc = self.resume;
            self.sp = sp + frame;
        } else {
            self.pc = self.live.load(sp);
            self.sp = sp + 8 * self.arch.entry_words();
        }
        self.peer = back;
        self.data = data;
        assert(self@ =~= old(self)@.switch(target, data));
        proof {
            lemma_spilled_frame(old(self)@);
        }
        (back, data)
    }
}

/// A vector of `n` zero words.
fn zeros(n: usize) -> (words: Vec<usize>)
    ensures
        words@ == Seq::new(n as nat, |i: int| 0usize),
{
    let mut words: Vec<usize> = Vec::new();
    while words.len() < n
        invariant
            words@.len() <= n,
            words@ =~= Seq::new(words@.len(), |i: int| 0usize),
        decreases n - words@.len(),
    {
        words.push(0);
    }
    words
}

/// The first frame of a context not yet started begins at a word of its
/// block whose address is a multiple of the stack alignment, and the words
/// that starting the context releases lie within the block.
pub proof fn lemma_first_frame(
    arch: Arch,
    stack: StackView,
    target: RawCrob,
    resume: usize,
    shim: usize,
)
    requires
        stack.wf(),
        unstarted_in(arch, stack, target, resume, shim),
    ensures
        stack.holds(target.saved_sp() as int),
        target.saved_sp() % 16 == 0,
        target.saved_sp() + 8 * arch.spec_entry_words() <= stack.end(),
        stack.base < target.saved_sp() + 8 * arch.spec_entry_words(),
{
    let end = stack.end();
    let at = spec_entry_addr(arch, stack.base as int, stack.words.len() as int);
    assert(at == end - end % 16 - 8 * arch.spec_reserved_words());
    assert(end % 16 == 0 || end % 16 == 8);
}

/// The frame that `suspend` spills lies within the live stack, ends at the
/// stack pointer, and is read back whole; on x86-64 its lowest word is the
/// resumption address. No word at or above the stack pointer changes.
pub proof fn lemma_spilled_frame(m: State)
    requires
        m.inv(),
        m.live.base + m.frame_bytes() <= m.sp,
    ensures
        m.suspend().live.wf(),
        m.suspend().live.base == m.live.base,
        m.suspend().live.words.len() == m.live.words.len(),
        m.suspend().live.holds(m.suspend().sp),
        m.suspend().live.frame(m.sp, m.arch.spec_preserved_words()) == m.regs,
        m.arch == Arch::X86_64 ==> m.suspend().live.word(m.suspend().sp) == m.resume,
        forall|addr: int|
            m.sp <= addr && #[trigger] m.live.holds(addr) ==> m.suspend().live.word(addr)
                == m.live.word(addr),
{
    let n = m.arch.spec_preserved_words();
    let after = m.suspend().live;
    assert forall|i: int| 0 <= i < n implies after.word(m.sp - 8 * (i + 1)) == m.regs[i] by {
        let addr = m.sp - 8 * (i + 1);
        let j = (addr - m.live.base) / 8;
        assert(m.live.base + 8 * j == addr);
        assert((m.sp - addr) / 8 - 1 == i);
    }
    assert(after.frame(m.sp, n) =~= m.regs);
    assert forall|addr: int| m.sp <= addr && #[trigger] m.live.holds(addr) implies after.word(addr)
        == m.live.word(addr) by {
        let j = (addr - m.live.base) / 8;
        assert(m.live.base + 8 * j == addr);
    }
}

} // verus!
