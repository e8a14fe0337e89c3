//! What holds of every transfer, proved over the machine's states.

use vstd::prelude::*;
use crate::machine::{lemma_first_frame, lemma_spilled_frame, RawCrob, StackView, State};

verus! {

/// Whether two views show the same block of memory, whatever it holds.
pub open spec fn same_block(a: StackView, b: StackView) -> bool {
    a.base == b.base && a.words.len() == b.words.len()
}

/// A transfer hands the payload over unchanged, and the descriptor it hands
/// over denotes the frame that the suspended context just spilled. That frame
/// lies whole within the suspended context's own block, and its address is a
/// multiple of the stack alignment whenever the stack pointer was one where the
/// transfer began. A later transfer to that descriptor is accepted as soon as
/// the running context has room for a frame of its own.
pub proof fn law_transfer_hands_over(m: State, target: RawCrob, w: usize)
    requires
        m.inv(),
        m.accepts(target),
    ensures
        m.switch(target, w).inv(),
        m.switch(target, w).data == w,
        m.switch(target, w).peer == m.suspend().handle(),
        m.switch(target, w).suspended(m.switch(target, w).peer),
        same_block(m.switch(target, w).idle, m.live),
        m.switch(target, w).idle.holds(m.switch(target, w).peer.saved_sp() as int),
        m.switch(target, w).peer.saved_sp() + m.frame_bytes() == m.sp,
        m.sp % 16 == 0 ==> m.switch(target, w).peer.saved_sp() % 16 == 0,
        m.switch(target, w).live.base + m.frame_bytes() <= m.switch(target, w).sp
            ==> m.switch(target, w).accepts(m.switch(target, w).peer),
{
    lemma_spilled_frame(m);
}

/// A context that, once control has reached it, transfers straight back with
/// the payload `w` makes the first context's pending call return exactly `w`:
/// the first context continues behind its own transfer, and `w` is what it is
/// handed.
pub proof fn law_round_trip_payload(m: State, target: RawCrob, sent: usize, w: usize)
    requires
        m.inv(),
        m.accepts(target),
        m.switch(target, sent).accepts(m.switch(target, sent).peer),
    ensures
        m.switch(target, sent).switch(m.switch(target, sent).peer, w).data == w,
        m.switch(target, sent).switch(m.switch(target, sent).peer, w).pc == m.resume,
        m.switch(target, sent).switch(m.switch(target, sent).peer, w).sp == m.sp,
{
    law_transfer_hands_over(m, target, sent);
    law_state_preserved(m, target, sent, m.switch(target, sent), w);
}

/// Every transfer exchanges the two stacks, so over any run of accepted
/// transfers the two contexts take turns: after an even number the context
/// that made the first transfer is running on its own stack, after an odd
/// number the other one on its own.
pub proof fn law_strict_alternation(m: State, payloads: Seq<usize>)
    requires
        m.inv(),
        m.relays(payloads),
    ensures
        m.relay(payloads).inv(),
        payloads.len() % 2 == 0 ==> {
            &&& same_block(m.relay(payloads).live, m.live)
            &&& same_block(m.relay(payloads).idle, m.idle)
        },
        payloads.len() % 2 == 1 ==> {
            &&& same_block(m.relay(payloads).live, m.idle)
            &&& same_block(m.relay(payloads).idle, m.live)
        },
    decreases payloads.len(),
{
    if payloads.len() > 0 {
        let next = m.switch(m.peer, payloads[0]);
        law_transfer_hands_over(m, m.peer, payloads[0]);
        assert(same_block(next.live, m.idle));
        law_strict_alternation(next, payloads.drop_first());
    }
}

/// Over a run of accepted transfers that begins beside a context not yet
/// started, the entry routine is started once, by the first transfer, and
/// never again: every later transfer resumes a suspended frame.
pub proof fn law_entered_once(m: State, payloads: Seq<usize>)
    requires
        m.inv(),
        m.relays(payloads),
    ensures
        m.suspended(m.peer) ==> m.entries(payloads) == 0,
        m.unstarted(m.peer) && payloads.len() >= 1 ==> m.entries(payloads) == 1,
    decreases payloads.len(),
{
    if payloads.len() > 0 {
        let next = m.switch(m.peer, payloads[0]);
        law_transfer_hands_over(m, m.peer, payloads[0]);
        law_entered_once(next, payloads.drop_first());
    }
}

/// A suspended context loses nothing. Let a context transfer away in state
/// `m`, and let the other context then run as it likes, which can change the
/// registers, the stack pointer and its own stack but not the idle stack,
/// until in state `n` it transfers back. The first context then continues
/// behind its transfer with the stack pointer and every preserved register as
/// it had them, and every word of its stack from the stack pointer upward is
/// as it was.
pub proof fn law_state_preserved(m: State, target: RawCrob, sent: usize, n: State, back: usize)
    requires
        m.inv(),
        m.accepts(target),
        n.inv(),
        n.arch == m.arch,
        n.resume == m.resume,
        n.shim == m.shim,
        n.idle == m.switch(target, sent).idle,
        n.accepts(m.switch(target, sent).peer),
    ensures
        n.switch(m.switch(target, sent).peer, back).pc == m.resume,
        n.switch(m.switch(target, sent).peer, back).data == back,
        n.switch(m.switch(target, sent).peer, back).sp == m.sp,
        n.switch(m.switch(target, sent).peer, back).regs == m.regs,
        n.switch(m.switch(target, sent).peer, back).live == m.suspend().live,
        forall|addr: int|
            m.sp <= addr && #[trigger] m.live.holds(addr) ==> n.switch(
                m.switch(target, sent).peer,
                back,
            ).live.word(addr) == m.live.word(addr),
{
    lemma_spilled_frame(m);
}

/// The first transfer to a context fresh from `RawCrob::new` starts its entry
/// routine, and hands it the payload of that very transfer, and the descriptor
/// of the context that made it, as the routine's arguments: execution
/// continues at `start`, not behind a transfer.
pub proof fn law_first_activation(m: State, crob: RawCrob, start: usize, w: usize)
    requires
        m.inv(),
        crob == m.peer,
        crob.fresh(m.arch, m.idle, start, m.shim),
        start != m.resume,
        m.live.base + m.frame_bytes() <= m.sp,
    ensures
        m.accepts(crob),
        m.unstarted(crob),
        m.switch(crob, w).pc == start,
        m.switch(crob, w).data == w,
        m.switch(crob, w).peer == m.suspend().handle(),
{
    assert(!m.suspended(crob));
    assert(m.suspend().idle == m.idle);
}

/// When the entry routine of a fresh context starts, the stack pointer meets
/// the architecture's alignment rule for the first instruction of a routine,
/// and lies within the context's own block.
pub proof fn law_entry_alignment(m: State, crob: RawCrob, start: usize, w: usize)
    requires
        m.inv(),
        crob == m.peer,
        crob.fresh(m.arch, m.idle, start, m.shim),
        start != m.resume,
        m.live.base + m.frame_bytes() <= m.sp,
    ensures
        m.arch.aligned_at_entry(m.switch(crob, w).sp),
        same_block(m.switch(crob, w).live, m.idle),
        m.switch(crob, w).live.base < m.switch(crob, w).sp <= m.switch(crob, w).live.end(),
{
    assert(!m.suspended(crob));
    lemma_first_frame(m.arch, m.idle, crob, m.resume, m.shim);
    assert(m.suspend().idle == m.idle);
    assert(m.switch(crob, w).sp == crob.saved_sp() + 8 * m.arch.spec_entry_words());
    assert(m.switch(crob, w).live == m.idle);
}

} // verus!
