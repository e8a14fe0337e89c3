//! The supported processor architectures and the frame sizes of their
//! transfer sequences.

use vstd::prelude::*;

verus! {

/// Bytes in one machine word, on every supported architecture.
pub const WORD_BYTES: usize = 8;

/// Alignment in bytes that the stack pointer must have at a call boundary.
pub const STACK_ALIGN: usize = 16;

/// A stack block must hold more words than this.
pub const MIN_STACK_WORDS: usize = 8;

/// A processor architecture whose calling convention the transfer sequence speaks.
#[derive(Clone, Copy, PartialEq, Eq, Structural, Debug)]
pub enum Arch {
    /// The return address lives on the stack; a frame is resumed by popping it.
    X86_64,
    /// The return address lives in a link register; a frame is resumed by
    /// jumping through a register, and a fresh one through the entry trampoline.
    Riscv64,
}

impl Arch {
    /// Words set aside at the aligned top of a fresh stack for the first frame.
    pub open spec fn spec_reserved_words(self) -> int {
        match self {
            Arch::X86_64 => 2,
            Arch::Riscv64 => 4,
        }
    }

    /// Words of register state that the calling convention preserves across a
    /// call. On x86-64: the control words (MXCSR and the x87 control word, in
    /// one word), `rbx`, `rbp` and `r12` to `r15`. On RISC-V: `s0` to `s11` and
    /// `fs0` to `fs11`.
    pub open spec fn spec_preserved_words(self) -> int {
        match self {
            Arch::X86_64 => 7,
            Arch::Riscv64 => 24,
        }
    }

    /// Words that the transfer sequence spills onto the stack of the context
    /// it suspends: the preserved registers, and on x86-64 the resumption
    /// address. The frame is a multiple of the stack alignment.
    pub open spec fn spec_frame_words(self) -> int {
        match self {
            Arch::X86_64 => 8,
            Arch::Riscv64 => 24,
        }
    }

    /// Words of the first frame that are released before the entry routine starts.
    pub open spec fn spec_entry_words(self) -> int {
        match self {
            Arch::X86_64 => 1,
            Arch::Riscv64 => 2,
        }
    }

    /// Whether `sp` is a legal stack pointer at the first instruction of a
    /// routine: on x86-64 the caller's aligned stack pointer less the pushed
    /// return address, on RISC-V the aligned stack pointer itself.
    pub open spec fn aligned_at_entry(self, sp: int) -> bool {
        match self {
            Arch::X86_64 => (sp + 8) % 16 == 0,
            Arch::Riscv64 => sp % 16 == 0,
        }
    }

    /// Words set aside at the aligned top of a fresh stack for the first frame.
    pub fn reserved_words(self) -> (n: usize)
        ensures
            n == self.spec_reserved_words(),
    {
        match self {
            Arch::X86_64 => 2,
            Arch::Riscv64 => 4,
        }
    }

    /// Words of the first frame that are released before the entry routine starts.
    pub fn entry_words(self) -> (n: usize)
        ensures
            n == self.spec_entry_words(),
    {
        match self {
            Arch::X86_64 => 1,
            Arch::Riscv64 => 2,
        }
    }

    /// Words of register state that the calling convention preserves across a call.
    pub fn preserved_words(self) -> (n: usize)
        ensures
            n == self.spec_preserved_words(),
    {
        match self {
            Arch::X86_64 => 7,
            Arch::Riscv64 => 24,
        }
    }

    /// Words that the transfer sequence spills onto the stack of the context it suspends.
    pub fn frame_words(self) -> (n: usize)
        ensures
            n == self.spec_frame_words(),
    {
        match self {
            Arch::X86_64 => 8,
            Arch::Riscv64 => 24,
        }
    }
}

} // verus!
