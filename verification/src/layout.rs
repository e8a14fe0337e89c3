//! Where the first frame of a fresh context lies in its stack block.

use vstd::prelude::*;
use crate::arch::{Arch, MIN_STACK_WORDS, STACK_ALIGN, WORD_BYTES};

verus! {

/// Whether `len` words starting at address `base` form a block of memory:
/// word aligned, and ending inside the address space.
pub open spec fn block_ok(base: int, len: int) -> bool {
    base % 8 == 0 && 0 <= base && 0 <= len && base + 8 * len <= usize::MAX
}

/// The highest address at or below `addr` that has the stack alignment.
pub open spec fn align_down(addr: int) -> int {
    addr - addr % 16
}

/// Address of the word that holds the entry routine's address in a fresh
/// block: the high end of the block, aligned downward, less the reserved words.
pub open spec fn spec_entry_addr(arch: Arch, base: int, len: int) -> int {
    align_down(base + 8 * len) - 8 * arch.spec_reserved_words()
}

/// Index in the block of the word at `spec_entry_addr`.
pub open spec fn spec_entry_slot(arch: Arch, base: int, len: int) -> int {
    (spec_entry_addr(arch, base, len) - base) / 8
}

/// Index of the word of a fresh stack block that receives the entry routine's
/// address. The block has `len` words and starts at address `base`.
pub fn entry_slot(arch: Arch, base: usize, len: usize) -> (slot: usize)
    requires
        block_ok(base as int, len as int),
        len > MIN_STACK_WORDS,
    ensures
        slot == spec_entry_slot(arch, base as int, len as int),
        base + 8 * slot == spec_entry_addr(arch, base as int, len as int),
        slot + arch.spec_reserved_words() <= len,
        (base + 8 * slot) % 16 == 0,
{
    let end: usize = base + len * WORD_BYTES;
    let pad: usize = if end % STACK_ALIGN == 0 { 0 } else { 1 };
    len - arch.reserved_words() - pad
}

} // verus!
