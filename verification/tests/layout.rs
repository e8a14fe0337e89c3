use crobber::arch::{Arch, MIN_STACK_WORDS, STACK_ALIGN, WORD_BYTES};
use crobber::layout::entry_slot;
use crobber::{RawCrob, Stack};

const ENTRY: usize = 0x40_3000;
const SHIM: usize = 0x40_2000;

#[test]
fn constants_have_their_values() {
    assert_eq!(WORD_BYTES, 8);
    assert_eq!(STACK_ALIGN, 16);
    assert_eq!(MIN_STACK_WORDS, 8);
}

#[test]
fn frame_sizes_per_architecture() {
    assert_eq!(Arch::X86_64.reserved_words(), 2);
    assert_eq!(Arch::Riscv64.reserved_words(), 4);
    assert_eq!(Arch::X86_64.preserved_words(), 7);
    assert_eq!(Arch::Riscv64.preserved_words(), 24);
    assert_eq!(Arch::X86_64.frame_words(), 8);
    assert_eq!(Arch::Riscv64.frame_words(), 24);
    assert_eq!(Arch::X86_64.frame_words() * WORD_BYTES % STACK_ALIGN, 0);
    assert_eq!(Arch::Riscv64.frame_words() * WORD_BYTES % STACK_ALIGN, 0);
    assert_eq!(Arch::X86_64.entry_words(), 1);
    assert_eq!(Arch::Riscv64.entry_words(), 2);
}

#[test]
fn entry_slot_of_an_aligned_block() {
    assert_eq!(entry_slot(Arch::X86_64, 0x1000, 16), 14);
    assert_eq!(entry_slot(Arch::Riscv64, 0x1000, 16), 12);
}

#[test]
fn entry_slot_of_a_block_that_ends_off_alignment() {
    // The block ends at 0x1088, which aligns down to 0x1080.
    assert_eq!(entry_slot(Arch::X86_64, 0x1008, 16), 13);
    assert_eq!(entry_slot(Arch::Riscv64, 0x1008, 16), 11);
    // The block starts off alignment and ends at 0x1080.
    assert_eq!(entry_slot(Arch::X86_64, 0x1008, 15), 13);
    assert_eq!(entry_slot(Arch::Riscv64, 0x1008, 15), 11);
}

#[test]
fn entry_slot_of_the_smallest_block() {
    assert_eq!(entry_slot(Arch::X86_64, 0x1000, 9), 6);
    assert_eq!(entry_slot(Arch::Riscv64, 0x1000, 9), 4);
    assert_eq!(entry_slot(Arch::X86_64, 0x1008, 9), 7);
    assert_eq!(entry_slot(Arch::Riscv64, 0x1008, 9), 5);
}

#[test]
fn entry_slot_is_aligned_for_every_small_block() {
    let mut len: usize = 9;
    while len < 40 {
        let mut base: usize = 0x1000;
        while base < 0x1020 {
            let x: usize = entry_slot(Arch::X86_64, base, len);
            let r: usize = entry_slot(Arch::Riscv64, base, len);
            assert_eq!((base + 8 * x) % 16, 0);
            assert_eq!((base + 8 * r) % 16, 0);
            assert_eq!(x, r + 2);
            assert!(x + 2 <= len && len <= x + 3);
            base += 8;
        }
        len += 1;
    }
}

#[test]
fn stack_reports_its_block() {
    let stack = Stack::new(0x2000, vec![7, 8, 9]);
    assert_eq!(stack.base(), 0x2000);
    assert_eq!(stack.len(), 3);
    assert_eq!(stack.load(0x2000), 7);
    assert_eq!(stack.load(0x2010), 9);
}

#[test]
fn stack_store_changes_one_word() {
    let mut stack = Stack::new(0x2000, vec![7, 8, 9]);
    stack.store(0x2008, 42);
    assert_eq!(stack.load(0x2000), 7);
    assert_eq!(stack.load(0x2008), 42);
    assert_eq!(stack.load(0x2010), 9);
}

#[test]
fn new_writes_the_entry_address_and_nothing_else() {
    let mut stack = Stack::new(0x1000, vec![5; 16]);
    let _crob = RawCrob::new(Arch::X86_64, &mut stack, ENTRY, SHIM);
    let mut i: usize = 0;
    while i < 16 {
        let expected: usize = if i == 14 { ENTRY } else { 5 };
        assert_eq!(stack.load(0x1000 + 8 * i), expected);
        i += 1;
    }
}

#[test]
fn new_on_riscv_writes_the_entry_address_and_nothing_else() {
    let mut stack = Stack::new(0x1008, vec![5; 16]);
    let _crob = RawCrob::new(Arch::Riscv64, &mut stack, ENTRY, SHIM);
    let mut i: usize = 0;
    while i < 16 {
        let expected: usize = if i == 11 { ENTRY } else { 5 };
        assert_eq!(stack.load(0x1008 + 8 * i), expected);
        i += 1;
    }
}

#[test]
fn spill_writes_downward_from_the_top() {
    let mut stack = Stack::new(0x2000, vec![1, 2, 3, 4, 5, 6]);
    stack.spill(0x2028, &vec![70, 80, 90]);
    assert_eq!(stack.load(0x2000), 1);
    assert_eq!(stack.load(0x2008), 2);
    assert_eq!(stack.load(0x2010), 90);
    assert_eq!(stack.load(0x2018), 80);
    assert_eq!(stack.load(0x2020), 70);
    assert_eq!(stack.load(0x2028), 6);
}

#[test]
fn frame_reads_back_what_spill_wrote() {
    let mut stack = Stack::new(0x2000, vec![0; 8]);
    let regs: Vec<usize> = vec![11, 22, 33, 44];
    stack.spill(0x2040, &regs);
    assert_eq!(stack.frame(0x2040, 4), regs);
    assert_eq!(stack.frame(0x2040, 2), vec![11, 22]);
    assert_eq!(stack.frame(0x2030, 2), vec![33, 44]);
    assert_eq!(stack.frame(0x2040, 0), Vec::<usize>::new());
}
