use risk5::memory::{ByteMap, Memory};
use risk5::mmu::{Fault, MemoryOp, Mmu};

fn memory_with(entries: &[(u64, u64)]) -> ByteMap {
    let mut mem = ByteMap::default();
    for (addr, value) in entries {
        mem.write_d(*addr, *value);
    }
    mem
}

#[test]
fn first_linux_page_translation() {
    let mut mmu = Mmu::new(memory_with(&[(0x8021c000, 0x200800cf), (0x8021dc00, 0x20087001)]));
    mmu.set_page_mode(0, 0x8021d);
    assert_eq!(mmu.translate(0xffffffe0000000c0, MemoryOp::Load, 1).expect("ok"), 0x802000c0);

    let mut mmu = Mmu::new(memory_with(&[(0x80687010, 0x201800cf), (0x80707c00, 0x201a1c01)]));
    mmu.set_page_mode(0, 0x80707);
    assert_eq!(mmu.translate(0xffffffe000464440, MemoryOp::Load, 1).expect("ok"), 0x80664440);

    let mut mmu = Mmu::new(memory_with(&[(0x80687000, 0x200800cf), (0x80707c00, 0x201a1c01)]));
    mmu.set_page_mode(0, 0x80707);

    let expected = 0x80202df8;
    let actual = mmu.translate(0xffffffe000002df8, MemoryOp::Load, 1).expect("ok");
    assert_eq!(actual, expected);
}

#[test]
fn user_mode_needs_user_pages() {
    let mut mmu = Mmu::new(memory_with(&[(0x8021c000, 0x200800cf), (0x8021dc00, 0x20087001)]));
    mmu.set_page_mode(0, 0x8021d);
    assert_eq!(mmu.translate(0xffffffe0000000c0, MemoryOp::Load, 0), Err(Fault::PageFault));
    // machine mode does not translate
    assert_eq!(mmu.translate(0xffffffe0000000c0, MemoryOp::Load, 3), Ok(0xffffffe0000000c0));
}

#[test]
fn invalid_entry_faults() {
    let mut mmu = Mmu::new(memory_with(&[]));
    mmu.set_page_mode(0, 0x80000);
    assert_eq!(mmu.translate(0x1000, MemoryOp::Load, 1), Err(Fault::PageFault));
}

#[test]
fn bare_mode_read_after_write() {
    let mut mmu = Mmu::new(ByteMap::default());
    mmu.set_prv(1, &risk5::bitfield::Mstatus::new());
    assert_eq!(mmu.write_w(0x8000_0000, 0xcafe_f00d), Ok(()));
    assert_eq!(mmu.read_w(0x8000_0000), Ok(0xcafe_f00d));
    assert_eq!(mmu.read_h(0x8000_0002), Ok(0xcafe));
    assert_eq!(mmu.write_d(0x8000_0010, 7), Ok(()));
    assert_eq!(mmu.read_d(0x8000_0010), Ok(7));
    assert_eq!(mmu.write_b(0x8000_0020, 9), Ok(()));
    assert_eq!(mmu.read_b(0x8000_0020), Ok(9));
}

#[test]
fn unbacked_memory_is_reported() {
    let mut mem = risk5::memory::BlockMemory::new(0);
    mem.add_block(0x1000, 0x10);
    let mut mmu = Mmu::new(mem);
    assert_eq!(mmu.read_w(0x100e), Err(Fault::Unmapped));
    assert_eq!(mmu.read_w(0x1000), Ok(0));
    assert_eq!(mmu.write_b(0x2000, 1), Err(Fault::Unmapped));
}

#[test]
fn a_leaf_that_does_not_grant_the_access_ends_the_walk() {
    // The root entry is readable but not writable; the table it would point
    // to holds a writable leaf, which the walk must never reach.
    let mut mmu = Mmu::new(memory_with(&[(0x8000_0000, 0x20000403), (0x8000_1000, 0x20000007)]));
    mmu.set_page_mode(0, 0x80000);
    assert_eq!(mmu.translate(0, MemoryOp::Store, 1), Err(Fault::PageFault));
    assert_eq!(mmu.translate(0, MemoryOp::Fetch, 1), Err(Fault::PageFault));
    assert_eq!(mmu.translate(0, MemoryOp::Load, 1), Ok(0x8000_0000));
}
