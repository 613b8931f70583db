use risk5::loader::{build_memory_from, is_elf, read_program_segments, load_segments, LoadError};
use risk5::memory::{BlockMemory, Memory};
use risk5::write_reset_vec;

fn push16(v: &mut Vec<u8>, x: u16) {
    v.extend_from_slice(&x.to_le_bytes());
}
fn push32(v: &mut Vec<u8>, x: u32) {
    v.extend_from_slice(&x.to_le_bytes());
}
fn push64(v: &mut Vec<u8>, x: u64) {
    v.extend_from_slice(&x.to_le_bytes());
}

/// A 64 bit little-endian RISC-V executable with one loadable segment of
/// `payload` at `vaddr`, and a second, non-loadable, header.
fn elf_image(entry: u64, vaddr: u64, payload: &[u8]) -> Vec<u8> {
    let mut v = vec![0x7f, b'E', b'L', b'F', 2, 1, 1, 0, 0, 0, 0, 0, 0, 0, 0, 0];
    push16(&mut v, 2); // executable
    push16(&mut v, 0xf3); // RISC-V
    push32(&mut v, 1);
    push64(&mut v, entry);
    push64(&mut v, 64); // program headers right after this header
    push64(&mut v, 0); // no section headers
    push32(&mut v, 0);
    push16(&mut v, 64);
    push16(&mut v, 56);
    push16(&mut v, 2);
    push16(&mut v, 64);
    push16(&mut v, 0);
    push16(&mut v, 0);
    let data_offset = 64 + 2 * 56;
    // PT_LOAD
    push32(&mut v, 1);
    push32(&mut v, 5);
    push64(&mut v, data_offset);
    push64(&mut v, vaddr);
    push64(&mut v, vaddr);
    push64(&mut v, payload.len() as u64);
    push64(&mut v, payload.len() as u64 + 16);
    push64(&mut v, 0x1000);
    // PT_NOTE, not loaded
    push32(&mut v, 4);
    push32(&mut v, 4);
    push64(&mut v, data_offset);
    push64(&mut v, 0);
    push64(&mut v, 0);
    push64(&mut v, 0);
    push64(&mut v, 0);
    push64(&mut v, 4);
    v.extend_from_slice(payload);
    v
}

#[test]
fn segments_of_an_image() {
    let img = elf_image(0x8000_0000, 0x8000_0000, &[1, 2, 3, 4]);
    assert!(is_elf(&img));
    let (entry, segs) = read_program_segments(&img);
    assert_eq!(entry, 0x8000_0000);
    assert_eq!(segs, vec![(176, 0x8000_0000, 4)]);
}

#[test]
fn only_loadable_segments_are_kept() {
    let hs = vec![(1u32, 0u64, 0x100u64, 4u64, 4u64), (4, 8, 0, 0, 0), (1, 16, 0x200, 0, 0), (1, 24, 0x300, 2, 8)];
    assert_eq!(load_segments(&hs), vec![(0, 0x100, 4), (24, 0x300, 2)]);
}

#[test]
fn garbage_is_refused() {
    assert!(!is_elf(&[0u8; 10]));
    assert_eq!(build_memory_from(&[1u8, 2, 3], &[]).err(), Some(LoadError::Elf));
}

#[test]
fn image_is_loaded_behind_the_reset_vector() {
    let img = elf_image(0x8000_0000, 0x8000_0000, &[0x13, 0x05, 0x10, 0x04]);
    let mut mem = build_memory_from(&img, &[0xd0, 0x0d]).expect("loads");
    assert_eq!(mem.read_w(0x8000_0000), 0x04100513);
    assert_eq!(mem.read_w(0x1000), 0x297);
    assert_eq!(mem.read_w(0x1004), 0x2028593);
    assert_eq!(mem.read_w(0x1008), 0xf1402573);
    assert_eq!(mem.read_w(0x100c), 0x0182b283);
    assert_eq!(mem.read_w(0x1010), 0x28067);
    assert_eq!(mem.read_d(0x1018), 0x8000_0000);
    assert_eq!(mem.read_b(0x1020), 0xd0);
    assert_eq!(mem.read_b(0x1021), 0x0d);
    assert_eq!(mem.read_b(0x1022), 0);
}

#[test]
fn segment_outside_memory_is_refused() {
    let img = elf_image(0x4000, 0x4000, &[1, 2, 3, 4]);
    assert_eq!(build_memory_from(&img, &[]).err(), Some(LoadError::BadSegment));
}

#[test]
fn segment_past_end_of_file_is_refused() {
    let mut img = elf_image(0x8000_0000, 0x8000_0000, &[1, 2, 3, 4]);
    img.truncate(img.len() - 2);
    assert_eq!(build_memory_from(&img, &[]).err(), Some(LoadError::BadSegment));
}

#[test]
fn oversized_device_tree_is_refused() {
    let img = elf_image(0x8000_0000, 0x8000_0000, &[1, 2, 3, 4]);
    let dtb = vec![0u8; 2048];
    assert_eq!(build_memory_from(&img, &dtb).err(), Some(LoadError::DtbTooLarge));
}

#[test]
fn reset_vector_words() {
    let mut mem = BlockMemory::new(0);
    mem.add_block(0x1000, 64);
    write_reset_vec(&mut mem, 0x1234_5678_9abc_def0, &[7, 8]);
    assert_eq!(mem.read_w(0x1018), 0x9abc_def0);
    assert_eq!(mem.read_w(0x101c), 0x1234_5678);
    assert_eq!(mem.read_w(0x1014), 0);
    assert_eq!(mem.read_h(0x1020), 0x0807);
}
