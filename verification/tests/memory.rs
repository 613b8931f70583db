use risk5::memory::{BlockMemory, ByteMap, Memory};

#[test]
fn rw() {
    let mut m = BlockMemory::new(0);
    m.add_block(0, 10);

    m.write_b(0x0, 0x01);
    m.write_b(0x1, 0x02);
    m.write_b(0x2, 0x03);
    m.write_b(0x3, 0x04);
    m.write_b(0x4, 0x05);
    m.write_b(0x5, 0x06);
    m.write_b(0x6, 0x07);
    m.write_b(0x7, 0x08);
    assert_eq!(m.read_b(0x0), 0x01);
    assert_eq!(m.read_h(0x0), 0x0201);
    assert_eq!(m.read_w(0x0), 0x04030201);
    assert_eq!(m.read_d(0x0), 0x0807060504030201);
}

#[test]
fn it_memory() {
    let mut m = BlockMemory::new(15);
    m.add_block(0x10, 0x5);
    m.add_block(0x20, 0x6);

    // normal bounds
    m.write_b(0x12, 0x1);
    m.write_b(0x22, 0x2);

    assert_eq!(m.read_b(0x12), 0x1);
    assert_eq!(m.read_b(0x22), 0x2);

    // upper bounds
    m.write_b(0x14, 0x3);
    m.write_b(0x25, 0x4);

    assert_eq!(m.read_b(0x14), 0x3);
    assert_eq!(m.read_b(0x25), 0x4);

    // lower bounds
    m.write_b(0x10, 0x5);
    m.write_b(0x20, 0x6);

    assert_eq!(m.read_b(0x10), 0x5);
    assert_eq!(m.read_b(0x20), 0x6);
}

#[test]
fn block_memory_read_after_write_each_width() {
    let mut m = BlockMemory::new(0);
    m.add_block(0x100, 0x40);
    m.write_h(0x100, 0xbeef);
    assert_eq!(m.read_h(0x100), 0xbeef);
    m.write_w(0x108, 0xdead_beef);
    assert_eq!(m.read_w(0x108), 0xdead_beef);
    assert_eq!(m.read_b(0x108), 0xef);
    m.write_d(0x110, 0x0123_4567_89ab_cdef);
    assert_eq!(m.read_d(0x110), 0x0123_4567_89ab_cdef);
    assert_eq!(m.read_w(0x114), 0x0123_4567);
    // the bytes around a write keep their value
    assert_eq!(m.read_b(0x10f), 0);
    assert_eq!(m.read_b(0x118), 0);
}

#[test]
fn block_memory_first_block_serves() {
    let mut m = BlockMemory::new(0);
    m.add_block(0x0, 0x10);
    m.add_block(0x8, 0x10);
    assert!(m.is_mapped(0x17));
    assert!(!m.is_mapped(0x18));
    m.write_b(0x9, 0x42);
    assert_eq!(m.find_block_for(0x9), 0);
    assert_eq!(m.find_block_for(0x12), 1);
    assert_eq!(m.get_block(0).data[9], 0x42);
    assert_eq!(m.get_block(1).data[1], 0);
}

#[test]
fn byte_map_last_write_wins() {
    let mut m = ByteMap::default();
    assert_eq!(m.read_b(0x40), 0);
    m.write_b(0x40, 1);
    m.write_b(0x40, 2);
    assert_eq!(m.read_b(0x40), 2);
    m.write_w(0x80, 0x0403_0201);
    assert_eq!(m.read_w(0x80), 0x0403_0201);
    let data = m.into_data();
    assert_eq!(data.len(), 6);
    let mut p = ByteMap::default().with_persistent(data);
    assert_eq!(p.read_b(0x40), 2);
    assert!(p.did_persistent_load());
    p.write_b(0x40, 7);
    assert_eq!(p.read_b(0x40), 7);
    p.clear();
    assert!(!p.did_persistent_load());
    assert_eq!(p.read_b(0x40), 2);
}
