use vstd::prelude::*;

pub mod block;
pub mod bytemap;

pub use self::block::BlockMemory;
pub use self::bytemap::ByteMap;

verus! {

/// Byte `k` (counted from the least significant) of `v`.
pub open spec fn byte_of(v: u64, k: u64) -> u8 {
    ((v >> (8 * k)) & 0xff) as u8
}

/// Two bytes put together, least significant first.
pub open spec fn le16(b0: u8, b1: u8) -> u16 {
    (b0 as u16) | ((b1 as u16) << 8u16)
}

/// Four bytes put together, least significant first.
pub open spec fn le32(b0: u8, b1: u8, b2: u8, b3: u8) -> u32 {
    (b0 as u32) | ((b1 as u32) << 8u32) | ((b2 as u32) << 16u32) | ((b3 as u32) << 24u32)
}

/// Eight bytes put together, least significant first.
pub open spec fn le64(b0: u8, b1: u8, b2: u8, b3: u8, b4: u8, b5: u8, b6: u8, b7: u8) -> u64 {
    (b0 as u64) | ((b1 as u64) << 8u64) | ((b2 as u64) << 16u64) | ((b3 as u64) << 24u64) | ((
    b4 as u64) << 32u64) | ((b5 as u64) << 40u64) | ((b6 as u64) << 48u64) | ((b7 as u64)
        << 56u64)
}

/// The `n` bytes at `offset` are all served, and the range does not wrap around.
pub open spec fn range_mapped<M: Memory>(m: &M, offset: u64, n: u64) -> bool {
    &&& offset + n <= u64::MAX + 1
    &&& forall|k: u64| k < n ==> #[trigger] m.mapped((offset + k) as u64)
}

/// `after` holds what `before` held.
pub open spec fn unchanged<M: Memory>(before: &M, after: &M) -> bool {
    &&& after.inv()
    &&& forall|x: u64| #[trigger] after.mapped(x) == before.mapped(x)
    &&& forall|x: u64| #[trigger] after.byte(x) == before.byte(x)
}

/// `after` holds what `before` held, but for the `n` bytes at `offset`,
/// which hold the bytes of `value`, least significant first.
pub open spec fn stored<M: Memory>(before: &M, after: &M, offset: u64, n: u64, value: u64) -> bool {
    &&& after.inv()
    &&& forall|x: u64| #[trigger] after.mapped(x) == before.mapped(x)
    &&& forall|x: u64| #[trigger]
        after.byte(x) == if offset <= x < offset + n {
            byte_of(value, (x - offset) as u64)
        } else {
            before.byte(x)
        }
}

/// The `n` bytes (1, 2, 4 or 8) at `pa`, little-endian.
pub open spec fn mem_value<M: Memory>(mem: &M, pa: u64, n: u64) -> u64 {
    if n == 1 {
        mem.byte(pa) as u64
    } else if n == 2 {
        le16(mem.byte(pa), mem.byte((pa + 1) as u64)) as u64
    } else if n == 4 {
        le32(mem.byte(pa), mem.byte((pa + 1) as u64), mem.byte((pa + 2) as u64), mem.byte((pa + 3) as u64)) as u64
    } else {
        le64(mem.byte(pa), mem.byte((pa + 1) as u64), mem.byte((pa + 2) as u64), mem.byte((pa + 3) as u64),
            mem.byte((pa + 4) as u64), mem.byte((pa + 5) as u64), mem.byte((pa + 6) as u64), mem.byte((pa + 7) as u64))
    }
}

/// The `n` low bytes of `v`.
pub open spec fn low_bytes(v: u64, n: u64) -> u64 {
    if n == 1 {
        (v as u8) as u64
    } else if n == 2 {
        (v as u16) as u64
    } else if n == 4 {
        (v as u32) as u64
    } else {
        v
    }
}

/// A value put down as its little-endian bytes is read back as itself, cut to
/// the width read.
pub proof fn lemma_le_bytes(v: u64)
    ensures
        le16(byte_of(v, 0), byte_of(v, 1)) == v as u16,
        le32(byte_of(v, 0), byte_of(v, 1), byte_of(v, 2), byte_of(v, 3)) == v as u32,
        le64(byte_of(v, 0), byte_of(v, 1), byte_of(v, 2), byte_of(v, 3), byte_of(v, 4), byte_of(v, 5), byte_of(v, 6), byte_of(v, 7)) == v,
{
    assert(((((v >> 0u64) & 0xff) as u8) as u16 | (((((v >> 8u64) & 0xff) as u8) as u16) << 8u16)) == v as u16) by (bit_vector);
    assert(((((v >> 0u64) & 0xff) as u8) as u32 | (((((v >> 8u64) & 0xff) as u8) as u32) << 8u32) | (((((v >> 16u64) & 0xff) as u8) as u32) << 16u32) | (((((v >> 24u64) & 0xff) as u8) as u32) << 24u32)) == v as u32) by (bit_vector);
    assert(((((v >> 0u64) & 0xff) as u8) as u64 | (((((v >> 8u64) & 0xff) as u8) as u64) << 8u64) | (((((v >> 16u64) & 0xff) as u8) as u64) << 16u64) | (((((v >> 24u64) & 0xff) as u8) as u64) << 24u64) | (((((v >> 32u64) & 0xff) as u8) as u64) << 32u64) | (((((v >> 40u64) & 0xff) as u8) as u64) << 40u64) | (((((v >> 48u64) & 0xff) as u8) as u64) << 48u64) | (((((v >> 56u64) & 0xff) as u8) as u64) << 56u64)) == v) by (bit_vector);
    assert(byte_of(v, 0) == ((v >> 0u64) & 0xff) as u8);
    assert(byte_of(v, 1) == ((v >> 8u64) & 0xff) as u8);
    assert(byte_of(v, 2) == ((v >> 16u64) & 0xff) as u8);
    assert(byte_of(v, 3) == ((v >> 24u64) & 0xff) as u8);
    assert(byte_of(v, 4) == ((v >> 32u64) & 0xff) as u8);
    assert(byte_of(v, 5) == ((v >> 40u64) & 0xff) as u8);
    assert(byte_of(v, 6) == ((v >> 48u64) & 0xff) as u8);
    assert(byte_of(v, 7) == ((v >> 56u64) & 0xff) as u8);
}

/// A read of the width of a write, at the offset of the write, gives back the
/// value written, cut to that width; a read elsewhere gives what was there.
pub proof fn lemma_read_after_write<M: Memory>(before: &M, after: &M, offset: u64, n: u64, v: u64, x: u64)
    requires
        stored(before, after, offset, n, v),
        n == 1 || n == 2 || n == 4 || n == 8,
        offset + n <= u64::MAX + 1,
    ensures
        mem_value(after, offset, n) == low_bytes(v, n),
        !(offset <= x < offset + n) ==> after.byte(x) == before.byte(x),
{
    lemma_le_bytes(v);
    assert(after.byte(offset) == byte_of(v, 0));
    if n >= 2 {
        assert(after.byte((offset + 1) as u64) == byte_of(v, 1));
    }
    if n >= 4 {
        assert(after.byte((offset + 2) as u64) == byte_of(v, 2));
        assert(after.byte((offset + 3) as u64) == byte_of(v, 3));
    }
    if n == 8 {
        assert(after.byte((offset + 4) as u64) == byte_of(v, 4));
        assert(after.byte((offset + 5) as u64) == byte_of(v, 5));
        assert(after.byte((offset + 6) as u64) == byte_of(v, 6));
        assert(after.byte((offset + 7) as u64) == byte_of(v, 7));
    }
    if n == 1 {
        assert(byte_of(v, 0) as u64 == (v as u8) as u64) by (bit_vector);
    }
}

/// A byte written as a whole is read back as itself.
pub proof fn lemma_byte_of_u8(b: u8)
    ensures
        byte_of(b as u64, 0) == b,
{
    assert(byte_of(b as u64, 0) == b) by (bit_vector);
}

/// A byte-addressed memory.
pub trait Memory: Sized {
    /// The memory is well formed.
    spec fn inv(&self) -> bool;

    /// Whether an access to the byte at `addr` is served.
    spec fn mapped(&self, addr: u64) -> bool;

    /// The byte a read at `addr` gives.
    spec fn byte(&self, addr: u64) -> u8;

    /// Whether an access to the byte at `offset` is served.
    fn is_mapped(&self, offset: u64) -> (r: bool)
        requires
            self.inv(),
        ensures
            r == self.mapped(offset),
    ;

    fn read_b(&mut self, offset: u64) -> (r: u8)
        requires
            old(self).inv(),
            old(self).mapped(offset),
        ensures
            final(self).inv(),
            forall|x: u64| #[trigger] final(self).mapped(x) == old(self).mapped(x),
            forall|x: u64| #[trigger] final(self).byte(x) == old(self).byte(x),
            r == old(self).byte(offset),
    ;

    fn write_b(&mut self, offset: u64, value: u8)
        requires
            old(self).inv(),
            old(self).mapped(offset),
        ensures
            final(self).inv(),
            forall|x: u64| #[trigger] final(self).mapped(x) == old(self).mapped(x),
            forall|x: u64| #[trigger]
                final(self).byte(x) == if offset <= x < offset + 1 {
                    byte_of(value as u64, (x - offset) as u64)
                } else {
                    old(self).byte(x)
                },
    ;

    fn write_h(&mut self, offset: u64, value: u16)
        requires
            old(self).inv(),
            offset + 2 <= u64::MAX + 1,
            forall|k: u64| k < 2 ==> #[trigger] old(self).mapped((offset + k) as u64),
        ensures
            final(self).inv(),
            forall|x: u64| #[trigger] final(self).mapped(x) == old(self).mapped(x),
            forall|x: u64| #[trigger]
                final(self).byte(x) == if offset <= x < offset + 2 {
                    byte_of(value as u64, (x - offset) as u64)
                } else {
                    old(self).byte(x)
                },
    {
        assert(old(self).mapped((offset + 0) as u64));
        assert(old(self).mapped((offset + 1) as u64));
        let ghost s0 = *self;
        proof {
            lemma_byte_of_u8(value as u8);
            lemma_byte_of_u8((value >> 8u16) as u8);
        }
        self.write_b(offset, value as u8);
        self.write_b(offset + 1, (value >> 8u16) as u8);
        let v = value;
        assert(byte_of(v as u64, 0) == v as u8 && byte_of(v as u64, 1) == (v >> 8u16) as u8) by (bit_vector);
        assert forall|x: u64| #[trigger]
            self.byte(x) == if offset <= x < offset + 2 {
                byte_of(v as u64, (x - offset) as u64)
            } else {
                s0.byte(x)
            } by {
            if x == offset {
            } else if x == offset + 1 {
            }
        }
    }

    fn write_w(&mut self, offset: u64, value: u32)
        requires
            old(self).inv(),
            offset + 4 <= u64::MAX + 1,
            forall|k: u64| k < 4 ==> #[trigger] old(self).mapped((offset + k) as u64),
        ensures
            final(self).inv(),
            forall|x: u64| #[trigger] final(self).mapped(x) == old(self).mapped(x),
            forall|x: u64| #[trigger]
                final(self).byte(x) == if offset <= x < offset + 4 {
                    byte_of(value as u64, (x - offset) as u64)
                } else {
                    old(self).byte(x)
                },
    {
        assert(old(self).mapped((offset + 0) as u64));
        assert(old(self).mapped((offset + 1) as u64));
        assert(old(self).mapped((offset + 2) as u64));
        assert(old(self).mapped((offset + 3) as u64));
        let ghost s0 = *self;
        proof {
            lemma_byte_of_u8(value as u8);
            lemma_byte_of_u8((value >> 8u32) as u8);
            lemma_byte_of_u8((value >> 16u32) as u8);
            lemma_byte_of_u8((value >> 24u32) as u8);
        }
        self.write_b(offset, value as u8);
        self.write_b(offset + 1, (value >> 8u32) as u8);
        self.write_b(offset + 2, (value >> 16u32) as u8);
        self.write_b(offset + 3, (value >> 24u32) as u8);
        let v = value;
        assert(byte_of(v as u64, 0) == v as u8 && byte_of(v as u64, 1) == (v >> 8u32) as u8
            && byte_of(v as u64, 2) == (v >> 16u32) as u8 && byte_of(v as u64, 3) == (v
            >> 24u32) as u8) by (bit_vector);
        assert forall|x: u64| #[trigger]
            self.byte(x) == if offset <= x < offset + 4 {
                byte_of(v as u64, (x - offset) as u64)
            } else {
                s0.byte(x)
            } by {
            if x == offset {
            } else if x == offset + 1 {
            } else if x == offset + 2 {
            } else if x == offset + 3 {
            }
        }
    }

    fn write_d(&mut self, offset: u64, value: u64)
        requires
            old(self).inv(),
            offset + 8 <= u64::MAX + 1,
            forall|k: u64| k < 8 ==> #[trigger] old(self).mapped((offset + k) as u64),
        ensures
            final(self).inv(),
            forall|x: u64| #[trigger] final(self).mapped(x) == old(self).mapped(x),
            forall|x: u64| #[trigger]
                final(self).byte(x) == if offset <= x < offset + 8 {
                    byte_of(value, (x - offset) as u64)
                } else {
                    old(self).byte(x)
                },
    {
        assert(old(self).mapped((offset + 0) as u64));
        assert(old(self).mapped((offset + 1) as u64));
        assert(old(self).mapped((offset + 2) as u64));
        assert(old(self).mapped((offset + 3) as u64));
        assert(old(self).mapped((offset + 4) as u64));
        assert(old(self).mapped((offset + 5) as u64));
        assert(old(self).mapped((offset + 6) as u64));
        assert(old(self).mapped((offset + 7) as u64));
        let ghost s0 = *self;
        proof {
            lemma_byte_of_u8(value as u8);
            lemma_byte_of_u8((value >> 8u64) as u8);
            lemma_byte_of_u8((value >> 16u64) as u8);
            lemma_byte_of_u8((value >> 24u64) as u8);
            lemma_byte_of_u8((value >> 32u64) as u8);
            lemma_byte_of_u8((value >> 40u64) as u8);
            lemma_byte_of_u8((value >> 48u64) as u8);
            lemma_byte_of_u8((value >> 56u64) as u8);
        }
        self.write_b(offset, value as u8);
        self.write_b(offset + 1, (value >> 8u64) as u8);
        self.write_b(offset + 2, (value >> 16u64) as u8);
        self.write_b(offset + 3, (value >> 24u64) as u8);
        self.write_b(offset + 4, (value >> 32u64) as u8);
        self.write_b(offset + 5, (value >> 40u64) as u8);
        self.write_b(offset + 6, (value >> 48u64) as u8);
        self.write_b(offset + 7, (value >> 56u64) as u8);
        let v = value;
        assert(byte_of(v, 0) == v as u8 && byte_of(v, 1) == (v >> 8u64) as u8 && byte_of(v, 2)
            == (v >> 16u64) as u8 && byte_of(v, 3) == (v >> 24u64) as u8 && byte_of(v, 4) == (v
            >> 32u64) as u8 && byte_of(v, 5) == (v >> 40u64) as u8 && byte_of(v, 6) == (v
            >> 48u64) as u8 && byte_of(v, 7) == (v >> 56u64) as u8) by (bit_vector);
        assert forall|x: u64| #[trigger]
            self.byte(x) == if offset <= x < offset + 8 {
                byte_of(v, (x - offset) as u64)
            } else {
                s0.byte(x)
            } by {
            if x == offset {
            } else if x == offset + 1 {
            } else if x == offset + 2 {
            } else if x == offset + 3 {
            } else if x == offset + 4 {
            } else if x == offset + 5 {
            } else if x == offset + 6 {
            } else if x == offset + 7 {
            }
        }
    }

    fn read_h(&mut self, offset: u64) -> (r: u16)
        requires
            old(self).inv(),
            offset + 2 <= u64::MAX + 1,
            forall|k: u64| k < 2 ==> #[trigger] old(self).mapped((offset + k) as u64),
        ensures
            final(self).inv(),
            forall|x: u64| #[trigger] final(self).mapped(x) == old(self).mapped(x),
            forall|x: u64| #[trigger] final(self).byte(x) == old(self).byte(x),
            r == le16(old(self).byte(offset), old(self).byte((offset + 1) as u64)),
    {
        assert(old(self).mapped((offset + 0) as u64));
        assert(old(self).mapped((offset + 1) as u64));
        let mut n = self.read_b(offset) as u16;
        n = n | ((self.read_b(offset + 1) as u16) << 8u16);
        n
    }

    fn read_w(&mut self, offset: u64) -> (r: u32)
        requires
            old(self).inv(),
            offset + 4 <= u64::MAX + 1,
            forall|k: u64| k < 4 ==> #[trigger] old(self).mapped((offset + k) as u64),
        ensures
            final(self).inv(),
            forall|x: u64| #[trigger] final(self).mapped(x) == old(self).mapped(x),
            forall|x: u64| #[trigger] final(self).byte(x) == old(self).byte(x),
            r == le32(
                old(self).byte(offset),
                old(self).byte((offset + 1) as u64),
                old(self).byte((offset + 2) as u64),
                old(self).byte((offset + 3) as u64),
            ),
    {
        assert(old(self).mapped((offset + 0) as u64));
        assert(old(self).mapped((offset + 1) as u64));
        assert(old(self).mapped((offset + 2) as u64));
        assert(old(self).mapped((offset + 3) as u64));
        let mut n = self.read_b(offset) as u32;
        n = n | ((self.read_b(offset + 1) as u32) << 8u32);
        n = n | ((self.read_b(offset + 2) as u32) << 16u32);
        n = n | ((self.read_b(offset + 3) as u32) << 24u32);
        n
    }

    fn read_d(&mut self, offset: u64) -> (r: u64)
        requires
            old(self).inv(),
            offset + 8 <= u64::MAX + 1,
            forall|k: u64| k < 8 ==> #[trigger] old(self).mapped((offset + k) as u64),
        ensures
            final(self).inv(),
            forall|x: u64| #[trigger] final(self).mapped(x) == old(self).mapped(x),
            forall|x: u64| #[trigger] final(self).byte(x) == old(self).byte(x),
            r == le64(
                old(self).byte(offset),
                old(self).byte((offset + 1) as u64),
                old(self).byte((offset + 2) as u64),
                old(self).byte((offset + 3) as u64),
                old(self).byte((offset + 4) as u64),
                old(self).byte((offset + 5) as u64),
                old(self).byte((offset + 6) as u64),
                old(self).byte((offset + 7) as u64),
            ),
    {
        assert(old(self).mapped((offset + 0) as u64));
        assert(old(self).mapped((offset + 1) as u64));
        assert(old(self).mapped((offset + 2) as u64));
        assert(old(self).mapped((offset + 3) as u64));
        assert(old(self).mapped((offset + 4) as u64));
        assert(old(self).mapped((offset + 5) as u64));
        assert(old(self).mapped((offset + 6) as u64));
        assert(old(self).mapped((offset + 7) as u64));
        let mut n = self.read_b(offset) as u64;
        n = n | ((self.read_b(offset + 1) as u64) << 8u64);
        n = n | ((self.read_b(offset + 2) as u64) << 16u64);
        n = n | ((self.read_b(offset + 3) as u64) << 24u64);
        n = n | ((self.read_b(offset + 4) as u64) << 32u64);
        n = n | ((self.read_b(offset + 5) as u64) << 40u64);
        n = n | ((self.read_b(offset + 6) as u64) << 48u64);
        n = n | ((self.read_b(offset + 7) as u64) << 56u64);
        n
    }
}

} // verus!
