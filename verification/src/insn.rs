use vstd::prelude::*;
use crate::itypes::{get_bits32, sext, sign_extend};

verus! {

/// The `len` bits of `i` that start at bit `low`.
pub open spec fn get_bits64(i: u64, low: u64, len: u64) -> u64 {
    (i >> low) & (((1u64 << len) - 1) as u64)
}

fn x(i: u64, low: u8, len: u8) -> (r: u64)
    requires
        low < 64,
        len < 64,
    ensures
        r == get_bits64(i, low as u64, len as u64),
{
    proof {
        crate::bitfield::lemma_one_shl_pos(len as u64);
    }
    (i >> (low as u64)) & ((1u64 << (len as u64)) - 1)
}

/// Reading a field of a 32 bit word widened to 64 bits gives the same field.
pub proof fn lemma_get_bits_widen(v: u32, low: u64, len: u64)
    requires
        low < 32,
        len < 32,
    ensures
        get_bits64(v as u64, low, len) == get_bits32(v, low as u32, len as u32),
{
    assert(((v as u64 >> low) & (((1u64 << len) - 1) as u64)) == ((v >> (low as u32)) & (((1u32 << (len as u32)) - 1) as u32)) as u64) by (bit_vector)
        requires
            low < 32,
            len < 32,
    ;
}

/// The jump offset bits of a `jal` instruction word, as the decoder assembles them.
pub open spec fn jimm_bits(i: u64) -> u64 {
    (get_bits64(i, 21, 10) << 1u64) | (get_bits64(i, 20, 1) << 11u64) | (get_bits64(i, 12, 8) << 12u64) | (get_bits64(i, 31, 1) << 20u64)
}

/// Field accessors on a raw instruction word.
pub trait Instruction {
    fn rd(&self) -> usize;

    fn u_imm(&self) -> i64;

    fn i_imm(&self) -> i64;

    fn rs1(&self) -> u32;

    fn rs2(&self) -> u32;

    fn imm12(&self) -> u32;

    fn imm12lo(&self) -> u32;

    fn imm12hi(&self) -> u32;

    fn imm20(&self) -> u32;

    fn bimm12lo(&self) -> u32;

    fn bimm12hi(&self) -> u32;

    fn jimm20(&self) -> i64;

    fn shamt(&self) -> u32;
}

impl Instruction for u32 {
    fn rd(&self) -> (r: usize)
        ensures
            r == get_bits32(*self, 7, 5),
    {
        let v = x(*self as u64, 7, 5);
        proof {
            lemma_get_bits_widen(*self, 7, 5);
        }
        v as usize
    }

    fn rs1(&self) -> (r: u32)
        ensures
            r == get_bits32(*self, 15, 5),
    {
        let v = x(*self as u64, 15, 5);
        proof {
            lemma_get_bits_widen(*self, 15, 5);
        }
        v as u32
    }

    fn rs2(&self) -> (r: u32)
        ensures
            r == get_bits32(*self, 20, 5),
    {
        let v = x(*self as u64, 20, 5);
        proof {
            lemma_get_bits_widen(*self, 20, 5);
        }
        v as u32
    }

    /// The upper twenty bits in place, zero-extended.
    fn u_imm(&self) -> (r: i64)
        ensures
            r == (*self & 0xfffff000u32) as i64,
    {
        let v = *self as i64;
        let r = (v >> 12u64) << 12u64;
        let s = *self;
        assert((((s as i64) >> 12u64) << 12u64) == (s & 0xfffff000u32) as i64) by (bit_vector);
        r
    }

    /// The top twelve bits, zero-extended.
    fn i_imm(&self) -> (r: i64)
        ensures
            r == (*self >> 20u32) as i64,
    {
        let s = *self;
        assert(((s as i64) >> 20u64) == (s >> 20u32) as i64) by (bit_vector);
        (*self as i64) >> 20u64
    }

    fn imm12(&self) -> (r: u32)
        ensures
            r == *self >> 20u32,
    {
        *self >> 20u32
    }

    /// Not decoded: always zero.
    fn imm12lo(&self) -> (r: u32)
        ensures
            r == 0,
    {
        0
    }

    /// Not decoded: always zero.
    fn imm12hi(&self) -> (r: u32)
        ensures
            r == 0,
    {
        0
    }

    fn imm20(&self) -> (r: u32)
        ensures
            r == *self >> 20u32,
    {
        let s = *self;
        assert((((s as i64) >> 20u64) as u32) == s >> 20u32) by (bit_vector);
        ((*self as i64) >> 20u64) as u32
    }

    /// Not decoded: always zero.
    fn bimm12lo(&self) -> (r: u32)
        ensures
            r == 0,
    {
        0
    }

    /// Not decoded: always zero.
    fn bimm12hi(&self) -> (r: u32)
        ensures
            r == 0,
    {
        0
    }

    /// The jump offset of a `jal`, sign-extended from its low twenty bits.
    fn jimm20(&self) -> (r: i64)
        ensures
            r == sext(jimm_bits(*self as u64), 20),
    {
        let s = *self as u64;
        let unsigned: u64 = (x(s, 21, 10) << 1u64) | (x(s, 20, 1) << 11u64) | (x(s, 12, 8) << 12u64) | (x(s, 31, 1) << 20u64);
        sign_extend(unsigned, 20)
    }

    /// The shift amount: the low five bits of the immediate.
    fn shamt(&self) -> (r: u32)
        ensures
            r == (*self >> 20u32) & 0x1f,
    {
        self.imm20() & 0x1f
    }
}

} // verus!
