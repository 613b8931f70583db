use vstd::prelude::*;

verus! {

/// `x` reduced to 64 bits, as the hardware's modular arithmetic does.
pub open spec fn wrap64(x: int) -> u64 {
    (x % 0x1_0000_0000_0000_0000) as u64
}

/// The bits of `v` read as a two's complement number.
pub open spec fn signed(v: u64) -> int {
    if v >= 0x8000_0000_0000_0000 {
        v - 0x1_0000_0000_0000_0000
    } else {
        v as int
    }
}

/// Casting between `i64` and `u64` keeps the bits: a negative number gains 2^64.
pub proof fn lemma_i64_u64(x: i64, y: u64)
    ensures
        (x as u64) as int == (if x < 0 { x + 0x1_0000_0000_0000_0000 } else { x as int }),
        (y as i64) as int == signed(y),
{
    assert((x as u64) as int == (if x < 0 { x + 0x1_0000_0000_0000_0000 } else { x as int })) by (bit_vector);
    assert((y as i64) as int == (if y >= 0x8000_0000_0000_0000 { y - 0x1_0000_0000_0000_0000 } else { y as int })) by (bit_vector);
}

/// Casting a signed number to `u64` reduces it modulo 2^64.
pub proof fn lemma_i64_as_u64(x: i64)
    ensures
        x as u64 == wrap64(x as int),
{
    lemma_i64_u64(x, 0);
}

/// Casting a `u32` to `i32` keeps the bits.
pub proof fn lemma_u32_i32(x: u32)
    ensures
        (x as i32) as int == (if x >= 0x8000_0000 { x - 0x1_0000_0000 } else { x as int }),
{
    assert((x as i32) as int == (if x >= 0x8000_0000 { x - 0x1_0000_0000 } else { x as int })) by (bit_vector);
}

/// Masking with the low bits bounds a shift amount.
pub proof fn lemma_shift_masks(x: u64, y: u32)
    ensures
        x & 63 <= 63,
        y & 31 <= 31,
{
    assert(x & 63 <= 63 && y & 31 <= 31) by (bit_vector);
}

/// Adds two 64 bit numbers modulo 2^64.
pub fn add_wrap(a: u64, b: u64) -> (r: u64)
    ensures
        r == wrap64(a + b),
{
    a.wrapping_add(b)
}

/// Adds a signed offset to an address modulo 2^64.
pub fn add_offset(base: u64, off: i64) -> (r: u64)
    ensures
        r == wrap64(base + off),
{
    proof {
        lemma_i64_u64(off, 0);
    }
    base.wrapping_add(off as u64)
}

} // verus!
