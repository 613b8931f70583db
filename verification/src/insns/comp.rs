use vstd::prelude::*;
use crate::arith::{wrap64, signed, lemma_i64_u64, lemma_i64_as_u64, lemma_shift_masks, lemma_u32_i32};
use crate::itypes::{Itype, Rtype, FieldRd, FieldRs1, FieldRs2, i_imm, rd_of, rs1_of, rs2_of, lemma_reg_fields};
use crate::memory::Memory;
use vstd::arithmetic::power2::{pow2, lemma2_to64, lemma_pow2_unfold};
use crate::processor::Processor;

verus! {

/// `x` reduced to a 32 bit two's complement number.
pub open spec fn signed32(x: int) -> int {
    if x % 0x1_0000_0000 > 0x7fff_ffff {
        x % 0x1_0000_0000 - 0x1_0000_0000
    } else {
        x % 0x1_0000_0000
    }
}

/// The 64 bit register value of a 32 bit result: `x` reduced to 32 bits and
/// sign-extended.
pub open spec fn sword(x: int) -> u64 {
    wrap64(signed32(x))
}

/// The quotient of `a` by `b`, rounded toward zero.
pub open spec fn trunc_div(a: int, b: int) -> int {
    if a >= 0 && b > 0 {
        a / b
    } else if a < 0 && b < 0 {
        (-a) / (-b)
    } else if a < 0 {
        -((-a) / b)
    } else {
        -(a / (-b))
    }
}

/// The remainder of `a` by `b` when the quotient is rounded toward zero: it has
/// the sign of `a`.
pub open spec fn trunc_rem(a: int, b: int) -> int {
    if a >= 0 && b > 0 {
        a % b
    } else if a < 0 && b < 0 {
        -((-a) % (-b))
    } else if a < 0 {
        -((-a) % b)
    } else {
        a % (-b)
    }
}

/// A quotient rounded toward zero is no larger in size than the dividend.
proof fn lemma_trunc_div_bound(a: int, b: int)
    requires
        b != 0,
    ensures
        -(if a < 0 { -a } else { a }) <= trunc_div(a, b) <= (if a < 0 { -a } else { a }),
        (b > 1 || b < -1) ==> -(if a < 0 { -a } else { a }) <= 2 * trunc_div(a, b) <= (if a < 0 { -a } else { a }),
        (a < 0) == (b < 0) ==> trunc_div(a, b) >= 0,
        (a < 0) != (b < 0) ==> trunc_div(a, b) <= 0,
{
    if a >= 0 && b > 0 {
        assert(0 <= a / b <= a && (b > 1 ==> 2 * (a / b) <= a)) by (nonlinear_arith)
            requires
                a >= 0,
                b > 0,
        ;
    } else if a < 0 && b < 0 {
        assert(0 <= (-a) / (-b) <= -a && (b < -1 ==> 2 * ((-a) / (-b)) <= -a)) by (nonlinear_arith)
            requires
                a < 0,
                b < 0,
        ;
    } else if a < 0 {
        assert(0 <= (-a) / b <= -a && (b > 1 ==> 2 * ((-a) / b) <= -a)) by (nonlinear_arith)
            requires
                a < 0,
                b > 0,
        ;
    } else {
        assert(0 <= a / (-b) <= a && (b < -1 ==> 2 * (a / (-b)) <= a)) by (nonlinear_arith)
            requires
                a >= 0,
                b < 0,
        ;
    }
}

/// A remainder is smaller in size than the divisor.
proof fn lemma_trunc_rem_bound(a: int, b: int)
    requires
        b != 0,
    ensures
        -(if b < 0 { -b } else { b }) < trunc_rem(a, b) < (if b < 0 { -b } else { b }),
        a == 0 ==> trunc_rem(a, b) == 0,
{
    if a == 0 {
        assert(0int % b == 0 && 0int % (-b) == 0) by (nonlinear_arith)
            requires
                b != 0,
        ;
    }
    if a >= 0 && b > 0 {
        assert(0 <= a % b < b) by (nonlinear_arith)
            requires
                b > 0,
        ;
    } else if a < 0 && b < 0 {
        assert(0 <= (-a) % (-b) < -b) by (nonlinear_arith)
            requires
                b < 0,
        ;
    } else if a < 0 {
        assert(0 <= (-a) % b < b) by (nonlinear_arith)
            requires
                b > 0,
        ;
    } else {
        assert(0 <= a % (-b) < -b) by (nonlinear_arith)
            requires
                b < 0,
        ;
    }
}

/// An integer operation on two operands, giving a register value.
pub trait Operation<T> {
    /// The value the operation gives.
    spec fn result(lhs: T, rhs: T) -> u64;

    fn exec(lhs: T, rhs: T) -> (r: u64)
        ensures
            r == Self::result(lhs, rhs),
    ;
}

/// A sign-extended 32 bit value as a register value.
fn sign_extend(i: i32) -> (r: u64)
    ensures
        r == wrap64(i as int),
{
    proof {
        lemma_i64_as_u64(i as i64);
    }
    (i as i64) as u64
}

pub struct Add;

impl Operation<i64> for Add {
    open spec fn result(lhs: i64, rhs: i64) -> u64 {
        wrap64(lhs + rhs)
    }

    fn exec(lhs: i64, rhs: i64) -> (r: u64) {
        proof {
            lemma_i64_u64(lhs, 0);
            lemma_i64_u64(rhs, 0);
        }
        (lhs as u64).wrapping_add(rhs as u64)
    }
}

impl Operation<i32> for Add {
    open spec fn result(lhs: i32, rhs: i32) -> u64 {
        sword(lhs + rhs)
    }

    fn exec(lhs: i32, rhs: i32) -> (r: u64) {
        sign_extend(lhs.wrapping_add(rhs))
    }
}

pub struct Sub;

impl Operation<i64> for Sub {
    open spec fn result(lhs: i64, rhs: i64) -> u64 {
        wrap64(lhs - rhs)
    }

    fn exec(lhs: i64, rhs: i64) -> (r: u64) {
        proof {
            lemma_i64_u64(lhs, 0);
            lemma_i64_u64(rhs, 0);
        }
        (lhs as u64).wrapping_sub(rhs as u64)
    }
}

impl Operation<i32> for Sub {
    open spec fn result(lhs: i32, rhs: i32) -> u64 {
        sword(lhs - rhs)
    }

    fn exec(lhs: i32, rhs: i32) -> (r: u64) {
        sign_extend(lhs.wrapping_sub(rhs))
    }
}

pub struct And;

impl Operation<i64> for And {
    open spec fn result(lhs: i64, rhs: i64) -> u64 {
        (lhs as u64) & (rhs as u64)
    }

    fn exec(lhs: i64, rhs: i64) -> (r: u64) {
        (lhs as u64) & (rhs as u64)
    }
}

pub struct Or;

impl Operation<i64> for Or {
    open spec fn result(lhs: i64, rhs: i64) -> u64 {
        (lhs as u64) | (rhs as u64)
    }

    fn exec(lhs: i64, rhs: i64) -> (r: u64) {
        (lhs as u64) | (rhs as u64)
    }
}

pub struct Xor;

impl Operation<i64> for Xor {
    open spec fn result(lhs: i64, rhs: i64) -> u64 {
        (lhs as u64) ^ (rhs as u64)
    }

    fn exec(lhs: i64, rhs: i64) -> (r: u64) {
        (lhs as u64) ^ (rhs as u64)
    }
}

/// The bitwise operations, bit by bit: bit `k` of an and is set where it is set
/// in both operands, of an or where it is set in either, of an exclusive or
/// where it is set in exactly one. So an exclusive or of a value with itself is
/// 0, with 0 is the value, and a second exclusive or with the same operand
/// gives the first value back.
pub proof fn lemma_bitwise_ops(a: i64, b: i64, k: u64)
    requires
        k < 64,
    ensures
        ((<And as Operation<i64>>::result(a, b) >> k) & 1 == 1) == (((a as u64) >> k) & 1 == 1 && ((b as u64) >> k) & 1 == 1),
        ((<Or as Operation<i64>>::result(a, b) >> k) & 1 == 1) == (((a as u64) >> k) & 1 == 1 || ((b as u64) >> k) & 1 == 1),
        ((<Xor as Operation<i64>>::result(a, b) >> k) & 1 == 1) == ((((a as u64) >> k) & 1 == 1) != (((b as u64) >> k) & 1 == 1)),
        <Xor as Operation<i64>>::result(a, a) == 0,
        <Xor as Operation<i64>>::result(a, 0) == a as u64,
        <Xor as Operation<i64>>::result(<Xor as Operation<i64>>::result(a, b) as i64, b) == a as u64,
{
    let x = a as u64;
    let y = b as u64;
    let r = <Xor as Operation<i64>>::result(a, b);
    assert(r == x ^ y);
    assert({
        &&& (((x & y) >> k) & 1 == 1 <==> ((x >> k) & 1 == 1 && (y >> k) & 1 == 1))
        &&& (((x | y) >> k) & 1 == 1 <==> ((x >> k) & 1 == 1 || (y >> k) & 1 == 1))
        &&& (((x ^ y) >> k) & 1 == 1 <==> (((x >> k) & 1 == 1) != ((y >> k) & 1 == 1)))
        &&& x ^ x == 0
        &&& x ^ 0 == x
        &&& ((((x ^ y) as i64) as u64) ^ y) == x
    }) by (bit_vector)
        requires
            k < 64,
    ;
}

/// Set if less than: 1 when `lhs` is below `rhs`, else 0.
pub struct Slt;

impl Operation<i64> for Slt {
    open spec fn result(lhs: i64, rhs: i64) -> u64 {
        if lhs < rhs { 1 } else { 0 }
    }

    fn exec(lhs: i64, rhs: i64) -> (r: u64) {
        if lhs < rhs { 1 } else { 0 }
    }
}

impl Operation<u64> for Slt {
    open spec fn result(lhs: u64, rhs: u64) -> u64 {
        if lhs < rhs { 1 } else { 0 }
    }

    fn exec(lhs: u64, rhs: u64) -> (r: u64) {
        if lhs < rhs { 1 } else { 0 }
    }
}

/// Shift left logical, by the low six (or, on words, five) bits of `rhs`.
pub struct Sll;

impl Operation<i64> for Sll {
    open spec fn result(lhs: i64, rhs: i64) -> u64 {
        (lhs as u64) << ((rhs as u64) & 63)
    }

    fn exec(lhs: i64, rhs: i64) -> (r: u64) {
        proof {
            lemma_shift_masks(rhs as u64, 0);
        }
        (lhs as u64) << ((rhs as u64) & 63)
    }
}

impl Operation<i32> for Sll {
    open spec fn result(lhs: i32, rhs: i32) -> u64 {
        wrap64((((lhs as u32) << ((rhs as u32) & 31)) as i32) as int)
    }

    fn exec(lhs: i32, rhs: i32) -> (r: u64) {
        proof {
            lemma_shift_masks(0, rhs as u32);
        }
        sign_extend(#[verifier::truncate] (((lhs as u32) << ((rhs as u32) & 31)) as i32))
    }
}

/// Shift right logical, by the low six (or, on words, five) bits of `rhs`.
pub struct Srl;

impl Operation<u64> for Srl {
    open spec fn result(lhs: u64, rhs: u64) -> u64 {
        lhs >> (rhs & 63)
    }

    fn exec(lhs: u64, rhs: u64) -> (r: u64) {
        proof {
            lemma_shift_masks(rhs, 0);
        }
        lhs >> (rhs & 63)
    }
}

impl Operation<u32> for Srl {
    open spec fn result(lhs: u32, rhs: u32) -> u64 {
        wrap64(((lhs >> (rhs & 31)) as i32) as int)
    }

    fn exec(lhs: u32, rhs: u32) -> (r: u64) {
        proof {
            lemma_shift_masks(0, rhs);
        }
        sign_extend(#[verifier::truncate] ((lhs >> (rhs & 31)) as i32))
    }
}

impl Operation<i32> for Srl {
    open spec fn result(lhs: i32, rhs: i32) -> u64 {
        wrap64((((lhs as u32) >> ((rhs as u32) & 31)) as i32) as int)
    }

    fn exec(lhs: i32, rhs: i32) -> (r: u64) {
        proof {
            lemma_shift_masks(0, rhs as u32);
        }
        sign_extend(#[verifier::truncate] (((lhs as u32) >> ((rhs as u32) & 31)) as i32))
    }
}

/// Shift right arithmetic, by the low six (or, on words, five) bits of `rhs`.
pub struct Sra;

impl Operation<i64> for Sra {
    open spec fn result(lhs: i64, rhs: i64) -> u64 {
        wrap64((lhs >> ((rhs as u64) & 63)) as int)
    }

    fn exec(lhs: i64, rhs: i64) -> (r: u64) {
        proof {
            lemma_shift_masks(rhs as u64, 0);
        }
        let v: i64 = lhs >> ((rhs as u64) & 63);
        proof {
            lemma_i64_as_u64(v);
        }
        v as u64
    }
}

impl Operation<i32> for Sra {
    open spec fn result(lhs: i32, rhs: i32) -> u64 {
        wrap64((lhs >> ((rhs as u32) & 31)) as int)
    }

    fn exec(lhs: i32, rhs: i32) -> (r: u64) {
        proof {
            lemma_shift_masks(0, rhs as u32);
        }
        sign_extend(lhs >> ((rhs as u32) & 31))
    }
}

/// Multiplication, low bits of the product.
pub struct Mul;

impl Operation<i64> for Mul {
    open spec fn result(lhs: i64, rhs: i64) -> u64 {
        wrap64(lhs * rhs)
    }

    fn exec(lhs: i64, rhs: i64) -> (r: u64) {
        proof {
            lemma_i64_u64(lhs, 0);
            lemma_i64_u64(rhs, 0);
            let m: int = 0x1_0000_0000_0000_0000;
            assert((lhs as u64) as int == (lhs as int) % m);
            assert((rhs as u64) as int == (rhs as int) % m);
            vstd::arithmetic::div_mod::lemma_mul_mod_noop(lhs as int, rhs as int, m);
        }
        (lhs as u64).wrapping_mul(rhs as u64)
    }
}

impl Operation<i32> for Mul {
    open spec fn result(lhs: i32, rhs: i32) -> u64 {
        sword(lhs * rhs)
    }

    fn exec(lhs: i32, rhs: i32) -> (r: u64) {
        sign_extend(lhs.wrapping_mul(rhs))
    }
}

/// Multiplication, high 64 bits of the 128 bit product.
pub struct Mulh;

impl Operation<i64> for Mulh {
    open spec fn result(lhs: i64, rhs: i64) -> u64 {
        wrap64((lhs * rhs) / 0x1_0000_0000_0000_0000)
    }

    fn exec(lhs: i64, rhs: i64) -> (r: u64) {
        assert(-0x4000_0000_0000_0000_0000_0000_0000_0000 <= lhs * rhs <= 0x4000_0000_0000_0000_0000_0000_0000_0000) by (nonlinear_arith)
            requires
                -0x8000_0000_0000_0000 <= lhs <= 0x7fff_ffff_ffff_ffff,
                -0x8000_0000_0000_0000 <= rhs <= 0x7fff_ffff_ffff_ffff,
        ;
        let prod: i128 = (lhs as i128) * (rhs as i128);
        let q: i128 = prod.checked_div_euclid(0x1_0000_0000_0000_0000i128).unwrap();
        let q: i64 = q as i64;
        proof {
            lemma_i64_as_u64(q);
        }
        q as u64
    }
}

impl Operation<u64> for Mulh {
    open spec fn result(lhs: u64, rhs: u64) -> u64 {
        ((lhs * rhs) / 0x1_0000_0000_0000_0000) as u64
    }

    fn exec(lhs: u64, rhs: u64) -> (r: u64) {
        assert(lhs * rhs <= 0xffff_ffff_ffff_ffff * 0xffff_ffff_ffff_ffff) by (nonlinear_arith)
            requires
                lhs <= 0xffff_ffff_ffff_ffff,
                rhs <= 0xffff_ffff_ffff_ffff,
        ;
        let prod: u128 = (lhs as u128) * (rhs as u128);
        (prod / 0x1_0000_0000_0000_0000u128) as u64
    }
}

/// Division rounded toward zero; by zero it gives all ones, and the one
/// overflowing signed case gives the dividend.
pub struct Div;

impl Operation<i64> for Div {
    open spec fn result(lhs: i64, rhs: i64) -> u64 {
        if rhs == 0 {
            u64::MAX
        } else if lhs == i64::MIN && rhs == -1 {
            wrap64(lhs as int)
        } else {
            wrap64(trunc_div(lhs as int, rhs as int))
        }
    }

    fn exec(lhs: i64, rhs: i64) -> (r: u64) {
        if rhs == 0 {
            return u64::MAX;
        }
        proof {
            lemma_trunc_div_bound(lhs as int, rhs as int);
            lemma_i64_as_u64(lhs);
        }
        let res = lhs.checked_div(rhs);
        assert(lhs == i64::MIN && rhs == -1 ==> res is None);
        assert(!(lhs == i64::MIN && rhs == -1) ==> res == Some(trunc_div(lhs as int, rhs as int) as i64));
        match res {
            Some(q) => {
                proof {
                    lemma_i64_as_u64(q);
                }
                q as u64
            },
            None => lhs as u64,
        }
    }
}

impl Operation<u64> for Div {
    open spec fn result(lhs: u64, rhs: u64) -> u64 {
        if rhs == 0 {
            u64::MAX
        } else {
            lhs / rhs
        }
    }

    fn exec(lhs: u64, rhs: u64) -> (r: u64) {
        if rhs == 0 {
            u64::MAX
        } else {
            lhs / rhs
        }
    }
}

impl Operation<i32> for Div {
    open spec fn result(lhs: i32, rhs: i32) -> u64 {
        if rhs == 0 {
            u64::MAX
        } else if lhs == i32::MIN && rhs == -1 {
            wrap64(lhs as int)
        } else {
            wrap64(trunc_div(lhs as int, rhs as int))
        }
    }

    #[verifier::spinoff_prover]
    fn exec(lhs: i32, rhs: i32) -> (r: u64) {
        if rhs == 0 {
            return u64::MAX;
        }
        proof {
            lemma_trunc_div_bound(lhs as int, rhs as int);
        }
        let res = lhs.checked_div(rhs);
        assert(lhs == i32::MIN && rhs == -1 ==> res is None);
        assert(!(lhs == i32::MIN && rhs == -1) ==> res == Some(trunc_div(lhs as int, rhs as int) as i32));
        match res {
            Some(q) => sign_extend(q),
            None => sign_extend(lhs),
        }
    }
}

impl Operation<u32> for Div {
    open spec fn result(lhs: u32, rhs: u32) -> u64 {
        if rhs == 0 {
            u64::MAX
        } else {
            sword((lhs / rhs) as int)
        }
    }

    fn exec(lhs: u32, rhs: u32) -> (r: u64) {
        if rhs == 0 {
            return u64::MAX;
        }
        proof {
            lemma_u32_i32(lhs / rhs);
        }
        sign_extend(#[verifier::truncate] ((lhs / rhs) as i32))
    }
}

/// Remainder of the division rounded toward zero; by zero it gives the
/// dividend, and the one overflowing signed case gives 0.
pub struct Rem;

impl Operation<i64> for Rem {
    open spec fn result(lhs: i64, rhs: i64) -> u64 {
        if rhs == 0 {
            wrap64(lhs as int)
        } else if lhs == i64::MIN && rhs == -1 {
            0
        } else {
            wrap64(trunc_rem(lhs as int, rhs as int))
        }
    }

    fn exec(lhs: i64, rhs: i64) -> (r: u64) {
        proof {
            lemma_i64_as_u64(lhs);
        }
        if rhs == 0 {
            return lhs as u64;
        }
        proof {
            lemma_trunc_rem_bound(lhs as int, rhs as int);
        }
        assert(i64::MIN <= trunc_rem(lhs as int, rhs as int) <= i64::MAX);
        let res = lhs.checked_rem(rhs);
        assert(lhs == i64::MIN && rhs == -1 ==> res is None);
        assert(!(lhs == i64::MIN && rhs == -1) ==> res == Some(trunc_rem(lhs as int, rhs as int) as i64));
        match res {
            Some(q) => {
                proof {
                    lemma_i64_as_u64(q);
                }
                q as u64
            },
            None => 0,
        }
    }
}

impl Operation<u64> for Rem {
    open spec fn result(lhs: u64, rhs: u64) -> u64 {
        if rhs == 0 {
            lhs
        } else {
            lhs % rhs
        }
    }

    fn exec(lhs: u64, rhs: u64) -> (r: u64) {
        if rhs == 0 {
            lhs
        } else {
            lhs % rhs
        }
    }
}

impl Operation<i32> for Rem {
    open spec fn result(lhs: i32, rhs: i32) -> u64 {
        if rhs == 0 {
            wrap64(lhs as int)
        } else if lhs == i32::MIN && rhs == -1 {
            0
        } else {
            wrap64(trunc_rem(lhs as int, rhs as int))
        }
    }

    fn exec(lhs: i32, rhs: i32) -> (r: u64) {
        if rhs == 0 {
            return sign_extend(lhs);
        }
        proof {
            lemma_trunc_rem_bound(lhs as int, rhs as int);
        }
        let res = lhs.checked_rem(rhs);
        assert(lhs == i32::MIN && rhs == -1 ==> res is None);
        assert(!(lhs == i32::MIN && rhs == -1) ==> res == Some(trunc_rem(lhs as int, rhs as int) as i32));
        match res {
            Some(q) => sign_extend(q),
            None => 0,
        }
    }
}

impl Operation<u32> for Rem {
    open spec fn result(lhs: u32, rhs: u32) -> u64 {
        if rhs == 0 {
            sword(lhs as int)
        } else {
            sword((lhs % rhs) as int)
        }
    }

    fn exec(lhs: u32, rhs: u32) -> (r: u64) {
        proof {
            lemma_u32_i32(lhs);
        }
        if rhs == 0 {
            return sign_extend(#[verifier::truncate] (lhs as i32));
        }
        proof {
            lemma_u32_i32(lhs % rhs);
        }
        sign_extend(#[verifier::truncate] ((lhs % rhs) as i32))
    }
}

/// A quotient rounded toward zero times the divisor, plus the remainder, is
/// the dividend.
proof fn lemma_trunc_div_rem(a: int, b: int)
    requires
        b != 0,
    ensures
        trunc_div(a, b) * b + trunc_rem(a, b) == a,
{
    if a >= 0 && b > 0 {
        vstd::arithmetic::div_mod::lemma_fundamental_div_mod(a, b);
        assert(b * (a / b) == (a / b) * b) by (nonlinear_arith);
    } else if a < 0 && b < 0 {
        vstd::arithmetic::div_mod::lemma_fundamental_div_mod(-a, -b);
        assert((-b) * ((-a) / (-b)) == -(((-a) / (-b)) * b)) by (nonlinear_arith);
    } else if a < 0 {
        vstd::arithmetic::div_mod::lemma_fundamental_div_mod(-a, b);
        assert(b * ((-a) / b) == -((-((-a) / b)) * b)) by (nonlinear_arith);
    } else {
        vstd::arithmetic::div_mod::lemma_fundamental_div_mod(a, -b);
        assert((-b) * (a / (-b)) == (-(a / (-b))) * b) by (nonlinear_arith);
    }
}

/// A 64 bit number in the signed range reads back as itself after wrapping.
proof fn lemma_signed_wrap(x: int)
    requires
        i64::MIN <= x <= i64::MAX,
    ensures
        signed(wrap64(x)) == x,
{
    lemma_i64_u64(x as i64, 0);
    lemma_i64_as_u64(x as i64);
}

/// Signed division and remainder, `div` and `rem`: for a nonzero divisor,
/// apart from the one overflowing case, the quotient and the remainder read
/// as signed numbers put the dividend back together (q * b + r == a), the
/// remainder is smaller in size than the divisor, and it is 0 or has the sign
/// of the dividend (the quotient is rounded toward zero). By zero the quotient
/// is all ones and the remainder is the dividend; i64::MIN by -1 gives
/// i64::MIN and remainder 0.
#[verifier::spinoff_prover]
pub proof fn lemma_signed_div_rem(a: i64, b: i64)
    ensures
        b != 0 && !(a == i64::MIN && b == -1) ==> {
            let q = signed(<Div as Operation<i64>>::result(a, b));
            let r = signed(<Rem as Operation<i64>>::result(a, b));
            &&& q * b + r == a
            &&& (if r < 0 { -r } else { r }) < (if b < 0 { -(b as int) } else { b as int })
            &&& r == 0 || (r < 0) == (a < 0)
        },
        b == 0 ==> <Div as Operation<i64>>::result(a, b) == u64::MAX && <Rem as Operation<i64>>::result(a, b) == a as u64,
        a == i64::MIN && b == -1 ==> <Div as Operation<i64>>::result(a, b) == a as u64 && <Rem as Operation<i64>>::result(a, b) == 0,
{
    lemma_i64_as_u64(a);
    if b != 0 && !(a == i64::MIN && b == -1) {
        lemma_trunc_div_bound(a as int, b as int);
        lemma_trunc_rem_bound(a as int, b as int);
        lemma_trunc_div_rem(a as int, b as int);
        if b == 1 {
            let ai: int = a as int;
            assert(ai / 1 == ai && (-ai) / 1 == -ai) by (nonlinear_arith);
            assert(trunc_div(a as int, 1) == a);
        }
        lemma_signed_wrap(trunc_div(a as int, b as int));
        lemma_signed_wrap(trunc_rem(a as int, b as int));
    }
}

/// Unsigned division and remainder, `divu` and `remu`: for a nonzero divisor
/// the quotient times the divisor plus the remainder is the dividend, and the
/// remainder is below the divisor. By zero the quotient is all ones and the
/// remainder is the dividend.
pub proof fn lemma_unsigned_div_rem(a: u64, b: u64)
    ensures
        b != 0 ==> <Div as Operation<u64>>::result(a, b) * b + <Rem as Operation<u64>>::result(a, b) == a
            && <Rem as Operation<u64>>::result(a, b) < b,
        b == 0 ==> <Div as Operation<u64>>::result(a, b) == u64::MAX && <Rem as Operation<u64>>::result(a, b) == a,
{
    if b != 0 {
        vstd::arithmetic::div_mod::lemma_fundamental_div_mod(a as int, b as int);
        assert(b * (a / b) == (a / b) * b) by (nonlinear_arith);
    }
}

/// Addition and subtraction modulo 2^64: subtraction undoes addition and
/// addition undoes subtraction, addition commutes, adding 0 changes nothing, a
/// number minus itself is 0, and the sum differs from the integer a + b by a
/// multiple of 2^64.
#[verifier::spinoff_prover]
pub proof fn lemma_add_sub(a: i64, b: i64)
    ensures
        <Sub as Operation<i64>>::result(<Add as Operation<i64>>::result(a, b) as i64, b) == a as u64,
        <Add as Operation<i64>>::result(<Sub as Operation<i64>>::result(a, b) as i64, b) == a as u64,
        <Add as Operation<i64>>::result(a, b) == <Add as Operation<i64>>::result(b, a),
        <Add as Operation<i64>>::result(a, 0) == a as u64,
        <Sub as Operation<i64>>::result(a, a) == 0,
        (<Add as Operation<i64>>::result(a, b) - (a + b)) % 0x1_0000_0000_0000_0000 == 0,
{
    let m: int = 0x1_0000_0000_0000_0000;
    let s = <Add as Operation<i64>>::result(a, b);
    let d = <Sub as Operation<i64>>::result(a, b);
    lemma_i64_u64(a, s);
    lemma_i64_u64(b, d);
    lemma_i64_as_u64(a);
    vstd::arithmetic::div_mod::lemma_fundamental_div_mod(a + b, m);
    vstd::arithmetic::div_mod::lemma_fundamental_div_mod(a - b, m);
    let k1: int = -((a + b) / m) - (if s >= 0x8000_0000_0000_0000 { 1int } else { 0int });
    assert(signed(s) - b == m * k1 + a) by (nonlinear_arith)
        requires
            s == a + b - m * ((a + b) / m),
            signed(s) == (if s >= 0x8000_0000_0000_0000 { s - m } else { s as int }),
            k1 == -((a + b) / m) - (if s >= 0x8000_0000_0000_0000 { 1int } else { 0int }),
    ;
    vstd::arithmetic::div_mod::lemma_mod_multiples_vanish(k1, a as int, m);
    let k2: int = (a - b) / m * -1 - (if d >= 0x8000_0000_0000_0000 { 1int } else { 0int });
    assert(signed(d) + b == m * k2 + a) by (nonlinear_arith)
        requires
            d == a - b - m * ((a - b) / m),
            signed(d) == (if d >= 0x8000_0000_0000_0000 { d - m } else { d as int }),
            k2 == (a - b) / m * -1 - (if d >= 0x8000_0000_0000_0000 { 1int } else { 0int }),
    ;
    vstd::arithmetic::div_mod::lemma_mod_multiples_vanish(k2, a as int, m);
    vstd::arithmetic::div_mod::lemma_mod_multiples_vanish(-((a + b) / m), 0, m);
    assert(s - (a + b) == m * (-((a + b) / m)) + 0) by (nonlinear_arith)
        requires
            s == a + b - m * ((a + b) / m),
    ;
}

/// Set-less-than gives 1 or 0 and orders values as the integers do: the
/// signed form by two's complement value, the unsigned form by raw bits. No
/// value is below itself, of two different values exactly one is below the
/// other, the order is transitive, and every value is below the next one up;
/// so nothing is below 0 unsigned, while -1 is below 0 signed.
pub proof fn lemma_set_less_than(a: i64, b: i64, c: i64, x: u64, y: u64, z: u64)
    ensures
        <Slt as Operation<i64>>::result(a, b) == 0 || <Slt as Operation<i64>>::result(a, b) == 1,
        <Slt as Operation<i64>>::result(a, a) == 0,
        a != b ==> <Slt as Operation<i64>>::result(a, b) + <Slt as Operation<i64>>::result(b, a) == 1,
        <Slt as Operation<i64>>::result(a, b) == 1 && <Slt as Operation<i64>>::result(b, c) == 1 ==> <Slt as Operation<i64>>::result(a, c) == 1,
        a != i64::MAX ==> <Slt as Operation<i64>>::result(a, (a + 1) as i64) == 1,
        <Slt as Operation<i64>>::result(-1i64, 0i64) == 1,
        <Slt as Operation<u64>>::result(x, y) == 0 || <Slt as Operation<u64>>::result(x, y) == 1,
        <Slt as Operation<u64>>::result(x, x) == 0,
        x != y ==> <Slt as Operation<u64>>::result(x, y) + <Slt as Operation<u64>>::result(y, x) == 1,
        <Slt as Operation<u64>>::result(x, y) == 1 && <Slt as Operation<u64>>::result(y, z) == 1 ==> <Slt as Operation<u64>>::result(x, z) == 1,
        x != u64::MAX ==> <Slt as Operation<u64>>::result(x, (x + 1) as u64) == 1,
        <Slt as Operation<u64>>::result(x, 0) == 0,
{
}

/// Expanding a product of two differences.
proof fn lemma_product_expand(x: int, y: int, kx: int, ky: int, m: int)
    by (nonlinear_arith)
    ensures
        (x - kx * m) * (y - ky * m) == x * y + m * (-(kx * y + ky * x) + kx * ky * m),
{
}

/// Multiplication: the low half `mul` gives differs from the integer product
/// by a multiple of 2^64, and the high half (`mulh` signed, `mulhu` unsigned)
/// times 2^64 plus the low half is the full product.
#[verifier::spinoff_prover]
pub proof fn lemma_mul_halves(a: i64, b: i64, x: u64, y: u64)
    ensures
        (<Mul as Operation<i64>>::result(a, b) - a * b) % 0x1_0000_0000_0000_0000 == 0,
        signed(<Mulh as Operation<i64>>::result(a, b)) * 0x1_0000_0000_0000_0000 + <Mul as Operation<i64>>::result(a, b) == a * b,
        <Mulh as Operation<u64>>::result(x, y) * 0x1_0000_0000_0000_0000 + <Mul as Operation<i64>>::result(x as i64, y as i64) == x * y,
{
    let m: int = 0x1_0000_0000_0000_0000;
    let p: int = a * b;
    vstd::arithmetic::div_mod::lemma_fundamental_div_mod(p, m);
    vstd::arithmetic::div_mod::lemma_mod_multiples_vanish(-(p / m), 0, m);
    assert(<Mul as Operation<i64>>::result(a, b) - p == m * (-(p / m)) + 0) by (nonlinear_arith)
        requires
            <Mul as Operation<i64>>::result(a, b) == p - m * (p / m),
    ;
    assert(-0x4000_0000_0000_0000_0000_0000_0000_0000 <= p <= 0x4000_0000_0000_0000_0000_0000_0000_0000) by (nonlinear_arith)
        requires
            -0x8000_0000_0000_0000 <= a <= 0x7fff_ffff_ffff_ffff,
            -0x8000_0000_0000_0000 <= b <= 0x7fff_ffff_ffff_ffff,
            p == a * b,
    ;
    assert(-0x8000_0000_0000_0000 <= p / m <= 0x4000_0000_0000_0000) by (nonlinear_arith)
        requires
            -0x4000_0000_0000_0000_0000_0000_0000_0000 <= p <= 0x4000_0000_0000_0000_0000_0000_0000_0000,
            m == 0x1_0000_0000_0000_0000,
    ;
    lemma_signed_wrap(p / m);
    assert(m * (p / m) == (p / m) * m) by (nonlinear_arith);
    // the unsigned product
    lemma_i64_u64(0, x);
    lemma_i64_u64(0, y);
    let sx: int = (x as i64) as int;
    let sy: int = (y as i64) as int;
    let q: int = x * y;
    vstd::arithmetic::div_mod::lemma_fundamental_div_mod(q, m);
    assert(0 <= q <= 0xffff_ffff_ffff_ffff * 0xffff_ffff_ffff_ffff) by (nonlinear_arith)
        requires
            0 <= x <= 0xffff_ffff_ffff_ffff,
            0 <= y <= 0xffff_ffff_ffff_ffff,
            q == x * y,
    ;
    assert(0 <= q / m < m) by (nonlinear_arith)
        requires
            0 <= q <= 0xffff_ffff_ffff_ffff * 0xffff_ffff_ffff_ffff,
            m == 0x1_0000_0000_0000_0000,
    ;
    // x and y read as signed differ from x and y by multiples of 2^64
    let kx: int = if x >= 0x8000_0000_0000_0000 { 1int } else { 0int };
    let ky: int = if y >= 0x8000_0000_0000_0000 { 1int } else { 0int };
    lemma_product_expand(x as int, y as int, kx, ky, m);
    assert(sx * sy == q + m * (-(kx * y + ky * x) + kx * ky * m));
    vstd::arithmetic::div_mod::lemma_mod_multiples_vanish(-(kx * y + ky * x) + kx * ky * m, q, m);
    assert((q / m) * m == m * (q / m)) by (nonlinear_arith);
}

/// A left shift by `s` multiplies by 2^s modulo 2^64.
proof fn lemma_shl_mod(x: u64, s: u64)
    requires
        s < 64,
    ensures
        (x << s) as int == (x * pow2(s as nat)) % 0x1_0000_0000_0000_0000,
    decreases s,
{
    let m: int = 0x1_0000_0000_0000_0000;
    lemma2_to64();
    assert(x << 0u64 == x && (0 < s ==> (x << s) as int == (2 * (x << ((s - 1) as u64))) % 0x1_0000_0000_0000_0000)) by (bit_vector)
        requires
            s < 64,
    ;
    if s == 0 {
        assert(x * pow2(0) == x);
        vstd::arithmetic::div_mod::lemma_small_mod(x as nat, m as nat);
    } else {
        let y = x << ((s - 1) as u64);
        assert((x << s) as int == (2 * y) % m);
        lemma_shl_mod(x, (s - 1) as u64);
        lemma_pow2_unfold(s as nat);
        vstd::arithmetic::div_mod::lemma_mul_mod_noop_right(2, x * pow2((s - 1) as nat), m);
        assert(2 * (x * pow2((s - 1) as nat)) == x * pow2(s as nat)) by (nonlinear_arith)
            requires
                pow2(s as nat) == 2 * pow2((s - 1) as nat),
        ;
    }
}

/// Shifts, by the low six bits of the amount: a left shift by k multiplies by
/// 2^k modulo 2^64; a logical right shift divides by 2^k, rounding down; an
/// arithmetic right shift divides the signed value by 2^k, rounding toward
/// minus infinity (its result q satisfies q * 2^k <= a < (q + 1) * 2^k).
#[verifier::spinoff_prover]
pub proof fn lemma_shifts(a: i64, b: i64, x: u64, y: u64)
    ensures
        <Sll as Operation<i64>>::result(a, b) as int == ((a as u64) * pow2(((b as u64) & 63) as nat)) % 0x1_0000_0000_0000_0000,
        <Srl as Operation<u64>>::result(x, y) == x as nat / pow2((y & 63) as nat),
        ({
            let q = signed(<Sra as Operation<i64>>::result(a, b));
            let d = pow2(((b as u64) & 63) as nat);
            q * d <= a < (q + 1) * d
        }),
{
    let s = (b as u64) & 63;
    lemma_shift_masks(b as u64, 0);
    lemma_shl_mod(a as u64, s);
    lemma_shift_masks(y, 0);
    vstd::bits::lemma_u64_shr_is_div(x, y & 63);
    // the arithmetic shift
    let d: int = pow2(s as nat) as int;
    vstd::arithmetic::power2::lemma_pow2_pos(s as nat);
    let r: i64 = a >> s;
    lemma_i64_as_u64(r);
    lemma_signed_wrap(r as int);
    let t: u64 = if a >= 0 { a as u64 } else { (!a) as u64 };
    assert((a >= 0 ==> t == a && (a >> s) as int == (t >> s) as int) && (a < 0 ==> t == -(a as int) - 1 && (a >> s) as int == -((t
        >> s) as int) - 1)) by (bit_vector)
        requires
            t == (if a >= 0 { a as u64 } else { (!a) as u64 }),
            s < 64,
    ;
    vstd::bits::lemma_u64_shr_is_div(t, s);
    vstd::arithmetic::div_mod::lemma_fundamental_div_mod(t as int, d);
    assert(0 <= (t as int) % d < d) by {
        vstd::arithmetic::div_mod::lemma_mod_bound(t as int, d);
    }
    if a >= 0 {
        assert(r * d <= a < (r + 1) * d) by (nonlinear_arith)
            requires
                t == a,
                r == (t as int) / d,
                t == d * ((t as int) / d) + (t as int) % d,
                0 <= (t as int) % d < d,
        ;
    } else {
        assert(r * d <= a < (r + 1) * d) by (nonlinear_arith)
            requires
                t == -a - 1,
                r == -((t as int) / d) - 1,
                t == d * ((t as int) / d) + (t as int) % d,
                0 <= (t as int) % d < d,
        ;
    }
}

/// Whether `r` is the register value of a 32 bit result congruent to `x`: it
/// is sign-extended from its low word (read as signed it lies in the 32 bit
/// range) and differs from `x` by a multiple of 2^32.
pub open spec fn word_of(r: u64, x: int) -> bool {
    &&& -0x8000_0000 <= signed(r) < 0x8000_0000
    &&& (signed(r) - x) % 0x1_0000_0000 == 0
}

/// A 32 bit result reduced and sign-extended is such a register value.
proof fn lemma_sword(x: int)
    ensures
        word_of(sword(x), x),
        -0x8000_0000 <= x < 0x8000_0000 ==> signed(sword(x)) == x,
{
    let m: int = 0x1_0000_0000;
    vstd::arithmetic::div_mod::lemma_fundamental_div_mod(x, m);
    vstd::arithmetic::div_mod::lemma_mod_bound(x, m);
    lemma_signed_wrap(signed32(x));
    let k: int = -(x / m) - (if x % m > 0x7fff_ffff { 1int } else { 0int });
    assert(signed32(x) - x == m * k + 0) by (nonlinear_arith)
        requires
            x == m * (x / m) + x % m,
            signed32(x) == (if x % m > 0x7fff_ffff { x % m - m } else { x % m }),
            k == -(x / m) - (if x % m > 0x7fff_ffff { 1int } else { 0int }),
    ;
    vstd::arithmetic::div_mod::lemma_mod_multiples_vanish(k, 0, m);
    if -0x8000_0000 <= x < 0x8000_0000 {
        if x >= 0 {
            vstd::arithmetic::div_mod::lemma_small_mod(x as nat, m as nat);
        } else {
            vstd::arithmetic::div_mod::lemma_mod_multiples_vanish(1, x, m);
            vstd::arithmetic::div_mod::lemma_small_mod((x + m) as nat, m as nat);
        }
    }
}

/// The word forms `addw`, `subw` and `mulw`: the result is sign-extended from
/// its low word, which is the sum, difference or product modulo 2^32.
pub proof fn lemma_word_add_sub_mul(a: i32, b: i32)
    ensures
        word_of(<Add as Operation<i32>>::result(a, b), a + b),
        word_of(<Sub as Operation<i32>>::result(a, b), a - b),
        word_of(<Mul as Operation<i32>>::result(a, b), a * b),
{
    lemma_sword(a + b);
    lemma_sword(a - b);
    lemma_sword(a * b);
}

/// The word forms `divw` and `remw`: as for the doubleword forms, on 32 bit
/// values, with results sign-extended from 32 bits. For a nonzero divisor,
/// apart from i32::MIN by -1, q * b + r == a with the remainder smaller in size
/// than the divisor and 0 or of the sign of the dividend; by zero the quotient
/// is all ones and the remainder the dividend; i32::MIN by -1 gives i32::MIN and 0.
#[verifier::spinoff_prover]
pub proof fn lemma_word_signed_div_rem(a: i32, b: i32)
    ensures
        b != 0 && !(a == i32::MIN && b == -1) ==> {
            let q = signed(<Div as Operation<i32>>::result(a, b));
            let r = signed(<Rem as Operation<i32>>::result(a, b));
            &&& -0x8000_0000 <= q < 0x8000_0000
            &&& q * b + r == a
            &&& (if r < 0 { -r } else { r }) < (if b < 0 { -(b as int) } else { b as int })
            &&& r == 0 || (r < 0) == (a < 0)
        },
        b == 0 ==> <Div as Operation<i32>>::result(a, b) == u64::MAX && signed(<Rem as Operation<i32>>::result(a, b)) == a,
        a == i32::MIN && b == -1 ==> signed(<Div as Operation<i32>>::result(a, b)) == a && <Rem as Operation<i32>>::result(a, b) == 0,
{
    lemma_signed_wrap(a as int);
    if b != 0 && !(a == i32::MIN && b == -1) {
        lemma_trunc_div_bound(a as int, b as int);
        lemma_trunc_rem_bound(a as int, b as int);
        lemma_trunc_div_rem(a as int, b as int);
        if b == 1 {
            let ai: int = a as int;
            assert(ai / 1 == ai && (-ai) / 1 == -ai) by (nonlinear_arith);
            assert(trunc_div(a as int, 1) == a);
        }
        lemma_signed_wrap(trunc_div(a as int, b as int));
        lemma_signed_wrap(trunc_rem(a as int, b as int));
    }
}

/// The word forms `divuw` and `remuw`: on the low words read as unsigned, the
/// low word of the quotient times the divisor plus the low word of the
/// remainder is the dividend, the remainder is below the divisor, and both
/// results are sign-extended from their low words. By zero the quotient is all
/// ones and the remainder's low word is the dividend.
pub proof fn lemma_word_unsigned_div_rem(a: u32, b: u32)
    ensures
        b != 0 ==> {
            let q = <Div as Operation<u32>>::result(a, b);
            let r = <Rem as Operation<u32>>::result(a, b);
            &&& word_of(q, (a / b) as int)
            &&& word_of(r, (a % b) as int)
            &&& (a / b) * b + a % b == a
            &&& a % b < b
        },
        b == 0 ==> <Div as Operation<u32>>::result(a, b) == u64::MAX && word_of(<Rem as Operation<u32>>::result(a, b), a as int),
{
    lemma_sword(a as int);
    if b != 0 {
        lemma_sword((a / b) as int);
        lemma_sword((a % b) as int);
        vstd::arithmetic::div_mod::lemma_fundamental_div_mod(a as int, b as int);
        assert(b * (a / b) == (a / b) * b) by (nonlinear_arith);
    }
}

/// A left shift of a word by `s` multiplies by 2^s modulo 2^32.
proof fn lemma_shl32_mod(x: u32, s: u32)
    requires
        s < 32,
    ensures
        (x << s) as int == (x * pow2(s as nat)) % 0x1_0000_0000,
    decreases s,
{
    let m: int = 0x1_0000_0000;
    lemma2_to64();
    assert(x << 0u32 == x && (0 < s ==> (x << s) as int == (2 * (x << ((s - 1) as u32))) % 0x1_0000_0000)) by (bit_vector)
        requires
            s < 32,
    ;
    if s == 0 {
        assert(x * pow2(0) == x);
        vstd::arithmetic::div_mod::lemma_small_mod(x as nat, m as nat);
    } else {
        let y = x << ((s - 1) as u32);
        assert((x << s) as int == (2 * y) % m);
        lemma_shl32_mod(x, (s - 1) as u32);
        lemma_pow2_unfold(s as nat);
        vstd::arithmetic::div_mod::lemma_mul_mod_noop_right(2, x * pow2((s - 1) as nat), m);
        assert(2 * (x * pow2((s - 1) as nat)) == x * pow2(s as nat)) by (nonlinear_arith)
            requires
                pow2(s as nat) == 2 * pow2((s - 1) as nat),
        ;
    }
}

/// A word read as signed and sign-extended is a register value congruent to it.
proof fn lemma_word_bits(v: u32)
    ensures
        word_of(wrap64((v as i32) as int), v as int),
{
    lemma_u32_i32(v);
    lemma_signed_wrap((v as i32) as int);
    let m: int = 0x1_0000_0000;
    if v >= 0x8000_0000 {
        vstd::arithmetic::div_mod::lemma_mod_multiples_vanish(-1, 0, m);
        assert((v as i32) as int - v == m * -1 + 0);
    } else {
        assert((v as i32) as int - v == 0);
    }
}

/// The word shifts, by the low five bits of the amount, with the results
/// sign-extended from their low words: `sllw` multiplies the low word by 2^k
/// modulo 2^32; `srlw` divides the low word, read as unsigned, by 2^k rounding
/// down; `sraw` divides the low word, read as signed, by 2^k rounding toward
/// minus infinity.
#[verifier::spinoff_prover]
pub proof fn lemma_word_shifts(a: i32, b: i32, x: u32, y: u32)
    ensures
        word_of(<Sll as Operation<i32>>::result(a, b), (a as u32) * pow2(((b as u32) & 31) as nat)),
        word_of(<Srl as Operation<u32>>::result(x, y), (x as nat / pow2((y & 31) as nat)) as int),
        word_of(<Srl as Operation<i32>>::result(a, b), ((a as u32) as nat / pow2(((b as u32) & 31) as nat)) as int),
        ({
            let q = signed(<Sra as Operation<i32>>::result(a, b));
            let d = pow2(((b as u32) & 31) as nat);
            q * d <= a < (q + 1) * d
        }),
{
    let m: int = 0x1_0000_0000;
    let s = (b as u32) & 31;
    lemma_shift_masks(0, b as u32);
    lemma_shift_masks(0, y);
    // sllw
    let v = (a as u32) << s;
    lemma_shl32_mod(a as u32, s);
    lemma_word_bits(v);
    vstd::arithmetic::div_mod::lemma_fundamental_div_mod((a as u32) * pow2(s as nat), m);
    vstd::arithmetic::div_mod::lemma_mod_multiples_vanish(-(((a as u32) * pow2(s as nat)) / m), 0, m);
    assert(((a as u32) * pow2(s as nat)) % m - (a as u32) * pow2(s as nat) == m * (-(((a as u32) * pow2(s as nat)) / m)) + 0)
        by (nonlinear_arith)
        requires
            (a as u32) * pow2(s as nat) == m * (((a as u32) * pow2(s as nat)) / m) + ((a as u32) * pow2(s as nat)) % m,
    ;
    assert(word_of(<Sll as Operation<i32>>::result(a, b), (a as u32) * pow2(s as nat))) by {
        let t: int = (a as u32) * pow2(s as nat);
        assert((signed(<Sll as Operation<i32>>::result(a, b)) - v) % m == 0);
        assert((v - t) % m == 0);
        vstd::arithmetic::div_mod::lemma_fundamental_div_mod(signed(<Sll as Operation<i32>>::result(a, b)) - v, m);
        vstd::arithmetic::div_mod::lemma_fundamental_div_mod(v - t, m);
        let k1 = (signed(<Sll as Operation<i32>>::result(a, b)) - v) / m;
        let k2 = (v - t) / m;
        assert(signed(<Sll as Operation<i32>>::result(a, b)) - t == m * (k1 + k2) + 0) by (nonlinear_arith)
            requires
                signed(<Sll as Operation<i32>>::result(a, b)) - v == m * k1 + 0,
                v - t == m * k2 + 0,
        ;
        vstd::arithmetic::div_mod::lemma_mod_multiples_vanish(k1 + k2, 0, m);
    }
    // srlw
    vstd::bits::lemma_u32_shr_is_div(x, y & 31);
    lemma_word_bits(x >> (y & 31));
    vstd::bits::lemma_u32_shr_is_div(a as u32, s);
    lemma_word_bits((a as u32) >> s);
    // sraw
    let d: int = pow2(s as nat) as int;
    vstd::arithmetic::power2::lemma_pow2_pos(s as nat);
    let r: i32 = a >> s;
    lemma_signed_wrap(r as int);
    let t: u32 = if a >= 0 { a as u32 } else { (!a) as u32 };
    assert((a >= 0 ==> t == a && (a >> s) as int == (t >> s) as int) && (a < 0 ==> t == -(a as int) - 1 && (a >> s) as int == -((t
        >> s) as int) - 1)) by (bit_vector)
        requires
            t == (if a >= 0 { a as u32 } else { (!a) as u32 }),
            s < 32,
    ;
    vstd::bits::lemma_u32_shr_is_div(t, s);
    vstd::arithmetic::div_mod::lemma_fundamental_div_mod(t as int, d);
    assert(0 <= (t as int) % d < d) by {
        vstd::arithmetic::div_mod::lemma_mod_bound(t as int, d);
    }
    if a >= 0 {
        assert(r * d <= a < (r + 1) * d) by (nonlinear_arith)
            requires
                t == a,
                r == (t as int) / d,
                t == d * ((t as int) / d) + (t as int) % d,
                0 <= (t as int) % d < d,
        ;
    } else {
        assert(r * d <= a < (r + 1) * d) by (nonlinear_arith)
            requires
                t == -a - 1,
                r == -((t as int) / d) - 1,
                t == d * ((t as int) / d) + (t as int) % d,
                0 <= (t as int) % d < d,
        ;
    }
}

/// The result of `O` on both registers, read as signed.
pub open spec fn reg_value<O: Operation<i64>>(regs: Seq<u64>, insn: u32) -> u64 {
    O::result(regs[rs1_of(insn)] as i64, regs[rs2_of(insn)] as i64)
}

/// The result of `O` on the low words of both registers, read as signed.
pub open spec fn regw_value<O: Operation<i32>>(regs: Seq<u64>, insn: u32) -> u64 {
    O::result((regs[rs1_of(insn)] as i64) as i32, (regs[rs2_of(insn)] as i64) as i32)
}

/// The result of `O` on both registers, read as unsigned.
pub open spec fn regu_value<O: Operation<u64>>(regs: Seq<u64>, insn: u32) -> u64 {
    O::result(regs[rs1_of(insn)], regs[rs2_of(insn)])
}

/// The result of `O` on the low words of both registers, read as unsigned.
pub open spec fn reguw_value<O: Operation<u32>>(regs: Seq<u64>, insn: u32) -> u64 {
    O::result(regs[rs1_of(insn)] as u32, regs[rs2_of(insn)] as u32)
}

/// The result of `O` on rs1 and the immediate, read as signed.
pub open spec fn imm_value<O: Operation<i64>>(regs: Seq<u64>, insn: u32) -> u64 {
    O::result(regs[rs1_of(insn)] as i64, i_imm(insn))
}

/// The result of `O` on the low words of rs1 and the immediate, read as signed.
pub open spec fn immw_value<O: Operation<i32>>(regs: Seq<u64>, insn: u32) -> u64 {
    O::result((regs[rs1_of(insn)] as i64) as i32, i_imm(insn) as i32)
}

/// The result of `O` on rs1 and the sign-extended immediate, read as unsigned.
pub open spec fn immu_value<O: Operation<u64>>(regs: Seq<u64>, insn: u32) -> u64 {
    O::result(regs[rs1_of(insn)], i_imm(insn) as u64)
}

/// The result of `O` on the low words of rs1 and the immediate, read as unsigned.
pub open spec fn immwu_value<O: Operation<u32>>(regs: Seq<u64>, insn: u32) -> u64 {
    O::result(regs[rs1_of(insn)] as u32, i_imm(insn) as u32)
}

/// A register to register operation on 64 bit signed operands: the destination register gets the operation's result.
pub fn reg<M: Memory, O: Operation<i64>>(p: &mut Processor<M>, i: Rtype)
    requires
        old(p).wf(),
    ensures
        final(p).wf(),
        old(p).wrote_reg(
            &*final(p),
            rd_of(i.0),
            reg_value::<O>(old(p).regs@, i.0),
            old(p).next_pc(),
        ),
{
    proof {
        lemma_reg_fields(i.0);
    }
    let lhs: i64 = p.regs.geti(i.rs1() as usize);
    let rhs: i64 = p.regs.geti(i.rs2() as usize);
    let result = O::exec(lhs, rhs);
    p.regs.set(i.rd() as usize, result);
    p.advance_pc();
}

/// A register to register operation on the low 32 bits, signed: the destination register gets the operation's result.
pub fn regw<M: Memory, O: Operation<i32>>(p: &mut Processor<M>, i: Rtype)
    requires
        old(p).wf(),
    ensures
        final(p).wf(),
        old(p).wrote_reg(
            &*final(p),
            rd_of(i.0),
            regw_value::<O>(old(p).regs@, i.0),
            old(p).next_pc(),
        ),
{
    proof {
        lemma_reg_fields(i.0);
    }
    let lhs: i32 = #[verifier::truncate] (p.regs.geti(i.rs1() as usize) as i32);
    let rhs: i32 = #[verifier::truncate] (p.regs.geti(i.rs2() as usize) as i32);
    let result = O::exec(lhs, rhs);
    p.regs.set(i.rd() as usize, result);
    p.advance_pc();
}

/// A register to register operation on 64 bit unsigned operands: the destination register gets the operation's result.
pub fn regu<M: Memory, O: Operation<u64>>(p: &mut Processor<M>, i: Rtype)
    requires
        old(p).wf(),
    ensures
        final(p).wf(),
        old(p).wrote_reg(
            &*final(p),
            rd_of(i.0),
            regu_value::<O>(old(p).regs@, i.0),
            old(p).next_pc(),
        ),
{
    proof {
        lemma_reg_fields(i.0);
    }
    let lhs: u64 = p.regs.get(i.rs1() as usize);
    let rhs: u64 = p.regs.get(i.rs2() as usize);
    let result = O::exec(lhs, rhs);
    p.regs.set(i.rd() as usize, result);
    p.advance_pc();
}

/// A register to register operation on the low 32 bits, unsigned: the destination register gets the operation's result.
pub fn reguw<M: Memory, O: Operation<u32>>(p: &mut Processor<M>, i: Rtype)
    requires
        old(p).wf(),
    ensures
        final(p).wf(),
        old(p).wrote_reg(
            &*final(p),
            rd_of(i.0),
            reguw_value::<O>(old(p).regs@, i.0),
            old(p).next_pc(),
        ),
{
    proof {
        lemma_reg_fields(i.0);
    }
    let lhs: u32 = #[verifier::truncate] (p.regs.get(i.rs1() as usize) as u32);
    let rhs: u32 = #[verifier::truncate] (p.regs.get(i.rs2() as usize) as u32);
    let result = O::exec(lhs, rhs);
    p.regs.set(i.rd() as usize, result);
    p.advance_pc();
}

/// A register and immediate operation on 64 bit signed operands: the destination register gets the operation's result.
pub fn imm<M: Memory, O: Operation<i64>>(p: &mut Processor<M>, i: Itype)
    requires
        old(p).wf(),
    ensures
        final(p).wf(),
        old(p).wrote_reg(
            &*final(p),
            rd_of(i.0),
            imm_value::<O>(old(p).regs@, i.0),
            old(p).next_pc(),
        ),
{
    proof {
        lemma_reg_fields(i.0);
    }
    let lhs: i64 = p.regs.geti(i.rs1() as usize);
    let rhs: i64 = i.imm();
    let result = O::exec(lhs, rhs);
    p.regs.set(i.rd() as usize, result);
    p.advance_pc();
}

/// A register and immediate operation on the low 32 bits, signed: the destination register gets the operation's result.
pub fn immw<M: Memory, O: Operation<i32>>(p: &mut Processor<M>, i: Itype)
    requires
        old(p).wf(),
    ensures
        final(p).wf(),
        old(p).wrote_reg(
            &*final(p),
            rd_of(i.0),
            immw_value::<O>(old(p).regs@, i.0),
            old(p).next_pc(),
        ),
{
    proof {
        lemma_reg_fields(i.0);
    }
    let lhs: i32 = #[verifier::truncate] (p.regs.geti(i.rs1() as usize) as i32);
    let rhs: i32 = #[verifier::truncate] (i.imm() as i32);
    let result = O::exec(lhs, rhs);
    p.regs.set(i.rd() as usize, result);
    p.advance_pc();
}

/// A register and immediate operation on 64 bit unsigned operands; the immediate is sign-extended first: the destination register gets the operation's result.
pub fn immu<M: Memory, O: Operation<u64>>(p: &mut Processor<M>, i: Itype)
    requires
        old(p).wf(),
    ensures
        final(p).wf(),
        old(p).wrote_reg(
            &*final(p),
            rd_of(i.0),
            immu_value::<O>(old(p).regs@, i.0),
            old(p).next_pc(),
        ),
{
    proof {
        lemma_reg_fields(i.0);
    }
    let lhs: u64 = p.regs.get(i.rs1() as usize);
    let rhs: u64 = #[verifier::truncate] (i.imm() as u64);
    let result = O::exec(lhs, rhs);
    p.regs.set(i.rd() as usize, result);
    p.advance_pc();
}

/// A register and immediate operation on the low 32 bits, unsigned: the destination register gets the operation's result.
pub fn immwu<M: Memory, O: Operation<u32>>(p: &mut Processor<M>, i: Itype)
    requires
        old(p).wf(),
    ensures
        final(p).wf(),
        old(p).wrote_reg(
            &*final(p),
            rd_of(i.0),
            immwu_value::<O>(old(p).regs@, i.0),
            old(p).next_pc(),
        ),
{
    proof {
        lemma_reg_fields(i.0);
    }
    let lhs: u32 = #[verifier::truncate] (p.regs.get(i.rs1() as usize) as u32);
    let rhs: u32 = #[verifier::truncate] (i.imm() as u32);
    let result = O::exec(lhs, rhs);
    p.regs.set(i.rd() as usize, result);
    p.advance_pc();
}

} // verus!
