//! Laws that relate the operations of [Int24] to each other, stated over the
//! values their contracts give.
use crate::raw::{clamp, div_sat, sat24, wrap24, MAX, MIN};
use crate::{ordering_of, Int24};
use vstd::arithmetic::power2::{lemma2_to64, pow2};
use vstd::prelude::*;

verus! {

/// Converting a 32 bit integer in and back out clamps it to the 24 bit range:
/// `from_i32(v).to_i32()` is `v` clamped to `[-8388608, 8388607]`.
pub proof fn lemma_i32_round_trip(v: i32)
    ensures
        sat24(v as int) == clamp(v as int, -8388608, 8388607),
{
}

/// Converting a 16 bit integer in and back out is lossless:
/// `from_i16(v).to_i16()` is `v`.
pub proof fn lemma_i16_round_trip(v: i16)
    ensures
        clamp(v as int, -0x8000, 0x7FFF) == v,
{
}

/// Division by zero saturates by the dividend's sign: to the maximum for a
/// dividend that is not negative, to the minimum for a negative one.
pub proof fn lemma_div_by_zero(x: Int24)
    ensures
        x@ >= 0 ==> div_sat(x@, 0) == MAX,
        x@ < 0 ==> div_sat(x@, 0) == MIN,
{
}

/// The whole-byte shifts agree with the bit-by-bit shifts:
/// `shl(x, 8) == shl8(x)`, `shl(x, 16) == shl16(x)`, `shr(x, 8) == shr8(x)`
/// and `shr(x, 16) == shr16(x)`.
pub proof fn lemma_shift_fast_paths(x: Int24)
    ensures
        wrap24(x@ * pow2(8)) == wrap24(x@ * 256),
        wrap24(x@ * pow2(16)) == wrap24(x@ * 65536),
        x@ / (pow2(8) as int) == x@ / 256,
        x@ / (pow2(16) as int) == x@ / 65536,
{
    lemma2_to64();
}

/// Comparison is a strict total order that agrees with the order of the
/// numbers `to_i32` gives: `Equal` exactly for equal values, `Less` and
/// `Greater` swap when the operands do, and `Less` is transitive.
pub proof fn lemma_ordering(a: Int24, b: Int24, c: Int24)
    ensures
        (ordering_of(a@, b@) == core::cmp::Ordering::Equal) <==> a == b,
        (ordering_of(a@, b@) == core::cmp::Ordering::Less) <==> a@ < b@,
        (ordering_of(a@, b@) == core::cmp::Ordering::Greater) <==> a@ > b@,
        (ordering_of(a@, b@) == core::cmp::Ordering::Less) <==> (ordering_of(b@, a@)
            == core::cmp::Ordering::Greater),
        ordering_of(a@, a@) == core::cmp::Ordering::Equal,
        (ordering_of(a@, b@) == core::cmp::Ordering::Less && ordering_of(b@, c@)
            == core::cmp::Ordering::Less) ==> ordering_of(a@, c@) == core::cmp::Ordering::Less,
{
    a.lemma_view_injective(b);
}

} // verus!
