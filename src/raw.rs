//! The three-limb raw representation, the numbers it stands for, and the
//! 8-bit carry and borrow steps that the arithmetic is built from.
use vstd::arithmetic::div_mod::lemma_fundamental_div_mod_converse;
use vstd::prelude::*;

verus! {

/// Three little endian limbs of a two's complement 24 bit integer.
pub type Int24Raw = (u8, u8, u8);

/// 2^24, the number of distinct raw values.
pub const MODULUS: u32 = 0x100_0000;

/// The largest value an `Int24` holds.
pub const MAX: i32 = 0x7F_FFFF;

/// The smallest value an `Int24` holds.
pub const MIN: i32 = -0x80_0000;

/// A carry or borrow flag as a number.
pub open spec fn bit(c: bool) -> int {
    if c {
        1
    } else {
        0
    }
}

/// The limbs read as an unsigned number.
pub open spec fn raw_unsigned(r: Int24Raw) -> int {
    r.0 + 256 * r.1 + 65536 * r.2
}

/// Whether the sign bit (bit 7 of the top limb) is set.
pub open spec fn raw_negative(r: Int24Raw) -> bool {
    r.2 >= 0x80
}

/// The limbs read as a two's complement signed number.
pub open spec fn raw_signed(r: Int24Raw) -> int {
    if raw_negative(r) {
        raw_unsigned(r) - MODULUS
    } else {
        raw_unsigned(r)
    }
}

/// `x` clamped to `[lo, hi]`.
pub open spec fn clamp(x: int, lo: int, hi: int) -> int {
    if x < lo {
        lo
    } else if x > hi {
        hi
    } else {
        x
    }
}

/// `x` saturated to the signed 24 bit range.
pub open spec fn sat24(x: int) -> int {
    clamp(x, MIN as int, MAX as int)
}

/// The signed 24 bit value that is congruent to `x` modulo 2^24.
pub open spec fn wrap24(x: int) -> int {
    let m = x % (MODULUS as int);
    if m >= 0x80_0000 {
        m - MODULUS
    } else {
        m
    }
}

/// The limbs of a signed number in the 24 bit range.
pub open spec fn raw_of(v: int) -> Int24Raw {
    let u = if v < 0 {
        v + MODULUS
    } else {
        v
    };
    ((u % 256) as u8, ((u / 256) % 256) as u8, (u / 65536) as u8)
}

/// `raw_of` gives back the number it was given.
pub proof fn lemma_raw_of(v: int)
    requires
        MIN <= v <= MAX,
    ensures
        raw_signed(raw_of(v)) == v,
{
    let u = if v < 0 {
        v + MODULUS
    } else {
        v
    };
    assert(0 <= u < MODULUS);
    assert(u == u % 256 + 256 * ((u / 256) % 256) + 65536 * (u / 65536));
}

/// The absolute value of `x`.
pub open spec fn abs_int(x: int) -> int {
    if x < 0 {
        -x
    } else {
        x
    }
}

/// Division that rounds toward zero; `b` is not zero.
pub open spec fn trunc_div(a: int, b: int) -> int {
    let q = abs_int(a) / abs_int(b);
    if (a < 0) != (b < 0) {
        -q
    } else {
        q
    }
}

/// Saturated truncating division. Division by zero gives the maximum for a
/// dividend that is not negative, the minimum otherwise.
pub open spec fn div_sat(a: int, b: int) -> int {
    if b == 0 {
        if a >= 0 {
            MAX as int
        } else {
            MIN as int
        }
    } else {
        sat24(trunc_div(a, b))
    }
}

/// The ranges of the two readings, and how they differ.
pub proof fn lemma_raw_bounds(r: Int24Raw)
    ensures
        0 <= raw_unsigned(r) < MODULUS,
        MIN <= raw_signed(r) <= MAX,
        raw_negative(r) <==> raw_signed(r) < 0,
        raw_unsigned(r) == raw_signed(r) + MODULUS * bit(raw_negative(r)),
{
}

/// Equal unsigned readings mean equal limbs.
pub proof fn lemma_raw_unsigned_injective(a: Int24Raw, b: Int24Raw)
    requires
        raw_unsigned(a) == raw_unsigned(b),
    ensures
        a == b,
{
}

/// Equal signed readings mean equal limbs.
pub proof fn lemma_raw_signed_injective(a: Int24Raw, b: Int24Raw)
    requires
        raw_signed(a) == raw_signed(b),
    ensures
        a == b,
{
    lemma_raw_unsigned_injective(a, b);
}

/// Limbs `r` whose unsigned reading is that of `a` times `k`, modulo 2^24,
/// read as a signed number are `a`'s signed reading times `k`, wrapped.
pub(crate) proof fn lemma_wrap24_unsigned(a: Int24Raw, r: Int24Raw, k: int)
    requires
        raw_unsigned(r) == (raw_unsigned(a) * k) % (MODULUS as int),
    ensures
        raw_signed(r) == wrap24(raw_signed(a) * k),
{
    let m = MODULUS as int;
    let n = if raw_negative(a) { 1int } else { 0int };
    assert(raw_unsigned(a) * k == raw_signed(a) * k + (n * k) * m) by (nonlinear_arith)
        requires
            raw_unsigned(a) == raw_signed(a) + m * n,
    ;
    vstd::arithmetic::div_mod::lemma_mod_multiples_vanish(n * k, raw_signed(a) * k, m);
}

/// Numbers that differ by a multiple of 2^24 wrap to the same value.
pub(crate) proof fn lemma_wrap24_congruent(x: int, y: int, k: int)
    requires
        x == y + k * MODULUS,
    ensures
        wrap24(x) == wrap24(y),
{
    vstd::arithmetic::div_mod::lemma_mod_multiples_vanish(k, y, MODULUS as int);
}

/// A number in range that is congruent to `x` is `x % 2^24`.
pub(crate) proof fn lemma_mod_unique(x: int, k: int, r: int)
    requires
        0 <= r < MODULUS,
        x == k * MODULUS + r,
    ensures
        r == x % (MODULUS as int),
{
    lemma_fundamental_div_mod_converse(x, MODULUS as int, k, r);
}

/// The all-zero limbs.
pub(crate) fn raw_zero() -> (r: Int24Raw)
    ensures
        raw_signed(r) == 0,
{
    (0, 0, 0)
}

/// The limbs of the largest value.
pub(crate) fn raw_max() -> (r: Int24Raw)
    ensures
        raw_signed(r) == MAX,
{
    (0xFF, 0xFF, 0x7F)
}

/// The limbs of the smallest value.
pub(crate) fn raw_min() -> (r: Int24Raw)
    ensures
        raw_signed(r) == MIN,
{
    (0x00, 0x00, 0x80)
}

/// Whether the sign bit is set.
pub(crate) fn is_negative(r: Int24Raw) -> (n: bool)
    ensures
        n == raw_negative(r),
        n == (raw_signed(r) < 0),
{
    r.2 >= 0x80
}

/// One 8-bit add-with-carry step.
pub(crate) fn adc8(a: u8, b: u8, c: bool) -> (r: (u8, bool))
    ensures
        r.0 + 256 * bit(r.1) == a + b + bit(c),
{
    let s: u16 = a as u16 + b as u16 + if c {
        1u16
    } else {
        0u16
    };
    if s >= 256 {
        ((s - 256) as u8, true)
    } else {
        (s as u8, false)
    }
}

/// One 8-bit subtract-with-borrow step.
pub(crate) fn sbc8(a: u8, b: u8, c: bool) -> (r: (u8, bool))
    ensures
        r.0 - 256 * bit(r.1) == a - b - bit(c),
{
    let s: i16 = a as i16 - b as i16 - if c {
        1i16
    } else {
        0i16
    };
    if s < 0 {
        ((s + 256) as u8, true)
    } else {
        (s as u8, false)
    }
}

/// Three chained add-with-carry steps.
pub(crate) fn add_limbs(a: Int24Raw, b: Int24Raw) -> (r: (Int24Raw, bool))
    ensures
        raw_unsigned(r.0) + MODULUS * bit(r.1) == raw_unsigned(a) + raw_unsigned(b),
{
    let (r0, c0) = adc8(a.0, b.0, false);
    let (r1, c1) = adc8(a.1, b.1, c0);
    let (r2, c2) = adc8(a.2, b.2, c1);
    ((r0, r1, r2), c2)
}

/// Three chained subtract-with-borrow steps.
pub(crate) fn sub_limbs(a: Int24Raw, b: Int24Raw) -> (r: (Int24Raw, bool))
    ensures
        raw_unsigned(r.0) - MODULUS * bit(r.1) == raw_unsigned(a) - raw_unsigned(b),
        r.1 <==> raw_unsigned(a) < raw_unsigned(b),
{
    let (r0, c0) = sbc8(a.0, b.0, false);
    let (r1, c1) = sbc8(a.1, b.1, c0);
    let (r2, c2) = sbc8(a.2, b.2, c1);
    ((r0, r1, r2), c2)
}

} // verus!
