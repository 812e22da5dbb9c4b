//! Bit-by-bit shifts across the three limbs, and the whole-limb fast paths.
use crate::raw::{
    bit, is_negative, lemma_mod_unique, lemma_raw_bounds, raw_negative, raw_signed, raw_unsigned,
    Int24Raw, MODULUS,
};
use vstd::arithmetic::div_mod::{
    lemma_fundamental_div_mod, lemma_fundamental_div_mod_converse, lemma_mul_mod_noop_left,
};
use vstd::arithmetic::power2::{lemma2_to64, lemma_pow2_pos, lemma_pow2_unfold, pow2};
use vstd::prelude::*;

verus! {

proof fn lemma_rol_u8(x: u8, c: u8)
    requires
        c <= 1,
    ensures
        ((x << 1u8) | c) + 256 * (if x >= 0x80 { 1int } else { 0int }) == 2 * x + c,
{
    assert(((x << 1u8) | c) + 256 * (if x >= 0x80 { 1int } else { 0int }) == 2 * x + c)
        by (bit_vector)
        requires
            c <= 1,
    ;
}

proof fn lemma_ror_u8(x: u8, c: u8)
    requires
        c <= 1,
    ensures
        2 * ((x >> 1u8) | (c << 7u8)) + (x & 1) == x + 256 * c,
        x & 1 == x % 2,
{
    assert(2 * ((x >> 1u8) | (c << 7u8)) + (x & 1) == x + 256 * c) by (bit_vector)
        requires
            c <= 1,
    ;
    assert(x & 1 == x % 2) by (bit_vector);
}

/// Shift one limb left by one bit, shifting `cin` into bit 0; returns the bit shifted out.
pub(crate) fn rol8(x: u8, cin: bool) -> (r: (u8, bool))
    ensures
        r.0 + 256 * bit(r.1) == 2 * x + bit(cin),
{
    let c: u8 = if cin {
        1
    } else {
        0
    };
    proof {
        lemma_rol_u8(x, c);
    }
    ((x << 1u8) | c, x >= 0x80)
}

/// Shift one limb right by one bit, shifting `cin` into bit 7; returns the bit shifted out.
pub(crate) fn ror8(x: u8, cin: bool) -> (r: (u8, bool))
    ensures
        2 * r.0 + bit(r.1) == x + 256 * bit(cin),
{
    let c: u8 = if cin {
        1
    } else {
        0
    };
    proof {
        lemma_ror_u8(x, c);
    }
    ((x >> 1u8) | (c << 7u8), x & 1 == 1)
}

/// Shift all limbs left by one bit; the top bit is discarded.
pub fn shl1_24(a: Int24Raw) -> (r: Int24Raw)
    ensures
        raw_unsigned(r) == (2 * raw_unsigned(a)) % (MODULUS as int),
{
    let (r0, c0) = rol8(a.0, false);
    let (r1, c1) = rol8(a.1, c0);
    let (r2, c2) = rol8(a.2, c1);
    proof {
        lemma_mod_unique(2 * raw_unsigned(a), bit(c2), raw_unsigned((r0, r1, r2)));
    }
    (r0, r1, r2)
}

/// Arithmetic shift of all limbs right by one bit: the sign bit is kept.
pub fn shr1_24(a: Int24Raw) -> (r: Int24Raw)
    ensures
        raw_signed(r) == raw_signed(a) / 2,
{
    let (r2, c2) = ror8(a.2, is_negative(a));
    let (r1, c1) = ror8(a.1, c2);
    let (r0, c0) = ror8(a.0, c1);
    let r = (r0, r1, r2);
    assert(2 * raw_signed(r) + bit(c0) == raw_signed(a));
    r
}

/// Left shift by `count` bits, one bit at a time. Does not saturate.
pub fn shl24(a: Int24Raw, count: u8) -> (r: Int24Raw)
    ensures
        raw_unsigned(r) == (raw_unsigned(a) * pow2(count as nat)) % (MODULUS as int),
{
    let mut r = a;
    let mut i: u8 = 0;
    proof {
        lemma_raw_bounds(a);
        lemma2_to64();
        assert(raw_unsigned(a) * pow2(0) == raw_unsigned(a));
        lemma_mod_unique(raw_unsigned(a), 0, raw_unsigned(a));
    }
    while i < count
        invariant
            i <= count,
            raw_unsigned(r) == (raw_unsigned(a) * pow2(i as nat)) % (MODULUS as int),
        decreases count - i,
    {
        r = shl1_24(r);
        proof {
            let x = raw_unsigned(a) * pow2(i as nat);
            lemma_pow2_unfold((i + 1) as nat);
            lemma_mul_mod_noop_left(x, 2, MODULUS as int);
            assert(raw_unsigned(a) * pow2((i + 1) as nat) == x * 2) by (nonlinear_arith)
                requires
                    pow2((i + 1) as nat) == 2 * pow2(i as nat),
                    x == raw_unsigned(a) * pow2(i as nat),
            ;
        }
        i = i + 1;
    }
    r
}

/// Arithmetic right shift by `count` bits, one bit at a time.
pub fn shr24(a: Int24Raw, count: u8) -> (r: Int24Raw)
    ensures
        raw_signed(r) == raw_signed(a) / (pow2(count as nat) as int),
{
    let mut r = a;
    let mut i: u8 = 0;
    proof {
        lemma2_to64();
    }
    while i < count
        invariant
            i <= count,
            raw_signed(r) == raw_signed(a) / (pow2(i as nat) as int),
        decreases count - i,
    {
        r = shr1_24(r);
        proof {
            lemma_pow2_pos(i as nat);
            lemma_pow2_unfold((i + 1) as nat);
            lemma_floor_div_twice(raw_signed(a), pow2(i as nat) as int);
        }
        i = i + 1;
    }
    r
}

/// Floor division by `p`, then by 2, is floor division by `2 * p`.
proof fn lemma_floor_div_twice(x: int, p: int)
    requires
        p > 0,
    ensures
        (x / p) / 2 == x / (p * 2),
{
    let q = x / p;
    let r = x % p;
    lemma_fundamental_div_mod(x, p);
    let q2 = q / 2;
    let r2 = q % 2;
    lemma_fundamental_div_mod(q, 2);
    assert(x == q2 * (p * 2) + (r2 * p + r)) by (nonlinear_arith)
        requires
            x == p * q + r,
            q == 2 * q2 + r2,
    ;
    assert(0 <= r2 * p + r < p * 2) by (nonlinear_arith)
        requires
            0 <= r < p,
            0 <= r2 <= 1,
    ;
    lemma_fundamental_div_mod_converse(x, p * 2, q2, r2 * p + r);
}

/// Floor division of a negative number through its ones' complement.
pub proof fn lemma_floor_div_negative(v: int, p: int)
    requires
        v < 0,
        p > 0,
    ensures
        v / p == -((-v - 1) / p) - 1,
{
    let u = -v - 1;
    lemma_fundamental_div_mod(u, p);
    vstd::arithmetic::div_mod::lemma_mod_pos_bound(u, p);
    let q = u / p;
    let r = u % p;
    assert(v == (-q - 1) * p + (p - r - 1)) by (nonlinear_arith)
        requires
            u == p * q + r,
            v == -u - 1,
    ;
    lemma_fundamental_div_mod_converse(v, p, -q - 1, p - r - 1);
}

/// Shifting a 24 bit value right by 24 or more bits leaves only its sign.
pub proof fn lemma_div_pow2_large(v: int, k: nat)
    requires
        -0x80_0000 <= v < 0x80_0000,
        k >= 24,
    ensures
        v / (pow2(k) as int) == if v < 0 { -1int } else { 0int },
{
    lemma2_to64();
    vstd::arithmetic::power2::lemma_pow2_strictly_increases(23, k);
    if v < 0 {
        lemma_fundamental_div_mod_converse(v, pow2(k) as int, -1, v + pow2(k));
    } else {
        lemma_fundamental_div_mod_converse(v, pow2(k) as int, 0, v);
    }
}

/// Left shift by exactly 8 bits: each limb moves up one place.
pub fn shl24_by8(a: Int24Raw) -> (r: Int24Raw)
    ensures
        raw_unsigned(r) == (raw_unsigned(a) * 256) % (MODULUS as int),
{
    let r = (0u8, a.0, a.1);
    proof {
        lemma_mod_unique(raw_unsigned(a) * 256, a.2 as int, raw_unsigned(r));
    }
    r
}

/// Left shift by exactly 16 bits: the low limb moves to the top.
pub fn shl24_by16(a: Int24Raw) -> (r: Int24Raw)
    ensures
        raw_unsigned(r) == (raw_unsigned(a) * 65536) % (MODULUS as int),
{
    let r = (0u8, 0u8, a.0);
    proof {
        lemma_mod_unique(raw_unsigned(a) * 65536, a.1 + 256 * a.2, raw_unsigned(r));
    }
    r
}

/// The limb that sign extension fills in.
fn sign_fill(a: Int24Raw) -> (f: u8)
    ensures
        f == if raw_negative(a) { 0xFFu8 } else { 0u8 },
{
    if is_negative(a) {
        0xFF
    } else {
        0
    }
}

/// Arithmetic right shift by exactly 8 bits: each limb moves down one place.
pub fn shr24_by8(a: Int24Raw) -> (r: Int24Raw)
    ensures
        raw_signed(r) == raw_signed(a) / 256,
{
    let r = (a.1, a.2, sign_fill(a));
    assert(raw_signed(a) == 256 * raw_signed(r) + a.0);
    r
}

/// Arithmetic right shift by exactly 16 bits: the top limb moves to the bottom.
pub fn shr24_by16(a: Int24Raw) -> (r: Int24Raw)
    ensures
        raw_signed(r) == raw_signed(a) / 65536,
{
    let f = sign_fill(a);
    let r = (a.2, f, f);
    assert(raw_signed(a) == 65536 * raw_signed(r) + a.0 + 256 * a.1);
    r
}

} // verus!
