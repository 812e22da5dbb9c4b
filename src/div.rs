//! Saturating truncating division by unsigned restoring long division.
use crate::arith::{eq24, negate_limbs};
use crate::raw::{
    abs_int, bit, div_sat, is_negative, lemma_raw_bounds, raw_max, raw_min, raw_signed,
    raw_unsigned, raw_zero, sat24, sub_limbs, Int24Raw,
};
use crate::shift::rol8;
use vstd::arithmetic::div_mod::{
    lemma_div_pos_is_pos, lemma_fundamental_div_mod, lemma_fundamental_div_mod_converse,
    lemma_mod_pos_bound,
};
use vstd::arithmetic::power2::{lemma2_to64, lemma_pow2_adds, lemma_pow2_unfold, pow2};
use vstd::prelude::*;

verus! {

/// Four little endian limbs of an unsigned 32 bit number.
pub type Quad = (u8, u8, u8, u8);

/// The four limbs read as an unsigned number.
pub open spec fn quad_value(q: Quad) -> int {
    q.0 + 256 * q.1 + 65536 * q.2 + 16777216 * q.3
}

/// The unsigned magnitude of a signed value. It is exact for the minimum too,
/// since 2^23 fits in 24 unsigned bits.
fn magnitude(a: Int24Raw) -> (m: Int24Raw)
    ensures
        raw_unsigned(m) == abs_int(raw_signed(a)),
{
    if is_negative(a) {
        negate_limbs(a)
    } else {
        a
    }
}

/// Shift four limbs left by one bit; returns the bit shifted out of the top.
fn rol32(q: Quad) -> (r: (Quad, bool))
    ensures
        quad_value(r.0) + 0x1_0000_0000 * bit(r.1) == 2 * quad_value(q),
        r.0.0 % 2 == 0,
{
    let (q0, c0) = rol8(q.0, false);
    let (q1, c1) = rol8(q.1, c0);
    let (q2, c2) = rol8(q.2, c1);
    let (q3, c3) = rol8(q.3, c2);
    ((q0, q1, q2, q3), c3)
}

/// Shift three limbs left by one bit, shifting `cin` into bit 0. The caller
/// keeps the value below 2^23, so nothing is shifted out.
fn rol24(a: Int24Raw, cin: bool) -> (r: Int24Raw)
    requires
        raw_unsigned(a) < 0x80_0000,
    ensures
        raw_unsigned(r) == 2 * raw_unsigned(a) + bit(cin),
{
    let (r0, c0) = rol8(a.0, cin);
    let (r1, c1) = rol8(a.1, c0);
    let (r2, _c2) = rol8(a.2, c1);
    (r0, r1, r2)
}

/// The top bit of the register comes from the unconsumed dividend bits.
proof fn lemma_top_bit(low: int, q: int, ph: int, pi: int)
    requires
        ph >= 1,
        pi >= 1,
        2 * ph * pi == 0x1_0000_0000,
        0 <= low < 2 * ph,
        0 <= q < pi,
    ensures
        (low >= ph) <==> 2 * (low * pi + q) >= 0x1_0000_0000,
        low >= ph ==> 2 * (low * pi + q) - 0x1_0000_0000 == 2 * pi * (low - ph) + 2 * q,
{
    if low >= ph {
        assert(2 * (low * pi + q) >= 0x1_0000_0000) by (nonlinear_arith)
            requires
                low >= ph,
                pi >= 1,
                q >= 0,
                2 * ph * pi == 0x1_0000_0000,
        ;
        assert(2 * (low * pi + q) - 0x1_0000_0000 == 2 * pi * (low - ph) + 2 * q)
            by (nonlinear_arith)
            requires
                2 * ph * pi == 0x1_0000_0000,
        ;
    } else {
        assert(2 * (low * pi + q) < 0x1_0000_0000) by (nonlinear_arith)
            requires
                0 <= low <= ph - 1,
                0 <= q <= pi - 1,
                pi >= 1,
                2 * ph * pi == 0x1_0000_0000,
        ;
    }
}

/// Restoring long division of the 32 bit dividend `n` by `d`, for `rounds`
/// rounds. Each round shifts the dividend/quotient register left, moves the
/// bit shifted out into the partial remainder, and subtracts the divisor
/// where the remainder holds it, recording a one in the quotient; where it
/// does not, the remainder is kept as it was.
///
/// After `rounds` rounds the register holds the `32 - rounds` dividend bits
/// not yet consumed, above the quotient of the consumed top bits.
fn restoring_div(n: Quad, d: Int24Raw, rounds: u8) -> (q: Quad)
    requires
        1 <= raw_unsigned(d) <= 0x80_0000,
        rounds <= 32,
    ensures
        quad_value(q) == (quad_value(n) % (pow2((32 - rounds) as nat) as int)) * pow2(
            rounds as nat,
        ) + (quad_value(n) / (pow2((32 - rounds) as nat) as int)) / raw_unsigned(d),
{
    let ghost nv = quad_value(n);
    let ghost dv = raw_unsigned(d);
    let ghost mut pk: int = 0x1_0000_0000;
    let ghost mut pi: int = 1;
    let ghost mut high: int = 0;
    let ghost mut low: int = nv;

    let mut q = n;
    let mut rem: Int24Raw = (0, 0, 0);
    let mut i: u8 = 0;
    proof {
        lemma2_to64();
    }
    while i < rounds
        invariant
            i <= rounds <= 32,
            1 <= dv <= 0x80_0000,
            dv == raw_unsigned(d),
            nv == quad_value(n),
            pk == pow2((32 - i) as nat),
            pi == pow2(i as nat),
            pk >= 1,
            pi >= 1,
            pk * pi == 0x1_0000_0000,
            nv == high * pk + low,
            0 <= low < pk,
            0 <= high < pi,
            quad_value(q) == low * pi + high / dv,
            raw_unsigned(rem) == high % dv,
        decreases rounds - i,
    {
        let ghost ph: int = pk / 2;
        proof {
            lemma_pow2_unfold((32 - i) as nat);
            lemma_pow2_unfold((i + 1) as nat);
            lemma_pow2_adds((32 - i - 1) as nat, 1);
            lemma2_to64();
            assert(pk == 2 * ph);
            lemma_div_pos_is_pos(high, dv);
            assert(high / dv <= high) by (nonlinear_arith)
                requires
                    high >= 0,
                    dv >= 1,
            ;
            lemma_fundamental_div_mod(high, dv);
            lemma_mod_pos_bound(high, dv);
            lemma_top_bit(low, high / dv, ph, pi);
        }
        let (shifted, top) = rol32(q);
        let grown = rol24(rem, top);
        let (diff, borrow) = sub_limbs(grown, d);
        let ghost low2: int = if top { low - ph } else { low };
        let ghost high2: int = 2 * high + bit(top);
        proof {
            assert(nv == high2 * ph + low2) by (nonlinear_arith)
                requires
                    nv == high * pk + low,
                    pk == 2 * ph,
                    high2 == 2 * high + (if top { 1int } else { 0int }),
                    low2 == if top { low - ph } else { low },
            ;
            assert(quad_value(shifted) == low2 * (2 * pi) + 2 * (high / dv)) by (nonlinear_arith)
                requires
                    quad_value(shifted) + 0x1_0000_0000 * (if top { 1int } else { 0int }) == 2 * (
                    low * pi + high / dv),
                    top ==> 2 * (low * pi + high / dv) - 0x1_0000_0000 == 2 * pi * (low - ph) + 2
                        * (high / dv),
                    low2 == if top { low - ph } else { low },
            ;
            assert(high2 == dv * (2 * (high / dv)) + raw_unsigned(grown)) by (nonlinear_arith)
                requires
                    high == dv * (high / dv) + high % dv,
                    raw_unsigned(grown) == 2 * (high % dv) + (if top { 1int } else { 0int }),
                    high2 == 2 * high + (if top { 1int } else { 0int }),
            ;
            assert(high2 < 2 * pi);
            assert(low2 < ph);
        }
        if !borrow {
            q = (shifted.0 + 1, shifted.1, shifted.2, shifted.3);
            rem = diff;
            proof {
                assert((2 * (high / dv) + 1) * dv == dv * (2 * (high / dv)) + dv)
                    by (nonlinear_arith);
                lemma_fundamental_div_mod_converse(high2, dv, 2 * (high / dv) + 1, raw_unsigned(rem));
            }
        } else {
            q = shifted;
            rem = grown;
            proof {
                lemma_fundamental_div_mod_converse(high2, dv, 2 * (high / dv), raw_unsigned(rem));
            }
        }
        proof {
            assert(ph * (2 * pi) == pk * pi) by (nonlinear_arith)
                requires
                    pk == 2 * ph,
            ;
            pk = ph;
            pi = 2 * pi;
            high = high2;
            low = low2;
        }
        i = i + 1;
    }
    proof {
        lemma_fundamental_div_mod_converse(nv, pk, high, low);
    }
    q
}

/// Applies the quotient's sign and saturates to the 24 bit range.
fn apply_sign(q: Quad, negative: bool) -> (r: Int24Raw)
    ensures
        raw_signed(r) == sat24(if negative { -quad_value(q) } else { quad_value(q) }),
{
    let low: Int24Raw = (q.0, q.1, q.2);
    if negative {
        if q.3 != 0 || q.2 > 0x80 || (q.2 == 0x80 && (q.1 != 0 || q.0 != 0)) {
            raw_min()
        } else {
            negate_limbs(low)
        }
    } else {
        if q.3 != 0 || q.2 >= 0x80 {
            raw_max()
        } else {
            low
        }
    }
}

/// Divides `a`, first shifted left by 8 bits into a wider register when
/// `shl8` is set, by `b`. The result rounds toward zero and saturates.
fn divide(a: Int24Raw, b: Int24Raw, shl8: bool) -> (r: Int24Raw)
    ensures
        raw_signed(r) == div_sat(raw_signed(a) * (if shl8 { 256int } else { 1int }), raw_signed(b)),
{
    proof {
        lemma_raw_bounds(a);
        lemma_raw_bounds(b);
    }
    if eq24(b, raw_zero()) {
        if is_negative(a) {
            return raw_min();
        } else {
            return raw_max();
        }
    }
    if eq24(b, (0xFF, 0xFF, 0xFF)) && eq24(a, raw_min()) {
        return raw_max();
    }
    let negative = is_negative(a) != is_negative(b);
    let ma = magnitude(a);
    let mb = magnitude(b);
    // The dividend's magnitude, shifted left by 8 bits.
    let n: Quad = (0, ma.0, ma.1, ma.2);
    let rounds: u8 = if shl8 {
        32
    } else {
        24
    };
    let q = restoring_div(n, mb, rounds);
    proof {
        lemma2_to64();
        let av = raw_unsigned(ma);
        let dv = raw_unsigned(mb);
        assert(quad_value(n) == 256 * av);
        if shl8 {
            assert(quad_value(n) % 1 == 0);
            assert(quad_value(n) / 1 == quad_value(n));
            assert(quad_value(q) == 256 * av / dv);
        } else {
            lemma_fundamental_div_mod_converse(quad_value(n), 256, av, 0);
            assert(quad_value(q) == av / dv);
        }
    }
    apply_sign(q, negative)
}

/// Truncating division, saturated; division by zero saturates by the
/// dividend's sign.
pub fn div24(a: Int24Raw, b: Int24Raw) -> (r: Int24Raw)
    ensures
        raw_signed(r) == div_sat(raw_signed(a), raw_signed(b)),
{
    divide(a, b, false)
}

/// `(a << 8) / b`, where the left shift is not saturated: it is kept in a
/// 32 bit register. Only the quotient saturates.
pub fn shl24_by8_div24(a: Int24Raw, b: Int24Raw) -> (r: Int24Raw)
    ensures
        raw_signed(r) == div_sat(raw_signed(a) * 256, raw_signed(b)),
{
    divide(a, b, true)
}

} // verus!
