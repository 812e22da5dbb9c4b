//! Saturating multiplication by Booth's sequential shift-and-add method.
use crate::arith::eq24;
use crate::raw::{
    add_limbs, bit, is_negative, lemma_raw_bounds, raw_max, raw_min, raw_signed, raw_unsigned,
    raw_zero, sat24, sub_limbs, Int24Raw, MAX, MIN, MODULUS,
};
use crate::shift::ror8;
use vstd::arithmetic::power2::{lemma2_to64, lemma_pow2_adds, lemma_pow2_unfold, pow2};
use vstd::prelude::*;

verus! {

/// The 48 bit signed number held by a high part `hi` and a low part `lo`.
pub open spec fn wide_value(hi: Int24Raw, lo: Int24Raw) -> int {
    raw_signed(hi) * MODULUS + raw_unsigned(lo)
}

/// The signed reading of the `pk`-bit number `low` whose top bit is `top`.
pub open spec fn signed_low(low: int, top: bool, pk: int) -> int {
    if top {
        low - pk
    } else {
        low
    }
}

/// Arithmetic right shift of the 48 bit pair by one bit; returns the bit shifted out.
fn asr48(hi: Int24Raw, lo: Int24Raw) -> (r: (Int24Raw, Int24Raw, bool))
    ensures
        2 * wide_value(r.0, r.1) + bit(r.2) == wide_value(hi, lo),
        bit(r.2) == lo.0 % 2,
{
    let (h2, c5) = ror8(hi.2, is_negative(hi));
    let (h1, c4) = ror8(hi.1, c5);
    let (h0, c3) = ror8(hi.0, c4);
    let (l2, c2) = ror8(lo.2, c3);
    let (l1, c1) = ror8(lo.1, c2);
    let (l0, c0) = ror8(lo.0, c1);
    ((h0, h1, h2), (l0, l1, l2), c0)
}

/// Whether all limbs are zero.
fn is_zero(a: Int24Raw) -> (z: bool)
    ensures
        z <==> raw_signed(a) == 0,
{
    eq24(a, raw_zero())
}

/// The high part of the accumulator stays in range after each add or subtract.
proof fn lemma_accumulator_bound(a: int, w: int, t: int, ub: int, rr: int, pk: int, qk: int)
    requires
        pk >= 1,
        qk >= 1,
        pk * qk == MODULUS,
        -MAX <= a <= MAX,
        -pk <= w <= pk,
        0 <= ub < MODULUS,
        0 <= rr < qk,
        t * MODULUS + ub == qk * (a * w) + rr,
    ensures
        -MAX <= t <= MAX,
{
    let v = qk * w;
    assert(-(MODULUS as int) <= v <= MODULUS) by (nonlinear_arith)
        requires
            v == qk * w,
            -pk <= w <= pk,
            qk >= 1,
            pk * qk == MODULUS,
    ;
    assert(qk * (a * w) == a * v) by (nonlinear_arith)
        requires
            v == qk * w,
    ;
    assert(-MAX * (MODULUS as int) <= a * v <= MAX * (MODULUS as int)) by (nonlinear_arith)
        requires
            -MAX <= a <= MAX,
            -(MODULUS as int) <= v <= MODULUS,
    ;
    assert(qk <= MODULUS) by (nonlinear_arith)
        requires
            pk >= 1,
            qk >= 1,
            pk * qk == MODULUS,
    ;
}

/// The sign of a product of two nonzero numbers.
proof fn lemma_product_sign(x: int, y: int)
    requires
        x != 0,
        y != 0,
    ensures
        ((x < 0) == (y < 0)) ==> x * y > 0,
        ((x < 0) != (y < 0)) ==> x * y < 0,
{
    assert(((x < 0) == (y < 0)) ==> x * y > 0) by (nonlinear_arith)
        requires
            x != 0,
            y != 0,
    ;
    assert(((x < 0) != (y < 0)) ==> x * y < 0) by (nonlinear_arith)
        requires
            x != 0,
            y != 0,
    ;
}

/// Multiplies and saturates.
///
/// A zero operand gives zero at once. A multiplicand equal to the minimum
/// saturates at once, with the sign taken from the multiplier. Otherwise 24
/// rounds of Booth's method add or subtract the multiplicand into the high part
/// of a 48 bit accumulator, whose low part starts as the multiplier, and shift
/// the pair right by one bit. The expected sign of the product is kept apart
/// and decides how the 48 bit product is saturated.
pub fn mul24(a: Int24Raw, b: Int24Raw) -> (r: Int24Raw)
    ensures
        raw_signed(r) == sat24(raw_signed(a) * raw_signed(b)),
{
    proof {
        lemma_raw_bounds(a);
        lemma_raw_bounds(b);
    }
    if is_zero(a) || is_zero(b) {
        assert(raw_signed(a) * raw_signed(b) == 0) by (nonlinear_arith)
            requires
                raw_signed(a) == 0 || raw_signed(b) == 0,
        ;
        return raw_zero();
    }
    if a.0 == 0 && a.1 == 0 && a.2 == 0x80 {
        proof {
            let y = raw_signed(b);
            let x = raw_signed(a);
            assert(y < 0 ==> x * y > MAX) by (nonlinear_arith)
                requires
                    x == MIN,
            ;
            assert(y > 0 ==> x * y <= MIN) by (nonlinear_arith)
                requires
                    x == MIN,
            ;
        }
        if is_negative(b) {
            return raw_max();
        } else {
            return raw_min();
        }
    }
    let negative_product = is_negative(a) != is_negative(b);

    // Ghost bookkeeping: after `i` rounds the multiplier's bits split into the
    // `low` i bits already consumed (`pk` is 2^i) and the `high` bits not yet
    // consumed. The 48 bit pair holds the multiplicand times the signed
    // reading of `low`, scaled by `qk` (2^(24 - i)), plus `high`.
    let ghost sa = raw_signed(a);
    let ghost m_all = raw_unsigned(b);
    let ghost mut pk: int = 1;
    let ghost mut qk: int = MODULUS as int;
    let ghost mut low: int = 0;
    let ghost mut high: int = m_all;

    let mut hi: Int24Raw = (0, 0, 0);
    let mut lo: Int24Raw = b;
    let mut carry = false;
    let mut i: u8 = 0;
    proof {
        lemma2_to64();
        assert(qk * (sa * signed_low(low, carry, pk)) == 0) by (nonlinear_arith)
            requires
                signed_low(low, carry, pk) == 0,
        ;
    }
    while i < 24
        invariant
            i <= 24,
            -MAX <= sa <= MAX,
            sa == raw_signed(a),
            0 <= m_all < MODULUS,
            m_all == raw_unsigned(b),
            pk == pow2(i as nat),
            qk == pow2((24 - i) as nat),
            pk >= 1,
            qk >= 1,
            pk * qk == MODULUS,
            m_all == high * pk + low,
            0 <= low < pk,
            0 <= high < qk,
            wide_value(hi, lo) == qk * (sa * signed_low(low, carry, pk)) + high,
            i == 0 ==> !carry,
            i > 0 ==> (carry <==> 2 * low >= pk),
        decreases 24 - i,
    {
        let m = lo.0 % 2 == 1;
        let ghost hi_before = hi;
        let ghost qh: int = qk / 2;
        let ghost w: int = signed_low(low, m, pk);
        let ghost t: int = raw_signed(hi) + (if carry { sa } else { 0 }) - (if m { sa } else { 0 });
        proof {
            lemma_pow2_unfold((24 - i) as nat);
            lemma_pow2_adds((24 - i - 1) as nat, 1);
            lemma2_to64();
            assert(qk == 2 * qh);
            let y = sa * signed_low(low, carry, pk);
            let z = qh * y;
            assert(qk * y == 2 * z) by (nonlinear_arith)
                requires
                    z == qh * y,
                    qk == 2 * qh,
            ;
            assert(high % 2 == lo.0 % 2);
            assert(t * MODULUS + raw_unsigned(lo) == qk * (sa * w) + high) by (nonlinear_arith)
                requires
                    t == raw_signed(hi) + (if carry { sa } else { 0 }) - (if m { sa } else { 0 }),
                    w == signed_low(low, m, pk),
                    raw_signed(hi) * MODULUS + raw_unsigned(lo) == qk * (sa * signed_low(
                        low,
                        carry,
                        pk,
                    )) + high,
                    pk * qk == MODULUS,
                    signed_low(low, carry, pk) == if carry { low - pk } else { low },
                    signed_low(low, m, pk) == if m { low - pk } else { low },
            ;
            lemma_accumulator_bound(sa, w, t, raw_unsigned(lo), high, pk, qk);
        }
        if carry {
            let (s, _c) = add_limbs(hi, a);
            hi = s;
        }
        if m {
            let (d, _b) = sub_limbs(hi, a);
            hi = d;
        }
        proof {
            lemma_raw_bounds(hi);
            lemma_raw_bounds(hi_before);
            assert(raw_signed(hi) == t);
        }
        let (h2, l2, out) = asr48(hi, lo);
        hi = h2;
        lo = l2;
        carry = out;
        proof {
            lemma_pow2_unfold((i + 1) as nat);
            let high2 = high / 2;
            assert(high == 2 * high2 + bit(m));
            assert(qk * (sa * w) == 2 * (qh * (sa * w))) by (nonlinear_arith)
                requires
                    qk == 2 * qh,
            ;
            assert(wide_value(hi, lo) == qh * (sa * w) + high2);
            let low2 = if m { low + pk } else { low };
            assert(m_all == high2 * (2 * pk) + low2) by (nonlinear_arith)
                requires
                    m_all == high * pk + low,
                    high == 2 * high2 + (if m { 1int } else { 0int }),
                    low2 == if m { low + pk } else { low },
            ;
            assert(signed_low(low2, carry, 2 * pk) == w);
            assert(0 <= high2 < qh);
            assert((2 * pk) * qh == pk * qk) by (nonlinear_arith)
                requires
                    qk == 2 * qh,
            ;
            pk = 2 * pk;
            qk = qh;
            low = low2;
            high = high2;
        }
        i = i + 1;
    }
    proof {
        lemma2_to64();
        assert(high == 0);
        assert(low == m_all);
        assert(signed_low(low, carry, pk) == raw_signed(b));
        assert(qk * (sa * raw_signed(b)) == sa * raw_signed(b)) by (nonlinear_arith)
            requires
                qk == 1,
        ;
        assert(wide_value(hi, lo) == sa * raw_signed(b));
        lemma_product_sign(sa, raw_signed(b));
        lemma_raw_bounds(hi);
        lemma_raw_bounds(lo);
    }
    if negative_product {
        if !is_negative(lo) || !eq24(hi, (0xFF, 0xFF, 0xFF)) {
            raw_min()
        } else {
            lo
        }
    } else {
        if is_negative(lo) || !is_zero(hi) {
            raw_max()
        } else {
            lo
        }
    }
}

} // verus!
