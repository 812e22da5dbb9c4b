//! Saturating add, subtract, negate and absolute value on raw limbs,
//! and the limb-wise comparisons.
use crate::raw::{
    add_limbs, is_negative, lemma_raw_signed_injective, raw_max, raw_min, raw_signed,
    raw_unsigned, sat24, sub_limbs, Int24Raw, MODULUS,
};
use vstd::prelude::*;

verus! {

proof fn lemma_not_u8(x: u8)
    ensures
        !x == 255 - x,
{
    assert(!x == 255 - x) by (bit_vector);
}

/// Bitwise complement of all three limbs.
fn invert_limbs(a: Int24Raw) -> (r: Int24Raw)
    ensures
        raw_unsigned(r) == MODULUS - 1 - raw_unsigned(a),
{
    proof {
        lemma_not_u8(a.0);
        lemma_not_u8(a.1);
        lemma_not_u8(a.2);
    }
    (!a.0, !a.1, !a.2)
}

/// Adds with carry propagation and saturates by the two's complement overflow rule.
pub fn add24(a: Int24Raw, b: Int24Raw) -> (r: Int24Raw)
    ensures
        raw_signed(r) == sat24(raw_signed(a) + raw_signed(b)),
{
    let (s, _carry) = add_limbs(a, b);
    let na = is_negative(a);
    let nb = is_negative(b);
    let ns = is_negative(s);
    if na == nb && ns != na {
        if na {
            raw_min()
        } else {
            raw_max()
        }
    } else {
        s
    }
}

/// Subtracts with borrow propagation and saturates by the two's complement overflow rule.
pub fn sub24(a: Int24Raw, b: Int24Raw) -> (r: Int24Raw)
    ensures
        raw_signed(r) == sat24(raw_signed(a) - raw_signed(b)),
{
    let (d, _borrow) = sub_limbs(a, b);
    let na = is_negative(a);
    let nb = is_negative(b);
    let nd = is_negative(d);
    if na != nb && nd != na {
        if na {
            raw_min()
        } else {
            raw_max()
        }
    } else {
        d
    }
}

/// Two's complement negation modulo 2^24: complement the limbs, then add one
/// across them.
pub fn negate_limbs(a: Int24Raw) -> (r: Int24Raw)
    ensures
        raw_unsigned(a) == 0 ==> raw_unsigned(r) == 0,
        raw_unsigned(a) != 0 ==> raw_unsigned(r) == MODULUS - raw_unsigned(a),
{
    let inv = invert_limbs(a);
    let (n, _carry) = add_limbs(inv, (1, 0, 0));
    n
}

/// Two's complement negation. The minimum, which has no positive
/// counterpart, saturates to the maximum.
pub fn neg24(a: Int24Raw) -> (r: Int24Raw)
    ensures
        raw_signed(r) == sat24(-raw_signed(a)),
{
    let n = negate_limbs(a);
    if is_negative(a) && is_negative(n) {
        raw_max()
    } else {
        n
    }
}

/// The saturated absolute value.
pub fn abs24(a: Int24Raw) -> (r: Int24Raw)
    ensures
        raw_signed(r) == sat24(if raw_signed(a) < 0 { -raw_signed(a) } else { raw_signed(a) }),
{
    if is_negative(a) {
        neg24(a)
    } else {
        a
    }
}

/// Limb-wise equality.
pub fn eq24(a: Int24Raw, b: Int24Raw) -> (r: bool)
    ensures
        r <==> raw_signed(a) == raw_signed(b),
{
    proof {
        if raw_signed(a) == raw_signed(b) {
            lemma_raw_signed_injective(a, b);
        }
    }
    a.0 == b.0 && a.1 == b.1 && a.2 == b.2
}

/// Signed greater-or-equal, read from the sign and overflow of `a - b`.
pub fn ge24(a: Int24Raw, b: Int24Raw) -> (r: bool)
    ensures
        r <==> raw_signed(a) >= raw_signed(b),
{
    let (d, _borrow) = sub_limbs(a, b);
    let na = is_negative(a);
    let nd = is_negative(d);
    let overflow = na != is_negative(b) && nd != na;
    nd == overflow
}

} // verus!
