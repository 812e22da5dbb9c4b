//! Operator syntax, ordering and default for [Int24], each delegating to the
//! named operation.
use crate::raw::{div_sat, sat24, wrap24};
use crate::{ordering_of, Int24};
use vstd::arithmetic::power2::pow2;
use vstd::prelude::*;

verus! {

impl Default for Int24 {
    /// Zero.
    fn default() -> (r: Self)
        ensures
            r@ == 0,
    {
        Int24::new()
    }
}

impl PartialOrd for Int24 {
    /// The three-way comparison, always defined.
    fn partial_cmp(&self, other: &Int24) -> (r: Option<core::cmp::Ordering>) {
        Some(Int24::cmp(*self, *other))
    }
}

impl vstd::std_specs::cmp::PartialOrdSpecImpl for Int24 {
    open spec fn obeys_partial_cmp_spec() -> bool {
        true
    }

    open spec fn partial_cmp_spec(&self, other: &Int24) -> Option<core::cmp::Ordering> {
        Some(ordering_of(self@, other@))
    }
}

impl core::ops::Add for Int24 {
    type Output = Self;

    fn add(self, other: Self) -> (r: Self)
        ensures
            r@ == sat24(self@ + other@),
    {
        let r = Int24::add(self, other);
        proof {
            r.lemma_of(r@);
        }
        r
    }
}

impl vstd::std_specs::ops::AddSpecImpl for Int24 {
    open spec fn obeys_add_spec() -> bool {
        true
    }

    open spec fn add_req(self, other: Int24) -> bool {
        true
    }

    open spec fn add_spec(self, other: Int24) -> Int24 {
        Int24::of(sat24(self@ + other@))
    }
}

impl core::ops::AddAssign for Int24 {
    fn add_assign(&mut self, other: Self)
        ensures
            final(self)@ == sat24(old(self)@ + other@),
    {
        *self = Int24::add(*self, other);
    }
}

impl core::ops::Sub for Int24 {
    type Output = Self;

    fn sub(self, other: Self) -> (r: Self)
        ensures
            r@ == sat24(self@ - other@),
    {
        let r = Int24::sub(self, other);
        proof {
            r.lemma_of(r@);
        }
        r
    }
}

impl vstd::std_specs::ops::SubSpecImpl for Int24 {
    open spec fn obeys_sub_spec() -> bool {
        true
    }

    open spec fn sub_req(self, other: Int24) -> bool {
        true
    }

    open spec fn sub_spec(self, other: Int24) -> Int24 {
        Int24::of(sat24(self@ - other@))
    }
}

impl core::ops::SubAssign for Int24 {
    fn sub_assign(&mut self, other: Self)
        ensures
            final(self)@ == sat24(old(self)@ - other@),
    {
        *self = Int24::sub(*self, other);
    }
}

impl core::ops::Mul for Int24 {
    type Output = Self;

    fn mul(self, other: Self) -> (r: Self)
        ensures
            r@ == sat24(self@ * other@),
    {
        let r = Int24::mul(self, other);
        proof {
            r.lemma_of(r@);
        }
        r
    }
}

impl vstd::std_specs::ops::MulSpecImpl for Int24 {
    open spec fn obeys_mul_spec() -> bool {
        true
    }

    open spec fn mul_req(self, other: Int24) -> bool {
        true
    }

    open spec fn mul_spec(self, other: Int24) -> Int24 {
        Int24::of(sat24(self@ * other@))
    }
}

impl core::ops::MulAssign for Int24 {
    fn mul_assign(&mut self, other: Self)
        ensures
            final(self)@ == sat24(old(self)@ * other@),
    {
        *self = Int24::mul(*self, other);
    }
}

impl core::ops::Div for Int24 {
    type Output = Self;

    fn div(self, other: Self) -> (r: Self)
        ensures
            r@ == div_sat(self@, other@),
    {
        let r = Int24::div(self, other);
        proof {
            r.lemma_of(r@);
        }
        r
    }
}

impl vstd::std_specs::ops::DivSpecImpl for Int24 {
    open spec fn obeys_div_spec() -> bool {
        true
    }

    open spec fn div_req(self, other: Int24) -> bool {
        true
    }

    open spec fn div_spec(self, other: Int24) -> Int24 {
        Int24::of(div_sat(self@, other@))
    }
}

impl core::ops::DivAssign for Int24 {
    fn div_assign(&mut self, other: Self)
        ensures
            final(self)@ == div_sat(old(self)@, other@),
    {
        *self = Int24::div(*self, other);
    }
}

impl core::ops::Shl<u8> for Int24 {
    type Output = Self;

    fn shl(self, other: u8) -> (r: Self)
        ensures
            r@ == wrap24(self@ * pow2(other as nat)),
    {
        let r = Int24::shl(self, other);
        proof {
            r.lemma_of(r@);
        }
        r
    }
}

impl vstd::std_specs::ops::ShlSpecImpl<u8> for Int24 {
    open spec fn obeys_shl_spec() -> bool {
        true
    }

    open spec fn shl_req(self, other: u8) -> bool {
        true
    }

    open spec fn shl_spec(self, other: u8) -> Int24 {
        Int24::of(wrap24(self@ * pow2(other as nat)))
    }
}

impl core::ops::ShlAssign<u8> for Int24 {
    fn shl_assign(&mut self, other: u8)
        ensures
            final(self)@ == wrap24(old(self)@ * pow2(other as nat)),
    {
        *self = Int24::shl(*self, other);
    }
}

impl core::ops::Shr<u8> for Int24 {
    type Output = Self;

    fn shr(self, other: u8) -> (r: Self)
        ensures
            r@ == self@ / (pow2(other as nat) as int),
    {
        let r = Int24::shr(self, other);
        proof {
            r.lemma_of(r@);
        }
        r
    }
}

impl vstd::std_specs::ops::ShrSpecImpl<u8> for Int24 {
    open spec fn obeys_shr_spec() -> bool {
        true
    }

    open spec fn shr_req(self, other: u8) -> bool {
        true
    }

    open spec fn shr_spec(self, other: u8) -> Int24 {
        Int24::of(self@ / (pow2(other as nat) as int))
    }
}

impl core::ops::ShrAssign<u8> for Int24 {
    fn shr_assign(&mut self, other: u8)
        ensures
            final(self)@ == old(self)@ / (pow2(other as nat) as int),
    {
        *self = Int24::shr(*self, other);
    }
}

impl core::ops::Neg for Int24 {
    type Output = Self;

    fn neg(self) -> (r: Self)
        ensures
            r@ == sat24(-self@),
    {
        let r = Int24::neg(self);
        proof {
            r.lemma_of(r@);
        }
        r
    }
}

impl vstd::std_specs::ops::NegSpecImpl for Int24 {
    open spec fn obeys_neg_spec() -> bool {
        true
    }

    open spec fn neg_req(self) -> bool {
        true
    }

    open spec fn neg_spec(self) -> Int24 {
        Int24::of(sat24(-self@))
    }
}

} // verus!
