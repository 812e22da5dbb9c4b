//! # 24 bit signed integer arithmetic for 8-bit processors
//!
//! [Int24] is a 24 bit signed integer held as three little endian bytes.
//! No operation ever panics. Results that do not fit saturate to the nearest
//! bound, except for the left shifts, which drop the high bits.
//!
//! Each operation exists twice: once on the byte limbs with carry and borrow
//! chains, sequential multiplication and restoring division, and once as a
//! `const_` variant that widens to native 32 or 64 bit integers. Both carry
//! the same contract.
use vstd::prelude::*;

mod arith;
mod conv;
mod div;
pub mod laws;
mod mul;
mod ops;
pub mod raw;
mod shift;

pub use crate::raw::Int24Raw;

use crate::arith::{abs24, add24, eq24, ge24, neg24, sub24};
use crate::conv::{i16_to_i24raw, i24raw_to_i16_sat, i24raw_to_i32, i32_to_i24raw_sat};
use crate::div::{div24, shl24_by8_div24};
use crate::mul::mul24;
use crate::raw::{
    abs_int, clamp, div_sat, lemma_wrap24_congruent, raw_of, raw_signed, raw_zero, sat24, wrap24, MAX, MIN, MODULUS,
};
use crate::shift::{
    lemma_div_pow2_large, lemma_floor_div_negative, shl24, shl24_by16, shl24_by8, shr24,
    shr24_by16, shr24_by8,
};
use vstd::arithmetic::power2::{
    lemma2_to64, lemma_pow2_adds, lemma_pow2_pos, lemma_pow2_strictly_increases, pow2,
};
use vstd::bits::{lemma_u32_shr_is_div, lemma_u64_shl_is_mul};

verus! {

/// 24 bit signed integer.
#[derive(Copy, Clone, Eq, Debug)]
pub struct Int24(Int24Raw);

impl PartialEq for Int24 {
    /// Limb-wise equality.
    fn eq(&self, other: &Int24) -> (r: bool) {
        let r = eq24(self.0, other.0);
        proof {
            self.lemma_view_injective(*other);
        }
        r
    }
}

impl vstd::std_specs::cmp::PartialEqSpecImpl for Int24 {
    open spec fn obeys_eq_spec() -> bool {
        true
    }

    open spec fn eq_spec(&self, other: &Int24) -> bool {
        self@ == other@
    }
}

impl View for Int24 {
    type V = int;

    /// The signed value.
    closed spec fn view(&self) -> int {
        raw_signed(self.0)
    }
}

/// The three-way comparison of two numbers.
pub open spec fn ordering_of(a: int, b: int) -> core::cmp::Ordering {
    if a < b {
        core::cmp::Ordering::Less
    } else if a == b {
        core::cmp::Ordering::Equal
    } else {
        core::cmp::Ordering::Greater
    }
}

impl Int24 {
    /// Every value lies in the signed 24 bit range.
    pub proof fn lemma_range(self)
        ensures
            MIN <= self@ <= MAX,
    {
        crate::raw::lemma_raw_bounds(self.0);
    }

    /// Two values with the same number are the same value.
    pub proof fn lemma_view_injective(self, other: Self)
        ensures
            self@ == other@ <==> self == other,
    {
        if self@ == other@ {
            crate::raw::lemma_raw_signed_injective(self.0, other.0);
        }
    }

    /// The [Int24] whose value is `v`, for `v` in the 24 bit range.
    pub closed spec fn of(v: int) -> Int24 {
        Int24(raw_of(v))
    }

    /// [Int24::of] gives the value with the number it is given, and every
    /// value is [Int24::of] its own number.
    pub proof fn lemma_of(self, v: int)
        requires
            MIN <= v <= MAX,
        ensures
            Self::of(v)@ == v,
            self == Self::of(self@),
    {
        crate::raw::lemma_raw_of(v);
        self.lemma_range();
        crate::raw::lemma_raw_of(self@);
        self.lemma_view_injective(Self::of(self@));
    }

    /// Construct a new zero [Int24].
    pub fn zero() -> (r: Self)
        ensures
            r@ == 0,
    {
        Int24(raw_zero())
    }

    /// Construct a new zero [Int24].
    pub fn new() -> (r: Self)
        ensures
            r@ == 0,
    {
        Self::zero()
    }

    /// Construct a new [Int24] from a little endian raw tuple.
    pub fn from_raw(v: Int24Raw) -> (r: Self)
        ensures
            r@ == raw_signed(v),
    {
        Int24(v)
    }

    /// Construct a new [Int24] from raw little endian bytes.
    pub fn from_le_bytes(bytes: [u8; 3]) -> (r: Self)
        ensures
            r@ == raw_signed((bytes@[0], bytes@[1], bytes@[2])),
    {
        Self::from_raw((bytes[0], bytes[1], bytes[2]))
    }

    /// Construct a new [Int24] from a signed 16 bit integer.
    pub fn from_i16(v: i16) -> (r: Self)
        ensures
            r@ == v,
    {
        Self::from_raw(i16_to_i24raw(v))
    }

    /// Construct and saturate a new [Int24] from a signed 32 bit integer.
    pub fn from_i32(v: i32) -> (r: Self)
        ensures
            r@ == sat24(v as int),
    {
        Int24(i32_to_i24raw_sat(v))
    }

    /// Convert this [Int24] to little endian bytes.
    pub fn to_le_bytes(self) -> (r: [u8; 3])
        ensures
            raw_signed((r@[0], r@[1], r@[2])) == self@,
    {
        [self.0.0, self.0.1, self.0.2]
    }

    /// Convert and saturate this [Int24] to a signed 16 bit integer.
    pub fn to_i16(self) -> (r: i16)
        ensures
            r == clamp(self@, -0x8000, 0x7FFF),
    {
        i24raw_to_i16_sat(self.0)
    }

    /// Convert this [Int24] to a signed 32 bit integer.
    pub fn to_i32(self) -> (r: i32)
        ensures
            r == self@,
    {
        i24raw_to_i32(self.0)
    }

    /// Add and saturate two [Int24].
    pub fn add(self, other: Self) -> (r: Self)
        ensures
            r@ == sat24(self@ + other@),
    {
        Self::from_raw(add24(self.0, other.0))
    }

    /// Add and saturate two [Int24], in native 32 bit arithmetic.
    pub fn const_add(self, other: Self) -> (r: Self)
        ensures
            r@ == sat24(self@ + other@),
    {
        Self::from_i32(self.to_i32() + other.to_i32())
    }

    /// Subtract and saturate two [Int24].
    pub fn sub(self, other: Self) -> (r: Self)
        ensures
            r@ == sat24(self@ - other@),
    {
        Self::from_raw(sub24(self.0, other.0))
    }

    /// Subtract and saturate two [Int24], in native 32 bit arithmetic.
    pub fn const_sub(self, other: Self) -> (r: Self)
        ensures
            r@ == sat24(self@ - other@),
    {
        Self::from_i32(self.to_i32() - other.to_i32())
    }

    /// Multiply and saturate two [Int24].
    pub fn mul(self, other: Self) -> (r: Self)
        ensures
            r@ == sat24(self@ * other@),
    {
        Self::from_raw(mul24(self.0, other.0))
    }

    /// Multiply and saturate two [Int24], in native arithmetic. The product
    /// of two 24 bit values needs up to 47 bits, so it is formed in 64 bits.
    pub fn const_mul(self, other: Self) -> (r: Self)
        ensures
            r@ == sat24(self@ * other@),
    {
        let a = self.to_i32() as i64;
        let b = other.to_i32() as i64;
        proof {
            self.lemma_range();
            other.lemma_range();
            assert(-0x4000_0000_0000 <= a * b <= 0x4000_0000_0000) by (nonlinear_arith)
                requires
                    -0x80_0000 <= a <= 0x7F_FFFF,
                    -0x80_0000 <= b <= 0x7F_FFFF,
            ;
        }
        Self::from_i64_sat(a * b)
    }

    /// Saturate a signed 64 bit integer to an [Int24].
    fn from_i64_sat(v: i64) -> (r: Self)
        ensures
            r@ == sat24(v as int),
    {
        if v > MAX as i64 {
            Self::from_i32(MAX)
        } else if v < MIN as i64 {
            Self::from_i32(MIN)
        } else {
            Self::from_i32(v as i32)
        }
    }

    /// Divide and saturate two [Int24]. The quotient rounds toward zero.
    /// Division by zero gives the maximum for a dividend that is not
    /// negative and the minimum otherwise.
    pub fn div(self, other: Self) -> (r: Self)
        ensures
            r@ == div_sat(self@, other@),
    {
        Self::from_raw(div24(self.0, other.0))
    }

    /// Divide and saturate two [Int24], in native 32 bit arithmetic.
    pub fn const_div(self, other: Self) -> (r: Self)
        ensures
            r@ == div_sat(self@, other@),
    {
        Self::native_div(self.to_i32(), other.to_i32())
    }

    /// Saturated truncating division of two signed 32 bit numbers, by
    /// unsigned division of their magnitudes.
    fn native_div(a: i32, b: i32) -> (r: Self)
        ensures
            r@ == div_sat(a as int, b as int),
    {
        if b == 0 {
            if a >= 0 {
                return Self::from_i32(MAX);
            } else {
                return Self::from_i32(MIN);
            }
        }
        let ma: u32 = if a < 0 {
            (-(a as i64)) as u32
        } else {
            a as u32
        };
        let mb: u32 = if b < 0 {
            (-(b as i64)) as u32
        } else {
            b as u32
        };
        let q: i64 = (ma / mb) as i64;
        if (a < 0) != (b < 0) {
            Self::from_i64_sat(-q)
        } else {
            Self::from_i64_sat(q)
        }
    }

    /// Left shift `self` by 8 bits and then divide the shifted value by
    /// `other`. The intermediate shift is kept in a 32 bit register and is
    /// not saturated; only the quotient is.
    pub fn shl8div(self, other: Self) -> (r: Self)
        ensures
            r@ == div_sat(self@ * 256, other@),
    {
        Self::from_raw(shl24_by8_div24(self.0, other.0))
    }

    /// Left shift `self` by 8 bits and then divide the shifted value by
    /// `other`, in native 32 bit arithmetic.
    pub fn const_shl8div(self, other: Self) -> (r: Self)
        ensures
            r@ == div_sat(self@ * 256, other@),
    {
        proof {
            self.lemma_range();
        }
        Self::native_div(self.to_i32() * 256, other.to_i32())
    }

    /// Two's complement negate and saturate `self`.
    pub fn neg(self) -> (r: Self)
        ensures
            r@ == sat24(-self@),
    {
        Int24(neg24(self.0))
    }

    /// Negate and saturate `self`, in native 32 bit arithmetic.
    pub fn const_neg(self) -> (r: Self)
        ensures
            r@ == sat24(-self@),
    {
        Self::from_i32(-self.to_i32())
    }

    /// Get the saturated absolute value of `self`.
    pub fn abs(self) -> (r: Self)
        ensures
            r@ == sat24(abs_int(self@)),
    {
        Int24(abs24(self.0))
    }

    /// Get the saturated absolute value of `self`, in native 32 bit arithmetic.
    pub fn const_abs(self) -> (r: Self)
        ensures
            r@ == sat24(abs_int(self@)),
    {
        proof {
            self.lemma_range();
        }
        if self.to_i32() < 0 {
            self.const_neg()
        } else {
            self
        }
    }

    /// Left shift `self` by 8 bits. The result is not saturated.
    /// This equals `shl(8)` but moves whole bytes.
    pub fn shl8(self) -> (r: Self)
        ensures
            r@ == wrap24(self@ * 256),
    {
        let r = shl24_by8(self.0);
        proof {
            crate::raw::lemma_wrap24_unsigned(self.0, r, 256);
        }
        Int24(r)
    }

    /// Left shift `self` by 16 bits. The result is not saturated.
    /// This equals `shl(16)` but moves whole bytes.
    pub fn shl16(self) -> (r: Self)
        ensures
            r@ == wrap24(self@ * 65536),
    {
        let r = shl24_by16(self.0);
        proof {
            crate::raw::lemma_wrap24_unsigned(self.0, r, 65536);
        }
        Int24(r)
    }

    /// Left shift `self` by `count` bits. The result is not saturated.
    pub fn shl(self, count: u8) -> (r: Self)
        ensures
            r@ == wrap24(self@ * pow2(count as nat)),
    {
        let r = shl24(self.0, count);
        proof {
            crate::raw::lemma_wrap24_unsigned(self.0, r, pow2(count as nat) as int);
        }
        Int24(r)
    }

    /// Left shift `self` by `count` bits, in native 64 bit arithmetic.
    /// The result is not saturated.
    pub fn const_shl(self, count: u8) -> (r: Self)
        ensures
            r@ == wrap24(self@ * pow2(count as nat)),
    {
        proof {
            self.lemma_range();
            lemma2_to64();
        }
        let v = self.to_i32();
        if count >= 24 {
            proof {
                lemma_pow2_adds(24, (count - 24) as nat);
                let k = pow2((count - 24) as nat) as int;
                assert(self@ * pow2(count as nat) == 0 + (self@ * k) * MODULUS) by (nonlinear_arith)
                    requires
                        pow2(count as nat) == pow2(24) * pow2((count - 24) as nat),
                        pow2(24) == MODULUS,
                        k == pow2((count - 24) as nat),
                ;
                lemma_wrap24_congruent(self@ * pow2(count as nat), 0, self@ * k);
            }
            return Self::zero();
        }
        // The value's 24 bit two's complement pattern.
        let bits: u64 = if v < 0 {
            (v as i64 + 0x100_0000) as u64
        } else {
            v as u64
        };
        proof {
            lemma_pow2_strictly_increases(count as nat, 24);
            assert(bits * pow2(count as nat) < 0x1_0000_0000_0000) by (nonlinear_arith)
                requires
                    bits < 0x100_0000,
                    pow2(count as nat) < 0x100_0000,
            ;
            lemma_u64_shl_is_mul(bits, count as u64);
        }
        let shifted: u64 = (bits << (count as u64)) % 0x100_0000;
        let w: i32 = if shifted >= 0x80_0000 {
            (shifted as i64 - 0x100_0000) as i32
        } else {
            shifted as i32
        };
        proof {
            let p = pow2(count as nat) as int;
            let n: int = if v < 0 { 1 } else { 0 };
            assert(self@ * p == bits * p + (-n * p) * MODULUS) by (nonlinear_arith)
                requires
                    bits == self@ + n * MODULUS,
            ;
            lemma_wrap24_congruent(self@ * p, bits * p, -n * p);
        }
        Self::from_i32(w)
    }

    /// Arithmetically right shift `self` by 8 bits.
    /// This equals `shr(8)` but moves whole bytes.
    pub fn shr8(self) -> (r: Self)
        ensures
            r@ == self@ / 256,
    {
        Int24(shr24_by8(self.0))
    }

    /// Arithmetically right shift `self` by 16 bits.
    /// This equals `shr(16)` but moves whole bytes.
    pub fn shr16(self) -> (r: Self)
        ensures
            r@ == self@ / 65536,
    {
        Int24(shr24_by16(self.0))
    }

    /// Arithmetically right shift `self` by `count` bits.
    pub fn shr(self, count: u8) -> (r: Self)
        ensures
            r@ == self@ / (pow2(count as nat) as int),
    {
        Int24(shr24(self.0, count))
    }

    /// Arithmetically right shift `self` by `count` bits, in native 32 bit
    /// arithmetic.
    pub fn const_shr(self, count: u8) -> (r: Self)
        ensures
            r@ == self@ / (pow2(count as nat) as int),
    {
        proof {
            self.lemma_range();
            lemma2_to64();
        }
        let v = self.to_i32();
        // Past 24 bits only the sign is left.
        let c: u32 = if count >= 24 {
            24
        } else {
            count as u32
        };
        proof {
            lemma_pow2_pos(c as nat);
            if count >= 24 {
                lemma_div_pow2_large(self@, count as nat);
                lemma_div_pow2_large(self@, 24);
            }
        }
        if v >= 0 {
            let s = (v as u32) >> c;
            proof {
                lemma_u32_shr_is_div(v as u32, c);
            }
            Self::from_i32(s as i32)
        } else {
            // Shift the ones' complement, which is not negative.
            let s = ((-(v as i64) - 1) as u32) >> c;
            proof {
                lemma_u32_shr_is_div((-(v as i64) - 1) as u32, c);
                lemma_floor_div_negative(self@, pow2(c as nat) as int);
            }
            Self::from_i32(-(s as i32) - 1)
        }
    }

    /// Compare `self` to `other`.
    pub fn cmp(self, other: Self) -> (r: core::cmp::Ordering)
        ensures
            r == ordering_of(self@, other@),
    {
        if eq24(self.0, other.0) {
            core::cmp::Ordering::Equal
        } else if ge24(self.0, other.0) {
            core::cmp::Ordering::Greater
        } else {
            core::cmp::Ordering::Less
        }
    }

    /// Compare `self` to `other`, in native 32 bit arithmetic.
    pub fn const_cmp(self, other: Self) -> (r: core::cmp::Ordering)
        ensures
            r == ordering_of(self@, other@),
    {
        if self.to_i32() == other.to_i32() {
            core::cmp::Ordering::Equal
        } else if self.to_i32() >= other.to_i32() {
            core::cmp::Ordering::Greater
        } else {
            core::cmp::Ordering::Less
        }
    }
}

} // verus!
