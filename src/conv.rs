//! Conversions between raw limbs and 16 and 32 bit signed integers.
use crate::raw::{
    clamp, is_negative, raw_max, raw_min, raw_signed, raw_unsigned, sat24, Int24Raw, MAX, MIN,
    MODULUS,
};
use vstd::prelude::*;

verus! {

/// The limbs of an unsigned number below 2^24.
pub fn raw_from_unsigned(u: u32) -> (r: Int24Raw)
    requires
        u < MODULUS,
    ensures
        raw_unsigned(r) == u,
{
    let b0 = (u % 256) as u8;
    let b1 = ((u / 256) % 256) as u8;
    let b2 = (u / 65536) as u8;
    (b0, b1, b2)
}

/// Sign extension from 16 to 24 bits; exact.
pub fn i16_to_i24raw(v: i16) -> (r: Int24Raw)
    ensures
        raw_signed(r) == v,
{
    let bits: u16 = if v < 0 {
        (v as i32 + 0x1_0000) as u16
    } else {
        v as u16
    };
    let fill: u8 = if v < 0 {
        0xFF
    } else {
        0
    };
    ((bits % 256) as u8, (bits / 256) as u8, fill)
}

/// Narrowing to 16 bits, saturated when the high nine bits are not all
/// copies of the sign bit.
pub fn i24raw_to_i16_sat(r: Int24Raw) -> (v: i16)
    ensures
        v == clamp(raw_signed(r), -0x8000, 0x7FFF),
{
    let fits = (r.2 == 0 && r.1 < 0x80) || (r.2 == 0xFF && r.1 >= 0x80);
    if fits {
        let low: i32 = r.0 as i32 + 256 * r.1 as i32;
        if r.1 >= 0x80 {
            (low - 0x1_0000) as i16
        } else {
            low as i16
        }
    } else if is_negative(r) {
        -0x8000
    } else {
        0x7FFF
    }
}

/// Narrowing to 24 bits, saturated to the 24 bit range.
pub fn i32_to_i24raw_sat(v: i32) -> (r: Int24Raw)
    ensures
        raw_signed(r) == sat24(v as int),
{
    if v > MAX {
        raw_max()
    } else if v < MIN {
        raw_min()
    } else if v < 0 {
        raw_from_unsigned((v + 0x100_0000) as u32)
    } else {
        raw_from_unsigned(v as u32)
    }
}

/// Sign extension from 24 to 32 bits; exact.
pub fn i24raw_to_i32(r: Int24Raw) -> (v: i32)
    ensures
        v == raw_signed(r),
{
    let u: i32 = r.0 as i32 + 256 * r.1 as i32 + 65536 * r.2 as i32;
    if is_negative(r) {
        u - 0x100_0000
    } else {
        u
    }
}

} // verus!
