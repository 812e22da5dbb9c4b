use avr_int24::Int24;
use core::cmp::Ordering;

const MAX: i32 = 0x7F_FFFF;
const MIN: i32 = -0x80_0000;

fn check_conv_i16() {
    let a = 0x1234;
    let b = Int24::from_i16(a).to_i16();
    assert!(a == b);

    let a = -0x1234;
    let b = Int24::from_i16(a).to_i16();
    assert!(a == b);

    let a = 0x123456;
    let b = Int24::from_i32(a).to_i16();
    assert!(b as u16 == 0x7FFF);

    let a = -0x123456;
    let b = Int24::from_i32(a).to_i16();
    assert!(b == -0x8000);
    assert!(b as u16 == 0x8000);

    let mut a = 0x0000_8000_u32;
    loop {
        let b = Int24::from_i32(a as i32).to_i16();
        assert!(b as u16 == 0x7FFF);
        if a == 0x4000_0000_u32 {
            break;
        }
        a <<= 1;
    }

    let mut a = 0xFFFF_8000_u32;
    loop {
        let b = Int24::from_i32(a as i32).to_i16();
        assert!(b as u16 == 0x8000);
        if a == 0x8000_0000_u32 {
            break;
        }
        a <<= 1;
    }
}

fn check_conv_i32() {
    let a = 0x123456;
    let b = Int24::from_i32(a).to_i32();
    assert!(a == b);

    let a = -0x123456;
    let b = Int24::from_i32(a).to_i32();
    assert!(a == b);

    let a = 0x12345678;
    let b = Int24::from_i32(a).to_i32();
    assert!(b as u32 == 0x007F_FFFF);

    let a = -0x12345678;
    let b = Int24::from_i32(a).to_i32();
    assert!(b == -0x800000);
    assert!(b as u32 == 0xFF80_0000);

    let mut a = 0x0080_0000_u32;
    loop {
        let b = Int24::from_i32(a as i32).to_i32();
        assert!(b as u32 == 0x007F_FFFF);
        if a == 0x4000_0000_u32 {
            break;
        }
        a <<= 1;
    }

    let mut a = 0xFF80_0000_u32;
    loop {
        let b = Int24::from_i32(a as i32).to_i32();
        assert!(b as u32 == 0xFF80_0000);
        if a == 0x8000_0000_u32 {
            break;
        }
        a <<= 1;
    }
}

fn check_add() {
    let cases = [
        (1000, 1010, 2010),
        (1000, -1010, -10),
        (-1000, 1010, 10),
        (0x7F_FFFF - 1, 2, 0x7F_FFFF),
        (-0x80_0000 + 1, -2, -0x80_0000),
    ];
    for (a, b, c) in cases {
        let a = Int24::from_i32(a);
        let b = Int24::from_i32(b);
        let c = Int24::from_i32(c);
        assert!(a + b == c);
        assert!(a.const_add(b) == c);
    }
}

fn check_sub() {
    let cases = [
        (1000, 1010, -10),
        (1000, -1010, 2010),
        (-1000, 1010, -2010),
        (-0x80_0000 + 1, 2, -0x80_0000),
        (0x7F_FFFF - 1, -2, 0x7F_FFFF),
    ];
    for (a, b, c) in cases {
        let a = Int24::from_i32(a);
        let b = Int24::from_i32(b);
        let c = Int24::from_i32(c);
        assert!(a - b == c);
        assert!(a.const_sub(b) == c);
    }
}

fn check_mul() {
    let cases = [
        (1000, 1010, 1010000),
        (1000, -1010, -1010000),
        (-1000, 1010, -1010000),
        (0x7F_0000, 2, 0x7F_FFFF),
        (-0x80_FFFF, 2, -0x80_0000),
    ];
    for (a, b, c) in cases {
        let a = Int24::from_i32(a);
        let b = Int24::from_i32(b);
        let c = Int24::from_i32(c);
        assert!(a * b == c);
        assert!(a.const_mul(b) == c);
    }
}

fn check_div() {
    let cases = [
        (100000, 1010, 99),
        (100000, -1010, -99),
        (-100000, 1010, -99),
        (-0x80_0000, -1, 0x7F_FFFF),
    ];
    for (a, b, c) in cases {
        let a = Int24::from_i32(a);
        let b = Int24::from_i32(b);
        let c = Int24::from_i32(c);
        assert!(a / b == c);
        assert!(a.const_div(b) == c);
    }
}

fn check_shl8div() {
    let cases = [
        (100000, 1010, 25346),
        (100000, -1010, -25346),
        (-100000, 1010, -25346),
        (1000000, 2, 0x7FFFFF),
    ];
    for (a, b, c) in cases {
        let a = Int24::from_i32(a);
        let b = Int24::from_i32(b);
        let c = Int24::from_i32(c);
        assert!(a.shl8div(b) == c);
    }
}

fn check_neg() {
    let cases = [
        (100000, -100000),
        (-100000, 100000),
        (0x7F_FFFF, -0x7F_FFFF),
        (-0x7F_FFFF, 0x7F_FFFF),
        (-0x80_0000, 0x7F_FFFF),
    ];
    for (a, b) in cases {
        let a = Int24::from_i32(a);
        let b = Int24::from_i32(b);
        assert!(-a == b);
        assert!(a.const_neg() == b);
    }
}

fn check_abs() {
    let cases = [
        (100000, 100000),
        (-100000, 100000),
        (0x7F_FFFF, 0x7F_FFFF),
        (-0x7F_FFFF, 0x7F_FFFF),
        (-0x80_0000, 0x7F_FFFF),
    ];
    for (a, b) in cases {
        let a = Int24::from_i32(a);
        let b = Int24::from_i32(b);
        assert!(a.abs() == b);
        assert!(a.const_abs() == b);
    }
}

fn check_shl() {
    let a = Int24::from_i32(100000);
    let b = Int24::from_i32(400000);
    assert!(a << 2 == b);
    assert!(a.const_shl(2) == b);

    let a = Int24::from_i32(1000);
    let b = Int24::from_i32(256000);
    assert!(a.shl8() == b);
}

fn check_shr() {
    let a = Int24::from_i32(400000);
    let b = Int24::from_i32(100000);
    assert!(a >> 2 == b);
    assert!(a.const_shr(2) == b);

    let a = Int24::from_i32(256000);
    let b = Int24::from_i32(1000);
    assert!(a.shr8() == b);
}

fn check_cmp() {
    let a = Int24::from_i32(100000);
    let b = Int24::from_i32(100000);
    assert!(a == b);
    assert!(a.const_cmp(b) == Ordering::Equal);

    let a = Int24::from_i32(100000);
    let b = Int24::from_i32(100001);
    assert!(a != b);
    assert!(a.const_cmp(b) == Ordering::Less);

    let a = Int24::from_i32(100000);
    let b = Int24::from_i32(100000);
    assert!(a <= b);
    assert!(a.const_cmp(b) == Ordering::Equal);

    let a = Int24::from_i32(100000);
    let b = Int24::from_i32(100001);
    assert!(a < b);
    assert!(a.const_cmp(b) == Ordering::Less);

    let a = Int24::from_i32(100000);
    let b = Int24::from_i32(100000);
    assert!(a >= b);
    assert!(a.const_cmp(b) == Ordering::Equal);

    let a = Int24::from_i32(100001);
    let b = Int24::from_i32(100000);
    assert!(a > b);
    assert!(a.const_cmp(b) == Ordering::Greater);
}

#[test]
fn test_int24() {
    check_conv_i16();
    check_conv_i32();
    check_add();
    check_sub();
    check_mul();
    check_div();
    check_shl8div();
    check_neg();
    check_abs();
    check_shl();
    check_shr();
    check_cmp();
}

// Values that exercise the range edges, the sign change and each limb.
const SAMPLES: [i32; 24] = [
    MIN,
    MIN + 1,
    MIN + 2,
    -0x7F_0000,
    -1_000_000,
    -100_000,
    -65536,
    -32769,
    -32768,
    -256,
    -255,
    -2,
    -1,
    0,
    1,
    2,
    255,
    256,
    32767,
    32768,
    100_000,
    0x7F_0000,
    MAX - 1,
    MAX,
];

fn sat(v: i64) -> i32 {
    v.clamp(MIN as i64, MAX as i64) as i32
}

fn reference_div(a: i64, b: i64) -> i32 {
    if b == 0 {
        if a >= 0 {
            MAX
        } else {
            MIN
        }
    } else {
        sat(a / b)
    }
}

fn wrap(v: i64) -> i32 {
    let m = v.rem_euclid(0x100_0000);
    if m >= 0x80_0000 {
        (m - 0x100_0000) as i32
    } else {
        m as i32
    }
}

#[test]
fn arithmetic_matches_widened_reference() {
    for &x in SAMPLES.iter() {
        for &y in SAMPLES.iter() {
            let a = Int24::from_i32(x);
            let b = Int24::from_i32(y);
            let (x, y) = (x as i64, y as i64);
            assert_eq!((a + b).to_i32(), sat(x + y), "{x} + {y}");
            assert_eq!((a - b).to_i32(), sat(x - y), "{x} - {y}");
            assert_eq!((a * b).to_i32(), sat(x * y), "{x} * {y}");
            assert_eq!((a / b).to_i32(), reference_div(x, y), "{x} / {y}");
            assert_eq!(a.shl8div(b).to_i32(), reference_div(x * 256, y), "{x} shl8div {y}");
        }
    }
}

#[test]
fn native_variants_agree_with_limb_variants() {
    for &x in SAMPLES.iter() {
        let a = Int24::from_i32(x);
        assert_eq!(a.const_neg(), a.neg());
        assert_eq!(a.const_abs(), a.abs());
        for count in [0u8, 1, 2, 7, 8, 9, 15, 16, 17, 23, 24, 25, 31, 32, 40, 255] {
            assert_eq!(a.const_shl(count), a.shl(count), "{x} << {count}");
            assert_eq!(a.const_shr(count), a.shr(count), "{x} >> {count}");
        }
        for &y in SAMPLES.iter() {
            let b = Int24::from_i32(y);
            assert_eq!(a.const_add(b), a.add(b));
            assert_eq!(a.const_sub(b), a.sub(b));
            assert_eq!(a.const_mul(b), a.mul(b), "{x} * {y}");
            assert_eq!(a.const_div(b), a.div(b), "{x} / {y}");
            assert_eq!(a.const_shl8div(b), a.shl8div(b), "{x} shl8div {y}");
            assert_eq!(a.const_cmp(b), a.cmp(b));
        }
    }
}

#[test]
fn saturation_boundaries() {
    let max = Int24::from_i32(MAX);
    let min = Int24::from_i32(MIN);
    assert_eq!(min.neg(), max);
    assert_eq!(-min, max);
    assert_eq!(min.abs(), max);
    assert_eq!(min / Int24::from_i32(-1), max);
    assert_eq!(Int24::from_i32(MAX - 1) + Int24::from_i32(2), max);
    assert_eq!(Int24::from_i32(MIN + 1) + Int24::from_i32(-2), min);
    assert_eq!(max + max, max);
    assert_eq!(min + min, min);
    assert_eq!(min - max, min);
    assert_eq!(max - min, max);
}

#[test]
fn division_by_zero_saturates_by_sign() {
    let zero = Int24::zero();
    for &x in SAMPLES.iter() {
        let a = Int24::from_i32(x);
        let expected = if x >= 0 { MAX } else { MIN };
        assert_eq!((a / zero).to_i32(), expected);
        assert_eq!(a.const_div(zero).to_i32(), expected);
        assert_eq!(a.shl8div(zero).to_i32(), expected);
    }
}

#[test]
fn shift_fast_paths_match_bit_shifts() {
    for &x in SAMPLES.iter() {
        let a = Int24::from_i32(x);
        assert_eq!(a.shl(8), a.shl8());
        assert_eq!(a.shl(16), a.shl16());
        assert_eq!(a.shr(8), a.shr8());
        assert_eq!(a.shr(16), a.shr16());
    }
}

#[test]
fn ordering_agrees_with_to_i32() {
    for &x in SAMPLES.iter() {
        for &y in SAMPLES.iter() {
            let a = Int24::from_i32(x);
            let b = Int24::from_i32(y);
            assert_eq!(a.cmp(b), x.cmp(&y));
            assert_eq!(a.partial_cmp(&b), Some(x.cmp(&y)));
            assert_eq!(a < b, x < y);
            assert_eq!(a == b, x == y);
            assert_eq!(b.cmp(a), a.cmp(b).reverse());
        }
    }
}

#[test]
fn concrete_scenarios() {
    assert_eq!(Int24::from_i32(1000) + Int24::from_i32(1010), Int24::from_i32(2010));
    assert_eq!(Int24::from_i32(0x7FFFFE) + Int24::from_i32(2), Int24::from_i32(0x7FFFFF));
    assert_eq!(Int24::from_i32(1000) * Int24::from_i32(1010), Int24::from_i32(1010000));
    // 100000 * 1010 is far above the maximum, so it saturates.
    assert_eq!(Int24::from_i32(100000) * Int24::from_i32(1010), Int24::from_i32(0x7FFFFF));
    assert_eq!(Int24::from_i32(-8388608) / Int24::from_i32(-1), Int24::from_i32(8388607));
    assert_eq!(Int24::from_i32(100000).shl8div(Int24::from_i32(1010)), Int24::from_i32(25346));
    assert_eq!(Int24::from_i32(400000) >> 2, Int24::from_i32(100000));
}

#[test]
fn round_trips() {
    for v in [i16::MIN, -1234, -1, 0, 1, 1234, i16::MAX] {
        assert_eq!(Int24::from_i16(v).to_i16(), v);
        assert_eq!(Int24::from_i16(v).to_i32(), v as i32);
    }
    for v in [i32::MIN, -0x80_0001, MIN, -5, 0, 5, MAX, 0x80_0000, i32::MAX] {
        assert_eq!(Int24::from_i32(v).to_i32(), v.clamp(MIN, MAX));
    }
    assert_eq!(Int24::from_i32(40000).to_i16(), i16::MAX);
    assert_eq!(Int24::from_i32(-40000).to_i16(), i16::MIN);
    assert_eq!(Int24::from_i32(-32768).to_i16(), -32768);
    assert_eq!(Int24::from_i32(-32769).to_i16(), i16::MIN);
    assert_eq!(Int24::from_i32(32768).to_i16(), i16::MAX);
}

#[test]
fn byte_layout() {
    assert_eq!(Int24::from_i32(0x123456).to_le_bytes(), [0x56, 0x34, 0x12]);
    assert_eq!(Int24::from_i32(-2).to_le_bytes(), [0xFE, 0xFF, 0xFF]);
    assert_eq!(Int24::from_i32(MIN).to_le_bytes(), [0x00, 0x00, 0x80]);
    assert_eq!(Int24::from_i32(MAX).to_le_bytes(), [0xFF, 0xFF, 0x7F]);
    assert_eq!(Int24::from_le_bytes([0x00, 0x00, 0x80]).to_i32(), MIN);
    assert_eq!(Int24::from_le_bytes([0xFF, 0xFF, 0xFF]).to_i32(), -1);
    assert_eq!(Int24::from_raw((0x56, 0x34, 0x12)).to_i32(), 0x123456);
    for &x in SAMPLES.iter() {
        let a = Int24::from_i32(x);
        assert_eq!(Int24::from_le_bytes(a.to_le_bytes()), a);
    }
    assert_eq!(Int24::zero().to_i32(), 0);
    assert_eq!(Int24::new(), Int24::zero());
    assert_eq!(Int24::default(), Int24::zero());
}

#[test]
fn left_shift_drops_high_bits() {
    assert_eq!(Int24::from_i32(MAX) << 1, Int24::from_i32(-2));
    assert_eq!(Int24::from_i32(MAX).const_shl(1), Int24::from_i32(-2));
    assert_eq!(Int24::from_i32(0x12_3456).shl8(), Int24::from_i32(0x34_5600));
    assert_eq!(Int24::from_i32(0x12_3456).shl16(), Int24::from_i32(0x56_0000));
    assert_eq!(Int24::from_i32(1) << 23, Int24::from_i32(MIN));
    assert_eq!(Int24::from_i32(-1) << 24, Int24::zero());
    assert_eq!(Int24::from_i32(-1) << 200, Int24::zero());
    for &x in SAMPLES.iter() {
        let a = Int24::from_i32(x);
        for count in [0u8, 1, 5, 8, 13, 16, 23] {
            assert_eq!(a.shl(count).to_i32(), wrap((x as i64) << count));
        }
    }
}

#[test]
fn right_shift_keeps_sign() {
    assert_eq!(Int24::from_i32(-1) >> 5, Int24::from_i32(-1));
    assert_eq!(Int24::from_i32(-3) >> 1, Int24::from_i32(-2));
    assert_eq!(Int24::from_i32(MIN) >> 23, Int24::from_i32(-1));
    assert_eq!(Int24::from_i32(MIN) >> 255, Int24::from_i32(-1));
    assert_eq!(Int24::from_i32(MAX) >> 255, Int24::zero());
    assert_eq!(Int24::from_i32(-0x12_3456).shr16(), Int24::from_i32(-0x13));
    for &x in SAMPLES.iter() {
        let a = Int24::from_i32(x);
        for count in [0u8, 1, 3, 8, 12, 16, 22, 23, 24, 100] {
            assert_eq!(a.shr(count).to_i32(), x >> count.min(31));
        }
    }
}

#[test]
fn multiplication_edges() {
    let min = Int24::from_i32(MIN);
    let max = Int24::from_i32(MAX);
    let one = Int24::from_i32(1);
    let minus_one = Int24::from_i32(-1);
    assert_eq!(min * one, min);
    assert_eq!(min * minus_one, max);
    assert_eq!(min * Int24::zero(), Int24::zero());
    assert_eq!(Int24::zero() * min, Int24::zero());
    assert_eq!(one * min, min);
    assert_eq!(minus_one * min, max);
    assert_eq!(max * minus_one, Int24::from_i32(-MAX));
    assert_eq!(Int24::from_i32(-4096) * Int24::from_i32(2048), min);
    assert_eq!(Int24::from_i32(-4096) * Int24::from_i32(-2048), max);
    assert_eq!(Int24::from_i32(-2895) * Int24::from_i32(2897), Int24::from_i32(-8386815));
}

#[test]
fn division_edges() {
    let min = Int24::from_i32(MIN);
    assert_eq!(min / Int24::from_i32(1), min);
    assert_eq!(min / min, Int24::from_i32(1));
    assert_eq!(Int24::from_i32(7) / Int24::from_i32(-2), Int24::from_i32(-3));
    assert_eq!(Int24::from_i32(-7) / Int24::from_i32(2), Int24::from_i32(-3));
    assert_eq!(Int24::from_i32(1) / Int24::from_i32(-2), Int24::zero());
    assert_eq!(Int24::from_i32(-1_000_000).shl8div(Int24::from_i32(2)), min);
    assert_eq!(min.shl8div(Int24::from_i32(-1)), Int24::from_i32(MAX));
    assert_eq!(Int24::from_i32(-32768).shl8div(Int24::from_i32(1)), min);
    assert_eq!(Int24::from_i32(3).shl8div(Int24::from_i32(4)), Int24::from_i32(192));
}

#[test]
fn compound_assignment() {
    let mut a = Int24::from_i32(10);
    a += Int24::from_i32(5);
    assert_eq!(a.to_i32(), 15);
    a -= Int24::from_i32(20);
    assert_eq!(a.to_i32(), -5);
    a *= Int24::from_i32(-3);
    assert_eq!(a.to_i32(), 15);
    a /= Int24::from_i32(4);
    assert_eq!(a.to_i32(), 3);
    a <<= 4;
    assert_eq!(a.to_i32(), 48);
    a >>= 3;
    assert_eq!(a.to_i32(), 6);
    let mut m = Int24::from_i32(MAX);
    m += Int24::from_i32(1);
    assert_eq!(m.to_i32(), MAX);
}
