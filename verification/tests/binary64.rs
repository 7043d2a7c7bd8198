use bitaxe_api::binary64::{from_integer, multiply_and_round, truncate, Binary64, Whole};

/// What the floating-point unit makes of a number that was truncated or rounded.
fn whole(number: f64) -> Whole {
    if number.is_nan() {
        Whole { negative: false, size: 0 }
    } else {
        Whole { negative: number.is_sign_negative(), size: number.abs() as u64 }
    }
}

const FACTORS: [u64; 8] = [
    1,
    1_000,
    1_000_000,
    1_000_000_000,
    1_000_000_000_000,
    1_000_000_000_000_000,
    1_000_000_000_000_000_000,
    3,
];

fn check(bits: u64) {
    let number = f64::from_bits(bits);
    assert_eq!(truncate(bits), whole(number.trunc()), "{:e} ({:#018x})", number, bits);
    for factor in FACTORS {
        assert_eq!(factor as f64 as u64, factor);
        assert_eq!(
            multiply_and_round(bits, factor),
            whole((number * factor as f64).round()),
            "{:e} ({:#018x}) times {}",
            number,
            bits,
            factor
        );
    }
}

/// A sequence of numbers without a pattern.
struct Sequence(u64);

impl Sequence {
    fn next(&mut self) -> u64 {
        self.0 ^= self.0 << 13;
        self.0 ^= self.0 >> 7;
        self.0 ^= self.0 << 17;
        self.0
    }
}

#[test]
fn chosen_numbers_come_out_as_in_floating_point() {
    for number in [
        0.0,
        -0.0,
        0.5,
        -0.5,
        0.49999999999999994,
        0.5000000000000001,
        1.0,
        1.5,
        2.5,
        -1.5,
        -2.5,
        2.03,
        138.17,
        1000.0,
        0.0005,
        0.0015,
        0.0025,
        1.0005,
        4503599627370495.5,
        4503599627370496.5,
        9007199254740991.0,
        9007199254740992.0,
        9007199254740993.0,
        18446744073709549568.0,
        18446744073709551615.0,
        18446744073709551616.0,
        18.446744073709551615,
        18.446744073709553,
        1.8446744073709552,
        1e300,
        -1e300,
        1e-300,
        -1e-300,
        5e-324,
        2.2250738585072014e-308,
        2.225073858507201e-308,
        1.7976931348623157e308,
        f64::INFINITY,
        f64::NEG_INFINITY,
        f64::NAN,
        f64::EPSILON,
    ] {
        check(f64::to_bits(number));
    }
    check(0x7FF0_0000_0000_0001);
    check(0xFFF8_0000_0000_0000);
    check(0x000F_FFFF_FFFF_FFFF);
    check(0x0010_0000_0000_0000);
    check(0x7FEF_FFFF_FFFF_FFFF);
    check(u64::MAX);
}

#[test]
fn decimal_numbers_come_out_as_in_floating_point() {
    for thousandths in 0..20_000u64 {
        let text = format!("{}.{:03}", thousandths / 1000, thousandths % 1000);
        let number: f64 = text.parse().unwrap();
        check(number.to_bits());
        check((-number).to_bits());
    }
}

#[test]
fn halves_come_out_as_in_floating_point() {
    for factor in FACTORS {
        for whole_part in 0..2_000u64 {
            let half = (whole_part as f64 + 0.5) / factor as f64;
            for step in 0..5u64 {
                check(half.to_bits() - 2 + step);
                check((-half).to_bits() - 2 + step);
            }
        }
    }
}

#[test]
fn numbers_of_every_exponent_come_out_as_in_floating_point() {
    let mut sequence = Sequence(0x2545_F491_4F6C_DD1D);
    for exponent in 0..0x800u64 {
        for sign in [0u64, 1] {
            for fraction in [0, 1, 0x8_0000_0000_0000, 0xF_FFFF_FFFF_FFFF, 0xF_FFFF_FFFF_FFFE] {
                check(sign << 63 | exponent << 52 | fraction);
            }
            for _ in 0..20 {
                check(sign << 63 | exponent << 52 | sequence.next() >> 12);
            }
        }
    }
}

#[test]
fn numbers_near_the_integers_come_out_as_in_floating_point() {
    let mut sequence = Sequence(0x9E37_79B9_7F4A_7C15);
    for _ in 0..200_000 {
        let exponent = 1023 - 70 + sequence.next() % 140;
        check((sequence.next() & 1) << 63 | exponent << 52 | sequence.next() >> 12);
    }
}

#[test]
fn any_bits_come_out_as_in_floating_point() {
    let mut sequence = Sequence(0xD1B5_4A32_D192_ED03);
    for _ in 0..200_000 {
        check(sequence.next());
    }
}

#[test]
fn a_factor_of_zero() {
    assert_eq!(multiply_and_round(f64::INFINITY.to_bits(), 0), Whole { negative: false, size: 0 });
    assert_eq!(multiply_and_round(1.5f64.to_bits(), 0), Whole { negative: false, size: 0 });
    assert_eq!(multiply_and_round((-1.5f64).to_bits(), 0), Whole { negative: true, size: 0 });
}

fn check_integer(integer: i128) {
    assert_eq!(from_integer(integer), Binary64 { bits: (integer as f64).to_bits() }, "{}", integer);
    if let Ok(integer) = u64::try_from(integer) {
        assert_eq!(from_integer(integer as i128).bits, (integer as f64).to_bits());
    }
    if let Ok(integer) = i64::try_from(integer) {
        assert_eq!(from_integer(integer as i128).bits, (integer as f64).to_bits());
    }
}

#[test]
fn chosen_integers_become_the_nearest_numbers() {
    for integer in [
        0,
        1,
        2,
        3,
        1071,
        (1 << 52) - 1,
        1 << 52,
        (1 << 53) - 1,
        1 << 53,
        (1 << 53) + 1,
        (1 << 53) + 2,
        (1 << 53) + 3,
        (1 << 54) + 2,
        (1 << 54) + 6,
        (1 << 54) - 1,
        i64::MAX as i128,
        i64::MAX as i128 - 511,
        i64::MAX as i128 - 512,
        u64::MAX as i128,
        u64::MAX as i128 - 1023,
        u64::MAX as i128 - 1024,
        u64::MAX as i128 + 1,
        i128::MAX,
        i128::MAX - (1 << 73),
        i128::MAX - (1 << 73) + 1,
    ] {
        check_integer(integer);
        check_integer(-integer);
    }
    check_integer(i128::MIN);
    check_integer(i64::MIN as i128);
}

#[test]
fn small_integers_become_themselves() {
    for integer in -70_000i128..70_000 {
        check_integer(integer);
        assert_eq!(f64::from_bits(from_integer(integer).bits) as i128, integer);
    }
}

#[test]
fn integers_of_every_width_become_the_nearest_numbers() {
    let mut sequence = Sequence(0xA076_1D64_78BD_642F);
    for width in 1..128u32 {
        for _ in 0..2_000 {
            let wide = (sequence.next() as u128) << 64 | sequence.next() as u128;
            let integer = (wide >> (128 - width)) as i128;
            check_integer(integer);
            check_integer(-integer);
        }
        let power = 1i128 << (width - 1);
        for near in [power - 1, power, power + 1, power + (power >> 53), power + (power >> 54)] {
            check_integer(near);
            check_integer(-near);
        }
    }
}

#[test]
fn halfway_integers_become_the_even_numbers() {
    let mut sequence = Sequence(0xE703_7ED1_A0B4_28DB);
    for drop in 1..70u32 {
        for _ in 0..1_000 {
            let kept = 1u128 << 52 | (sequence.next() >> 12) as u128;
            let half = 1u128 << (drop - 1);
            for integer in [kept << drop | half, (kept << drop | half) - 1, (kept << drop | half) + 1] {
                check_integer(integer as i128);
                check_integer(-(integer as i128));
            }
        }
    }
}
