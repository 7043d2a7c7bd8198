//! Binary64 floating-point numbers, by their bits.
//!
//! The library works on such numbers with integers alone. It holds what the decoding of the
//! telemetry needs: dropping the fraction of a number, multiplying a number by a whole factor,
//! rounding a number to the nearest whole number, the conversion of a whole number to an
//! unsigned integer of 64 bits, and the conversion of an integer to the nearest number.

use vstd::arithmetic::div_mod::{
    lemma_basic_div, lemma_div_by_multiple, lemma_div_multiples_vanish_fancy,
    lemma_fundamental_div_mod, lemma_mod_multiples_basic, lemma_multiply_divide_lt,
};
use vstd::arithmetic::mul::{lemma_mul_increases, lemma_mul_is_commutative};
use vstd::arithmetic::power2::{
    lemma2_to64, lemma2_to64_rest, lemma_pow2_adds, lemma_pow2_pos, lemma_pow2_strictly_increases,
    lemma_pow2_unfold, pow2,
};
use vstd::prelude::*;

verus! {

/// A number as binary64 arithmetic has it, and as it gives it. A finite number is
/// `significand * 2^exponent`, negative where `negative` says so; the bits of a binary64 number
/// stand for one with a significand below 2^53, and the operations below give others.
pub ghost enum Float64 {
    /// What is not a number.
    Nan,
    /// Infinity.
    Infinite { negative: bool },
    /// A finite number.
    Finite { negative: bool, significand: nat, exponent: int },
}

/// A binary64 floating-point number, held by its bits. Two of them are equal where their bits
/// are.
#[derive(Clone, Copy, Debug, PartialEq, Eq)]
pub struct Binary64 {
    pub bits: u64,
}

/// A whole number by its sign and its size. A size beyond `u64::MAX` is held as `u64::MAX`.
#[derive(Clone, Copy, Debug, PartialEq, Eq)]
pub struct Whole {
    pub negative: bool,
    pub size: u64,
}

/// The number that the bits of a binary64 number stand for: the highest bit is the sign, the
/// next 11 are the exponent, the lowest 52 are the fraction.
pub open spec fn float_of(bits: u64) -> Float64 {
    let negative = bits >= 0x8000_0000_0000_0000;
    let biased = (bits / 0x10_0000_0000_0000) % 0x800;
    let fraction = bits % 0x10_0000_0000_0000;
    if biased == 0x7FF {
        if fraction == 0 {
            Float64::Infinite { negative }
        } else {
            Float64::Nan
        }
    } else if biased == 0 {
        Float64::Finite { negative, significand: fraction as nat, exponent: -1074 }
    } else {
        Float64::Finite {
            negative,
            significand: (0x10_0000_0000_0000 + fraction) as nat,
            exponent: biased - 1075,
        }
    }
}

/// The whole part of `significand * 2^exponent`.
pub open spec fn floor_of(significand: nat, exponent: int) -> nat {
    if exponent >= 0 {
        significand * pow2(exponent as nat)
    } else {
        significand / pow2((-exponent) as nat)
    }
}

/// The whole number nearest to `significand * 2^exponent`, the greater one of two that are
/// equally near.
pub open spec fn nearest_of(significand: nat, exponent: int) -> nat {
    if exponent >= 0 {
        significand * pow2(exponent as nat)
    } else {
        (significand + pow2((-exponent - 1) as nat)) / pow2((-exponent) as nat)
    }
}

/// The number of binary digits of `n`.
pub open spec fn width(n: nat) -> nat
    decreases n,
{
    if n == 0 {
        0
    } else {
        1 + width(n / 2)
    }
}

/// The whole number nearest to `n / 2^drop`, the even one of two that are equally near.
pub open spec fn to_even(n: nat, drop: nat) -> nat {
    let quotient = n / pow2(drop);
    let rest = n % pow2(drop);
    if 2 * rest > pow2(drop) || (2 * rest == pow2(drop) && quotient % 2 == 1) {
        quotient + 1
    } else {
        quotient
    }
}

/// A number without its fraction, as `f64::trunc` gives it.
pub open spec fn truncated(x: Float64) -> Float64 {
    match x {
        Float64::Finite { negative, significand, exponent } => Float64::Finite {
            negative,
            significand: floor_of(significand, exponent),
            exponent: 0,
        },
        _ => x,
    }
}

/// The whole number nearest to a number, halves away from zero, as `f64::round` gives it.
pub open spec fn rounded(x: Float64) -> Float64 {
    match x {
        Float64::Finite { negative, significand, exponent } => Float64::Finite {
            negative,
            significand: nearest_of(significand, exponent),
            exponent: 0,
        },
        _ => x,
    }
}

/// The product of a number and a whole factor, with a significand of 53 binary digits at most:
/// the exact product where it has no more, else the nearest such number, the one with the even
/// significand of two that are equally near.
///
/// For a factor that is a binary64 number itself, this is the product that binary64
/// multiplication gives wherever that product is finite and not below 2^-1022. Where
/// multiplication gives infinity, this number is 2^1024 or more; where it gives less than
/// 2^-1022, this number is less than 2^-1021.
pub open spec fn multiplied(x: Float64, factor: nat) -> Float64 {
    match x {
        Float64::Nan => Float64::Nan,
        Float64::Infinite { negative } => if factor == 0 {
            Float64::Nan
        } else {
            x
        },
        Float64::Finite { negative, significand, exponent } => {
            let exact = significand * factor;
            let drop = if width(exact) > 53 {
                (width(exact) - 53) as nat
            } else {
                0
            };
            Float64::Finite {
                negative,
                significand: to_even(exact, drop),
                exponent: exponent + drop,
            }
        },
    }
}

/// A number as a whole number, as `as` makes an integer of a binary64 number, but for the sign,
/// which is kept: the fraction is dropped, a size beyond `u64::MAX` becomes `u64::MAX`, and what
/// is not a number becomes zero.
pub open spec fn whole_of(x: Float64) -> Whole {
    match x {
        Float64::Nan => Whole { negative: false, size: 0 },
        Float64::Infinite { negative } => Whole { negative, size: u64::MAX },
        Float64::Finite { negative, significand, exponent } => Whole {
            negative,
            size: if floor_of(significand, exponent) > u64::MAX {
                u64::MAX
            } else {
                floor_of(significand, exponent) as u64
            },
        },
    }
}

/// The significand and the exponent of the binary64 number nearest to a whole number of the
/// size `size`, which is not zero, the one with the even significand of two that are equally
/// near. The significand has 53 binary digits.
pub open spec fn nearest_to_size(size: nat) -> (nat, int) {
    let digits = width(size);
    if digits <= 53 {
        (size * pow2((53 - digits) as nat), digits - 53)
    } else {
        let kept = to_even(size, (digits - 53) as nat);
        if kept == 0x20_0000_0000_0000 {
            (0x10_0000_0000_0000, digits - 52)
        } else {
            (kept, digits - 53)
        }
    }
}

/// The bits of the binary64 number nearest to an integer, as `as` makes a binary64 number of an
/// integer.
pub open spec fn nearest_to(integer: int) -> u64 {
    if integer == 0 {
        0
    } else {
        let size = if integer < 0 {
            (-integer) as nat
        } else {
            integer as nat
        };
        let sign: int = if integer < 0 {
            0x8000_0000_0000_0000
        } else {
            0
        };
        let (significand, exponent) = nearest_to_size(size);
        (sign + (exponent + 1075) * 0x10_0000_0000_0000 + (significand
            - 0x10_0000_0000_0000)) as u64
    }
}

/// Dropping the fraction of `significand / 2^k` gives the greatest whole number that is not
/// greater.
pub proof fn lemma_floor_of_is_whole_part(significand: nat, k: nat)
    ensures
        floor_of(significand, -(k as int)) * pow2(k) <= significand,
        significand < (floor_of(significand, -(k as int)) + 1) * pow2(k),
{
    lemma_pow2_pos(k);
    lemma2_to64();
    let d = pow2(k) as int;
    let q = significand as int / d;
    let r = significand as int % d;
    lemma_fundamental_div_mod(significand as int, d);
    assert(q * d <= d * q + r && d * q + r < (q + 1) * d) by (nonlinear_arith)
        requires
            0 <= r < d,
    ;
    if k == 0 {
        assert(significand * pow2(0) == significand && (significand + 1) * pow2(0) == significand
            + 1) by (nonlinear_arith)
            requires
                pow2(0) == 1,
        ;
    }
}

/// Rounding `significand / 2^k` gives a whole number that is no more than a half away, the
/// greater one where two are.
pub proof fn lemma_nearest_of_is_nearest(significand: nat, k: nat)
    requires
        k >= 1,
    ensures
        2 * nearest_of(significand, -(k as int)) * pow2(k) - pow2(k) <= 2 * significand,
        2 * significand < 2 * nearest_of(significand, -(k as int)) * pow2(k) + pow2(k),
{
    lemma_pow2_pos(k);
    lemma_pow2_unfold(k);
    let half = pow2((k - 1) as nat) as int;
    let d = pow2(k) as int;
    let q = (significand + half) / d;
    let r = (significand + half) % d;
    lemma_fundamental_div_mod(significand + half, d);
    assert(2 * q * d - d <= 2 * (d * q + r - half) && 2 * (d * q + r - half) < 2 * q * d + d)
        by (nonlinear_arith)
        requires
            0 <= r < d,
            d == 2 * half,
    ;
}

/// Rounding `n / 2^drop` to even gives a whole number that is no more than a half away, and
/// the even one where two are.
pub proof fn lemma_to_even_is_nearest(n: nat, drop: nat)
    ensures
        2 * to_even(n, drop) * pow2(drop) - pow2(drop) <= 2 * n,
        2 * n <= 2 * to_even(n, drop) * pow2(drop) + pow2(drop),
        2 * n == 2 * to_even(n, drop) * pow2(drop) - pow2(drop) || 2 * n == 2 * to_even(n, drop)
            * pow2(drop) + pow2(drop) ==> to_even(n, drop) % 2 == 0,
{
    lemma_pow2_pos(drop);
    let d = pow2(drop) as int;
    let q = n as int / d;
    let r = n as int % d;
    let e = to_even(n, drop) as int;
    lemma_fundamental_div_mod(n as int, d);
    assert(2 * e * d - d <= 2 * (d * q + r) && 2 * (d * q + r) <= 2 * e * d + d && (2 * (d * q + r)
        == 2 * e * d - d || 2 * (d * q + r) == 2 * e * d + d ==> 2 * r == d)) by (nonlinear_arith)
        requires
            0 <= r < d,
            e == q + 1 || e == q,
            e == q + 1 ==> 2 * r >= d,
            e == q ==> 2 * r <= d,
    ;
}

/// A number of `k` binary digits at most has a width of `k` at most.
pub proof fn lemma_width_at_most(n: nat, k: nat)
    requires
        n < pow2(k),
    ensures
        width(n) <= k,
    decreases k,
{
    if n > 0 {
        if k == 0 {
            lemma2_to64();
        } else {
            lemma_pow2_unfold(k);
            lemma_width_at_most(n / 2, (k - 1) as nat);
        }
    }
}

/// A number has no more binary digits than its width says.
pub proof fn lemma_width_is_enough(n: nat)
    ensures
        n < pow2(width(n)),
    decreases n,
{
    if n == 0 {
        lemma_pow2_pos(0);
    } else {
        lemma_width_is_enough(n / 2);
        lemma_pow2_unfold(width(n));
    }
}

/// From 2^64 on, powers of two are beyond `u64::MAX`.
proof fn lemma_pow2_beyond(k: nat)
    requires
        k >= 64,
    ensures
        pow2(k) >= 0x1_0000_0000_0000_0000,
{
    lemma2_to64();
    if k > 64 {
        lemma_pow2_strictly_increases(64, k);
    }
}

/// Two to the power of `k`.
fn pow2_of(k: u32) -> (r: u128)
    requires
        k <= 127,
    ensures
        r == pow2(k as nat),
        k <= 64 ==> r <= 0x1_0000_0000_0000_0000,
{
    let mut r: u128 = 1;
    let mut i: u32 = 0;
    proof {
        lemma2_to64();
        lemma2_to64_rest();
        lemma_pow2_adds(64, 63);
    }
    while i < k
        invariant
            i <= k <= 127,
            r == pow2(i as nat),
            i <= 64 ==> r <= 0x1_0000_0000_0000_0000,
            pow2(64) == 0x1_0000_0000_0000_0000,
            pow2(127) == 0x8000_0000_0000_0000_0000_0000_0000_0000,
        decreases k - i,
    {
        proof {
            lemma_pow2_unfold((i + 1) as nat);
            if i + 1 < 64 {
                lemma_pow2_strictly_increases((i + 1) as nat, 64);
            }
            if i + 1 < 127 {
                lemma_pow2_strictly_increases((i + 1) as nat, 127);
            }
        }
        r = r * 2;
        i = i + 1;
    }
    r
}

/// The number of binary digits of `n`.
fn width_of(n: u128) -> (r: u32)
    ensures
        r == width(n as nat),
        r <= 128,
{
    proof {
        lemma2_to64();
        lemma_pow2_adds(64, 64);
        lemma_width_at_most(n as nat, 128);
    }
    let mut rest: u128 = n;
    let mut r: u32 = 0;
    while rest > 0
        invariant
            width(n as nat) == r + width(rest as nat),
            width(n as nat) <= 128,
        decreases rest,
    {
        rest = rest / 2;
        r = r + 1;
    }
    r
}

/// The whole part of `significand * 2^exponent`, or `u64::MAX` where that is less.
fn floor_within(significand: u64, exponent: i64) -> (r: u64)
    requires
        significand <= 0x20_0000_0000_0000,
    ensures
        r == if floor_of(significand as nat, exponent as int) > u64::MAX {
            u64::MAX
        } else {
            floor_of(significand as nat, exponent as int) as u64
        },
{
    if significand == 0 {
        proof {
            if exponent < 0 {
                lemma_pow2_pos((-exponent) as nat);
            }
            assert(0 * pow2(exponent as nat) == 0);
        }
        0
    } else if exponent >= 64 {
        proof {
            lemma_pow2_beyond(exponent as nat);
            lemma_mul_increases(significand as int, pow2(exponent as nat) as int);
        }
        u64::MAX
    } else if exponent >= 0 {
        let scale: u128 = pow2_of(exponent as u32);
        assert(significand * scale <= 0x20_0000_0000_0000 * 0x1_0000_0000_0000_0000)
            by (nonlinear_arith)
            requires
                significand <= 0x20_0000_0000_0000,
                scale <= 0x1_0000_0000_0000_0000,
        ;
        let product: u128 = significand as u128 * scale;
        if product > u64::MAX as u128 {
            u64::MAX
        } else {
            product as u64
        }
    } else if exponent <= -64 {
        proof {
            lemma_pow2_beyond((-exponent) as nat);
            lemma_basic_div(significand as int, pow2((-exponent) as nat) as int);
        }
        0
    } else {
        let scale: u128 = pow2_of((-exponent) as u32);
        proof {
            lemma_pow2_pos((-exponent) as nat);
        }
        (significand as u128 / scale) as u64
    }
}

/// The whole number nearest to `significand * 2^exponent`, or `u64::MAX` where that is less.
fn nearest_within(significand: u64, exponent: i64) -> (r: u64)
    requires
        significand <= 0x20_0000_0000_0000,
    ensures
        r == if nearest_of(significand as nat, exponent as int) > u64::MAX {
            u64::MAX
        } else {
            nearest_of(significand as nat, exponent as int) as u64
        },
{
    if exponent >= 0 {
        floor_within(significand, exponent)
    } else if exponent <= -64 {
        proof {
            lemma2_to64();
            lemma2_to64_rest();
            let k = (-exponent) as nat;
            if k - 1 > 63 {
                lemma_pow2_strictly_increases(63, (k - 1) as nat);
            }
            lemma_pow2_unfold(k);
            lemma_basic_div((significand + pow2((k - 1) as nat)) as int, pow2(k) as int);
        }
        0
    } else {
        let half: u128 = pow2_of((-exponent - 1) as u32);
        let scale: u128 = pow2_of((-exponent) as u32);
        proof {
            lemma_pow2_unfold((-exponent) as nat);
            lemma_pow2_pos((-exponent) as nat);
        }
        ((significand as u128 + half) / scale) as u64
    }
}

/// What the bits of a binary64 number hold: the sign, the exponent and the fraction.
fn parts_of(bits: u64) -> (r: (bool, u64, u64))
    ensures
        r.0 == (bits >= 0x8000_0000_0000_0000),
        r.1 == (bits / 0x10_0000_0000_0000) % 0x800,
        r.2 == bits % 0x10_0000_0000_0000,
{
    (
        bits >= 0x8000_0000_0000_0000,
        (bits / 0x10_0000_0000_0000) % 0x800,
        bits % 0x10_0000_0000_0000,
    )
}

/// The whole number that a binary64 number comes to when its fraction is dropped, as
/// `x.trunc() as u64` gives it for the number `x` of these bits, with the sign kept.
pub fn truncate(bits: u64) -> (r: Whole)
    ensures
        r == whole_of(truncated(float_of(bits))),
{
    let (negative, biased, fraction) = parts_of(bits);
    proof {
        lemma2_to64();
    }
    if biased == 0x7FF {
        if fraction == 0 {
            Whole { negative, size: u64::MAX }
        } else {
            Whole { negative: false, size: 0 }
        }
    } else {
        let (significand, exponent): (u64, i64) = if biased == 0 {
            (fraction, -1074)
        } else {
            (0x10_0000_0000_0000 + fraction, biased as i64 - 1075)
        };
        let size = floor_within(significand, exponent);
        assert(floor_of(floor_of(significand as nat, exponent as int), 0) == floor_of(
            significand as nat,
            exponent as int,
        )) by (nonlinear_arith)
            requires
                pow2(0) == 1,
        ;
        Whole { negative, size }
    }
}

/// The whole number that a binary64 number comes to when it is multiplied by a factor and the
/// product is rounded, as `(x * factor).round() as u64` gives it for the number `x` of these
/// bits and a factor that is a binary64 number itself, with the sign kept.
pub fn multiply_and_round(bits: u64, factor: u64) -> (r: Whole)
    ensures
        r == whole_of(rounded(multiplied(float_of(bits), factor as nat))),
{
    let (negative, biased, fraction) = parts_of(bits);
    proof {
        lemma2_to64();
    }
    if biased == 0x7FF {
        if fraction == 0 && factor != 0 {
            Whole { negative, size: u64::MAX }
        } else {
            Whole { negative: false, size: 0 }
        }
    } else {
        let (significand, exponent): (u64, i64) = if biased == 0 {
            (fraction, -1074)
        } else {
            (0x10_0000_0000_0000 + fraction, biased as i64 - 1075)
        };
        assert(significand * factor <= 0x20_0000_0000_0000 * 0xFFFF_FFFF_FFFF_FFFF)
            by (nonlinear_arith)
            requires
                significand <= 0x20_0000_0000_0000,
                factor <= 0xFFFF_FFFF_FFFF_FFFF,
        ;
        let exact: u128 = significand as u128 * factor as u128;
        let digits: u32 = width_of(exact);
        let drop: u32 = if digits > 53 {
            digits - 53
        } else {
            0
        };
        proof {
            lemma2_to64();
            lemma2_to64_rest();
            lemma_pow2_adds(64, 53);
            assert(exact < pow2(117)) by (nonlinear_arith)
                requires
                    exact <= 0x20_0000_0000_0000 * 0xFFFF_FFFF_FFFF_FFFF,
                    pow2(117) == 0x1_0000_0000_0000_0000 * 0x20_0000_0000_0000,
            ;
            lemma_width_at_most(exact as nat, 117);
        }
        let scale: u128 = pow2_of(drop);
        let quotient: u128 = exact / scale;
        let rest: u128 = exact % scale;
        proof {
            lemma_width_is_enough(exact as nat);
            if digits > 53 {
                lemma_pow2_adds(drop as nat, 53);
            } else {
                if digits < 53 {
                    lemma_pow2_strictly_increases(digits as nat, 53);
                }
            }
            lemma_multiply_divide_lt(exact as int, scale as int, pow2(53) as int);
        }
        let kept: u128 = if 2 * rest > scale || (2 * rest == scale && quotient % 2 == 1) {
            quotient + 1
        } else {
            quotient
        };
        let size = nearest_within(kept as u64, exponent + drop as i64);
        assert(floor_of(nearest_of(kept as nat, exponent + drop), 0) == nearest_of(
            kept as nat,
            exponent + drop,
        )) by (nonlinear_arith)
            requires
                pow2(0) == 1,
        ;
        Whole { negative, size }
    }
}

/// A number of `k` binary digits has a size of 2^(k-1) at least.
pub proof fn lemma_width_is_needed(n: nat)
    requires
        n > 0,
    ensures
        pow2((width(n) - 1) as nat) <= n,
    decreases n,
{
    if n == 1 {
        assert(width(1) == 1 + width(0));
        lemma2_to64();
    } else {
        lemma_width_is_needed(n / 2);
        lemma_pow2_unfold((width(n) - 1) as nat);
    }
}

/// The binary64 number nearest to an integer below 2^128 in size is the number that its
/// significand and exponent say. It is the integer itself where that has 53 binary digits or
/// fewer, and else the integer rounded to its 53 highest binary digits.
pub proof fn lemma_nearest_to_is_near(integer: int)
    requires
        integer != 0,
        -pow2(128) < integer < pow2(128),
    ensures
        ({
            let size = if integer < 0 {
                (-integer) as nat
            } else {
                integer as nat
            };
            let (significand, exponent) = nearest_to_size(size);
            &&& float_of(nearest_to(integer)) == Float64::Finite {
                negative: integer < 0,
                significand,
                exponent,
            }
            &&& width(size) <= 53 ==> floor_of(significand, exponent) == size
            &&& width(size) > 53 ==> floor_of(significand, exponent) == to_even(
                size,
                (width(size) - 53) as nat,
            ) * pow2((width(size) - 53) as nat)
        }),
{
    let size = if integer < 0 {
        (-integer) as nat
    } else {
        integer as nat
    };
    let digits = width(size);
    let (significand, exponent) = nearest_to_size(size);
    lemma2_to64();
    lemma2_to64_rest();
    lemma_width_at_most(size, 128);
    lemma_width_is_enough(size);
    lemma_width_is_needed(size);
    if digits <= 53 {
        let k = (53 - digits) as nat;
        lemma_pow2_pos(k);
        lemma_pow2_adds(digits, k);
        lemma_pow2_adds((digits - 1) as nat, k);
        assert(size * pow2(k) < pow2(digits) * pow2(k)) by (nonlinear_arith)
            requires
                size < pow2(digits),
                pow2(k) > 0,
        ;
        assert(pow2((digits - 1) as nat) * pow2(k) <= size * pow2(k)) by (nonlinear_arith)
            requires
                pow2((digits - 1) as nat) <= size,
                pow2(k) > 0,
        ;
        lemma_div_by_multiple(size as int, pow2(k) as int);
        assert(size * pow2(0) == size) by (nonlinear_arith)
            requires
                pow2(0) == 1,
        ;
    } else {
        let drop = (digits - 53) as nat;
        let scale = pow2(drop);
        lemma_pow2_pos(drop);
        lemma_pow2_adds(drop, 53);
        lemma_pow2_adds(drop, 52);
        lemma_pow2_unfold(drop + 1);
        lemma_multiply_divide_lt(size as int, scale as int, pow2(53) as int);
        let quotient = size / scale;
        let rest = size % scale;
        if quotient < pow2(52) {
            lemma_fundamental_div_mod(size as int, scale as int);
            assert(scale * quotient + rest < scale * pow2(52)) by (nonlinear_arith)
                requires
                    quotient < pow2(52),
                    0 <= rest < scale,
            ;
        }
        if to_even(size, drop) == 0x20_0000_0000_0000 {
            assert(0x10_0000_0000_0000 * (2 * scale) == 0x20_0000_0000_0000 * scale)
                by (nonlinear_arith);
        }
    }
}

/// A number times 2^k has `k` binary digits more than the number.
pub proof fn lemma_width_of_multiple(n: nat, k: nat)
    requires
        n > 0,
    ensures
        width(n * pow2(k)) == width(n) + k,
    decreases k,
{
    lemma2_to64();
    if k == 0 {
        assert(n * pow2(0) == n) by (nonlinear_arith)
            requires
                pow2(0) == 1,
        ;
    } else {
        lemma_pow2_unfold(k);
        lemma_pow2_pos((k - 1) as nat);
        lemma_width_of_multiple(n, (k - 1) as nat);
        let half = n * pow2((k - 1) as nat);
        assert(n * pow2(k) == 2 * half && half > 0) by (nonlinear_arith)
            requires
                pow2(k) == 2 * pow2((k - 1) as nat),
                half == n * pow2((k - 1) as nat),
                n > 0,
                pow2((k - 1) as nat) > 0,
        ;
        assert((2 * half) / 2 == half);
    }
}

/// Whole numbers are held exactly as long as they are below 2^53: the binary64 number nearest
/// to one is the number itself, and multiplying it by a whole factor gives the product.
pub proof fn lemma_whole_numbers_are_exact(n: nat, factor: nat)
    requires
        factor >= 1,
        n * factor < 0x20_0000_0000_0000,
    ensures
        whole_of(truncated(float_of(nearest_to(n as int)))) == (Whole {
            negative: false,
            size: n as u64,
        }),
        whole_of(rounded(multiplied(float_of(nearest_to(n as int)), factor))) == (Whole {
            negative: false,
            size: (n * factor) as u64,
        }),
{
    lemma2_to64();
    lemma2_to64_rest();
    let m = n * factor;
    assert(n <= m) by (nonlinear_arith)
        requires
            m == n * factor,
            factor >= 1,
    ;
    if n == 0 {
        assert(m == 0);
        lemma_pow2_pos(1074);
        lemma_pow2_strictly_increases(1073, 1074);
        lemma_basic_div(pow2(1073) as int, pow2(1074) as int);
        assert(0nat * pow2(0) == 0);
    } else {
        lemma_pow2_strictly_increases(53, 128);
        lemma_nearest_to_is_near(n as int);
        lemma_width_at_most(n, 53);
        lemma_width_at_most(m, 53);
        let k = (53 - width(n)) as nat;
        let significand = n * pow2(k);
        let exact = significand * factor;
        assert(exact == m * pow2(k)) by (nonlinear_arith)
            requires
                exact == (n * pow2(k)) * factor,
                m == n * factor,
        ;
        lemma_width_of_multiple(m, k);
        let drop = if width(exact) > 53 {
            (width(exact) - 53) as nat
        } else {
            0
        };
        let j = (k - drop) as nat;
        lemma_pow2_adds(j, drop);
        lemma_pow2_pos(drop);
        lemma_pow2_pos(j);
        let kept = m * pow2(j);
        assert(exact == kept * pow2(drop)) by (nonlinear_arith)
            requires
                exact == m * pow2(k),
                pow2(k) == pow2(j) * pow2(drop),
                kept == m * pow2(j),
        ;
        lemma_div_by_multiple(kept as int, pow2(drop) as int);
        lemma_mod_multiples_basic(kept as int, pow2(drop) as int);
        assert(to_even(exact, drop) == kept);
        if j == 0 {
            assert(kept * pow2(0) == m) by (nonlinear_arith)
                requires
                    kept == m * pow2(0),
                    pow2(0) == 1,
            ;
        } else {
            lemma_pow2_strictly_increases((j - 1) as nat, j);
            lemma_mul_is_commutative(m as int, pow2(j) as int);
            lemma_div_multiples_vanish_fancy(m as int, pow2((j - 1) as nat) as int, pow2(j) as int);
        }
        assert(nearest_of(kept, -(j as int)) == m);
        assert(m * pow2(0) == m && n * pow2(0) == n) by (nonlinear_arith)
            requires
                pow2(0) == 1,
        ;
    }
}

/// The binary64 number nearest to an integer, as `integer as f64` gives it.
pub fn from_integer(integer: i128) -> (r: Binary64)
    ensures
        r.bits == nearest_to(integer as int),
{
    if integer == 0 {
        return Binary64 { bits: 0 };
    }
    let size: u128 = if integer < 0 {
        (-(integer + 1)) as u128 + 1
    } else {
        integer as u128
    };
    let sign: u64 = if integer < 0 {
        0x8000_0000_0000_0000
    } else {
        0
    };
    let digits: u32 = width_of(size);
    proof {
        lemma2_to64();
        lemma2_to64_rest();
        lemma_width_is_enough(size as nat);
        lemma_width_is_needed(size as nat);
    }
    let (significand, exponent): (u64, u64) = if digits <= 53 {
        let scale: u128 = pow2_of(53 - digits);
        proof {
            lemma_pow2_adds(digits as nat, (53 - digits) as nat);
            lemma_pow2_adds((digits - 1) as nat, (53 - digits) as nat);
            assert(size * scale < pow2(digits as nat) * scale) by (nonlinear_arith)
                requires
                    size < pow2(digits as nat),
                    scale > 0,
            ;
            assert(pow2((digits - 1) as nat) * scale <= size * scale) by (nonlinear_arith)
                requires
                    pow2((digits - 1) as nat) <= size,
                    scale > 0,
            ;
        }
        ((size * scale) as u64, (1022 + digits) as u64)
    } else {
        let drop: u32 = digits - 53;
        let scale: u128 = pow2_of(drop);
        proof {
            lemma_pow2_pos(drop as nat);
        }
        let quotient: u128 = size / scale;
        let rest: u128 = size % scale;
        proof {
            lemma_pow2_adds(drop as nat, 53);
            lemma_pow2_adds(drop as nat, 52);
            lemma_multiply_divide_lt(size as int, scale as int, pow2(53) as int);
            assert(pow2(52) <= quotient) by {
                if quotient < pow2(52) {
                    assert(size == scale * quotient + rest) by {
                        lemma_fundamental_div_mod(size as int, scale as int);
                    }
                    assert(scale * quotient + rest < scale * pow2(52)) by (nonlinear_arith)
                        requires
                            quotient < pow2(52),
                            0 <= rest < scale,
                    ;
                }
            }
        }
        let kept: u128 = if rest > scale - rest || (rest == scale - rest && quotient % 2 == 1) {
            quotient + 1
        } else {
            quotient
        };
        if kept == 0x20_0000_0000_0000 {
            (0x10_0000_0000_0000, (1023 + digits) as u64)
        } else {
            (kept as u64, (1022 + digits) as u64)
        }
    };
    Binary64 { bits: sign + exponent * 0x10_0000_0000_0000 + (significand - 0x10_0000_0000_0000) }
}

} // verus!
