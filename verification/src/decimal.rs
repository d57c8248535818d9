//! Decimal numbers and their conversion to and from scaled values.
//!
//! A [`Decimal`] is an integer with a number of decimal places, so a value
//! such as 0.0220286213 is held exactly. Quantization multiplies by
//! `PRECISION_MULTIPLIER` and rounds to the nearest integer, halves away from
//! zero.

use vstd::prelude::*;
use vstd::arithmetic::div_mod::{
    lemma_basic_div,
    lemma_fundamental_div_mod,
    lemma_mod_bound,
    lemma_mod_multiples_basic,
};
use vstd::math::abs;
use crate::fixed_point::{clamp_to_i64, PRECISION_MULTIPLIER, PRECISION_PLACES};

verus! {

/// The number `mantissa / 10^places`.
#[derive(Clone, Copy, Debug, PartialEq, Eq, Structural)]
pub struct Decimal {
    pub mantissa: i64,
    pub places: u32,
}

/// Ten to the power `n`.
pub open spec fn pow10(n: nat) -> int
    decreases n,
{
    if n == 0 {
        1
    } else {
        10 * pow10((n - 1) as nat)
    }
}

/// The quotient `num / den` rounded to the nearest integer, a quotient half
/// way between two integers going to the one further from zero. Meant for
/// `den > 0`.
pub open spec fn round_half_away(num: int, den: int) -> int {
    if num >= 0 {
        (2 * num + den) / (2 * den)
    } else {
        -((2 * (-num) + den) / (2 * den))
    }
}

/// The decimal times `PRECISION_MULTIPLIER`, rounded.
pub open spec fn scaled_exactly(value: Decimal) -> int {
    round_half_away(
        value.mantissa * pow10(PRECISION_PLACES as nat),
        pow10(value.places as nat),
    )
}

/// The scaled value of the decimal: [`scaled_exactly`], clamped to the range
/// of `i64`.
pub open spec fn quantized(value: Decimal) -> int {
    clamp_to_i64(scaled_exactly(value))
}

/// The decimal that a scaled value stands for.
pub open spec fn decimal_of_scaled(fixed_value: i64) -> Decimal {
    Decimal { mantissa: fixed_value, places: PRECISION_PLACES }
}

/// The difference `a - b` of two decimals, multiplied by ten to the power
/// `a.places + b.places`, which makes it an integer.
pub open spec fn difference_scaled(a: Decimal, b: Decimal) -> int {
    a.mantissa * pow10(b.places as nat) - b.mantissa * pow10(a.places as nat)
}

/// Whether the two decimals are the same number.
pub open spec fn same_number(a: Decimal, b: Decimal) -> bool {
    difference_scaled(a, b) == 0
}

/// Whether the two decimals differ by less than one step of the scale, that
/// is by less than `1 / PRECISION_MULTIPLIER`.
pub open spec fn within_one_step(a: Decimal, b: Decimal) -> bool {
    abs(difference_scaled(a, b)) * PRECISION_MULTIPLIER < pow10((a.places + b.places) as nat)
}

/// Whether the decimal is a whole number of steps of the scale.
pub open spec fn is_whole_steps(value: Decimal) -> bool {
    (value.mantissa * pow10(PRECISION_PLACES as nat)) % pow10(value.places as nat) == 0
}

/// Powers of ten are positive.
pub proof fn lemma_pow10_positive(n: nat)
    ensures
        pow10(n) >= 1,
    decreases n,
{
    if n > 0 {
        lemma_pow10_positive((n - 1) as nat);
    }
}

/// Powers of ten grow with the exponent.
pub proof fn lemma_pow10_monotonic(a: nat, b: nat)
    requires
        a <= b,
    ensures
        pow10(a) <= pow10(b),
    decreases b,
{
    if a < b {
        lemma_pow10_monotonic(a, (b - 1) as nat);
        lemma_pow10_positive((b - 1) as nat);
    }
}

/// The power of ten of a sum is the product of the powers.
pub proof fn lemma_pow10_adds(a: nat, b: nat)
    ensures
        pow10(a + b) == pow10(a) * pow10(b),
    decreases b,
{
    if b == 0 {
        assert(pow10(a) * 1 == pow10(a));
    } else {
        lemma_pow10_adds(a, (b - 1) as nat);
        assert(10 * (pow10(a) * pow10((b - 1) as nat)) == pow10(a) * (10 * pow10((b - 1) as nat)))
            by (nonlinear_arith);
    }
}

/// The scale is ten to the power of its places.
pub proof fn lemma_scale_is_power_of_ten()
    ensures
        pow10(PRECISION_PLACES as nat) == PRECISION_MULTIPLIER,
{
    reveal_with_fuel(pow10, 11);
}

/// Rounding gives an integer at most half a unit from the quotient, on the
/// side of the quotient's sign; when two integers are that close, it gives
/// the one of larger magnitude.
pub proof fn lemma_round_half_away_is_nearest(num: int, den: int)
    requires
        den > 0,
    ensures
        2 * abs(round_half_away(num, den) * den - num) <= den,
        2 * abs(round_half_away(num, den) * den - num) == den ==> abs(
            round_half_away(num, den) * den,
        ) > abs(num),
        num >= 0 ==> round_half_away(num, den) >= 0,
        num <= 0 ==> round_half_away(num, den) <= 0,
{
    let a: int = if num >= 0 {
        num
    } else {
        -num
    };
    let x = 2 * a + den;
    let d = 2 * den;
    let q = x / d;
    let r = x % d;
    lemma_fundamental_div_mod(x, d);
    lemma_mod_bound(x, d);
    assert(x == d * q + r);
    assert(0 <= r < d);
    assert(d * q == 2 * (q * den)) by (nonlinear_arith)
        requires
            d == 2 * den,
    ;
    assert(q >= 0) by (nonlinear_arith)
        requires
            d * q + r == x,
            x >= 0,
            r < d,
            d > 0,
    ;
    assert(2 * (q * den - a) == den - r);
    if num >= 0 {
        assert(round_half_away(num, den) == q);
        if num == 0 {
            lemma_basic_div(x, d);
        }
    } else {
        assert(round_half_away(num, den) == -q);
        assert((-q) * den == -(q * den)) by (nonlinear_arith);
    }
}

/// A quotient that is an integer is left as it is.
pub proof fn lemma_round_half_away_of_multiple(num: int, den: int)
    requires
        den > 0,
        num % den == 0,
    ensures
        round_half_away(num, den) * den == num,
{
    lemma_round_half_away_is_nearest(num, den);
    let q = round_half_away(num, den);
    let k = num / den;
    lemma_fundamental_div_mod(num, den);
    assert(num == den * k);
    assert(q * den - num == (q - k) * den) by (nonlinear_arith)
        requires
            num == den * k,
    ;
    assert(q == k) by (nonlinear_arith)
        requires
            2 * abs((q - k) * den) <= den,
            den > 0,
    ;
    assert(k * den == den * k) by (nonlinear_arith);
}

/// A quotient of magnitude below one half rounds to zero.
pub proof fn lemma_round_half_away_small(num: int, den: int)
    requires
        den > 0,
        2 * abs(num) < den,
    ensures
        round_half_away(num, den) == 0,
{
    lemma_basic_div(2 * abs(num) + den, 2 * den);
}

/// A decimal whose scaled value fits in `i64` comes back from quantization
/// and conversion to a decimal less than one step of the scale away from
/// where it started, and unchanged when it is a whole number of steps.
pub proof fn lemma_round_trip_within_one_step(value: Decimal)
    requires
        i64::MIN <= scaled_exactly(value) <= i64::MAX,
    ensures
        within_one_step(decimal_of_scaled(quantized(value) as i64), value),
        is_whole_steps(value) ==> same_number(decimal_of_scaled(quantized(value) as i64), value),
{
    let num = value.mantissa * pow10(PRECISION_PLACES as nat);
    let den = pow10(value.places as nat);
    let q = scaled_exactly(value);
    let back = decimal_of_scaled(quantized(value) as i64);
    lemma_pow10_positive(value.places as nat);
    lemma_scale_is_power_of_ten();
    lemma_round_half_away_is_nearest(num, den);
    lemma_pow10_adds(PRECISION_PLACES as nat, value.places as nat);
    assert(difference_scaled(back, value) == q * den - num);
    assert(abs(q * den - num) * PRECISION_MULTIPLIER < PRECISION_MULTIPLIER * den)
        by (nonlinear_arith)
        requires
            2 * abs(q * den - num) <= den,
            den >= 1,
            PRECISION_MULTIPLIER > 0,
    ;
    if is_whole_steps(value) {
        lemma_round_half_away_of_multiple(num, den);
    }
}

/// A scaled value comes back unchanged from conversion to a decimal and
/// quantization.
pub proof fn lemma_scaled_value_round_trip(fixed_value: i64)
    ensures
        quantized(decimal_of_scaled(fixed_value)) == fixed_value,
{
    let den = pow10(PRECISION_PLACES as nat);
    let num = fixed_value * den;
    lemma_scale_is_power_of_ten();
    lemma_mod_multiples_basic(fixed_value as int, den);
    lemma_round_half_away_of_multiple(num, den);
    let q = round_half_away(num, den);
    assert(q == fixed_value) by (nonlinear_arith)
        requires
            q * den == fixed_value * den,
            den > 0,
    ;
}

impl Decimal {
    /// The number `mantissa / 10^places`.
    pub fn new(mantissa: i64, places: u32) -> (r: Decimal)
        ensures
            r == (Decimal { mantissa, places }),
    {
        Decimal { mantissa, places }
    }
}

/// Computes ten to the power `n`.
fn power_of_ten(n: u32) -> (r: u128)
    requires
        n <= 30,
    ensures
        r == pow10(n as nat),
        r <= 1_000_000_000_000_000_000_000_000_000_000,
{
    let mut r: u128 = 1;
    let mut i: u32 = 0;
    proof {
        assert(pow10(30) == 1_000_000_000_000_000_000_000_000_000_000) by {
            reveal_with_fuel(pow10, 31);
        }
        lemma_pow10_monotonic(n as nat, 30);
    }
    while i < n
        invariant
            i <= n <= 30,
            r == pow10(i as nat),
            pow10(30) == 1_000_000_000_000_000_000_000_000_000_000,
        decreases n - i,
    {
        proof {
            lemma_pow10_monotonic((i + 1) as nat, 30);
        }
        r = r * 10;
        i = i + 1;
    }
    r
}

/// Converts a decimal to its scaled value: the decimal times
/// `PRECISION_MULTIPLIER`, rounded to the nearest integer with halves away
/// from zero, and clamped to the range of `i64`.
pub fn to_fixed_point(value: Decimal) -> (r: i64)
    ensures
        r == quantized(value),
{
    proof {
        lemma_scale_is_power_of_ten();
        lemma_pow10_positive(value.places as nat);
    }
    let negative = value.mantissa < 0;
    let magnitude: u128 = if negative {
        (-(value.mantissa as i128)) as u128
    } else {
        value.mantissa as u128
    };
    let num: u128 = magnitude * 10_000_000_000;
    assert(num == abs(value.mantissa * pow10(PRECISION_PLACES as nat)));
    if value.places >= 30 {
        proof {
            lemma_pow10_monotonic(30, value.places as nat);
            assert(pow10(30) == 1_000_000_000_000_000_000_000_000_000_000) by {
                reveal_with_fuel(pow10, 31);
            }
            lemma_round_half_away_small(
                value.mantissa * pow10(PRECISION_PLACES as nat),
                pow10(value.places as nat),
            );
        }
        return 0;
    }
    let den: u128 = power_of_ten(value.places);
    let quotient: u128 = (2 * num + den) / (2 * den);
    if negative {
        if quotient > 9_223_372_036_854_775_808 {
            i64::MIN
        } else {
            (-(quotient as i128)) as i64
        }
    } else {
        if quotient > 9_223_372_036_854_775_807 {
            i64::MAX
        } else {
            quotient as i64
        }
    }
}

/// Converts a scaled value to the decimal it stands for: the value divided
/// by `PRECISION_MULTIPLIER`, held exactly.
pub fn from_fixed_point(fixed_value: i64) -> (r: Decimal)
    ensures
        r == decimal_of_scaled(fixed_value),
{
    Decimal { mantissa: fixed_value, places: PRECISION_PLACES }
}

} // verus!
