//! Scaled-integer arithmetic: the only numeric operations that tree
//! evaluation is allowed to use.
//!
//! A scaled value is an `i64` that stands for a real number multiplied by
//! [`PRECISION_MULTIPLIER`].

use vstd::prelude::*;

verus! {

/// Number by which a real value is multiplied to obtain its scaled integer.
pub const PRECISION_MULTIPLIER: i64 = 10_000_000_000;

/// Number of decimal places that a scaled value keeps: `PRECISION_MULTIPLIER`
/// is ten to this power.
pub const PRECISION_PLACES: u32 = 10;

/// `x` clamped to the range of `i64`.
pub open spec fn clamp_to_i64(x: int) -> int {
    if x > i64::MAX {
        i64::MAX as int
    } else if x < i64::MIN {
        i64::MIN as int
    } else {
        x
    }
}

/// The mathematical sum of `a` and `b`, clamped to the range of `i64`.
pub open spec fn saturating_sum(a: int, b: int) -> int {
    clamp_to_i64(a + b)
}

/// Whether adding `a` and `b` leaves the range of `i64`, so that
/// [`fixed_add`] clamps.
pub open spec fn sum_saturates(a: int, b: int) -> bool {
    a + b > i64::MAX || a + b < i64::MIN
}

/// Exact comparison of two scaled values; every split decision goes through
/// it.
pub fn fixed_le(a: i64, b: i64) -> (r: bool)
    ensures
        r == (a <= b),
{
    a <= b
}

/// Addition of two scaled values that clamps at the bounds of `i64` instead
/// of wrapping.
pub fn fixed_add(a: i64, b: i64) -> (r: i64)
    ensures
        r == saturating_sum(a as int, b as int),
        !sum_saturates(a as int, b as int) ==> r == a + b,
{
    match a.checked_add(b) {
        Some(sum) => sum,
        None => if b > 0 {
            i64::MAX
        } else {
            i64::MIN
        },
    }
}

/// Addition of two scaled values together with the fact whether it clamped.
pub fn fixed_add_observed(a: i64, b: i64) -> (r: (i64, bool))
    ensures
        r.0 == saturating_sum(a as int, b as int),
        r.1 == sum_saturates(a as int, b as int),
{
    match a.checked_add(b) {
        Some(sum) => (sum, false),
        None => if b > 0 {
            (i64::MAX, true)
        } else {
            (i64::MIN, true)
        },
    }
}

/// Takes an integer that is already expressed in the scale and hands it on
/// as a scaled value.
pub fn from_scaled_i64(scaled_value: i64) -> (r: i64)
    ensures
        r == scaled_value,
{
    scaled_value
}

} // verus!
