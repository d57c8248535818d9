use rainfall_prediction::decimal::Decimal;
use rainfall_prediction::fixed_point::{
    fixed_add, fixed_add_observed, fixed_le, from_scaled_i64, PRECISION_MULTIPLIER,
    PRECISION_PLACES,
};
use rainfall_prediction::{from_fixed_point, to_fixed_point};

fn as_float(value: Decimal) -> f64 {
    value.mantissa as f64 / 10f64.powi(value.places as i32)
}

#[test]
fn test_fixed_point_conversion() {
    let original_float = 0.0220286213;
    let scaled_value = to_fixed_point(Decimal::new(220286213, 10));
    let back_to_float = as_float(from_fixed_point(scaled_value));

    let diff = (original_float - back_to_float).abs();
    assert!(diff < 1e-9);

    println!("Round-trip test: {} -> {} -> {}", original_float, scaled_value, back_to_float);

    let test_scaled = 220286213i64;
    let result = from_scaled_i64(test_scaled);
    assert_eq!(test_scaled, result);
    println!("from_scaled_i64 test: {} -> {}", test_scaled, result);
}

#[test]
fn test_fixed_point_arithmetic() {
    let a = to_fixed_point(Decimal::new(15, 1));
    let b = to_fixed_point(Decimal::new(23, 1));

    assert!(fixed_le(a, b));
    assert!(!fixed_le(b, a));
    assert!(fixed_le(a, a));

    let sum = fixed_add(a, b);
    let expected = to_fixed_point(Decimal::new(38, 1));
    assert_eq!(sum, expected);

    println!("Arithmetic test: {} + {} = {} (expected {})", a, b, sum, expected);
    println!(
        "As floats: {:.1} + {:.1} = {:.1}",
        as_float(from_fixed_point(a)),
        as_float(from_fixed_point(b)),
        as_float(from_fixed_point(sum))
    );
}

#[test]
fn test_fixed_point_roundtrip() {
    let test_values = [
        (0.0, Decimal::new(0, 0)),
        (1.0, Decimal::new(1, 0)),
        (-1.0, Decimal::new(-1, 0)),
        (0.123456789, Decimal::new(123456789, 9)),
        (-987.654321, Decimal::new(-987654321, 6)),
    ];

    for &(value, decimal) in &test_values {
        let fixed = to_fixed_point(decimal);
        let back = as_float(from_fixed_point(fixed));
        let error = (value - back).abs() as f64;

        assert!(error < 1e-9, "Round-trip error too large for {}: error = {}", value, error);
    }
}

#[test]
fn scale_is_ten_to_the_tenth() {
    assert_eq!(PRECISION_MULTIPLIER, 10_000_000_000);
    assert_eq!(PRECISION_PLACES, 10);
    assert_eq!(10i64.pow(PRECISION_PLACES), PRECISION_MULTIPLIER);
}

#[test]
fn fixed_le_is_exact_at_the_boundary() {
    assert!(fixed_le(50, 50));
    assert!(!fixed_le(51, 50));
    assert!(fixed_le(49, 50));
    assert!(fixed_le(i64::MIN, i64::MAX));
    assert!(!fixed_le(i64::MAX, i64::MIN));
    assert!(fixed_le(i64::MIN, i64::MIN));
    assert!(fixed_le(-1, 0));
    assert!(!fixed_le(0, -1));
}

#[test]
fn fixed_add_adds_when_in_range() {
    assert_eq!(fixed_add(3, 4), 7);
    assert_eq!(fixed_add(-3, 4), 1);
    assert_eq!(fixed_add(15_000_000_000, 23_000_000_000), 38_000_000_000);
    assert_eq!(fixed_add(i64::MAX, 0), i64::MAX);
    assert_eq!(fixed_add(i64::MAX, -1), i64::MAX - 1);
    assert_eq!(fixed_add(i64::MIN, 1), i64::MIN + 1);
    assert_eq!(fixed_add(i64::MAX, i64::MIN), -1);
    assert_eq!(fixed_add(i64::MAX - 1, 1), i64::MAX);
}

#[test]
fn fixed_add_clamps_instead_of_wrapping() {
    assert_eq!(fixed_add(i64::MAX, 1), i64::MAX);
    assert_eq!(fixed_add(1, i64::MAX), i64::MAX);
    assert_eq!(fixed_add(i64::MAX, i64::MAX), i64::MAX);
    assert_eq!(fixed_add(i64::MIN, -1), i64::MIN);
    assert_eq!(fixed_add(-1, i64::MIN), i64::MIN);
    assert_eq!(fixed_add(i64::MIN, i64::MIN), i64::MIN);
}

#[test]
fn fixed_add_agrees_with_std() {
    let samples = [i64::MIN, i64::MIN + 1, -7, -1, 0, 1, 7, i64::MAX - 1, i64::MAX];
    for &a in &samples {
        for &b in &samples {
            assert_eq!(fixed_add(a, b), a.saturating_add(b));
            assert_eq!(fixed_add_observed(a, b), (a.saturating_add(b), a.checked_add(b).is_none()));
        }
    }
}

#[test]
fn fixed_add_observed_reports_clamping() {
    assert_eq!(fixed_add_observed(3, 4), (7, false));
    assert_eq!(fixed_add_observed(i64::MAX, 1), (i64::MAX, true));
    assert_eq!(fixed_add_observed(i64::MIN, -1), (i64::MIN, true));
    assert_eq!(fixed_add_observed(i64::MAX, 0), (i64::MAX, false));
    assert_eq!(fixed_add_observed(i64::MIN, 0), (i64::MIN, false));
}

#[test]
fn from_scaled_i64_hands_the_value_on() {
    for &v in &[i64::MIN, -220286213, 0, 1, 120000000000, i64::MAX] {
        assert_eq!(from_scaled_i64(v), v);
    }
}
