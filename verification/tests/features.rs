use rainfall_prediction::decimal::Decimal;
use rainfall_prediction::features::resize_features;
use rainfall_prediction::{prepare_features, to_fixed_point};

#[test]
fn test_feature_preparation() {
    let features = vec![
        Decimal::new(1, 1),
        Decimal::new(-2, 1),
        Decimal::new(0, 1),
        Decimal::new(15, 1),
    ];
    let scaled = prepare_features(&features);

    assert_eq!(scaled.len(), features.len());

    for (i, (&original, &scaled_val)) in features.iter().zip(scaled.iter()).enumerate() {
        let expected = to_fixed_point(original);
        assert_eq!(scaled_val, expected, "Feature {} scaling incorrect", i);
    }
}

#[test]
fn prepared_features_have_exact_values() {
    let features = vec![
        Decimal::new(1, 1),
        Decimal::new(-2, 1),
        Decimal::new(0, 0),
        Decimal::new(15, 1),
        Decimal::new(-28, 1),
        Decimal::new(220286213, 10),
        Decimal::new(5, 11),
    ];
    assert_eq!(
        prepare_features(&features),
        vec![1_000_000_000, -2_000_000_000, 0, 15_000_000_000, -28_000_000_000, 220286213, 1]
    );
    assert_eq!(prepare_features(&[]), Vec::<i64>::new());
}

#[test]
fn short_vector_is_filled_with_zeros() {
    assert_eq!(resize_features(&[7, -8], 5), vec![7, -8, 0, 0, 0]);
    assert_eq!(resize_features(&[], 3), vec![0, 0, 0]);
}

#[test]
fn long_vector_is_cut() {
    assert_eq!(resize_features(&[1, 2, 3, 4, 5], 2), vec![1, 2]);
    assert_eq!(resize_features(&[1, 2, 3], 0), Vec::<i64>::new());
}

#[test]
fn vector_of_the_right_length_is_copied() {
    assert_eq!(resize_features(&[i64::MIN, 0, i64::MAX], 3), vec![i64::MIN, 0, i64::MAX]);
    let features: Vec<i64> = (0..116).collect();
    assert_eq!(resize_features(&features, 116), features);
}
