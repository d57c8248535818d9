//! Preparation of feature vectors: quantizing decimal measurements and
//! fitting a vector to the length a model expects.

use vstd::prelude::*;
use crate::decimal::{quantized, to_fixed_point, Decimal};

verus! {

/// The scaled value of each decimal, in order.
pub open spec fn quantized_all(values: Seq<Decimal>) -> Seq<i64> {
    Seq::new(values.len(), |i: int| quantized(values[i]) as i64)
}

/// The first `count` of the values, zeros standing in for values that are
/// missing.
pub open spec fn resized(values: Seq<i64>, count: nat) -> Seq<i64> {
    Seq::new(
        count,
        |i: int|
            if i < values.len() {
                values[i]
            } else {
                0i64
            },
    )
}

/// Quantizes every measurement of a feature vector.
pub fn prepare_features(float_features: &[Decimal]) -> (scaled: Vec<i64>)
    ensures
        scaled@ == quantized_all(float_features@),
{
    let mut scaled: Vec<i64> = Vec::new();
    let mut i: usize = 0;
    while i < float_features.len()
        invariant
            i <= float_features.len(),
            scaled@.len() == i,
            forall|j: int| 0 <= j < i ==> #[trigger] scaled@[j] == quantized(float_features@[j]),
        decreases float_features.len() - i,
    {
        scaled.push(to_fixed_point(float_features[i]));
        i = i + 1;
    }
    proof {
        assert(scaled@ =~= quantized_all(float_features@));
    }
    scaled
}

/// Cuts a feature vector down to `count` entries, or fills it up to `count`
/// entries with zeros.
pub fn resize_features(features: &[i64], count: usize) -> (fitted: Vec<i64>)
    ensures
        fitted@ == resized(features@, count as nat),
{
    let mut fitted: Vec<i64> = Vec::new();
    let mut i: usize = 0;
    while i < count
        invariant
            i <= count,
            fitted@.len() == i,
            forall|j: int| 0 <= j < i ==> #[trigger] fitted@[j] == resized(features@, count as nat)[j],
        decreases count - i,
    {
        let value = if i < features.len() {
            features[i]
        } else {
            0
        };
        fitted.push(value);
        i = i + 1;
    }
    proof {
        assert(fitted@ =~= resized(features@, count as nat));
    }
    fitted
}

} // verus!
