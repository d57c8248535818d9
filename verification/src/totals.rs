//! Sums of scaled values: the saturating total that evaluation computes, the
//! mathematical total, and how the two relate.

use vstd::prelude::*;
use vstd::seq_lib::{commutative_foldl, lemma_fold_left_permutation};
use crate::fixed_point::{saturating_sum, sum_saturates};

verus! {

/// The values added up from zero, first to last, each addition clamped to the
/// range of `i64`.
pub open spec fn saturating_total(values: Seq<i64>) -> int
    decreases values.len(),
{
    if values.len() == 0 {
        0
    } else {
        saturating_sum(saturating_total(values.drop_last()), values.last() as int)
    }
}

/// Whether one of the additions that [`saturating_total`] performs is clamped.
pub open spec fn total_saturates(values: Seq<i64>) -> bool
    decreases values.len(),
{
    values.len() > 0 && (total_saturates(values.drop_last()) || sum_saturates(
        saturating_total(values.drop_last()),
        values.last() as int,
    ))
}

/// The mathematical sum of the values.
pub open spec fn exact_total(values: Seq<i64>) -> int
    decreases values.len(),
{
    if values.len() == 0 {
        0
    } else {
        exact_total(values.drop_last()) + values.last()
    }
}

/// Whether the mathematical sum of every prefix lies in the range of `i64`.
pub open spec fn partial_sums_in_range(values: Seq<i64>) -> bool {
    forall|k: int|
        0 <= k <= values.len() ==> i64::MIN <= #[trigger] exact_total(values.take(k)) <= i64::MAX
}

/// The saturating total never leaves the range of `i64`.
pub proof fn lemma_saturating_total_in_range(values: Seq<i64>)
    ensures
        i64::MIN <= saturating_total(values) <= i64::MAX,
    decreases values.len(),
{
    if values.len() > 0 {
        lemma_saturating_total_in_range(values.drop_last());
    }
}

/// An addition is clamped exactly when the mathematical sum of some prefix
/// leaves the range of `i64`; when none does, the saturating total is the
/// mathematical sum.
pub proof fn lemma_saturation_is_partial_sum_out_of_range(values: Seq<i64>)
    ensures
        total_saturates(values) <==> !partial_sums_in_range(values),
        !total_saturates(values) ==> saturating_total(values) == exact_total(values),
    decreases values.len(),
{
    if values.len() == 0 {
        assert forall|k: int| 0 <= k <= values.len() implies i64::MIN <= #[trigger] exact_total(
            values.take(k),
        ) <= i64::MAX by {
            assert(values.take(k) =~= values);
        }
    } else {
        let front = values.drop_last();
        lemma_saturation_is_partial_sum_out_of_range(front);
        assert(values.take(values.len() as int) =~= values);
        assert forall|k: int| 0 <= k <= front.len() implies #[trigger] values.take(k)
            == front.take(k) by {
            assert(values.take(k) =~= front.take(k));
        }
        if partial_sums_in_range(values) {
            assert forall|k: int| 0 <= k <= front.len() implies i64::MIN <= #[trigger] exact_total(
                front.take(k),
            ) <= i64::MAX by {
                assert(values.take(k) == front.take(k));
                assert(i64::MIN <= exact_total(values.take(k)) <= i64::MAX);
            }
            assert(i64::MIN <= exact_total(values.take(values.len() as int)) <= i64::MAX);
        }
        if !total_saturates(values) {
            assert forall|k: int| 0 <= k <= values.len() implies i64::MIN <= #[trigger] exact_total(
                values.take(k),
            ) <= i64::MAX by {
                if k < values.len() {
                    assert(values.take(k) == front.take(k));
                    assert(i64::MIN <= exact_total(front.take(k)) <= i64::MAX);
                }
            }
        }
    }
}

/// Values none of which is negative total to their mathematical sum, or to
/// `i64::MAX` when that sum is larger: the total stays at the bound and never
/// turns negative.
pub proof fn lemma_total_clamps_at_maximum(values: Seq<i64>)
    requires
        forall|i: int| 0 <= i < values.len() ==> #[trigger] values[i] >= 0,
    ensures
        0 <= exact_total(values),
        saturating_total(values) == if exact_total(values) > i64::MAX {
            i64::MAX as int
        } else {
            exact_total(values)
        },
    decreases values.len(),
{
    if values.len() > 0 {
        lemma_total_clamps_at_maximum(values.drop_last());
    }
}

/// Values none of which is positive total to their mathematical sum, or to
/// `i64::MIN` when that sum is smaller.
pub proof fn lemma_total_clamps_at_minimum(values: Seq<i64>)
    requires
        forall|i: int| 0 <= i < values.len() ==> #[trigger] values[i] <= 0,
    ensures
        exact_total(values) <= 0,
        saturating_total(values) == if exact_total(values) < i64::MIN {
            i64::MIN as int
        } else {
            exact_total(values)
        },
    decreases values.len(),
{
    if values.len() > 0 {
        lemma_total_clamps_at_minimum(values.drop_last());
    }
}

/// The function that [`exact_total`] folds over the values.
pub open spec fn add_value() -> spec_fn(int, i64) -> int {
    |acc: int, value: i64| acc + value
}

/// The mathematical sum is a left fold with `+`.
pub proof fn lemma_exact_total_is_fold(values: Seq<i64>)
    ensures
        exact_total(values) == values.fold_left(0int, add_value()),
    decreases values.len(),
{
    if values.len() > 0 {
        lemma_exact_total_is_fold(values.drop_last());
    }
}

/// The mathematical sum does not depend on the order of the values.
pub proof fn lemma_exact_total_of_permutation(a: Seq<i64>, b: Seq<i64>)
    requires
        a.to_multiset() == b.to_multiset(),
    ensures
        exact_total(a) == exact_total(b),
{
    lemma_exact_total_is_fold(a);
    lemma_exact_total_is_fold(b);
    assert(commutative_foldl(add_value()));
    lemma_fold_left_permutation(a, b, add_value(), 0int);
}

/// Two orders of the same values give the same saturating total, the
/// mathematical sum, as long as no prefix of either order sums to a number
/// outside the range of `i64`.
pub proof fn lemma_total_of_permutation(a: Seq<i64>, b: Seq<i64>)
    requires
        a.to_multiset() == b.to_multiset(),
        partial_sums_in_range(a),
        partial_sums_in_range(b),
    ensures
        saturating_total(a) == exact_total(a),
        saturating_total(b) == exact_total(a),
{
    lemma_saturation_is_partial_sum_out_of_range(a);
    lemma_saturation_is_partial_sum_out_of_range(b);
    lemma_exact_total_of_permutation(a, b);
}

/// Values that are each at most `bound` in magnitude, and few enough that
/// their magnitudes cannot add up beyond `i64::MAX`, never saturate, and
/// their total is at most `bound` times their number in magnitude.
pub proof fn lemma_bounded_values_do_not_saturate(values: Seq<i64>, bound: nat)
    requires
        forall|i: int| 0 <= i < values.len() ==> -bound <= #[trigger] values[i] <= bound,
        values.len() * bound <= i64::MAX,
    ensures
        !total_saturates(values),
        saturating_total(values) == exact_total(values),
        -(values.len() * bound) <= exact_total(values) <= values.len() * bound,
    decreases values.len(),
{
    if values.len() > 0 {
        let front = values.drop_last();
        assert(front.len() * bound + bound == values.len() * bound) by (nonlinear_arith)
            requires
                front.len() + 1 == values.len(),
        ;
        lemma_bounded_values_do_not_saturate(front, bound);
    } else {
        assert(values.len() * bound == 0) by (nonlinear_arith)
            requires
                values.len() == 0,
        ;
    }
}

} // verus!
