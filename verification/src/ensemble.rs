//! Additive ensembles of decision trees and their evaluation.

use vstd::prelude::*;
use vstd::seq_lib::{commutative_foldl, lemma_fold_left_permutation, to_multiset_contains};
use crate::fixed_point::fixed_add_observed;
use crate::totals::{
    exact_total,
    lemma_saturation_is_partial_sum_out_of_range,
    partial_sums_in_range,
    saturating_total,
    total_saturates,
};
use crate::tree::{PredictError, Tree, TreeView};
use crate::walks::lemma_well_formed_tree_evaluates;

verus! {

/// An ordered collection of trees that share one feature-vector length and
/// one scale factor.
#[derive(Clone, Debug, PartialEq, Eq)]
pub struct Ensemble {
    pub trees: Vec<Tree>,
    pub feature_count: usize,
    pub scale: i64,
}

/// Mathematical model of an [`Ensemble`].
pub struct EnsembleView {
    pub trees: Seq<TreeView>,
    pub feature_count: nat,
    pub scale: int,
}

impl View for Ensemble {
    type V = EnsembleView;

    open spec fn view(&self) -> EnsembleView {
        EnsembleView {
            trees: Seq::new(self.trees@.len(), |i: int| self.trees@[i]@),
            feature_count: self.feature_count as nat,
            scale: self.scale as int,
        }
    }
}

/// The aggregate of an ensemble for one feature vector, and whether an
/// addition on the way to it was clamped.
#[derive(Clone, Copy, Debug, PartialEq, Eq, Structural)]
pub struct Prediction {
    /// Saturating sum of the leaf values, in tree order.
    pub value: i64,
    /// Whether one of the additions left the range of `i64` and was clamped.
    pub saturated: bool,
}

/// The error of the first element that is an error, if there is one.
pub open spec fn first_error(results: Seq<Result<i64, PredictError>>) -> Option<PredictError>
    decreases results.len(),
{
    if results.len() == 0 {
        None
    } else {
        match first_error(results.drop_last()) {
            Some(e) => Some(e),
            None => match results.last() {
                Err(e) => Some(e),
                Ok(_) => None,
            },
        }
    }
}

/// The leaf value that a tree reaches; zero stands for a walk that fails.
pub open spec fn leaf_value(tree: TreeView, features: Seq<i64>) -> i64 {
    match tree.evaluate(features) {
        Ok(value) => value,
        Err(_) => 0i64,
    }
}

/// The leaf value that each of the trees, in order, reaches.
pub open spec fn tree_values(trees: Seq<TreeView>, features: Seq<i64>) -> Seq<i64> {
    Seq::new(trees.len(), |i: int| leaf_value(trees[i], features))
}

impl EnsembleView {
    /// Whether every tree is well formed for the ensemble's feature count.
    pub open spec fn well_formed(self) -> bool {
        forall|k: int|
            0 <= k < self.trees.len() ==> (#[trigger] self.trees[k]).well_formed(self.feature_count)
    }

    /// What each tree, in order, makes of the feature vector.
    pub open spec fn results(self, features: Seq<i64>) -> Seq<Result<i64, PredictError>> {
        Seq::new(self.trees.len(), |i: int| self.trees[i].evaluate(features))
    }

    /// The leaf value that each tree, in order, reaches.
    pub open spec fn leaf_values(self, features: Seq<i64>) -> Seq<i64> {
        tree_values(self.trees, features)
    }

    /// The prediction with its saturation flag: a feature vector of the wrong
    /// length is refused before any tree is looked at; otherwise the error of
    /// the first tree that fails, if one does; otherwise the saturating sum of
    /// the leaf values in tree order.
    pub open spec fn predict_detailed(self, features: Seq<i64>) -> Result<
        Prediction,
        PredictError,
    > {
        if features.len() != self.feature_count {
            Err(PredictError::FeatureCountMismatch)
        } else {
            match first_error(self.results(features)) {
                Some(e) => Err(e),
                None => Ok(
                    Prediction {
                        value: saturating_total(self.leaf_values(features)) as i64,
                        saturated: total_saturates(self.leaf_values(features)),
                    },
                ),
            }
        }
    }

    /// The prediction alone.
    pub open spec fn predict(self, features: Seq<i64>) -> Result<i64, PredictError> {
        match self.predict_detailed(features) {
            Ok(prediction) => Ok(prediction.value),
            Err(e) => Err(e),
        }
    }
}

/// An error in a prefix is the first error of the whole sequence.
pub proof fn lemma_first_error_of_prefix(
    results: Seq<Result<i64, PredictError>>,
    k: int,
    e: PredictError,
)
    requires
        0 <= k <= results.len(),
        first_error(results.take(k)) == Some(e),
    ensures
        first_error(results) == Some(e),
    decreases results.len() - k,
{
    if k == results.len() {
        assert(results.take(k) =~= results);
    } else {
        assert(results.take(k + 1).drop_last() =~= results.take(k));
        lemma_first_error_of_prefix(results, k + 1, e);
    }
}

/// There is no first error exactly when no element is an error, and a first
/// error stands at a position before which no element is an error.
pub proof fn lemma_first_error_is_first(results: Seq<Result<i64, PredictError>>)
    ensures
        first_error(results) is None <==> forall|i: int|
            0 <= i < results.len() ==> (#[trigger] results[i]) is Ok,
        first_error(results) matches Some(e) ==> exists|i: int|
            0 <= i < results.len() && #[trigger] results[i] == Err::<i64, PredictError>(e)
                && forall|j: int| 0 <= j < i ==> (#[trigger] results[j]) is Ok,
    decreases results.len(),
{
    if results.len() > 0 {
        let front = results.drop_last();
        lemma_first_error_is_first(front);
        assert forall|i: int| 0 <= i < front.len() implies #[trigger] front[i] == results[i] by {}
        let last = results.len() - 1;
        match first_error(front) {
            Some(e) => {
                let i = choose|i: int|
                    0 <= i < front.len() && #[trigger] front[i] == Err::<i64, PredictError>(e)
                        && forall|j: int| 0 <= j < i ==> (#[trigger] front[j]) is Ok;
                assert(results[i] == Err::<i64, PredictError>(e));
                assert forall|j: int| 0 <= j < i implies (#[trigger] results[j]) is Ok by {
                    assert(front[j] is Ok);
                }
            },
            None => {
                assert forall|j: int| 0 <= j < last implies (#[trigger] results[j]) is Ok by {
                    assert(front[j] is Ok);
                }
                match results.last() {
                    Err(e) => {
                        assert(results[last] == Err::<i64, PredictError>(e));
                    },
                    Ok(_) => {},
                }
            },
        }
    }
}

/// A prediction is made exactly when the feature vector has the ensemble's
/// length and every tree's walk ends in a leaf.
pub proof fn lemma_predict_succeeds_when_every_tree_does(
    ensemble: EnsembleView,
    features: Seq<i64>,
)
    ensures
        ensemble.predict_detailed(features) is Ok <==> features.len() == ensemble.feature_count
            && forall|k: int|
            0 <= k < ensemble.trees.len() ==> (#[trigger] ensemble.trees[k].evaluate(features))
                is Ok,
        ensemble.predict(features) is Ok <==> ensemble.predict_detailed(features) is Ok,
{
    let results = ensemble.results(features);
    lemma_first_error_is_first(results);
    if forall|k: int|
        0 <= k < ensemble.trees.len() ==> (#[trigger] ensemble.trees[k].evaluate(features)) is Ok {
        assert forall|k: int| 0 <= k < results.len() implies (#[trigger] results[k]) is Ok by {
            assert(ensemble.trees[k].evaluate(features) is Ok);
        }
    }
    if forall|k: int| 0 <= k < results.len() ==> (#[trigger] results[k]) is Ok {
        assert forall|k: int| 0 <= k < ensemble.trees.len() implies (
        #[trigger] ensemble.trees[k].evaluate(features)) is Ok by {
            assert(results[k] is Ok);
        }
    }
}

/// A well-formed ensemble gives every feature vector of its length a
/// prediction: the saturating total of one leaf value from each tree.
pub proof fn lemma_well_formed_ensemble_predicts(ensemble: EnsembleView, features: Seq<i64>)
    requires
        ensemble.well_formed(),
        features.len() == ensemble.feature_count,
    ensures
        ensemble.predict(features) == Ok::<i64, PredictError>(
            saturating_total(ensemble.leaf_values(features)) as i64,
        ),
        forall|k: int|
            0 <= k < ensemble.trees.len() ==> (#[trigger] ensemble.trees[k]).has_leaf(
                ensemble.leaf_values(features)[k],
            ),
{
    let results = ensemble.results(features);
    assert forall|k: int| 0 <= k < ensemble.trees.len() implies results[k] is Ok && (
    #[trigger] ensemble.trees[k]).has_leaf(ensemble.leaf_values(features)[k]) by {
        lemma_well_formed_tree_evaluates(ensemble.trees[k], features);
    }
    lemma_first_error_is_first(results);
}

/// The function that folds the leaf values of trees into their sum.
pub open spec fn add_leaf_value(features: Seq<i64>) -> spec_fn(int, TreeView) -> int {
    |acc: int, tree: TreeView| acc + leaf_value(tree, features)
}

/// The mathematical sum of the trees' leaf values is a left fold over the
/// trees.
proof fn lemma_exact_total_is_fold_over_trees(trees: Seq<TreeView>, features: Seq<i64>)
    ensures
        exact_total(tree_values(trees, features)) == trees.fold_left(
            0int,
            add_leaf_value(features),
        ),
    decreases trees.len(),
{
    if trees.len() > 0 {
        lemma_exact_total_is_fold_over_trees(trees.drop_last(), features);
        assert(tree_values(trees, features).drop_last() =~= tree_values(
            trees.drop_last(),
            features,
        ));
    }
}

/// Two ensembles that hold the same trees in different orders predict the
/// same for a feature vector, namely the mathematical sum of the leaf values,
/// provided that the first one predicts at all and that in neither order a
/// partial sum of the leaf values leaves the range of `i64`.
pub proof fn lemma_tree_order_does_not_matter(
    first: EnsembleView,
    second: EnsembleView,
    features: Seq<i64>,
)
    requires
        first.trees.to_multiset() == second.trees.to_multiset(),
        first.feature_count == second.feature_count,
        first.predict(features) is Ok,
        partial_sums_in_range(first.leaf_values(features)),
        partial_sums_in_range(second.leaf_values(features)),
    ensures
        first.predict(features) == Ok::<i64, PredictError>(
            exact_total(first.leaf_values(features)) as i64,
        ),
        second.predict(features) == first.predict(features),
{
    let results = first.results(features);
    let others = second.results(features);
    lemma_first_error_is_first(results);
    assert forall|j: int| 0 <= j < others.len() implies (#[trigger] others[j]) is Ok by {
        let tree = second.trees[j];
        assert(second.trees.contains(tree));
        to_multiset_contains(second.trees, tree);
        to_multiset_contains(first.trees, tree);
        let i = choose|i: int| 0 <= i < first.trees.len() && first.trees[i] == tree;
        assert(results[i] is Ok);
    }
    lemma_first_error_is_first(others);
    lemma_saturation_is_partial_sum_out_of_range(first.leaf_values(features));
    lemma_saturation_is_partial_sum_out_of_range(second.leaf_values(features));
    lemma_exact_total_is_fold_over_trees(first.trees, features);
    lemma_exact_total_is_fold_over_trees(second.trees, features);
    assert(commutative_foldl(add_leaf_value(features)));
    lemma_fold_left_permutation(first.trees, second.trees, add_leaf_value(features), 0int);
}

/// What `predict` returns depends on nothing but the contents of the ensemble
/// and of the feature vector: equal ensembles give equal feature vectors the
/// same result, at every call.
pub proof fn lemma_predict_is_deterministic(
    first: Ensemble,
    second: Ensemble,
    features: Seq<i64>,
    again: Seq<i64>,
)
    requires
        first@ == second@,
        features == again,
    ensures
        first@.predict(features) == second@.predict(again),
        first@.predict_detailed(features) == second@.predict_detailed(again),
{
}

impl Ensemble {
    /// An ensemble of the given trees, for feature vectors of length
    /// `feature_count`, whose values are expressed in `scale`.
    pub fn new(trees: Vec<Tree>, feature_count: usize, scale: i64) -> (ensemble: Ensemble)
        ensures
            ensemble.trees == trees,
            ensemble.feature_count == feature_count,
            ensemble.scale == scale,
    {
        Ensemble { trees, feature_count, scale }
    }

    /// Evaluates every tree in stored order and adds the leaf values up from
    /// zero with saturating addition, recording whether an addition clamped.
    pub fn predict_detailed(&self, features: &[i64]) -> (r: Result<Prediction, PredictError>)
        ensures
            r == self@.predict_detailed(features@),
            features@.len() != self@.feature_count ==> r == Err::<Prediction, PredictError>(
                PredictError::FeatureCountMismatch,
            ),
            r is Ok <==> features@.len() == self@.feature_count && forall|k: int|
                0 <= k < self@.trees.len() ==> (#[trigger] self@.trees[k].evaluate(features@)) is Ok,
            self@.well_formed() && features@.len() == self@.feature_count ==> r is Ok,
            r matches Ok(prediction) ==> {
                &&& prediction.saturated <==> !partial_sums_in_range(self@.leaf_values(features@))
                &&& !prediction.saturated ==> prediction.value == exact_total(
                    self@.leaf_values(features@),
                )
            },
    {
        proof {
            lemma_saturation_is_partial_sum_out_of_range(self@.leaf_values(features@));
            lemma_predict_succeeds_when_every_tree_does(self@, features@);
            if self@.well_formed() && features@.len() == self@.feature_count {
                lemma_well_formed_ensemble_predicts(self@, features@);
            }
        }
        if features.len() != self.feature_count {
            return Err(PredictError::FeatureCountMismatch);
        }
        let ghost results = self@.results(features@);
        let ghost values = self@.leaf_values(features@);
        let mut value: i64 = 0;
        let mut saturated = false;
        let mut i: usize = 0;
        while i < self.trees.len()
            invariant
                i <= self.trees.len(),
                features@.len() == self@.feature_count,
                results == self@.results(features@),
                values == self@.leaf_values(features@),
                first_error(results.take(i as int)) is None,
                value == saturating_total(values.take(i as int)),
                saturated == total_saturates(values.take(i as int)),
            decreases self.trees.len() - i,
        {
            proof {
                assert(results.take(i + 1).drop_last() =~= results.take(i as int));
                assert(values.take(i + 1).drop_last() =~= values.take(i as int));
                assert(self@.trees[i as int] == self.trees@[i as int]@);
            }
            match self.trees[i].evaluate(features) {
                Err(e) => {
                    proof {
                        assert(results.take(i + 1).last() == Err::<i64, PredictError>(e));
                        lemma_first_error_of_prefix(results, i + 1, e);
                    }
                    return Err(e);
                },
                Ok(leaf) => {
                    let (sum, clamped) = fixed_add_observed(value, leaf);
                    value = sum;
                    saturated = saturated || clamped;
                },
            }
            i = i + 1;
        }
        proof {
            assert(results.take(i as int) =~= results);
            assert(values.take(i as int) =~= values);
        }
        Ok(Prediction { value, saturated })
    }

    /// The aggregate scaled prediction of the ensemble for one feature vector.
    ///
    /// Fails with `FeatureCountMismatch` unless the vector has exactly
    /// `feature_count` entries, and with the error of the first tree whose
    /// walk fails.
    pub fn predict(&self, features: &[i64]) -> (r: Result<i64, PredictError>)
        ensures
            r == self@.predict(features@),
            features@.len() != self@.feature_count ==> r == Err::<i64, PredictError>(
                PredictError::FeatureCountMismatch,
            ),
            r is Ok <==> features@.len() == self@.feature_count && forall|k: int|
                0 <= k < self@.trees.len() ==> (#[trigger] self@.trees[k].evaluate(features@)) is Ok,
            self@.well_formed() && features@.len() == self@.feature_count ==> r is Ok,
    {
        match self.predict_detailed(features) {
            Ok(prediction) => Ok(prediction.value),
            Err(e) => Err(e),
        }
    }
}

} // verus!
