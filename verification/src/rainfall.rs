//! The rainfall model and the predictions it makes.

use vstd::prelude::*;
use crate::decimal::{decimal_of_scaled, from_fixed_point, Decimal};
use crate::ensemble::{lemma_well_formed_ensemble_predicts, Ensemble, EnsembleView};
use crate::features::{prepare_features, quantized_all, resize_features, resized};
use crate::fixed_point::PRECISION_MULTIPLIER;
use crate::loader::{
    decode_row,
    lemma_table_in_order_well_formed,
    rows_decodable,
    table_view,
    tree_from_rows,
};
use crate::rainfall_tables::{
    lemma_rainfall_tables_sound,
    rainfall_tables,
    table_sound,
    FEATURE_COUNT,
    LEAF_LIMIT,
    TREE_0,
    TREE_1,
    TREE_2,
    TREE_3,
    TREE_4,
    TREE_5,
    TREE_6,
    TREE_7,
    TREE_8,
    TREE_9,
    TREE_COUNT,
};
use crate::totals::{exact_total, lemma_bounded_values_do_not_saturate};
use crate::tree::{PredictError, Tree, TreeNode};

verus! {

/// Largest magnitude of a prediction of the rainfall model: every tree
/// contributing a leaf of the largest magnitude.
pub const PREDICTION_LIMIT: i64 = 2202862130;

/// The rainfall model as evaluation sees it.
pub open spec fn rainfall_model_view() -> EnsembleView {
    EnsembleView {
        trees: Seq::new(TREE_COUNT as nat, |k: int| table_view(rainfall_tables()[k])),
        feature_count: FEATURE_COUNT as nat,
        scale: PRECISION_MULTIPLIER as int,
    }
}

/// The rainfall model is well formed, and none of its leaves exceeds
/// `LEAF_LIMIT` in magnitude.
pub proof fn lemma_rainfall_model_well_formed()
    ensures
        rainfall_model_view().well_formed(),
        forall|k: int, value: i64|
            0 <= k < TREE_COUNT && #[trigger] rainfall_model_view().trees[k].has_leaf(value)
                ==> -LEAF_LIMIT <= value <= LEAF_LIMIT,
{
    lemma_rainfall_tables_sound();
    let model = rainfall_model_view();
    assert forall|k: int| 0 <= k < model.trees.len() implies (#[trigger] model.trees[k]).well_formed(
        model.feature_count,
    ) by {
        assert(table_sound(rainfall_tables()[k]));
        lemma_table_in_order_well_formed(rainfall_tables()[k], FEATURE_COUNT as nat);
    }
    assert forall|k: int, value: i64|
        0 <= k < TREE_COUNT && #[trigger] model.trees[k].has_leaf(
            value,
        ) implies -LEAF_LIMIT <= value <= LEAF_LIMIT by {
        let rows = rainfall_tables()[k];
        assert(table_sound(rows));
        let i = choose|i: int|
            0 <= i < model.trees[k].nodes.len() && #[trigger] model.trees[k].nodes[i] == (
            TreeNode::Leaf { value });
        assert(decode_row(rows[i]) == Some(TreeNode::Leaf { value }));
        assert(rows[i][1] == value);
    }
}

/// Decodes a table and appends its tree, rooted at the first row.
fn push_table(trees: &mut Vec<Tree>, rows: &[[i64; 4]])
    requires
        rows_decodable(rows@),
    ensures
        final(trees)@.len() == old(trees)@.len() + 1,
        forall|j: int| 0 <= j < old(trees)@.len() ==> final(trees)@[j] == old(trees)@[j],
        final(trees)@[old(trees)@.len() as int]@ == table_view(rows@),
{
    let tree = tree_from_rows(rows, 0);
    trees.push(tree.unwrap());
}

/// Builds the rainfall model from its node tables.
pub fn rainfall_model() -> (model: Ensemble)
    ensures
        model@ == rainfall_model_view(),
{
    proof {
        lemma_rainfall_tables_sound();
        assert forall|k: int| 0 <= k < TREE_COUNT implies rows_decodable(
            #[trigger] rainfall_tables()[k],
        ) by {
            assert(table_sound(rainfall_tables()[k]));
            lemma_table_in_order_well_formed(rainfall_tables()[k], FEATURE_COUNT as nat);
        }
        assert(rainfall_tables()[0] == TREE_0@);
        assert(rainfall_tables()[1] == TREE_1@);
        assert(rainfall_tables()[2] == TREE_2@);
        assert(rainfall_tables()[3] == TREE_3@);
        assert(rainfall_tables()[4] == TREE_4@);
        assert(rainfall_tables()[5] == TREE_5@);
        assert(rainfall_tables()[6] == TREE_6@);
        assert(rainfall_tables()[7] == TREE_7@);
        assert(rainfall_tables()[8] == TREE_8@);
        assert(rainfall_tables()[9] == TREE_9@);
    }
    let mut trees: Vec<Tree> = Vec::new();
    push_table(&mut trees, &TREE_0);
    push_table(&mut trees, &TREE_1);
    push_table(&mut trees, &TREE_2);
    push_table(&mut trees, &TREE_3);
    push_table(&mut trees, &TREE_4);
    push_table(&mut trees, &TREE_5);
    push_table(&mut trees, &TREE_6);
    push_table(&mut trees, &TREE_7);
    push_table(&mut trees, &TREE_8);
    push_table(&mut trees, &TREE_9);
    let model = Ensemble::new(trees, FEATURE_COUNT, PRECISION_MULTIPLIER);
    proof {
        assert(model@.trees =~= rainfall_model_view().trees);
    }
    model
}

/// Predicts rainfall, as a scaled value, from a vector of scaled features.
///
/// The vector must hold exactly `FEATURE_COUNT` entries; any other length is
/// refused with `FeatureCountMismatch`. For a vector of that length the
/// result is the sum of one leaf value from each of the model's trees: the
/// model's leaves are too small for the sum to saturate, and the result is at
/// most `PREDICTION_LIMIT` in magnitude.
pub fn xgboost_predict(features: &[i64]) -> (r: Result<i64, PredictError>)
    ensures
        r == rainfall_model_view().predict(features@),
        features.len() != FEATURE_COUNT ==> r == Err::<i64, PredictError>(
            PredictError::FeatureCountMismatch,
        ),
        features.len() == FEATURE_COUNT ==> (r matches Ok(value) && value == exact_total(
            rainfall_model_view().leaf_values(features@),
        ) && -PREDICTION_LIMIT <= value <= PREDICTION_LIMIT),
{
    let model = rainfall_model();
    proof {
        if features.len() == FEATURE_COUNT {
            let view = rainfall_model_view();
            let values = view.leaf_values(features@);
            lemma_rainfall_model_well_formed();
            lemma_well_formed_ensemble_predicts(view, features@);
            assert forall|k: int| 0 <= k < values.len() implies -LEAF_LIMIT <= #[trigger] values[k]
                <= LEAF_LIMIT by {
                assert(view.trees[k].has_leaf(values[k]));
            }
            lemma_bounded_values_do_not_saturate(values, LEAF_LIMIT as nat);
        }
    }
    model.predict(features)
}

/// The prediction for a vector of decimal measurements: the measurements are
/// quantized, the vector is cut or filled with zeros to `FEATURE_COUNT`
/// entries, and the scaled prediction is turned back into a decimal.
pub open spec fn prediction_for(features: Seq<Decimal>) -> Decimal {
    decimal_of_scaled(
        rainfall_model_view().predict(
            resized(quantized_all(features), FEATURE_COUNT as nat),
        ).unwrap(),
    )
}

/// Predicts rainfall in millimetres from decimal measurements. A vector that
/// is too short is filled up with zeros, and one that is too long is cut.
pub fn make_prediction(features: &[Decimal]) -> (r: Decimal)
    ensures
        r == prediction_for(features@),
{
    let scaled = prepare_features(features);
    let fitted = resize_features(scaled.as_slice(), FEATURE_COUNT);
    let prediction = xgboost_predict(fitted.as_slice());
    from_fixed_point(prediction.unwrap())
}

/// What a predicted amount of rain means in words.
#[derive(Clone, Copy, Debug, PartialEq, Eq, Structural)]
pub enum RainfallBand {
    NoSignificant,
    Light,
    Moderate,
    Heavy,
    VeryHeavy,
}

/// Scaled amount from which rainfall counts as light: 0.1 mm.
pub const LIGHT_FROM: i64 = 1_000_000_000;

/// Scaled amount from which rainfall counts as moderate: 1 mm.
pub const MODERATE_FROM: i64 = 10_000_000_000;

/// Scaled amount from which rainfall counts as heavy: 5 mm.
pub const HEAVY_FROM: i64 = 50_000_000_000;

/// Scaled amount from which rainfall counts as very heavy: 20 mm.
pub const VERY_HEAVY_FROM: i64 = 200_000_000_000;

/// The band that a scaled prediction falls in.
pub open spec fn band_of(prediction: i64) -> RainfallBand {
    if prediction < LIGHT_FROM {
        RainfallBand::NoSignificant
    } else if prediction < MODERATE_FROM {
        RainfallBand::Light
    } else if prediction < HEAVY_FROM {
        RainfallBand::Moderate
    } else if prediction < VERY_HEAVY_FROM {
        RainfallBand::Heavy
    } else {
        RainfallBand::VeryHeavy
    }
}

/// The sentence that goes with a band.
pub open spec fn description_of(band: RainfallBand) -> Seq<char> {
    match band {
        RainfallBand::NoSignificant => "No significant rainfall expected"@,
        RainfallBand::Light => "Light rainfall expected"@,
        RainfallBand::Moderate => "Moderate rainfall expected"@,
        RainfallBand::Heavy => "Heavy rainfall expected"@,
        RainfallBand::VeryHeavy => "Very heavy rainfall expected"@,
    }
}

/// Sorts a scaled prediction into its band.
pub fn rainfall_band(prediction: i64) -> (band: RainfallBand)
    ensures
        band == band_of(prediction),
{
    if prediction < LIGHT_FROM {
        RainfallBand::NoSignificant
    } else if prediction < MODERATE_FROM {
        RainfallBand::Light
    } else if prediction < HEAVY_FROM {
        RainfallBand::Moderate
    } else if prediction < VERY_HEAVY_FROM {
        RainfallBand::Heavy
    } else {
        RainfallBand::VeryHeavy
    }
}

impl RainfallBand {
    /// The sentence that goes with the band.
    pub fn description(&self) -> (text: &'static str)
        ensures
            text@ == description_of(*self),
    {
        match self {
            RainfallBand::NoSignificant => "No significant rainfall expected",
            RainfallBand::Light => "Light rainfall expected",
            RainfallBand::Moderate => "Moderate rainfall expected",
            RainfallBand::Heavy => "Heavy rainfall expected",
            RainfallBand::VeryHeavy => "Very heavy rainfall expected",
        }
    }
}

} // verus!
