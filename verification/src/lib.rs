//! Deterministic evaluation of additive decision-tree ensembles in
//! scaled-integer arithmetic.
//!
//! Thresholds, leaf values, features and predictions are integers scaled by
//! a fixed factor, so that a prediction is the same on every machine. The
//! engine walks trees held as data; the rainfall model is one ensemble that
//! ships with the library.

pub mod fixed_point;
pub mod decimal;
pub mod tree;
pub mod walks;
pub mod totals;
pub mod ensemble;
pub mod loader;
pub mod features;
pub mod rainfall_tables;
pub mod rainfall;

pub use crate::decimal::{from_fixed_point, to_fixed_point, Decimal};
pub use crate::ensemble::{Ensemble, Prediction};
pub use crate::features::{prepare_features, resize_features};
pub use crate::fixed_point::{fixed_add, fixed_le, from_scaled_i64, PRECISION_MULTIPLIER};
pub use crate::rainfall::{make_prediction, xgboost_predict};
pub use crate::tree::{PredictError, Tree, TreeNode};
