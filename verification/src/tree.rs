//! Binary decision trees stored as an arena of nodes, and the walk from the
//! root to a leaf.

use vstd::prelude::*;
use crate::fixed_point::fixed_le;
use crate::walks::{lemma_descend_yields_leaf, lemma_well_formed_tree_evaluates};

verus! {

/// One node of a decision tree. `left` and `right` are positions in the arena
/// of the tree that owns the node.
#[derive(Clone, Copy, Debug, PartialEq, Eq, Structural)]
pub enum TreeNode {
    /// A split: go to `left` when the feature is at most `threshold`, to
    /// `right` otherwise.
    Internal { feature_index: usize, threshold: i64, left: usize, right: usize },
    /// A terminal node holding what the tree contributes.
    Leaf { value: i64 },
}

/// Why an evaluation was refused.
#[derive(Clone, Copy, Debug, PartialEq, Eq, Structural)]
pub enum PredictError {
    /// The feature vector does not have the length the ensemble was built for.
    FeatureCountMismatch,
    /// A visited split reads a feature that the feature vector does not have.
    FeatureIndexOutOfRange,
    /// The walk was sent to a position outside the node arena.
    DanglingChildIndex,
    /// The walk entered more nodes than the arena holds, so it runs in a
    /// circle.
    CyclicPath,
}

/// A decision tree: its node arena and the position of its root.
#[derive(Clone, Debug, PartialEq, Eq)]
pub struct Tree {
    pub nodes: Vec<TreeNode>,
    pub root: usize,
}

/// Mathematical model of a [`Tree`].
pub struct TreeView {
    pub nodes: Seq<TreeNode>,
    pub root: nat,
}

impl View for Tree {
    type V = TreeView;

    open spec fn view(&self) -> TreeView {
        TreeView { nodes: self.nodes@, root: self.root as nat }
    }
}

/// The child that a split with the given threshold selects for a feature
/// value: `left` when the value is at most the threshold, else `right`.
pub open spec fn select_child(feature: i64, threshold: i64, left: usize, right: usize) -> usize {
    if feature <= threshold {
        left
    } else {
        right
    }
}

impl TreeView {
    /// Result of walking from position `at` when at most `budget` more nodes
    /// may be entered.
    ///
    /// A position outside the arena is refused first; then an exhausted
    /// budget; a leaf ends the walk with its value; a split whose feature
    /// index is outside `features` is refused, and any other split hands the
    /// walk to the child it selects.
    pub open spec fn descend(self, features: Seq<i64>, at: int, budget: nat) -> Result<
        i64,
        PredictError,
    >
        decreases budget,
    {
        if !(0 <= at < self.nodes.len()) {
            Err(PredictError::DanglingChildIndex)
        } else if budget == 0 {
            Err(PredictError::CyclicPath)
        } else {
            match self.nodes[at] {
                TreeNode::Leaf { value } => Ok(value),
                TreeNode::Internal { feature_index, threshold, left, right } => {
                    if feature_index >= features.len() {
                        Err(PredictError::FeatureIndexOutOfRange)
                    } else {
                        self.descend(
                            features,
                            select_child(features[feature_index as int], threshold, left, right) as int,
                            (budget - 1) as nat,
                        )
                    }
                },
            }
        }
    }

    /// Whether the arena holds a leaf with this value.
    pub open spec fn has_leaf(self, value: i64) -> bool {
        exists|i: int| 0 <= i < self.nodes.len() && #[trigger] self.nodes[i] == (TreeNode::Leaf {
            value,
        })
    }

    /// Whether every split reads one of the first `feature_count` features.
    pub open spec fn reads_within(self, feature_count: nat) -> bool {
        forall|i: int|
            0 <= i < self.nodes.len() ==> (#[trigger] self.nodes[i] matches TreeNode::Internal {
                feature_index,
                ..
            } ==> feature_index < feature_count)
    }

    /// Whether `rank` gives every node a number such that both children of
    /// every split lie in the arena and have a smaller number than the split.
    /// In an arena with such a ranking no walk dangles or returns to a node.
    pub open spec fn ranked_by(self, rank: Seq<nat>) -> bool {
        &&& rank.len() == self.nodes.len()
        &&& forall|i: int|
            0 <= i < self.nodes.len() ==> (#[trigger] self.nodes[i] matches TreeNode::Internal {
                left,
                right,
                ..
            } ==> left < self.nodes.len() && right < self.nodes.len() && rank[left as int]
                < rank[i] && rank[right as int] < rank[i])
    }

    /// Whether the tree is sound for feature vectors of `feature_count`
    /// entries: the root lies in the arena, no split reads beyond the vector,
    /// and the arena has a ranking.
    pub open spec fn well_formed(self, feature_count: nat) -> bool {
        &&& self.root < self.nodes.len()
        &&& self.reads_within(feature_count)
        &&& exists|rank: Seq<nat>| self.ranked_by(rank)
    }

    /// Result of walking the tree from its root. The walk may enter as many
    /// nodes as the arena holds, which every walk without a repeated node
    /// stays within.
    pub open spec fn evaluate(self, features: Seq<i64>) -> Result<i64, PredictError> {
        self.descend(features, self.root as int, self.nodes.len())
    }
}

impl Tree {
    /// A tree over the given arena, rooted at `root`.
    pub fn new(nodes: Vec<TreeNode>, root: usize) -> (tree: Tree)
        ensures
            tree.nodes == nodes,
            tree.root == root,
    {
        Tree { nodes, root }
    }

    /// Walks from the root to a leaf and returns the leaf's value.
    ///
    /// The walk is a loop, so the depth of the tree costs no stack. A corrupt
    /// arena is reported, never followed blindly: see [`TreeView::descend`]
    /// for the order in which the faults are found.
    pub fn evaluate(&self, features: &[i64]) -> (r: Result<i64, PredictError>)
        ensures
            r == self@.evaluate(features@),
            self@.well_formed(features@.len()) ==> r is Ok,
            r matches Ok(value) ==> self@.has_leaf(value),
    {
        proof {
            if self@.well_formed(features@.len()) {
                lemma_well_formed_tree_evaluates(self@, features@);
            }
            lemma_descend_yields_leaf(self@, features@, self.root as int, self.nodes@.len());
        }
        let n = self.nodes.len();
        let mut at = self.root;
        let mut budget = n;
        loop
            invariant
                n == self.nodes.len(),
                budget <= n,
                self@.evaluate(features@) == self@.descend(features@, at as int, budget as nat),
                self@.well_formed(features@.len()) ==> self@.evaluate(features@) is Ok,
                self@.evaluate(features@) matches Ok(value) ==> self@.has_leaf(value),
            decreases budget,
        {
            if at >= n {
                return Err(PredictError::DanglingChildIndex);
            }
            if budget == 0 {
                return Err(PredictError::CyclicPath);
            }
            match self.nodes[at] {
                TreeNode::Leaf { value } => {
                    return Ok(value);
                },
                TreeNode::Internal { feature_index, threshold, left, right } => {
                    if feature_index >= features.len() {
                        return Err(PredictError::FeatureIndexOutOfRange);
                    }
                    at = if fixed_le(features[feature_index], threshold) {
                        left
                    } else {
                        right
                    };
                    budget = budget - 1;
                },
            }
        }
    }
}

} // verus!
