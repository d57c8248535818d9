//! Builds trees from flat node tables, the form in which a quantized model
//! reaches this library.
//!
//! A table has one row of four integers per node, and a row's position is the
//! node's position in the arena. A split is written
//! `[feature_index, threshold, left, right]`; a leaf is written
//! `[_, value, NO_CHILD, NO_CHILD]`, its first column being ignored.

use vstd::prelude::*;
use crate::tree::{Tree, TreeNode, TreeView};

verus! {

/// What both child columns of a leaf row hold.
pub const NO_CHILD: i64 = -1;

/// Whether `x` can be a position or a feature index on this machine.
pub open spec fn fits_index(x: i64) -> bool {
    0 <= x <= usize::MAX
}

/// The node that a row describes: a leaf when both child columns hold
/// `NO_CHILD`, a split when the feature and both child columns are indices,
/// and nothing otherwise.
pub open spec fn decode_row(row: [i64; 4]) -> Option<TreeNode> {
    if row[2] == NO_CHILD && row[3] == NO_CHILD {
        Some(TreeNode::Leaf { value: row[1] })
    } else if fits_index(row[0]) && fits_index(row[2]) && fits_index(row[3]) {
        Some(
            TreeNode::Internal {
                feature_index: row[0] as usize,
                threshold: row[1],
                left: row[2] as usize,
                right: row[3] as usize,
            },
        )
    } else {
        None
    }
}

/// Whether every row of the table describes a node.
pub open spec fn rows_decodable(rows: Seq<[i64; 4]>) -> bool {
    forall|i: int| 0 <= i < rows.len() ==> (#[trigger] decode_row(rows[i])) is Some
}

/// The arena that a table describes, node for row.
pub open spec fn decode_rows(rows: Seq<[i64; 4]>) -> Seq<TreeNode> {
    Seq::new(rows.len(), |i: int| decode_row(rows[i]).unwrap())
}

/// The tree that a table describes when its first row is the root.
pub open spec fn table_view(rows: Seq<[i64; 4]>) -> TreeView {
    TreeView { nodes: decode_rows(rows), root: 0 }
}

/// Whether row `i` is a leaf, or a split that reads one of the first
/// `feature_count` features and whose children both stand further down the
/// table.
pub open spec fn row_in_order(rows: Seq<[i64; 4]>, i: int, feature_count: nat) -> bool {
    ||| rows[i][2] == NO_CHILD && rows[i][3] == NO_CHILD
    ||| {
        &&& 0 <= rows[i][0] < feature_count
        &&& i < rows[i][2] < rows.len()
        &&& i < rows[i][3] < rows.len()
    }
}

/// Whether the table is not empty and every row of it is in order.
pub open spec fn table_in_order(rows: Seq<[i64; 4]>, feature_count: nat) -> bool {
    &&& 0 < rows.len() <= usize::MAX
    &&& feature_count <= usize::MAX
    &&& forall|i: int| 0 <= i < rows.len() ==> #[trigger] row_in_order(rows, i, feature_count)
}

/// A table in order can be decoded, and the tree it describes is well formed.
pub proof fn lemma_table_in_order_well_formed(rows: Seq<[i64; 4]>, feature_count: nat)
    requires
        table_in_order(rows, feature_count),
    ensures
        rows_decodable(rows),
        table_view(rows).well_formed(feature_count),
{
    let tree = table_view(rows);
    let n = rows.len();
    assert forall|i: int| 0 <= i < n implies (#[trigger] decode_row(rows[i])) is Some by {
        assert(row_in_order(rows, i, feature_count));
    }
    let rank = Seq::new(n, |i: int| (n - i) as nat);
    assert forall|i: int| 0 <= i < n implies (#[trigger] tree.nodes[i] matches TreeNode::Internal {
        feature_index,
        left,
        right,
        ..
    } ==> feature_index < feature_count && left < n && right < n && rank[left as int] < rank[i]
        && rank[right as int] < rank[i]) by {
        assert(row_in_order(rows, i, feature_count));
    }
    assert(tree.ranked_by(rank));
}

/// Turns a table column into an index, if it is one.
fn index_from_column(x: i64) -> (r: Option<usize>)
    ensures
        r is Some <==> fits_index(x),
        r matches Some(index) ==> index == x,
{
    if x < 0 {
        None
    } else if x as u64 > usize::MAX as u64 {
        None
    } else {
        Some(x as usize)
    }
}

/// Decodes one row of a node table.
pub fn node_from_row(row: &[i64; 4]) -> (r: Option<TreeNode>)
    ensures
        r == decode_row(*row),
{
    if row[2] == NO_CHILD && row[3] == NO_CHILD {
        return Some(TreeNode::Leaf { value: row[1] });
    }
    match (index_from_column(row[0]), index_from_column(row[2]), index_from_column(row[3])) {
        (Some(feature_index), Some(left), Some(right)) => Some(
            TreeNode::Internal { feature_index, threshold: row[1], left, right },
        ),
        _ => None,
    }
}

/// Checks that a table is in order for feature vectors of `feature_count`
/// entries. A table that passes describes a well-formed tree, so every walk
/// from its first row ends in a leaf.
pub fn check_table_in_order(rows: &[[i64; 4]], feature_count: usize) -> (r: bool)
    ensures
        r == table_in_order(rows@, feature_count as nat),
        r ==> rows_decodable(rows@) && table_view(rows@).well_formed(feature_count as nat),
{
    let n = rows.len();
    if n == 0 {
        return false;
    }
    let mut i: usize = 0;
    while i < n
        invariant
            i <= n,
            n == rows.len(),
            forall|j: int| 0 <= j < i ==> #[trigger] row_in_order(rows@, j, feature_count as nat),
        decreases n - i,
    {
        let row = &rows[i];
        let is_leaf = row[2] == NO_CHILD && row[3] == NO_CHILD;
        if !is_leaf {
            let split_in_order = match (
                index_from_column(row[0]),
                index_from_column(row[2]),
                index_from_column(row[3]),
            ) {
                (Some(feature_index), Some(left), Some(right)) => feature_index < feature_count
                    && i < left && left < n && i < right && right < n,
                _ => false,
            };
            if !split_in_order {
                assert(!row_in_order(rows@, i as int, feature_count as nat));
                return false;
            }
        }
        i = i + 1;
    }
    proof {
        lemma_table_in_order_well_formed(rows@, feature_count as nat);
    }
    true
}

/// Builds the tree that a node table describes, rooted at `root`.
///
/// Returns `None` exactly when some row describes no node. Positions are not
/// followed here: a child or a root outside the table is found when a walk
/// reaches it.
pub fn tree_from_rows(rows: &[[i64; 4]], root: usize) -> (r: Option<Tree>)
    ensures
        r is Some <==> rows_decodable(rows@),
        r matches Some(tree) ==> tree@ == (TreeView {
            nodes: decode_rows(rows@),
            root: root as nat,
        }),
{
    let mut nodes: Vec<TreeNode> = Vec::new();
    let mut i: usize = 0;
    while i < rows.len()
        invariant
            i <= rows.len(),
            nodes@.len() == i,
            forall|j: int| 0 <= j < i ==> (#[trigger] decode_row(rows@[j])) == Some(nodes@[j]),
        decreases rows.len() - i,
    {
        match node_from_row(&rows[i]) {
            Some(node) => {
                nodes.push(node);
            },
            None => {
                return None;
            },
        }
        i = i + 1;
    }
    proof {
        assert(nodes@ =~= decode_rows(rows@));
    }
    Some(Tree { nodes, root })
}

} // verus!
