use rainfall_prediction::loader::{check_table_in_order, node_from_row, tree_from_rows, NO_CHILD};
use rainfall_prediction::tree::{PredictError, Tree, TreeNode};

#[test]
fn leaf_row_is_marked_in_both_child_columns() {
    assert_eq!(NO_CHILD, -1);
    assert_eq!(node_from_row(&[0, 220286213, -1, -1]), Some(TreeNode::Leaf { value: 220286213 }));
    assert_eq!(node_from_row(&[0, -111318324, -1, -1]), Some(TreeNode::Leaf { value: -111318324 }));
    assert_eq!(node_from_row(&[0, i64::MIN, -1, -1]), Some(TreeNode::Leaf { value: i64::MIN }));
}

#[test]
fn first_column_of_a_leaf_row_is_ignored() {
    assert_eq!(node_from_row(&[-5, 7, -1, -1]), Some(TreeNode::Leaf { value: 7 }));
    assert_eq!(node_from_row(&[99, 7, -1, -1]), Some(TreeNode::Leaf { value: 7 }));
}

#[test]
fn split_row_holds_feature_threshold_and_children() {
    assert_eq!(
        node_from_row(&[34, 120000000000, 1, 2]),
        Some(TreeNode::Internal { feature_index: 34, threshold: 120000000000, left: 1, right: 2 })
    );
    assert_eq!(
        node_from_row(&[56, -28125000000, 40, 39]),
        Some(TreeNode::Internal { feature_index: 56, threshold: -28125000000, left: 40, right: 39 })
    );
    assert_eq!(
        node_from_row(&[0, 0, 0, 0]),
        Some(TreeNode::Internal { feature_index: 0, threshold: 0, left: 0, right: 0 })
    );
}

#[test]
fn row_that_is_neither_is_refused() {
    assert_eq!(node_from_row(&[0, 5, -1, 2]), None);
    assert_eq!(node_from_row(&[0, 5, 2, -1]), None);
    assert_eq!(node_from_row(&[-1, 5, 1, 2]), None);
    assert_eq!(node_from_row(&[0, 5, -2, -2]), None);
    assert_eq!(node_from_row(&[0, 5, i64::MIN, 1]), None);
    assert_eq!(node_from_row(&[i64::MIN, 5, 1, 2]), None);
}

#[test]
fn table_becomes_a_tree_node_for_row() {
    let rows = [[0, 50, 1, 2], [0, 100, -1, -1], [0, 200, -1, -1]];
    let tree = tree_from_rows(&rows, 0);
    assert_eq!(
        tree,
        Some(Tree::new(
            vec![
                TreeNode::Internal { feature_index: 0, threshold: 50, left: 1, right: 2 },
                TreeNode::Leaf { value: 100 },
                TreeNode::Leaf { value: 200 },
            ],
            0
        ))
    );
    let tree = tree.unwrap();
    assert_eq!(tree.evaluate(&[50]), Ok(100));
    assert_eq!(tree.evaluate(&[51]), Ok(200));
}

#[test]
fn table_keeps_the_given_root() {
    let rows = [[0, 100, -1, -1], [0, 200, -1, -1], [0, 50, 0, 1]];
    let tree = tree_from_rows(&rows, 2).unwrap();
    assert_eq!(tree.root, 2);
    assert_eq!(tree.evaluate(&[50]), Ok(100));
    assert_eq!(tree.evaluate(&[51]), Ok(200));
}

#[test]
fn empty_table_is_an_empty_arena() {
    let rows: [[i64; 4]; 0] = [];
    let tree = tree_from_rows(&rows, 0).unwrap();
    assert!(tree.nodes.is_empty());
    assert_eq!(tree.evaluate(&[]), Err(PredictError::DanglingChildIndex));
}

#[test]
fn table_with_a_bad_row_is_refused() {
    assert_eq!(tree_from_rows(&[[0, 50, 1, 2], [0, 100, -1, -1], [0, 200, -1, 0]], 0), None);
    assert_eq!(tree_from_rows(&[[-3, 50, 1, 2], [0, 100, -1, -1], [0, 200, -1, -1]], 0), None);
    assert_eq!(tree_from_rows(&[[0, 50, 1, 2], [0, 100, -1, -1], [0, 200, 1, -7]], 0), None);
}

#[test]
fn positions_are_not_followed_when_loading() {
    // children and root outside the table load, and fail when walked
    let tree = tree_from_rows(&[[0, 50, 5, 6]], 0).unwrap();
    assert_eq!(tree.evaluate(&[0]), Err(PredictError::DanglingChildIndex));
    let tree = tree_from_rows(&[[0, 1, -1, -1]], 3).unwrap();
    assert_eq!(tree.evaluate(&[0]), Err(PredictError::DanglingChildIndex));
}

#[test]
fn table_in_order_passes_the_check() {
    let rows = [[0, 50, 1, 2], [0, 100, -1, -1], [1, -5, 3, 4], [0, 1, -1, -1], [0, 2, -1, -1]];
    assert!(check_table_in_order(&rows, 2));
    assert!(check_table_in_order(&rows, 116));
    assert!(check_table_in_order(&[[0, 7, -1, -1]], 0));
    assert!(check_table_in_order(&[[0, 7, -1, -1], [0, 8, -1, -1]], 0));
}

#[test]
fn table_out_of_order_fails_the_check() {
    let empty: [[i64; 4]; 0] = [];
    assert!(!check_table_in_order(&empty, 1));
    // a split that reads beyond the feature vector
    let rows = [[0, 50, 1, 2], [0, 100, -1, -1], [1, -5, 3, 4], [0, 1, -1, -1], [0, 2, -1, -1]];
    assert!(!check_table_in_order(&rows, 1));
    assert!(!check_table_in_order(&rows, 0));
    // a child that is the split itself, or stands before it
    assert!(!check_table_in_order(&[[0, 50, 0, 1], [0, 100, -1, -1]], 1));
    assert!(!check_table_in_order(&[[0, 1, -1, -1], [0, 50, 0, 2], [0, 2, -1, -1]], 1));
    // a child outside the table
    assert!(!check_table_in_order(&[[0, 50, 1, 2], [0, 100, -1, -1]], 1));
    // a row that describes no node
    assert!(!check_table_in_order(&[[0, 50, 1, -1], [0, 100, -1, -1]], 1));
    assert!(!check_table_in_order(&[[-1, 50, 1, 1], [0, 100, -1, -1]], 1));
}

#[test]
fn checked_table_always_evaluates() {
    let rows = [[0, 50, 1, 2], [0, 100, -1, -1], [1, -5, 3, 4], [0, 1, -1, -1], [0, 2, -1, -1]];
    assert!(check_table_in_order(&rows, 2));
    let tree = tree_from_rows(&rows, 0).unwrap();
    for a in [i64::MIN, 49, 50, 51, i64::MAX] {
        for b in [i64::MIN, -6, -5, -4, i64::MAX] {
            assert!(tree.evaluate(&[a, b]).is_ok());
        }
    }
}
