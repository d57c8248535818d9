use rainfall_prediction::tree::{PredictError, Tree, TreeNode};

fn split(feature_index: usize, threshold: i64, left: usize, right: usize) -> TreeNode {
    TreeNode::Internal { feature_index, threshold, left, right }
}

fn leaf(value: i64) -> TreeNode {
    TreeNode::Leaf { value }
}

#[test]
fn tree_new_keeps_arena_and_root() {
    let nodes = vec![leaf(1), split(0, 5, 0, 0)];
    let tree = Tree::new(nodes.clone(), 1);
    assert_eq!(tree.nodes, nodes);
    assert_eq!(tree.root, 1);
}

#[test]
fn single_leaf_needs_no_features() {
    let tree = Tree::new(vec![leaf(-42)], 0);
    assert_eq!(tree.evaluate(&[]), Ok(-42));
    assert_eq!(tree.evaluate(&[1, 2, 3]), Ok(-42));
}

#[test]
fn feature_equal_to_threshold_goes_left() {
    let tree = Tree::new(vec![split(0, 50, 1, 2), leaf(100), leaf(200)], 0);
    assert_eq!(tree.evaluate(&[50]), Ok(100));
    assert_eq!(tree.evaluate(&[51]), Ok(200));
    assert_eq!(tree.evaluate(&[49]), Ok(100));
    assert_eq!(tree.evaluate(&[i64::MIN]), Ok(100));
    assert_eq!(tree.evaluate(&[i64::MAX]), Ok(200));
}

#[test]
fn boundary_holds_for_extreme_and_negative_thresholds() {
    for &t in &[i64::MIN, -28125000000, -1, 0, 47177402, i64::MAX - 1] {
        let tree = Tree::new(vec![split(1, t, 1, 2), leaf(7), leaf(-7)], 0);
        assert_eq!(tree.evaluate(&[0, t]), Ok(7));
        assert_eq!(tree.evaluate(&[0, t + 1]), Ok(-7));
    }
    let tree = Tree::new(vec![split(0, i64::MAX, 1, 2), leaf(7), leaf(-7)], 0);
    assert_eq!(tree.evaluate(&[i64::MAX]), Ok(7));
}

#[test]
fn walk_follows_the_arena_positions() {
    // the root stands last and children stand before their parents
    let nodes = vec![
        leaf(10),
        leaf(20),
        leaf(30),
        split(1, 0, 0, 1),
        split(0, 100, 3, 2),
    ];
    let tree = Tree::new(nodes, 4);
    assert_eq!(tree.evaluate(&[100, 0]), Ok(10));
    assert_eq!(tree.evaluate(&[100, 1]), Ok(20));
    assert_eq!(tree.evaluate(&[101, 0]), Ok(30));
}

#[test]
fn feature_index_beyond_the_vector_is_refused() {
    let tree = Tree::new(vec![split(3, 50, 1, 2), leaf(100), leaf(200)], 0);
    assert_eq!(tree.evaluate(&[0, 0, 0]), Err(PredictError::FeatureIndexOutOfRange));
    assert_eq!(tree.evaluate(&[]), Err(PredictError::FeatureIndexOutOfRange));
    assert_eq!(tree.evaluate(&[0, 0, 0, 0]), Ok(100));
}

#[test]
fn feature_index_is_checked_only_on_the_path() {
    let tree = Tree::new(vec![split(0, 0, 1, 2), leaf(1), split(9, 0, 1, 1)], 0);
    assert_eq!(tree.evaluate(&[0]), Ok(1));
    assert_eq!(tree.evaluate(&[1]), Err(PredictError::FeatureIndexOutOfRange));
}

#[test]
fn child_outside_the_arena_is_refused() {
    let tree = Tree::new(vec![split(0, 50, 1, 3), leaf(100), leaf(200)], 0);
    assert_eq!(tree.evaluate(&[50]), Ok(100));
    assert_eq!(tree.evaluate(&[51]), Err(PredictError::DanglingChildIndex));
    let tree = Tree::new(vec![split(0, 50, usize::MAX, 1), leaf(100)], 0);
    assert_eq!(tree.evaluate(&[50]), Err(PredictError::DanglingChildIndex));
    assert_eq!(tree.evaluate(&[51]), Ok(100));
}

#[test]
fn root_outside_the_arena_is_refused() {
    let tree = Tree::new(vec![leaf(1)], 1);
    assert_eq!(tree.evaluate(&[0]), Err(PredictError::DanglingChildIndex));
    let tree = Tree::new(vec![], 0);
    assert_eq!(tree.evaluate(&[0]), Err(PredictError::DanglingChildIndex));
}

#[test]
fn walk_in_a_circle_is_refused() {
    let tree = Tree::new(vec![split(0, 0, 0, 1), leaf(5)], 0);
    assert_eq!(tree.evaluate(&[0]), Err(PredictError::CyclicPath));
    assert_eq!(tree.evaluate(&[1]), Ok(5));
    let tree = Tree::new(vec![split(0, 0, 1, 2), split(0, 0, 0, 2), leaf(5)], 0);
    assert_eq!(tree.evaluate(&[0]), Err(PredictError::CyclicPath));
    assert_eq!(tree.evaluate(&[1]), Ok(5));
}

#[test]
fn fault_found_first_on_the_path_is_reported() {
    // dangling position before exhausted budget
    let tree = Tree::new(vec![split(0, 0, 1, 1), split(0, 0, 7, 7)], 0);
    assert_eq!(tree.evaluate(&[0]), Err(PredictError::DanglingChildIndex));
    // missing feature before dangling child
    let tree = Tree::new(vec![split(2, 0, 9, 9)], 0);
    assert_eq!(tree.evaluate(&[0]), Err(PredictError::FeatureIndexOutOfRange));
    // a circle of splits that read a missing feature
    let tree = Tree::new(vec![split(2, 0, 0, 0)], 0);
    assert_eq!(tree.evaluate(&[0]), Err(PredictError::FeatureIndexOutOfRange));
}

#[test]
fn path_through_every_node_is_walked() {
    // a chain: node i sends the walk to node i + 1, the last node is the leaf
    let n = 1000;
    let mut nodes = Vec::new();
    for i in 0..n - 1 {
        nodes.push(split(0, 0, i + 1, i + 1));
    }
    nodes.push(leaf(77));
    let tree = Tree::new(nodes, 0);
    assert_eq!(tree.evaluate(&[0]), Ok(77));
    assert_eq!(tree.evaluate(&[1]), Ok(77));
}

#[test]
fn deep_chain_costs_no_stack() {
    let n = 200_000;
    let mut nodes = Vec::new();
    for i in 0..n - 1 {
        nodes.push(split(0, 0, i + 1, i + 1));
    }
    nodes.push(leaf(-3));
    let tree = Tree::new(nodes, 0);
    assert_eq!(tree.evaluate(&[0]), Ok(-3));
}

#[test]
fn evaluation_is_repeatable() {
    let tree = Tree::new(vec![split(0, 50, 1, 2), leaf(100), split(1, -5, 3, 4), leaf(1), leaf(2)], 0);
    for features in [[50, 0], [51, -5], [51, -4]] {
        let first = tree.evaluate(&features);
        for _ in 0..10 {
            assert_eq!(tree.evaluate(&features), first);
        }
    }
}
