//! What holds of walks through a tree: when a walk ends in a leaf, how a split
//! routes it, and what a walk that was cut short as circular looks like.

use vstd::prelude::*;
use vstd::set_lib::{lemma_int_range, lemma_len_subset, set_int_range};
use crate::tree::{select_child, PredictError, TreeNode, TreeView};

verus! {

/// The positions whose rank is at most `bound`.
pub open spec fn ranked_at_most(rank: Seq<nat>, bound: nat) -> Set<int> {
    Set::new(|j: int| 0 <= j < rank.len() && rank[j] <= bound)
}

/// In a ranked arena, a walk that may still enter as many nodes as rank no
/// higher than its position ends in a leaf of the arena, unless it meets a
/// split that reads beyond the feature vector.
proof fn lemma_descend_ranked(
    tree: TreeView,
    features: Seq<i64>,
    rank: Seq<nat>,
    at: int,
    budget: nat,
)
    requires
        tree.ranked_by(rank),
        0 <= at < tree.nodes.len(),
        budget >= ranked_at_most(rank, rank[at]).len(),
    ensures
        match tree.descend(features, at, budget) {
            Ok(value) => tree.has_leaf(value),
            Err(e) => e == PredictError::FeatureIndexOutOfRange && !tree.reads_within(
                features.len(),
            ),
        },
    decreases budget,
{
    let n = tree.nodes.len() as int;
    let here = ranked_at_most(rank, rank[at]);
    lemma_int_range(0, n);
    lemma_len_subset(here, set_int_range(0, n));
    assert(here.contains(at));
    match tree.nodes[at] {
        TreeNode::Leaf { value } => {},
        TreeNode::Internal { feature_index, threshold, left, right } => {
            if feature_index < features.len() {
                let next = select_child(features[feature_index as int], threshold, left, right) as int;
                let below = ranked_at_most(rank, rank[next]);
                assert(below.subset_of(here.remove(at)));
                lemma_len_subset(below, here.remove(at));
                lemma_descend_ranked(tree, features, rank, next, (budget - 1) as nat);
            }
        },
    }
}

/// In a ranked arena the walk from a root inside the arena never dangles and
/// never runs in a circle: it ends in a leaf of the arena, unless it meets a
/// split that reads beyond the feature vector.
pub proof fn lemma_ranked_tree_walk_ends(tree: TreeView, features: Seq<i64>, rank: Seq<nat>)
    requires
        tree.root < tree.nodes.len(),
        tree.ranked_by(rank),
    ensures
        match tree.evaluate(features) {
            Ok(value) => tree.has_leaf(value),
            Err(e) => e == PredictError::FeatureIndexOutOfRange && !tree.reads_within(
                features.len(),
            ),
        },
{
    let n = tree.nodes.len() as int;
    lemma_int_range(0, n);
    lemma_len_subset(ranked_at_most(rank, rank[tree.root as int]), set_int_range(0, n));
    lemma_descend_ranked(tree, features, rank, tree.root as int, tree.nodes.len());
}

/// A well-formed tree gives every feature vector that is long enough the
/// value of one of its leaves.
pub proof fn lemma_well_formed_tree_evaluates(tree: TreeView, features: Seq<i64>)
    requires
        tree.well_formed(features.len()),
    ensures
        tree.evaluate(features) matches Ok(value) && tree.has_leaf(value),
{
    let rank = choose|rank: Seq<nat>| tree.ranked_by(rank);
    lemma_ranked_tree_walk_ends(tree, features, rank);
}

/// At a split that reads a feature the vector has, the walk goes on from the
/// left child when the feature is at most the threshold and from the right
/// child when it is above: a feature equal to the threshold goes left, and
/// one that exceeds it by the smallest step goes right.
pub proof fn lemma_split_routes_by_threshold(
    tree: TreeView,
    features: Seq<i64>,
    at: int,
    budget: nat,
)
    requires
        0 <= at < tree.nodes.len(),
        tree.nodes[at] is Internal,
        tree.nodes[at]->feature_index < features.len(),
    ensures
        ({
            let feature = features[tree.nodes[at]->feature_index as int];
            let threshold = tree.nodes[at]->threshold;
            let left = tree.descend(features, tree.nodes[at]->left as int, budget);
            let right = tree.descend(features, tree.nodes[at]->right as int, budget);
            let here = tree.descend(features, at, budget + 1);
            &&& feature <= threshold ==> here == left
            &&& feature > threshold ==> here == right
            &&& feature == threshold ==> here == left
            &&& feature == threshold + 1 ==> here == right
        }),
{
}

/// Whatever value a walk returns is the value of a leaf in the arena.
pub proof fn lemma_descend_yields_leaf(tree: TreeView, features: Seq<i64>, at: int, budget: nat)
    ensures
        tree.descend(features, at, budget) matches Ok(value) ==> tree.has_leaf(value),
    decreases budget,
{
    if 0 <= at < tree.nodes.len() && budget > 0 {
        match tree.nodes[at] {
            TreeNode::Leaf { value } => {},
            TreeNode::Internal { feature_index, threshold, left, right } => {
                if feature_index < features.len() {
                    lemma_descend_yields_leaf(
                        tree,
                        features,
                        select_child(features[feature_index as int], threshold, left, right) as int,
                        (budget - 1) as nat,
                    );
                }
            },
        }
    }
}

/// Whether the walk moves on from `at`: the position holds a split that
/// reads a feature the vector has.
pub open spec fn moves_on(tree: TreeView, features: Seq<i64>, at: int) -> bool {
    &&& 0 <= at < tree.nodes.len()
    &&& tree.nodes[at] matches TreeNode::Internal { feature_index, .. }
    &&& feature_index < features.len()
}

/// Where one move takes the walk from `at`: to the selected child of a split
/// that it moves on from, and nowhere from any other position.
pub open spec fn step(tree: TreeView, features: Seq<i64>, at: int) -> int {
    if moves_on(tree, features, at) {
        select_child(
            features[tree.nodes[at]->feature_index as int],
            tree.nodes[at]->threshold,
            tree.nodes[at]->left,
            tree.nodes[at]->right,
        ) as int
    } else {
        at
    }
}

/// Where the walk stands after `moves` moves from `at`.
pub open spec fn position_after(tree: TreeView, features: Seq<i64>, at: int, moves: nat) -> int
    decreases moves,
{
    if moves == 0 {
        at
    } else {
        position_after(tree, features, step(tree, features, at), (moves - 1) as nat)
    }
}

/// A walk that is cut short as circular stays inside the arena for as many
/// moves as its budget allowed, and moves on from every position before the
/// last of them.
proof fn lemma_cut_walk_stays_inside(tree: TreeView, features: Seq<i64>, at: int, budget: nat)
    requires
        tree.descend(features, at, budget) == Err::<i64, PredictError>(PredictError::CyclicPath),
    ensures
        forall|moves: nat|
            moves <= budget ==> 0 <= #[trigger] position_after(tree, features, at, moves)
                < tree.nodes.len(),
        forall|moves: nat|
            moves < budget ==> moves_on(
                tree,
                features,
                #[trigger] position_after(tree, features, at, moves),
            ),
    decreases budget,
{
    if budget > 0 {
        let next = step(tree, features, at);
        lemma_cut_walk_stays_inside(tree, features, next, (budget - 1) as nat);
        assert forall|moves: nat| moves <= budget implies 0 <= #[trigger] position_after(
            tree,
            features,
            at,
            moves,
        ) < tree.nodes.len() by {
            if moves > 0 {
                assert(0 <= position_after(tree, features, next, (moves - 1) as nat)
                    < tree.nodes.len());
            }
        }
        assert forall|moves: nat| moves < budget implies moves_on(
            tree,
            features,
            #[trigger] position_after(tree, features, at, moves),
        ) by {
            if moves > 0 {
                assert(moves_on(
                    tree,
                    features,
                    position_after(tree, features, next, (moves - 1) as nat),
                ));
            }
        }
    }
}

/// Among more positions than the arena has, all of them inside the arena,
/// two are the same.
proof fn lemma_positions_repeat(positions: Seq<int>, n: nat)
    requires
        positions.len() > n,
        forall|k: int| 0 <= k < positions.len() ==> 0 <= #[trigger] positions[k] < n,
    ensures
        exists|i: int, j: int| 0 <= i < j < positions.len() && positions[i] == positions[j],
{
    if positions.no_duplicates() {
        positions.unique_seq_to_set();
        lemma_int_range(0, n as int);
        assert(positions.to_set().subset_of(set_int_range(0, n as int)));
        lemma_len_subset(positions.to_set(), set_int_range(0, n as int));
    } else {
        let (i, j) = choose|i: int, j: int|
            0 <= i < positions.len() && 0 <= j < positions.len() && i != j && positions[i]
                == positions[j];
        if i < j {
            assert(0 <= i < j < positions.len() && positions[i] == positions[j]);
        } else {
            assert(0 <= j < i < positions.len() && positions[j] == positions[i]);
        }
    }
}

/// A walk is cut short as circular only when it is: on its way from the root
/// it comes back to a split that it has moved on from, within as many moves
/// as the arena has nodes.
pub proof fn lemma_cyclic_path_repeats_a_position(tree: TreeView, features: Seq<i64>)
    requires
        tree.evaluate(features) == Err::<i64, PredictError>(PredictError::CyclicPath),
    ensures
        exists|i: nat, j: nat|
            i < j <= tree.nodes.len() && #[trigger] position_after(
                tree,
                features,
                tree.root as int,
                i,
            ) == #[trigger] position_after(tree, features, tree.root as int, j) && moves_on(
                tree,
                features,
                position_after(tree, features, tree.root as int, i),
            ),
{
    let n = tree.nodes.len();
    lemma_cut_walk_stays_inside(tree, features, tree.root as int, n);
    let positions = Seq::new(
        n + 1,
        |k: int| position_after(tree, features, tree.root as int, k as nat),
    );
    assert forall|k: int| 0 <= k < positions.len() implies 0 <= #[trigger] positions[k] < n by {
        assert(0 <= position_after(tree, features, tree.root as int, k as nat) < n);
    }
    lemma_positions_repeat(positions, n);
    let (i, j) = choose|i: int, j: int|
        0 <= i < j < positions.len() && positions[i] == positions[j];
    assert((i as nat) < (j as nat) <= n && position_after(
        tree,
        features,
        tree.root as int,
        i as nat,
    ) == position_after(tree, features, tree.root as int, j as nat) && moves_on(
        tree,
        features,
        position_after(tree, features, tree.root as int, i as nat),
    ));
}

/// Moving on `first` times and then `then` times is moving on `first + then`
/// times.
proof fn lemma_position_after_adds(
    tree: TreeView,
    features: Seq<i64>,
    at: int,
    first: nat,
    then: nat,
)
    ensures
        position_after(tree, features, at, first + then) == position_after(
            tree,
            features,
            position_after(tree, features, at, first),
            then,
        ),
    decreases first,
{
    if first > 0 {
        lemma_position_after_adds(
            tree,
            features,
            step(tree, features, at),
            (first - 1) as nat,
            then,
        );
    }
}

/// From a position that the walk does not move on from, it never moves.
proof fn lemma_halted_walk_stays(tree: TreeView, features: Seq<i64>, at: int, moves: nat)
    requires
        !moves_on(tree, features, at),
    ensures
        position_after(tree, features, at, moves) == at,
    decreases moves,
{
    if moves > 0 {
        lemma_halted_walk_stays(tree, features, at, (moves - 1) as nat);
    }
}

/// A walk that comes back to a position after `period` moves is there again
/// after every multiple of `period`.
proof fn lemma_walk_is_periodic(
    tree: TreeView,
    features: Seq<i64>,
    at: int,
    period: nat,
    times: nat,
)
    requires
        position_after(tree, features, at, period) == at,
    ensures
        position_after(tree, features, at, times * period) == at,
    decreases times,
{
    if times == 0 {
        assert(times * period == 0) by (nonlinear_arith)
            requires
                times == 0,
        ;
    } else {
        lemma_walk_is_periodic(tree, features, at, period, (times - 1) as nat);
        assert(times * period == period + (times - 1) * period) by (nonlinear_arith)
            requires
                times > 0,
        ;
        lemma_position_after_adds(tree, features, at, period, ((times - 1) * period) as nat);
    }
}

/// A walk that moves on from wherever it stands, for as many moves as the
/// budget allows, is cut short as circular.
proof fn lemma_restless_walk_is_cut(tree: TreeView, features: Seq<i64>, at: int, budget: nat)
    requires
        forall|moves: nat|
            moves <= budget ==> moves_on(
                tree,
                features,
                #[trigger] position_after(tree, features, at, moves),
            ),
    ensures
        tree.descend(features, at, budget) == Err::<i64, PredictError>(PredictError::CyclicPath),
    decreases budget,
{
    assert(moves_on(tree, features, position_after(tree, features, at, 0)));
    if budget > 0 {
        let next = step(tree, features, at);
        assert forall|moves: nat| moves <= budget - 1 implies moves_on(
            tree,
            features,
            #[trigger] position_after(tree, features, next, moves),
        ) by {
            assert(moves_on(tree, features, position_after(tree, features, at, moves + 1)));
        }
        lemma_restless_walk_is_cut(tree, features, next, (budget - 1) as nat);
    }
}

/// A walk that comes back to a split it has moved on from moves on for
/// ever.
proof fn lemma_returning_walk_never_halts(tree: TreeView, features: Seq<i64>, i: nat, j: nat)
    requires
        i < j,
        position_after(tree, features, tree.root as int, i) == position_after(
            tree,
            features,
            tree.root as int,
            j,
        ),
        moves_on(tree, features, position_after(tree, features, tree.root as int, i)),
    ensures
        forall|moves: nat|
            moves_on(tree, features, #[trigger] position_after(tree, features, tree.root as int, moves)),
{
    let root = tree.root as int;
    let back = position_after(tree, features, root, i);
    let period = (j - i) as nat;
    lemma_position_after_adds(tree, features, root, i, period);
    assert forall|moves: nat|
        moves_on(tree, features, #[trigger] position_after(tree, features, root, moves)) by {
        let here = position_after(tree, features, root, moves);
        if !moves_on(tree, features, here) {
            // the walk halts at `here`, yet it is at `back` again later on
            let later = (i + moves * period) as nat;
            lemma_walk_is_periodic(tree, features, back, period, moves);
            lemma_position_after_adds(tree, features, root, i, moves * period);
            assert(position_after(tree, features, root, later) == back);
            assert(later >= moves) by (nonlinear_arith)
                requires
                    later == i + moves * period,
                    period >= 1,
            ;
            lemma_position_after_adds(tree, features, root, moves, (later - moves) as nat);
            lemma_halted_walk_stays(tree, features, here, (later - moves) as nat);
            assert(back == here);
        }
    }
}

/// A walk that comes back to a split it has moved on from is cut short as
/// circular: it cannot end in any other way.
pub proof fn lemma_returning_walk_is_cyclic_path(
    tree: TreeView,
    features: Seq<i64>,
    i: nat,
    j: nat,
)
    requires
        i < j,
        position_after(tree, features, tree.root as int, i) == position_after(
            tree,
            features,
            tree.root as int,
            j,
        ),
        moves_on(tree, features, position_after(tree, features, tree.root as int, i)),
    ensures
        tree.evaluate(features) == Err::<i64, PredictError>(PredictError::CyclicPath),
{
    lemma_returning_walk_never_halts(tree, features, i, j);
    lemma_restless_walk_is_cut(tree, features, tree.root as int, tree.nodes.len());
}

/// What a walk yields at a position that it does not move on from: the value
/// of a leaf, or the fault of a position outside the arena or of a split that
/// reads beyond the feature vector.
pub open spec fn outcome_at(tree: TreeView, at: int) -> Result<i64, PredictError> {
    if !(0 <= at < tree.nodes.len()) {
        Err(PredictError::DanglingChildIndex)
    } else {
        match tree.nodes[at] {
            TreeNode::Leaf { value } => Ok(value),
            TreeNode::Internal { .. } => Err(PredictError::FeatureIndexOutOfRange),
        }
    }
}

/// Whether the walk from the root halts after exactly `moves` moves: it moves
/// on from every earlier position and not from the one it then stands at.
pub open spec fn halts_after(tree: TreeView, features: Seq<i64>, moves: nat) -> bool {
    &&& !moves_on(tree, features, position_after(tree, features, tree.root as int, moves))
    &&& forall|earlier: nat|
        earlier < moves ==> moves_on(
            tree,
            features,
            #[trigger] position_after(tree, features, tree.root as int, earlier),
        )
}

/// A walk whose budget lasts until it halts yields the outcome at the
/// position where it halts. The budget lasts when it exceeds the number of
/// moves, or equals it if the walk halts outside the arena.
proof fn lemma_descend_reaches_halt(
    tree: TreeView,
    features: Seq<i64>,
    at: int,
    moves: nat,
    budget: nat,
)
    requires
        !moves_on(tree, features, position_after(tree, features, at, moves)),
        forall|earlier: nat|
            earlier < moves ==> moves_on(
                tree,
                features,
                #[trigger] position_after(tree, features, at, earlier),
            ),
        budget > moves || (budget == moves && !(0 <= position_after(tree, features, at, moves)
            < tree.nodes.len())),
    ensures
        tree.descend(features, at, budget) == outcome_at(
            tree,
            position_after(tree, features, at, moves),
        ),
    decreases moves,
{
    if moves > 0 {
        let next = step(tree, features, at);
        assert(moves_on(tree, features, position_after(tree, features, at, 0)));
        assert forall|earlier: nat| earlier < moves - 1 implies moves_on(
            tree,
            features,
            #[trigger] position_after(tree, features, next, earlier),
        ) by {
            assert(moves_on(tree, features, position_after(tree, features, at, earlier + 1)));
        }
        lemma_descend_reaches_halt(
            tree,
            features,
            next,
            (moves - 1) as nat,
            (budget - 1) as nat,
        );
    }
}

/// The walk from the root yields the outcome at the first position that it
/// does not move on from. Together with the fact that a walk which never
/// halts is cut short as circular, this says what evaluation returns without
/// speaking of a budget.
pub proof fn lemma_halting_walk_evaluates(tree: TreeView, features: Seq<i64>, moves: nat)
    requires
        halts_after(tree, features, moves),
    ensures
        tree.evaluate(features) == outcome_at(
            tree,
            position_after(tree, features, tree.root as int, moves),
        ),
{
    let root = tree.root as int;
    let n = tree.nodes.len();
    let halt = position_after(tree, features, root, moves);
    let inside: nat = if 0 <= halt < n {
        moves + 1
    } else {
        moves
    };
    if inside > n {
        let positions = Seq::new(inside, |k: int| position_after(tree, features, root, k as nat));
        assert forall|k: int| 0 <= k < positions.len() implies 0 <= #[trigger] positions[k]
            < n by {
            if k < moves {
                assert(moves_on(tree, features, position_after(tree, features, root, k as nat)));
            }
        }
        lemma_positions_repeat(positions, n);
        let (i, j) = choose|i: int, j: int|
            0 <= i < j < positions.len() && positions[i] == positions[j];
        assert(moves_on(tree, features, position_after(tree, features, root, i as nat)));
        lemma_returning_walk_never_halts(tree, features, i as nat, j as nat);
        assert(moves_on(tree, features, position_after(tree, features, root, moves)));
    }
    lemma_descend_reaches_halt(tree, features, root, moves, n);
}

/// A walk that never halts is cut short as circular.
pub proof fn lemma_endless_walk_is_cyclic_path(tree: TreeView, features: Seq<i64>)
    requires
        forall|moves: nat| !halts_after(tree, features, moves),
    ensures
        tree.evaluate(features) == Err::<i64, PredictError>(PredictError::CyclicPath),
{
    let root = tree.root as int;
    assert forall|moves: nat|
        moves_on(tree, features, #[trigger] position_after(tree, features, root, moves)) by {
        lemma_never_halting_moves_on(tree, features, moves);
    }
    lemma_restless_walk_is_cut(tree, features, root, tree.nodes.len());
}

/// A walk that halts after no number of moves moves on from every position.
proof fn lemma_never_halting_moves_on(tree: TreeView, features: Seq<i64>, moves: nat)
    requires
        forall|k: nat| !halts_after(tree, features, k),
    ensures
        forall|earlier: nat|
            earlier <= moves ==> moves_on(
                tree,
                features,
                #[trigger] position_after(tree, features, tree.root as int, earlier),
            ),
    decreases moves,
{
    if moves > 0 {
        lemma_never_halting_moves_on(tree, features, (moves - 1) as nat);
    }
    assert(!halts_after(tree, features, moves));
}

} // verus!
