//! What the indexer thread does with each command it reads off the pipe:
//! the change it makes to its tree, and what it hands back to be shown.
//! Reading the pipe, ranking by distance and printing are the caller's.
use vstd::prelude::*;
use crate::indexer::kd_model::{adds_fit, added, has_key, inorder, points_view, removed, tree_of, tree_size, walk, lemma_size_is_len, KDTree};
use crate::indexer::protocol::{knn_code, Command, KNNType};
use crate::types::DenseVector;

verus! {

/// What the thread hands back after a command.
#[derive(Debug)]
pub enum Reply {
    /// The tree took the command.
    Done,
    /// Nearest neighbours are asked for; the caller ranks the tree's points
    /// by distance.
    Knn { knn_type: KNNType, k_value: usize, vector: DenseVector },
    /// The keys of the tree's points, in order, to be printed.
    Keys(Vec<String>),
    /// The number of the measure stands for none; the command is skipped.
    UnknownKnnType,
}

/// Commands the tree cannot take; the thread stops on them.
#[derive(Debug, Clone, Copy, PartialEq, Eq, Structural)]
pub enum CommandError {
    /// The vector's length differs from the tree's dimension, once that is
    /// set.
    DimensionMismatch,
    /// The tree's points have no component to compare on.
    ZeroDimension,
    /// A counter, or the depth of a descent, would pass its limit.
    CounterOverflow,
    /// No point has the key to delete.
    KeyNotFound,
    /// Deleting would leave no point to rebuild the tree from.
    LastPoint,
}

/// The texts of a sequence of strings.
pub open spec fn string_views(s: Seq<String>) -> Seq<Seq<char>> {
    s.map_values(|k: String| k@)
}

/// The keys of a sequence of points.
pub open spec fn point_keys(s: Seq<(Seq<char>, Seq<u32>)>) -> Seq<Seq<char>> {
    s.map_values(|p: (Seq<char>, Seq<u32>)| p.0)
}

/// The error, if any, on which adding `(_, vector)` from `depth` stops.
pub open spec fn add_error(t: KDTree, vector: Seq<u32>, depth: nat) -> Option<CommandError> {
    let count = t._internals.current_number_of_kd_tree_nodes;
    let previous = t._internals.previous_tree_size;
    if t._root is None {
        if t.dim != 0 && vector.len() != t.dim {
            Some(CommandError::DimensionMismatch)
        } else if count == usize::MAX {
            Some(CommandError::CounterOverflow)
        } else {
            None
        }
    } else if vector.len() != t.dim {
        Some(CommandError::DimensionMismatch)
    } else if !t._internals.kd_tree_allow_update {
        None
    } else if t.dim == 0 {
        Some(CommandError::ZeroDimension)
    } else if count == usize::MAX || (previous != 0 && grew_past(t) && t._internals.rebuild_counter == usize::MAX)
        || depth + count > usize::MAX {
        Some(CommandError::CounterOverflow)
    } else {
        None
    }
}

/// Whether the tree is due for a rebuild before its next point.
pub open spec fn grew_past(t: KDTree) -> bool {
    crate::indexer::kd_model::grew_past_double(
        t._internals.current_number_of_kd_tree_nodes as nat,
        t._internals.previous_tree_size as nat,
    )
}

/// The error, if any, on which deleting the point keyed `key` stops.
pub open spec fn delete_error(t: KDTree, key: Seq<char>) -> Option<CommandError> {
    let pts = inorder(tree_of(t._root));
    if !has_key(pts, key) {
        Some(CommandError::KeyNotFound)
    } else if pts.len() < 2 {
        Some(CommandError::LastPoint)
    } else if pts.len() >= 3 && t.dim == 0 {
        Some(CommandError::ZeroDimension)
    } else {
        None
    }
}

/// Applies one command to the tree.
pub fn apply_command(tree: &mut KDTree, command: Command) -> (r: Result<Reply, CommandError>)
    requires
        old(tree).well_formed(),
    ensures
        final(tree).well_formed(),
        r is Err ==> *final(tree) == *old(tree),
        match command {
            Command::AddNode { key, depth, vector } => match add_error(*old(tree), vector@, depth as nat) {
                Some(e) => r == Err::<Reply, CommandError>(e),
                None => (r matches Ok(Reply::Done)) && added(*old(tree), *final(tree), key@, vector@, depth as nat),
            },
            Command::DeleteNode { key } => match delete_error(*old(tree), key@) {
                Some(e) => r == Err::<Reply, CommandError>(e),
                None => (r matches Ok(Reply::Done)) && removed(*old(tree), *final(tree), key@),
            },
            Command::GetKnn { knn_type, k_value, vector } => {
                &&& *final(tree) == *old(tree)
                &&& (0 <= knn_type <= 3) ==> (r matches Ok(Reply::Knn { knn_type: t, k_value: k, vector: v })
                    && knn_code(t) == knn_type && k == k_value && v@ == vector@)
                &&& !(0 <= knn_type <= 3) ==> (r matches Ok(Reply::UnknownKnnType))
            },
            Command::PrintTree => {
                &&& *final(tree) == *old(tree)
                &&& r matches Ok(Reply::Keys(keys))
                &&& string_views(keys@) == point_keys(inorder(tree_of(old(tree)._root)))
            },
        },
{
    match command {
        Command::AddNode { key, depth, vector } => {
            let count = tree._internals.current_number_of_kd_tree_nodes;
            if tree._root.is_none() {
                if tree.dim != 0 && vector.len() != tree.dim {
                    return Err(CommandError::DimensionMismatch);
                }
                if count == usize::MAX {
                    return Err(CommandError::CounterOverflow);
                }
            } else {
                if vector.len() != tree.dim {
                    return Err(CommandError::DimensionMismatch);
                }
                if tree._internals.kd_tree_allow_update {
                    if tree.dim == 0 {
                        return Err(CommandError::ZeroDimension);
                    }
                    let due = tree.rebuild_due();
                    if count == usize::MAX || (due && tree._internals.rebuild_counter == usize::MAX)
                        || depth as usize > usize::MAX - count {
                        return Err(CommandError::CounterOverflow);
                    }
                }
            }
            proof {
                lemma_size_is_len(tree_of(tree._root));
            }
            tree.add_node((key, vector), depth as usize);
            Ok(Reply::Done)
        },
        Command::DeleteNode { key } => {
            let points = tree.traversal(0);
            let ghost pts = inorder(tree_of(tree._root));
            proof {
                crate::indexer::kd_model::lemma_walk_all(tree_of(tree._root), Seq::empty());
                assert(points_view(points@) =~= pts);
            }
            let n = points.len();
            let mut i: usize = 0;
            let mut found = false;
            while i < n && !found
                invariant
                    i <= n,
                    n == points@.len(),
                    points_view(points@) == pts,
                    found ==> has_key(pts, key@),
                    !found ==> forall|q: int| 0 <= q < i ==> pts[q].0 != key@,
                decreases n - i + (if found { 0int } else { 1int }),
            {
                assert(pts[i as int].0 == points@[i as int].0@);
                if points[i].0.eq(&key) {
                    found = true;
                } else {
                    i = i + 1;
                }
            }
            if !found {
                return Err(CommandError::KeyNotFound);
            }
            if n < 2 {
                return Err(CommandError::LastPoint);
            }
            if n >= 3 && tree.dim == 0 {
                return Err(CommandError::ZeroDimension);
            }
            tree.delete_node(key);
            Ok(Reply::Done)
        },
        Command::GetKnn { knn_type, k_value, vector } => {
            match KNNType::from_code(knn_type) {
                Some(t) => Ok(Reply::Knn { knn_type: t, k_value: k_value as usize, vector }),
                None => Ok(Reply::UnknownKnnType),
            }
        },
        Command::PrintTree => {
            let points = tree.traversal(0);
            proof {
                crate::indexer::kd_model::lemma_walk_all(tree_of(tree._root), Seq::empty());
                assert(points_view(points@) =~= inorder(tree_of(tree._root)));
            }
            let mut keys: Vec<String> = Vec::new();
            let n = points.len();
            let mut i: usize = 0;
            while i < n
                invariant
                    i <= n,
                    n == points@.len(),
                    keys@.len() == i,
                    forall|j: int| 0 <= j < i ==> (#[trigger] keys@[j])@ == points@[j].0@,
                decreases n - i,
            {
                keys.push(points[i].0.clone());
                i = i + 1;
            }
            assert(string_views(keys@) =~= point_keys(inorder(tree_of(tree._root)))) by {
                assert forall|j: int| 0 <= j < n implies #[trigger] string_views(keys@)[j]
                    == point_keys(inorder(tree_of(tree._root)))[j] by {
                    assert(points_view(points@)[j] == inorder(tree_of(tree._root))[j]);
                }
            }
            Ok(Reply::Keys(keys))
        },
    }
}

} // verus!
