//! Vector indexes: a flat index ranked by caller-supplied scores, and a
//! k-d tree.

pub mod flat;
pub mod kd_tree;
pub mod ranking;

use vstd::prelude::*;
use crate::types::{DbError, IndexedVector, PointId};

verus! {

/// What every index supports.
pub trait VectorIndex {
    /// Whether the index can take `vector` as it stands.
    spec fn can_insert(&self, vector: IndexedVector) -> bool;

    fn insert(&mut self, vector: IndexedVector) -> Result<(), DbError>
        requires
            old(self).can_insert(vector),
    ;

    fn delete(&mut self, point_id: PointId) -> Result<bool, DbError>;
}

/// The kinds of index.
#[derive(Debug, Clone, Copy, PartialEq, Eq, Structural)]
pub enum IndexType {
    Flat,
    KDTree,
    HNSW,
}

} // verus!
