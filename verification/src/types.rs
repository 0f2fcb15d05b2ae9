use vstd::prelude::*;

verus! {

/// Identifier of a stored point.
pub type PointId = u64;

/// One component of a dense vector, held as an order key of the `f32` value:
/// the integer order of two keys is the numeric order of the two floats
/// (negative zero is keyed as zero, NaN is not admitted).
pub type Component = u32;

/// A dense vector, component by component.
pub type DenseVector = Vec<Component>;

/// The distance or similarity measure an index ranks by.
#[derive(Debug, Clone, Copy, PartialEq, Eq, Structural)]
pub enum Similarity {
    Euclidean,
    Manhattan,
    Hamming,
    Cosine,
}

/// Errors of the database and its indexes.
#[derive(Debug, Clone, Copy, PartialEq, Eq, Structural)]
pub enum DbError {
    /// An index was asked to build itself from no vectors at all.
    IndexInitError,
    /// The index cannot rank by the requested similarity.
    UnsupportedSimilarity,
}

/// The payload attached to a point (it carries no fields yet).
#[derive(Debug, Clone, Copy, PartialEq, Eq, Structural)]
pub struct Payload {}

/// A vector together with the id it is indexed under.
#[derive(Debug)]
pub struct IndexedVector {
    pub id: PointId,
    pub vector: DenseVector,
}

impl View for IndexedVector {
    type V = (PointId, Seq<Component>);

    open spec fn view(&self) -> (PointId, Seq<Component>) {
        (self.id, self.vector@)
    }
}

impl Clone for IndexedVector {
    fn clone(&self) -> (r: Self)
        ensures
            r@ == self@,
    {
        IndexedVector { id: self.id, vector: self.vector.clone() }
    }
}

/// The views of a sequence of indexed vectors.
pub open spec fn indexed_views(s: Seq<IndexedVector>) -> Seq<(PointId, Seq<Component>)> {
    s.map_values(|v: IndexedVector| v@)
}

/// The kind of data a record holds.
#[derive(Debug, Clone, Copy, PartialEq, Eq, Structural)]
pub enum DataType {
    Text,
    Image,
    Audio,
    Blob,
}

impl Default for DataType {
    fn default() -> (r: Self)
        ensures
            r == DataType::Text,
    {
        DataType::Text
    }
}

} // verus!
