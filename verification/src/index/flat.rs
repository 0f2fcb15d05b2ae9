//! The flat index: every vector in insertion order, searched by scoring all
//! of them. The scores are distances or similarities between floats, which
//! the caller computes; the index ranks by them.
use vstd::prelude::*;
use crate::index::ranking::{rank_positions, ranking};
use crate::index::VectorIndex;
use crate::types::{indexed_views, Component, DbError, IndexedVector, PointId, Similarity};

verus! {

/// The flat index.
pub struct FlatIndex {
    index: Vec<IndexedVector>,
}

impl View for FlatIndex {
    type V = Seq<(PointId, Seq<Component>)>;

    closed spec fn view(&self) -> Seq<(PointId, Seq<Component>)> {
        indexed_views(self.index@)
    }
}

/// The first position holding `id`.
pub open spec fn first_position(s: Seq<(PointId, Seq<Component>)>, id: PointId) -> int {
    choose|p: int| 0 <= p < s.len() && s[p].0 == id && forall|q: int| 0 <= q < p ==> s[q].0 != id
}

pub open spec fn holds_id(s: Seq<(PointId, Seq<Component>)>, id: PointId) -> bool {
    exists|p: int| 0 <= p < s.len() && s[p].0 == id
}

/// The ids a search answers: the best `k` entries by score, best first.
/// Distances rank ascending, cosine similarity descending; equal scores keep
/// insertion order.
pub open spec fn top_ids(s: Seq<(PointId, Seq<Component>)>, scores: Seq<u32>, similarity: Similarity, k: usize) -> Seq<PointId> {
    let order = ranking(scores, similarity == Similarity::Cosine);
    let m = if k < s.len() { k as int } else { s.len() as int };
    order.take(m).map_values(|i: usize| s[i as int].0)
}

impl FlatIndex {
    pub fn new() -> (r: Self)
        ensures
            r@ == Seq::<(PointId, Seq<Component>)>::empty(),
    {
        let r = Self { index: Vec::new() };
        assert(r@ =~= Seq::<(PointId, Seq<Component>)>::empty());
        r
    }

    pub fn build(vectors: Vec<IndexedVector>) -> (r: Self)
        ensures
            r@ == indexed_views(vectors@),
    {
        FlatIndex { index: vectors }
    }

    /// The stored vectors, in insertion order.
    pub fn vectors(&self) -> (r: &[IndexedVector])
        ensures
            indexed_views(r@) == self@,
    {
        self.index.as_slice()
    }

    /// The ids of the best `k` vectors, where `scores[i]` is the score of
    /// the `i`-th stored vector as an order key.
    pub fn search(&self, scores: &Vec<u32>, similarity: Similarity, k: usize) -> (r: Result<Vec<PointId>, DbError>)
        requires
            scores@.len() == self@.len(),
        ensures
            r matches Ok(ids) && ids@ == top_ids(self@, scores@, similarity, k),
    {
        let descending = match similarity {
            Similarity::Cosine => true,
            _ => false,
        };
        let order = rank_positions(scores, descending);
        let m = if k < self.index.len() { k } else { self.index.len() };
        let mut ids: Vec<PointId> = Vec::new();
        let mut j: usize = 0;
        while j < m
            invariant
                j <= m,
                m <= order@.len(),
                order@.len() == self.index@.len(),
                forall|a: int| 0 <= a < order@.len() ==> #[trigger] order@[a] < self.index@.len(),
                ids@ =~= order@.take(j as int).map_values(|i: usize| self@[i as int].0),
            decreases m - j,
        {
            let pos = order[j];
            ids.push(self.index[pos].id);
            j = j + 1;
            assert(ids@ =~= order@.take(j as int).map_values(|i: usize| self@[i as int].0));
        }
        Ok(ids)
    }
}

impl Default for FlatIndex {
    fn default() -> (r: Self)
        ensures
            r@ == Seq::<(PointId, Seq<Component>)>::empty(),
    {
        Self::new()
    }
}

impl VectorIndex for FlatIndex {
    open spec fn can_insert(&self, vector: IndexedVector) -> bool {
        true
    }

    fn insert(&mut self, vector: IndexedVector) -> (r: Result<(), DbError>)
        ensures
            r is Ok,
            final(self)@ == old(self)@.push(vector@),
    {
        self.index.push(vector);
        assert(self@ =~= old(self)@.push(vector@));
        Ok(())
    }

    fn delete(&mut self, point_id: PointId) -> (r: Result<bool, DbError>)
        ensures
            r == Ok::<bool, DbError>(holds_id(old(self)@, point_id)),
            holds_id(old(self)@, point_id) ==> final(self)@ == old(self)@.remove(first_position(old(self)@, point_id)),
            !holds_id(old(self)@, point_id) ==> final(self)@ == old(self)@,
    {
        let n = self.index.len();
        let mut p: usize = 0;
        while p < n && self.index[p].id != point_id
            invariant
                p <= n,
                n == self@.len(),
                self == old(self),
                forall|q: int| 0 <= q < p ==> self@[q].0 != point_id,
            decreases n - p,
        {
            p = p + 1;
        }
        if p < n {
            proof {
                let f = first_position(old(self)@, point_id);
                assert(old(self)@[p as int].0 == point_id);
                assert(0 <= f < old(self)@.len() && old(self)@[f].0 == point_id
                    && forall|q: int| 0 <= q < f ==> old(self)@[q].0 != point_id);
                assert(f == p);
            }
            self.index.remove(p);
            assert(self@ =~= old(self)@.remove(p as int));
            Ok(true)
        } else {
            Ok(false)
        }
    }
}

/// Deleting the id of a vector just inserted, when no other vector had that
/// id, gives the index back as it was; the deletion reports the vector found.
pub proof fn law_delete_undoes_insert(s: Seq<(PointId, Seq<Component>)>, v: (PointId, Seq<Component>))
    requires
        !holds_id(s, v.0),
    ensures
        holds_id(s.push(v), v.0),
        s.push(v).remove(first_position(s.push(v), v.0)) == s,
{
    let t = s.push(v);
    let n = s.len() as int;
    assert(t[n].0 == v.0);
    assert(forall|q: int| 0 <= q < n ==> t[q].0 != v.0) by {
        assert forall|q: int| 0 <= q < n implies t[q].0 != v.0 by {
            assert(t[q] == s[q]);
        }
    }
    let f = first_position(t, v.0);
    assert(0 <= f < t.len() && t[f].0 == v.0 && forall|q: int| 0 <= q < f ==> t[q].0 != v.0);
    if f < n {
        assert(t[f] == s[f]);
    }
    assert(f == n);
    assert(t.remove(n) =~= s);
}

/// The index after each of `vs` is inserted into `s`, in order.
pub open spec fn after_inserts(s: Seq<(PointId, Seq<Component>)>, vs: Seq<(PointId, Seq<Component>)>) -> Seq<(PointId, Seq<Component>)>
    decreases vs.len(),
{
    if vs.len() == 0 {
        s
    } else {
        after_inserts(s, vs.drop_last()).push(vs.last())
    }
}

/// An index built from some vectors is the empty index after inserting
/// them one by one, in order: every later insert, delete and search answers
/// alike.
pub proof fn law_build_is_inserts(vs: Seq<IndexedVector>)
    ensures
        after_inserts(Seq::empty(), indexed_views(vs)) == indexed_views(vs),
    decreases vs.len(),
{
    let w = indexed_views(vs);
    if vs.len() > 0 {
        law_build_is_inserts(vs.drop_last());
        assert(indexed_views(vs.drop_last()) =~= w.drop_last());
        assert(w.drop_last().push(w.last()) =~= w);
    } else {
        assert(w =~= Seq::<(PointId, Seq<Component>)>::empty());
    }
}

} // verus!
