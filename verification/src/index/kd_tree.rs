//! The index's k-d tree. It is built balanced around medians, the axes
//! taken in turn from the root down; later points are filed below the
//! leaves, and deleted points stay in place, marked. A search ranks the live
//! points by their distances to the query, which the caller computes on
//! floats and hands in as order keys.
use vstd::prelude::*;
use std::collections::HashSet;
use vstd::seq_lib::*;
use crate::index::VectorIndex;
use crate::index::ranking::{rank_positions, ranking, ranks_before};
use crate::indexer::select::{has_axis, key_at, lemma_map_multiset, lemma_ms_member, lemma_range_multiset, quickselect_by, same_outside, Axes, Axial};
use crate::types::{indexed_views, Component, DbError, IndexedVector, PointId, Similarity};

verus! {

broadcast use vstd::seq_lib::group_to_multiset_ensures, vstd::std_specs::hash::group_hash_axioms;

impl Axes for IndexedVector {
    open spec fn axes(&self) -> Seq<u32> {
        self.vector@
    }
}

impl Axial for IndexedVector {
    fn axis_value(&self, axis: usize) -> (r: u32) {
        self.vector[axis]
    }

    fn placeholder() -> (r: Self)
        ensures
            r@ == (0u64, Seq::<u32>::empty()),
    {
        IndexedVector { id: 0, vector: Vec::new() }
    }
}

/// A node: an indexed vector, the axis it splits on, its two subtrees, and
/// whether its point has been deleted.
pub struct KDTreeNode {
    pub indexed_vector: IndexedVector,
    pub split_dim: usize,
    pub left: Option<Box<KDTreeNode>>,
    pub right: Option<Box<KDTreeNode>>,
    pub is_deleted: bool,
}

/// A tree of indexed points, as a mathematical value.
pub enum IndexTree {
    Empty,
    Node {
        point: (PointId, Seq<Component>),
        split_dim: usize,
        deleted: bool,
        left: Box<IndexTree>,
        right: Box<IndexTree>,
    },
}

pub open spec fn tree_view(o: Option<Box<KDTreeNode>>) -> IndexTree
    decreases o,
{
    match o {
        None => IndexTree::Empty,
        Some(n) => IndexTree::Node {
            point: n.indexed_vector@,
            split_dim: n.split_dim,
            deleted: n.is_deleted,
            left: Box::new(tree_view(n.left)),
            right: Box::new(tree_view(n.right)),
        },
    }
}

/// Every point of the tree, deleted or not, in order: left subtree, node,
/// right subtree.
pub open spec fn points(t: IndexTree) -> Seq<(PointId, Seq<Component>)>
    decreases t,
{
    match t {
        IndexTree::Empty => Seq::empty(),
        IndexTree::Node { point, left, right, .. } => points(*left).push(point) + points(*right),
    }
}

/// The points not marked deleted, in order.
pub open spec fn live_points(t: IndexTree) -> Seq<(PointId, Seq<Component>)>
    decreases t,
{
    match t {
        IndexTree::Empty => Seq::empty(),
        IndexTree::Node { point, deleted, left, right, .. } =>
            live_points(*left) + (if deleted { Seq::empty() } else { seq![point] }) + live_points(*right),
    }
}

pub open spec fn index_tree_size(t: IndexTree) -> nat
    decreases t,
{
    match t {
        IndexTree::Empty => 0,
        IndexTree::Node { left, right, .. } => index_tree_size(*left) + 1 + index_tree_size(*right),
    }
}

/// The axis split on at `depth`: the axes in turn (axis 0 when there are
/// none).
pub open spec fn axis_at(depth: nat, dims: nat) -> nat {
    if dims == 0 {
        0
    } else {
        depth % dims
    }
}

/// Every node splits on its axis: nothing in its left subtree has a larger
/// component there, nothing in its right subtree a smaller one.
pub open spec fn ordered(t: IndexTree) -> bool
    decreases t,
{
    match t {
        IndexTree::Empty => true,
        IndexTree::Node { point, split_dim, left, right, .. } => {
            &&& forall|i: int| 0 <= i < points(*left).len()
                ==> (#[trigger] points(*left)[i]).1[split_dim as int] <= point.1[split_dim as int]
            &&& forall|i: int| 0 <= i < points(*right).len()
                ==> (#[trigger] points(*right)[i]).1[split_dim as int] >= point.1[split_dim as int]
            &&& ordered(*left)
            &&& ordered(*right)
        },
    }
}

/// The node at depth `depth` splits on `axis_at(depth, dims)`, and so on
/// below.
pub open spec fn axes_from(t: IndexTree, depth: nat, dims: nat) -> bool
    decreases t,
{
    match t {
        IndexTree::Empty => true,
        IndexTree::Node { split_dim, left, right, .. } => {
            &&& split_dim == axis_at(depth, dims)
            &&& axes_from(*left, depth + 1, dims)
            &&& axes_from(*right, depth + 1, dims)
        },
    }
}

/// Every node's left subtree holds as many nodes as its right one, or one
/// more.
pub open spec fn balanced(t: IndexTree) -> bool
    decreases t,
{
    match t {
        IndexTree::Empty => true,
        IndexTree::Node { left, right, .. } => {
            &&& index_tree_size(*right) <= index_tree_size(*left) <= index_tree_size(*right) + 1
            &&& balanced(*left)
            &&& balanced(*right)
        },
    }
}

/// Every point has at least `dims` components.
pub open spec fn covers(t: IndexTree, dims: nat) -> bool {
    forall|i: int| 0 <= i < points(t).len() ==> (#[trigger] points(t)[i]).1.len() >= dims
}

/// No point is marked deleted.
pub open spec fn none_deleted(t: IndexTree) -> bool
    decreases t,
{
    match t {
        IndexTree::Empty => true,
        IndexTree::Node { deleted, left, right, .. } => !deleted && none_deleted(*left) && none_deleted(*right),
    }
}

/// Some point of the tree, deleted or not, has id `id`.
pub open spec fn holds_id(t: IndexTree, id: PointId) -> bool {
    exists|i: int| 0 <= i < points(t).len() && (#[trigger] points(t)[i]).0 == id
}

/// The ids of a sequence of points.
pub open spec fn ids_of(s: Seq<(PointId, Seq<Component>)>) -> Set<PointId> {
    Set::new(|id: PointId| exists|i: int| 0 <= i < s.len() && (#[trigger] s[i]).0 == id)
}

/// The tree after `p` is filed from depth `depth`: at each node, compared
/// on the node's axis, a component no larger than the node's goes left and
/// a larger one right; the new leaf splits on the axis of its own depth.
pub open spec fn placed(t: IndexTree, p: (PointId, Seq<Component>), depth: nat, dims: nat) -> IndexTree
    decreases t,
{
    match t {
        IndexTree::Empty => IndexTree::Node {
            point: p,
            split_dim: axis_at(depth, dims) as usize,
            deleted: false,
            left: Box::new(IndexTree::Empty),
            right: Box::new(IndexTree::Empty),
        },
        IndexTree::Node { point, split_dim, deleted, left, right } => {
            let a = axis_at(depth, dims) as int;
            if p.1[a] <= point.1[a] {
                IndexTree::Node { point, split_dim, deleted, left: Box::new(placed(*left, p, depth + 1, dims)), right }
            } else {
                IndexTree::Node { point, split_dim, deleted, left, right: Box::new(placed(*right, p, depth + 1, dims)) }
            }
        },
    }
}

/// Some live point of the tree has id `id`.
pub open spec fn holds_live(t: IndexTree, id: PointId) -> bool
    decreases t,
{
    match t {
        IndexTree::Empty => false,
        IndexTree::Node { point, deleted, left, right, .. } =>
            (!deleted && point.0 == id) || holds_live(*left, id) || holds_live(*right, id),
    }
}

/// The tree with every live node of id `id` marked deleted.
pub open spec fn mark_all(t: IndexTree, id: PointId) -> IndexTree
    decreases t,
{
    match t {
        IndexTree::Empty => IndexTree::Empty,
        IndexTree::Node { point, split_dim, deleted, left, right } => IndexTree::Node {
            point,
            split_dim,
            deleted: deleted || point.0 == id,
            left: Box::new(mark_all(*left, id)),
            right: Box::new(mark_all(*right, id)),
        },
    }
}

/// A k-d tree, as a mathematical value: its dimension, its nodes, and the
/// ids it has registered.
pub struct KDTreeView {
    pub dim: nat,
    pub tree: IndexTree,
    pub ids: Set<PointId>,
}

impl KDTreeView {
    /// The tree splits as its axes say, every point has a component on each
    /// axis, and the registered ids are exactly those of the live points.
    pub open spec fn well_formed(self) -> bool {
        &&& ordered(self.tree)
        &&& axes_from(self.tree, 0, self.dim)
        &&& covers(self.tree, self.dim)
        &&& forall|id: PointId| self.ids.contains(id) <==> holds_live(self.tree, id)
    }
}

/// The k-d tree.
pub struct KDTree {
    dim: usize,
    root: Option<Box<KDTreeNode>>,
    point_ids: HashSet<PointId>,
}

impl View for KDTree {
    type V = KDTreeView;

    closed spec fn view(&self) -> KDTreeView {
        KDTreeView { dim: self.dim as nat, tree: tree_view(self.root), ids: self.point_ids@ }
    }
}

/// Every vector has at least `dims` components.
pub open spec fn all_cover(s: Seq<IndexedVector>, dims: nat) -> bool {
    forall|k: int| 0 <= k < s.len() ==> (#[trigger] s[k]).vector@.len() >= dims
}

proof fn lemma_cover_ms(s: Seq<IndexedVector>, t: Seq<IndexedVector>, dims: nat)
    requires
        s.to_multiset() == t.to_multiset(),
        all_cover(s, dims),
    ensures
        all_cover(t, dims),
{
    assert forall|k: int| 0 <= k < t.len() implies (#[trigger] t[k]).vector@.len() >= dims by {
        lemma_ms_member(s, t, k);
    }
}

proof fn lemma_has_axis(s: Seq<IndexedVector>, dims: nat, axis: int)
    requires
        all_cover(s, dims),
        0 <= axis < dims,
    ensures
        has_axis(s, axis),
{
    assert forall|k: int| 0 <= k < s.len() implies (#[trigger] s[k]).axes().len() > axis by {
        assert(s[k].vector@.len() >= dims);
    }
}

impl KDTree {
    /// Builds a balanced tree of the vectors in `lo..hi`: the median on the
    /// axis of `depth` becomes the node, the vectors before it the left
    /// subtree and those after it the right one. The vectors in `lo..hi`
    /// are rearranged in the process.
    pub fn build_recursive(vectors: &mut Vec<IndexedVector>, lo: usize, hi: usize, depth: usize, dim: usize) -> (r: Box<KDTreeNode>)
        requires
            lo < hi <= old(vectors)@.len(),
            dim > 0,
            all_cover(old(vectors)@, dim as nat),
            depth + (hi - lo) <= usize::MAX,
        ensures
            same_outside(old(vectors)@, final(vectors)@, lo as int, hi as int),
            final(vectors)@.to_multiset() == old(vectors)@.to_multiset(),
            all_cover(final(vectors)@, dim as nat),
            points(tree_view(Some(r))).to_multiset()
                == indexed_views(old(vectors)@.subrange(lo as int, hi as int)).to_multiset(),
            ordered(tree_view(Some(r))),
            axes_from(tree_view(Some(r)), depth as nat, dim as nat),
            none_deleted(tree_view(Some(r))),
            balanced(tree_view(Some(r))),
            index_tree_size(tree_view(Some(r))) == hi - lo,
        decreases hi - lo,
    {
        let ghost a0 = vectors@;
        let axis = depth % dim;
        let mid = lo + (hi - lo) / 2;
        proof {
            lemma_has_axis(a0, dim as nat, axis as int);
        }
        quickselect_by(vectors, lo, hi, mid, axis);
        let ghost a1 = vectors@;
        proof {
            lemma_cover_ms(a0, a1, dim as nat);
            lemma_range_multiset(a0, a1, lo as int, hi as int);
            lemma_map_multiset(a0.subrange(lo as int, hi as int), a1.subrange(lo as int, hi as int), |v: IndexedVector| v@);
            assert(indexed_views(a0.subrange(lo as int, hi as int))
                =~= a0.subrange(lo as int, hi as int).map_values(|v: IndexedVector| v@));
            assert(indexed_views(a1.subrange(lo as int, hi as int))
                =~= a1.subrange(lo as int, hi as int).map_values(|v: IndexedVector| v@));
        }
        let median = vectors[mid].clone();
        let left = if lo < mid {
            Some(Self::build_recursive(vectors, lo, mid, depth + 1, dim))
        } else {
            None
        };
        let ghost a2 = vectors@;
        let right = if mid + 1 < hi {
            Some(Self::build_recursive(vectors, mid + 1, hi, depth + 1, dim))
        } else {
            None
        };
        let ghost a3 = vectors@;
        let r = Box::new(KDTreeNode { indexed_vector: median, split_dim: axis, left, right, is_deleted: false });
        proof {
            let lt = tree_view(left);
            let rt = tree_view(right);
            let lv = indexed_views(a1.subrange(lo as int, mid as int));
            let rv = indexed_views(a1.subrange(mid + 1, hi as int));
            let mv = a1[mid as int]@;
            if lo == mid {
                assert(lt == IndexTree::Empty);
                assert(lv =~= Seq::<(PointId, Seq<Component>)>::empty());
                assert(points(lt) =~= Seq::<(PointId, Seq<Component>)>::empty());
                assert(a2 == a1);
            }
            assert(a2.subrange(mid + 1, hi as int) =~= a1.subrange(mid + 1, hi as int));
            assert(a2[mid as int] == a1[mid as int]);
            if mid + 1 == hi {
                assert(rt == IndexTree::Empty);
                assert(rv =~= Seq::<(PointId, Seq<Component>)>::empty());
                assert(points(rt) =~= Seq::<(PointId, Seq<Component>)>::empty());
                assert(a3 == a2);
            }
            assert(tree_view(Some(r)) == IndexTree::Node {
                point: mv,
                split_dim: axis,
                deleted: false,
                left: Box::new(lt),
                right: Box::new(rt),
            });
            assert(ordered(lt) && axes_from(lt, depth as nat + 1, dim as nat) && none_deleted(lt)
                && balanced(lt) && index_tree_size(lt) == mid - lo) by {
                if lo == mid {
                    assert(lt == IndexTree::Empty);
                }
            }
            assert(ordered(rt) && axes_from(rt, depth as nat + 1, dim as nat) && none_deleted(rt)
                && balanced(rt) && index_tree_size(rt) == hi - mid - 1) by {
                if mid + 1 == hi {
                    assert(rt == IndexTree::Empty);
                }
            }
            assert(axis == axis_at(depth as nat, dim as nat));
            // the vectors outside `lo..hi` never move
            assert(same_outside(a0, a3, lo as int, hi as int)) by {
                assert forall|k: int| 0 <= k < a0.len() && !(lo <= k < hi) implies #[trigger] a3[k] == a0[k] by {
                    assert(a1[k] == a0[k]);
                    assert(a2[k] == a1[k]);
                    assert(a3[k] == a2[k]);
                }
            }
            assert(indexed_views(a1.subrange(lo as int, hi as int)) =~= lv.push(mv) + rv);
            assert(points(tree_view(Some(r))) =~= points(lt).push(mv) + points(rt));
            lemma_multiset_commutative(lv.push(mv), rv);
            lemma_multiset_commutative(points(lt).push(mv), points(rt));
            // the left subtree holds vectors from before the median
            assert forall|i: int| 0 <= i < points(lt).len() implies
                (#[trigger] points(lt)[i]).1[axis as int] <= mv.1[axis as int] by {
                let x = points(lt)[i];
                assert(points(lt).contains(x));
                assert(lv.to_multiset().count(x) > 0);
                assert(lv.contains(x));
                let k = choose|k: int| 0 <= k < lv.len() && lv[k] == x;
                assert(a1[lo + k]@ == x);
                assert(key_at(a1[lo + k], axis as int) <= key_at(a1[mid as int], axis as int));
            }
            assert forall|i: int| 0 <= i < points(rt).len() implies
                (#[trigger] points(rt)[i]).1[axis as int] >= mv.1[axis as int] by {
                let x = points(rt)[i];
                assert(points(rt).contains(x));
                assert(rv.to_multiset().count(x) > 0);
                assert(rv.contains(x));
                let k = choose|k: int| 0 <= k < rv.len() && rv[k] == x;
                assert(a1[mid + 1 + k]@ == x);
                assert(key_at(a1[mid + 1 + k], axis as int) >= key_at(a1[mid as int], axis as int));
            }
        }
        r
    }
}

pub open spec fn node_view(n: KDTreeNode) -> IndexTree {
    tree_view(Some(Box::new(n)))
}

/// The parts of a tree whose points cover `dims` axes cover them too.
proof fn lemma_parts(t: IndexTree, dims: nat)
    requires
        covers(t, dims),
    ensures
        t matches IndexTree::Node { point, left, right, .. } ==> {
            &&& point.1.len() >= dims
            &&& covers(*left, dims)
            &&& covers(*right, dims)
            &&& index_tree_size(t) == index_tree_size(*left) + 1 + index_tree_size(*right)
        },
{
    match t {
        IndexTree::Empty => {},
        IndexTree::Node { point, left, right, .. } => {
            let l = points(*left);
            let r = points(*right);
            assert(points(t) == l.push(point) + r);
            assert(points(t)[l.len() as int] == point);
            assert forall|i: int| 0 <= i < l.len() implies (#[trigger] l[i]).1.len() >= dims by {
                assert(points(t)[i] == l[i]);
            }
            assert forall|i: int| 0 <= i < r.len() implies (#[trigger] r[i]).1.len() >= dims by {
                assert(points(t)[l.len() + 1 + i] == r[i]);
            }
        },
    }
}

/// The items of `a + b + c`, counted.
proof fn lemma_ms3<A>(a: Seq<A>, b: Seq<A>, c: Seq<A>)
    ensures
        (a + b + c).to_multiset() == a.to_multiset().add(b.to_multiset()).add(c.to_multiset()),
{
    lemma_multiset_commutative(a + b, c);
    lemma_multiset_commutative(a, b);
}

/// What `u` holds beyond `s` is `x` alone.
proof fn lemma_member_insert<A>(s: Seq<A>, u: Seq<A>, x: A, y: A)
    requires
        u.to_multiset() == s.to_multiset().insert(x),
        u.contains(y),
    ensures
        y == x || s.contains(y),
{
    assert(u.to_multiset().count(y) > 0);
    if y != x {
        assert(s.to_multiset().count(y) > 0);
    }
}

/// Filing a point keeps the tree split as its axes say, and adds exactly
/// that point.
proof fn lemma_placed(t: IndexTree, p: (PointId, Seq<Component>), depth: nat, dims: nat)
    requires
        ordered(t),
        axes_from(t, depth, dims),
        covers(t, dims),
        p.1.len() >= dims,
        dims <= usize::MAX,
    ensures
        ordered(placed(t, p, depth, dims)),
        axes_from(placed(t, p, depth, dims), depth, dims),
        points(placed(t, p, depth, dims)).to_multiset() == points(t).to_multiset().insert(p),
        live_points(placed(t, p, depth, dims)).to_multiset() == live_points(t).to_multiset().insert(p),
        index_tree_size(placed(t, p, depth, dims)) == index_tree_size(t) + 1,
    decreases t,
{
    lemma_parts(t, dims);
    let u = placed(t, p, depth, dims);
    match t {
        IndexTree::Empty => {
            assert(points(IndexTree::Empty) =~= Seq::<(PointId, Seq<Component>)>::empty());
            assert(live_points(IndexTree::Empty) =~= Seq::<(PointId, Seq<Component>)>::empty());
            assert(points(u) =~= seq![p]);
            assert(live_points(u) =~= seq![p]);
            assert(axes_from(IndexTree::Empty, depth + 1, dims));
            assert(axis_at(depth, dims) < dims || dims == 0);
        },
        IndexTree::Node { point, split_dim, deleted, left, right } => {
            let a = axis_at(depth, dims) as int;
            let mid: Seq<(PointId, Seq<Component>)> = if deleted { Seq::empty() } else { seq![point] };
            lemma_ms3(points(*left), seq![point], points(*right));
            assert(points(t) =~= points(*left) + seq![point] + points(*right));
            lemma_ms3(live_points(*left), mid, live_points(*right));
            if p.1[a] <= point.1[a] {
                let nl = placed(*left, p, depth + 1, dims);
                lemma_placed(*left, p, depth + 1, dims);
                lemma_ms3(points(nl), seq![point], points(*right));
                assert(points(u) =~= points(nl) + seq![point] + points(*right));
                lemma_ms3(live_points(nl), mid, live_points(*right));
                assert(live_points(u) =~= live_points(nl) + mid + live_points(*right));
                assert(points(u).to_multiset() =~= points(t).to_multiset().insert(p));
                assert(live_points(u).to_multiset() =~= live_points(t).to_multiset().insert(p));
                assert forall|i: int| 0 <= i < points(nl).len() implies
                    (#[trigger] points(nl)[i]).1[split_dim as int] <= point.1[split_dim as int] by {
                    let y = points(nl)[i];
                    assert(points(nl).contains(y));
                    lemma_member_insert(points(*left), points(nl), p, y);
                    if y != p {
                        let j = choose|j: int| 0 <= j < points(*left).len() && points(*left)[j] == y;
                    }
                }
            } else {
                let nr = placed(*right, p, depth + 1, dims);
                lemma_placed(*right, p, depth + 1, dims);
                lemma_ms3(points(*left), seq![point], points(nr));
                assert(points(u) =~= points(*left) + seq![point] + points(nr));
                lemma_ms3(live_points(*left), mid, live_points(nr));
                assert(live_points(u) =~= live_points(*left) + mid + live_points(nr));
                assert(points(u).to_multiset() =~= points(t).to_multiset().insert(p));
                assert(live_points(u).to_multiset() =~= live_points(t).to_multiset().insert(p));
                assert forall|i: int| 0 <= i < points(nr).len() implies
                    (#[trigger] points(nr)[i]).1[split_dim as int] >= point.1[split_dim as int] by {
                    let y = points(nr)[i];
                    assert(points(nr).contains(y));
                    lemma_member_insert(points(*right), points(nr), p, y);
                    if y != p {
                        let j = choose|j: int| 0 <= j < points(*right).len() && points(*right)[j] == y;
                    }
                }
            }
        },
    }
}

/// A tree holds an id when its node or one of its subtrees does.
proof fn lemma_holds_id_node(t: IndexTree, id: PointId)
    ensures
        t matches IndexTree::Node { point, left, right, .. } ==>
            (holds_id(t, id) <==> (point.0 == id || holds_id(*left, id) || holds_id(*right, id))),
        t is Empty ==> !holds_id(t, id),
{
    match t {
        IndexTree::Empty => {},
        IndexTree::Node { point, left, right, .. } => {
            let l = points(*left);
            let r = points(*right);
            assert(points(t) == l.push(point) + r);
            if holds_id(t, id) {
                let i = choose|i: int| 0 <= i < points(t).len() && (#[trigger] points(t)[i]).0 == id;
                if i < l.len() {
                    assert(l[i] == points(t)[i]);
                } else if i > l.len() {
                    assert(r[i - l.len() - 1] == points(t)[i]);
                }
            }
            if point.0 == id {
                assert(points(t)[l.len() as int] == point);
            }
            if holds_id(*left, id) {
                let i = choose|i: int| 0 <= i < l.len() && (#[trigger] l[i]).0 == id;
                assert(points(t)[i] == l[i]);
            }
            if holds_id(*right, id) {
                let i = choose|i: int| 0 <= i < r.len() && (#[trigger] r[i]).0 == id;
                assert(points(t)[l.len() + 1 + i] == r[i]);
            }
        },
    }
}

/// Marking the live nodes of an id deleted moves no point and changes no
/// split; afterwards no live node has the id, and the others stay live.
proof fn lemma_mark_all(t: IndexTree, id: PointId, depth: nat, dims: nat)
    ensures
        points(mark_all(t, id)) == points(t),
        ordered(mark_all(t, id)) == ordered(t),
        axes_from(mark_all(t, id), depth, dims) == axes_from(t, depth, dims),
        index_tree_size(mark_all(t, id)) == index_tree_size(t),
        forall|x: PointId| #[trigger] holds_live(mark_all(t, id), x) <==> (holds_live(t, x) && x != id),
    decreases t,
{
    match t {
        IndexTree::Empty => {
            assert forall|x: PointId| #[trigger] holds_live(mark_all(t, id), x) <==> (holds_live(t, x) && x != id) by {
                assert(mark_all(t, id) == IndexTree::Empty);
                assert(!holds_live(IndexTree::Empty, x));
            }
        },
        IndexTree::Node { point, split_dim, deleted, left, right } => {
            lemma_mark_all(*left, id, depth + 1, dims);
            lemma_mark_all(*right, id, depth + 1, dims);
            assert forall|x: PointId| #[trigger] holds_live(mark_all(t, id), x) <==> (holds_live(t, x) && x != id) by {
                assert(holds_live(mark_all(*left, id), x) <==> (holds_live(*left, x) && x != id));
                assert(holds_live(mark_all(*right, id), x) <==> (holds_live(*right, x) && x != id));
            }
        },
    }
}

/// In a tree with no deleted node, the live ids are the ids of its points.
proof fn lemma_live_when_none_deleted(t: IndexTree, id: PointId)
    requires
        none_deleted(t),
    ensures
        holds_live(t, id) <==> holds_id(t, id),
    decreases t,
{
    lemma_holds_id_node(t, id);
    match t {
        IndexTree::Empty => {},
        IndexTree::Node { left, right, .. } => {
            lemma_live_when_none_deleted(*left, id);
            lemma_live_when_none_deleted(*right, id);
        },
    }
}

/// Filing a point makes its id live and leaves the other ids as they were.
proof fn lemma_placed_live(t: IndexTree, p: (PointId, Seq<Component>), depth: nat, dims: nat, x: PointId)
    ensures
        holds_live(placed(t, p, depth, dims), x) <==> (holds_live(t, x) || x == p.0),
    decreases t,
{
    match t {
        IndexTree::Empty => {
            assert(!holds_live(IndexTree::Empty, x));
        },
        IndexTree::Node { left, right, .. } => {
            lemma_placed_live(*left, p, depth + 1, dims, x);
            lemma_placed_live(*right, p, depth + 1, dims, x);
        },
    }
}

/// A tree in which no live node has the id has no live point with it.
proof fn lemma_no_live_point(t: IndexTree, id: PointId)
    requires
        !holds_live(t, id),
    ensures
        forall|k: int| 0 <= k < live_points(t).len() ==> (#[trigger] live_points(t)[k]).0 != id,
    decreases t,
{
    match t {
        IndexTree::Empty => {},
        IndexTree::Node { point, deleted, left, right, .. } => {
            lemma_no_live_point(*left, id);
            lemma_no_live_point(*right, id);
            let l = live_points(*left);
            let mid: Seq<(PointId, Seq<Component>)> = if deleted { Seq::empty() } else { seq![point] };
            let r = live_points(*right);
            assert(live_points(t) == l + mid + r);
            assert forall|k: int| 0 <= k < live_points(t).len() implies (#[trigger] live_points(t)[k]).0 != id by {
                if k < l.len() {
                    assert(live_points(t)[k] == l[k]);
                } else if k < l.len() + mid.len() {
                    assert(live_points(t)[k] == point);
                } else {
                    assert(live_points(t)[k] == r[k - l.len() - mid.len()]);
                }
            }
        },
    }
}

impl KDTree {
    /// An empty tree of dimension `dim`.
    pub fn build_empty(dim: usize) -> (r: Self)
        ensures
            r@ == (KDTreeView { dim: dim as nat, tree: IndexTree::Empty, ids: Set::empty() }),
            r@.well_formed(),
    {
        let r = KDTree { dim, root: None, point_ids: HashSet::new() };
        proof {
            assert(points(IndexTree::Empty) =~= Seq::<(PointId, Seq<Component>)>::empty());
        }
        r
    }

    /// A balanced tree of `vectors`, of the dimension of the first one;
    /// refused when there are none.
    pub fn build(vectors: Vec<IndexedVector>) -> (r: Result<Self, DbError>)
        requires
            vectors@.len() > 0 ==> vectors@[0].vector@.len() > 0,
            vectors@.len() > 0 ==> all_cover(vectors@, vectors@[0].vector@.len()),
        ensures
            r is Err <==> vectors@.len() == 0,
            r matches Err(e) ==> e == DbError::IndexInitError,
            r matches Ok(t) ==> {
                &&& t@.well_formed()
                &&& t@.dim == vectors@[0].vector@.len()
                &&& t@.ids == ids_of(indexed_views(vectors@))
                &&& points(t@.tree).to_multiset() == indexed_views(vectors@).to_multiset()
                &&& none_deleted(t@.tree)
                &&& balanced(t@.tree)
                &&& t@.tree is Node
            },
    {
        if vectors.len() == 0 {
            return Err(DbError::IndexInitError);
        }
        let mut vectors = vectors;
        let ghost v0 = vectors@;
        let dim = vectors[0].vector.len();
        let n = vectors.len();
        let mut point_ids: HashSet<PointId> = HashSet::with_capacity(n);
        let mut i: usize = 0;
        while i < n
            invariant
                i <= n,
                n == vectors@.len(),
                vectors@ == v0,
                point_ids@ == ids_of(indexed_views(v0.take(i as int))),
            decreases n - i,
        {
            let id = vectors[i].id;
            point_ids.insert(id);
            proof {
                let before = indexed_views(v0.take(i as int));
                let after = indexed_views(v0.take(i + 1));
                assert(after =~= before.push(v0[i as int]@));
                assert(point_ids@ =~= ids_of(after)) by {
                    assert forall|x: PointId| point_ids@.contains(x) implies ids_of(after).contains(x) by {
                        if x == id {
                            assert(after[i as int].0 == id);
                        } else {
                            let j = choose|j: int| 0 <= j < before.len() && (#[trigger] before[j]).0 == x;
                            assert(after[j] == before[j]);
                        }
                    }
                    assert forall|x: PointId| ids_of(after).contains(x) implies point_ids@.contains(x) by {
                        let j = choose|j: int| 0 <= j < after.len() && (#[trigger] after[j]).0 == x;
                        if j < i {
                            assert(after[j] == before[j]);
                        }
                    }
                }
            }
            i = i + 1;
        }
        proof {
            assert(v0.take(n as int) =~= v0);
            assert(v0.subrange(0, n as int) =~= v0);
        }
        let root = Self::build_recursive(&mut vectors, 0, n, 0, dim);
        let r = KDTree { dim, root: Some(root), point_ids };
        proof {
            let t = tree_view(r.root);
            let views = indexed_views(v0);
            assert(covers(t, dim as nat)) by {
                assert forall|k: int| 0 <= k < points(t).len() implies (#[trigger] points(t)[k]).1.len() >= dim by {
                    let y = points(t)[k];
                    assert(points(t).contains(y));
                    assert(views.to_multiset().count(y) > 0);
                    assert(views.contains(y));
                    let j = choose|j: int| 0 <= j < views.len() && views[j] == y;
                    assert(views[j] == v0[j]@);
                }
            }
            assert forall|id: PointId| r@.ids.contains(id) <==> holds_live(t, id) by {
                lemma_live_when_none_deleted(t, id);
                if r@.ids.contains(id) {
                    let j = choose|j: int| 0 <= j < views.len() && (#[trigger] views[j]).0 == id;
                    let y = views[j];
                    assert(views.contains(y));
                    assert(points(t).to_multiset().count(y) > 0);
                    assert(points(t).contains(y));
                    let k = choose|k: int| 0 <= k < points(t).len() && points(t)[k] == y;
                    assert(points(t)[k].0 == id);
                }
                if holds_id(t, id) {
                    let k = choose|k: int| 0 <= k < points(t).len() && (#[trigger] points(t)[k]).0 == id;
                    let y = points(t)[k];
                    assert(points(t).contains(y));
                    assert(views.to_multiset().count(y) > 0);
                    assert(views.contains(y));
                    let j = choose|j: int| 0 <= j < views.len() && views[j] == y;
                    assert(views[j].0 == id);
                }
            }
        }
        Ok(r)
    }

    /// The nodes, from the root.
    pub fn root(&self) -> (r: &Option<Box<KDTreeNode>>)
        ensures
            tree_view(*r) == self@.tree,
    {
        &self.root
    }

    /// The dimension.
    pub fn dim(&self) -> (r: usize)
        ensures
            r == self@.dim,
    {
        self.dim
    }
}

impl KDTree {
    /// Files `v` below `node`, which sits at depth `depth`.
    fn place_below(node: &mut KDTreeNode, v: IndexedVector, depth: usize, dim: usize)
        requires
            dim > 0,
            v.vector@.len() >= dim,
            covers(node_view(*old(node)), dim as nat),
            depth + index_tree_size(node_view(*old(node))) <= usize::MAX,
        ensures
            node_view(*final(node)) == placed(node_view(*old(node)), v@, depth as nat, dim as nat),
        decreases *old(node),
    {
        proof {
            lemma_parts(node_view(*node), dim as nat);
        }
        let ghost p = v@;
        let axis = depth % dim;
        if v.vector[axis] <= node.indexed_vector.vector[axis] {
            match node.left.take() {
                None => {
                    let leaf = KDTreeNode { indexed_vector: v, split_dim: (depth + 1) % dim, left: None, right: None, is_deleted: false };
                    assert(tree_view(leaf.left) == IndexTree::Empty && tree_view(leaf.right) == IndexTree::Empty);
                    node.left = Some(Box::new(leaf));
                    assert(tree_view(node.left) == placed(IndexTree::Empty, p, depth as nat + 1, dim as nat));
                },
                Some(mut child) => {
                    Self::place_below(&mut child, v, depth + 1, dim);
                    node.left = Some(child);
                },
            }
        } else {
            match node.right.take() {
                None => {
                    let leaf = KDTreeNode { indexed_vector: v, split_dim: (depth + 1) % dim, left: None, right: None, is_deleted: false };
                    assert(tree_view(leaf.left) == IndexTree::Empty && tree_view(leaf.right) == IndexTree::Empty);
                    node.right = Some(Box::new(leaf));
                    assert(tree_view(node.right) == placed(IndexTree::Empty, p, depth as nat + 1, dim as nat));
                },
                Some(mut child) => {
                    Self::place_below(&mut child, v, depth + 1, dim);
                    node.right = Some(child);
                },
            }
        }
        assert(node_view(*node) == IndexTree::Node {
            point: node.indexed_vector@,
            split_dim: node.split_dim,
            deleted: node.is_deleted,
            left: Box::new(tree_view(node.left)),
            right: Box::new(tree_view(node.right)),
        });
    }

    /// Adds a vector: its id is registered, and it becomes the root of an
    /// empty tree or is filed below the leaves from the root down.
    pub fn insert_point(&mut self, new_vector: IndexedVector)
        requires
            old(self)@.well_formed(),
            old(self)@.tree is Node ==> old(self)@.dim > 0,
            new_vector.vector@.len() >= old(self)@.dim,
            index_tree_size(old(self)@.tree) < usize::MAX,
        ensures
            final(self)@.well_formed(),
            final(self)@.dim == old(self)@.dim,
            final(self)@.ids == old(self)@.ids.insert(new_vector.id),
            final(self)@.tree == placed(old(self)@.tree, new_vector@, 0, old(self)@.dim),
            points(final(self)@.tree).to_multiset() == points(old(self)@.tree).to_multiset().insert(new_vector@),
            live_points(final(self)@.tree).to_multiset() == live_points(old(self)@.tree).to_multiset().insert(new_vector@),
    {
        let ghost old_tree = tree_view(self.root);
        let ghost p = new_vector@;
        proof {
            lemma_placed(old_tree, p, 0, self.dim as nat);
        }
        let id = new_vector.id;
        self.point_ids.insert(id);
        if self.root.is_none() {
            let leaf = KDTreeNode { indexed_vector: new_vector, split_dim: 0, left: None, right: None, is_deleted: false };
            assert(tree_view(leaf.left) == IndexTree::Empty && tree_view(leaf.right) == IndexTree::Empty);
            self.root = Some(Box::new(leaf));
            assert(tree_view(self.root) == placed(old_tree, p, 0, self.dim as nat));
        } else {
            let dim = self.dim;
            let mut root = self.root.take().unwrap();
            Self::place_below(&mut root, new_vector, 0, dim);
            self.root = Some(root);
        }
        proof {
            let t = tree_view(self.root);
            assert(covers(t, self.dim as nat)) by {
                assert forall|k: int| 0 <= k < points(t).len() implies (#[trigger] points(t)[k]).1.len() >= self.dim by {
                    let y = points(t)[k];
                    assert(points(t).contains(y));
                    lemma_member_insert(points(old_tree), points(t), p, y);
                    if y != p {
                        let j = choose|j: int| 0 <= j < points(old_tree).len() && points(old_tree)[j] == y;
                    }
                }
            }
            assert forall|x: PointId| self@.ids.contains(x) <==> holds_live(t, x) by {
                lemma_placed_live(old_tree, p, 0, self.dim as nat, x);
            }
        }
    }

    /// Marks every live node with id `target_id` deleted; answers whether
    /// there was one.
    fn find_and_mark_deleted(node_opt: &mut Option<Box<KDTreeNode>>, target_id: PointId) -> (r: bool)
        ensures
            tree_view(*final(node_opt)) == mark_all(tree_view(*old(node_opt)), target_id),
            r == holds_live(tree_view(*old(node_opt)), target_id),
        decreases *old(node_opt),
    {
        let ghost t0 = tree_view(*node_opt);
        match node_opt.take() {
            None => false,
            Some(mut node) => {
                let ghost l0 = tree_view(node.left);
                let ghost r0 = tree_view(node.right);
                assert(t0 == IndexTree::Node {
                    point: node.indexed_vector@,
                    split_dim: node.split_dim,
                    deleted: node.is_deleted,
                    left: Box::new(l0),
                    right: Box::new(r0),
                });
                let here = !node.is_deleted && node.indexed_vector.id == target_id;
                if here {
                    node.is_deleted = true;
                }
                let in_left = Self::find_and_mark_deleted(&mut node.left, target_id);
                let in_right = Self::find_and_mark_deleted(&mut node.right, target_id);
                let ghost n1 = *node;
                *node_opt = Some(node);
                assert(tree_view(*node_opt) == IndexTree::Node {
                    point: n1.indexed_vector@,
                    split_dim: n1.split_dim,
                    deleted: n1.is_deleted,
                    left: Box::new(tree_view(n1.left)),
                    right: Box::new(tree_view(n1.right)),
                });
                here || in_left || in_right
            },
        }
    }

    /// Deletes the point registered under `point_id`: every live node with
    /// that id is marked deleted and the id is unregistered. Answers whether
    /// a point was deleted; an id that is not registered deletes nothing.
    pub fn delete_point(&mut self, point_id: &PointId) -> (r: bool)
        ensures
            r == (old(self)@.ids.contains(*point_id) && holds_live(old(self)@.tree, *point_id)),
            final(self)@.dim == old(self)@.dim,
            final(self)@.tree == (if old(self)@.ids.contains(*point_id) {
                mark_all(old(self)@.tree, *point_id)
            } else {
                old(self)@.tree
            }),
            final(self)@.ids == (if r { old(self)@.ids.remove(*point_id) } else { old(self)@.ids }),
            r ==> forall|k: int| 0 <= k < live_points(final(self)@.tree).len()
                ==> (#[trigger] live_points(final(self)@.tree)[k]).0 != *point_id,
            old(self)@.well_formed() ==> final(self)@.well_formed() && r == old(self)@.ids.contains(*point_id),
    {
        let ghost t0 = tree_view(self.root);
        proof {
            lemma_mark_all(t0, *point_id, 0, self.dim as nat);
        }
        if self.point_ids.contains(point_id) {
            let deleted = Self::find_and_mark_deleted(&mut self.root, *point_id);
            if deleted {
                self.point_ids.remove(point_id);
            }
            proof {
                let t = tree_view(self.root);
                assert(points(t) == points(t0));
                assert(!holds_live(t, *point_id));
                lemma_no_live_point(t, *point_id);
            }
            return deleted;
        }
        false
    }

    /// The live points, in order.
    pub fn live_vectors(&self) -> (r: Vec<IndexedVector>)
        ensures
            indexed_views(r@) == live_points(self@.tree),
    {
        let mut out: Vec<IndexedVector> = Vec::new();
        assert(indexed_views(out@) =~= Seq::<(PointId, Seq<Component>)>::empty());
        collect_live(&self.root, &mut out);
        assert(Seq::<(PointId, Seq<Component>)>::empty() + live_points(self@.tree) =~= live_points(self@.tree));
        out
    }

    /// The ids of the `k` live points nearest the query, nearest first.
    /// `distances[i]` is the distance from the query to the `i`-th live
    /// point (in order), as an order key; equal distances keep that order.
    /// Refused for the measures the tree cannot prune by, cosine and
    /// Hamming.
    pub fn search(&self, similarity: Similarity, distances: &Vec<u32>, k: usize) -> (r: Result<Vec<PointId>, DbError>)
        requires
            !(similarity == Similarity::Cosine || similarity == Similarity::Hamming)
                ==> distances@.len() == live_points(self@.tree).len(),
        ensures
            (similarity == Similarity::Cosine || similarity == Similarity::Hamming)
                ==> r == Err::<Vec<PointId>, DbError>(DbError::UnsupportedSimilarity),
            !(similarity == Similarity::Cosine || similarity == Similarity::Hamming) ==> {
                let live = live_points(self@.tree);
                let pos = nearest_positions(distances@, k);
                &&& r matches Ok(ids) && ids@ == pos.map_values(|p: usize| live[p as int].0)
                &&& pos.len() == (if k < live.len() { k as int } else { live.len() as int })
                &&& forall|a: int| 0 <= a < pos.len() ==> #[trigger] pos[a] < live.len()
                &&& forall|a: int, b: int| 0 <= a < b < pos.len() ==> #[trigger] pos[a] != #[trigger] pos[b]
                &&& forall|a: int, b: int| 0 <= a < b < pos.len()
                    ==> distances@[#[trigger] pos[a] as int] <= distances@[#[trigger] pos[b] as int]
                &&& forall|i: usize, a: int| 0 <= a < pos.len() && i < live.len() && !pos.contains(i)
                    ==> distances@[#[trigger] pos[a] as int] <= #[trigger] distances@[i as int]
            },
    {
        match similarity {
            Similarity::Cosine | Similarity::Hamming => {
                return Err(DbError::UnsupportedSimilarity);
            },
            _ => {},
        }
        let live = self.live_vectors();
        let order = rank_positions(distances, false);
        let ghost keys = distances@;
        let ghost lv = live_points(self@.tree);
        let n = live.len();
        let m = if k < n { k } else { n };
        let mut ids: Vec<PointId> = Vec::new();
        let mut j: usize = 0;
        while j < m
            invariant
                j <= m,
                m <= n,
                n == live@.len(),
                order@.len() == n,
                indexed_views(live@) == lv,
                forall|a: int| 0 <= a < order@.len() ==> #[trigger] order@[a] < n,
                ids@ =~= order@.take(j as int).map_values(|p: usize| lv[p as int].0),
            decreases m - j,
        {
            let p = order[j];
            assert(indexed_views(live@)[p as int] == live@[p as int]@);
            ids.push(live[p].id);
            j = j + 1;
            assert(ids@ =~= order@.take(j as int).map_values(|q: usize| lv[q as int].0));
        }
        proof {
            let pos = nearest_positions(keys, k);
            assert(pos == order@.take(m as int));
            assert forall|a: int, b: int| 0 <= a < b < pos.len() implies
                #[trigger] pos[a] != #[trigger] pos[b] && keys[pos[a] as int] <= keys[pos[b] as int] by {
                assert(ranks_before(keys, false, order@[a] as int, order@[b] as int));
            }
            assert forall|i: usize, a: int| 0 <= a < pos.len() && i < lv.len() && !pos.contains(i) implies
                keys[#[trigger] pos[a] as int] <= #[trigger] keys[i as int] by {
                assert(order@.contains(i));
                let c = choose|c: int| 0 <= c < order@.len() && order@[c] == i;
                if c < m {
                    assert(pos[c] == i);
                    assert(pos.contains(i));
                }
                assert(ranks_before(keys, false, order@[a] as int, order@[c] as int));
            }
        }
        Ok(ids)
    }
}

/// The positions of the `k` smallest keys, smallest first; equal keys keep
/// their order.
pub open spec fn nearest_positions(keys: Seq<u32>, k: usize) -> Seq<usize> {
    let m = if k < keys.len() { k as int } else { keys.len() as int };
    ranking(keys, false).take(m)
}

/// Appends the live points below `node`, in order, to `out`.
fn collect_live(node: &Option<Box<KDTreeNode>>, out: &mut Vec<IndexedVector>)
    ensures
        indexed_views(final(out)@) == indexed_views(old(out)@) + live_points(tree_view(*node)),
    decreases node,
{
    match node {
        None => {
            assert(indexed_views(out@) + live_points(tree_view(*node)) =~= indexed_views(out@));
        },
        Some(n) => {
            let ghost o0 = indexed_views(out@);
            collect_live(&n.left, out);
            let ghost o1 = indexed_views(out@);
            if !n.is_deleted {
                out.push(n.indexed_vector.clone());
                assert(indexed_views(out@) =~= o1.push(n.indexed_vector@));
            }
            collect_live(&n.right, out);
            let ghost t = tree_view(*node);
            assert(t == IndexTree::Node {
                point: n.indexed_vector@,
                split_dim: n.split_dim,
                deleted: n.is_deleted,
                left: Box::new(tree_view(n.left)),
                right: Box::new(tree_view(n.right)),
            });
            assert(indexed_views(out@) =~= o0 + live_points(t));
        },
    }
}

impl VectorIndex for KDTree {
    open spec fn can_insert(&self, vector: IndexedVector) -> bool {
        &&& self@.well_formed()
        &&& self@.tree is Node ==> self@.dim > 0
        &&& vector.vector@.len() >= self@.dim
        &&& index_tree_size(self@.tree) < usize::MAX
    }

    fn insert(&mut self, vector: IndexedVector) -> (r: Result<(), DbError>)
        ensures
            r is Ok,
            final(self)@.well_formed(),
            final(self)@.dim == old(self)@.dim,
            final(self)@.ids == old(self)@.ids.insert(vector.id),
            final(self)@.tree == placed(old(self)@.tree, vector@, 0, old(self)@.dim),
    {
        self.insert_point(vector);
        Ok(())
    }

    fn delete(&mut self, point_id: PointId) -> (r: Result<bool, DbError>)
        ensures
            r == Ok::<bool, DbError>(old(self)@.ids.contains(point_id) && holds_live(old(self)@.tree, point_id)),
            final(self)@.dim == old(self)@.dim,
            final(self)@.tree == (if old(self)@.ids.contains(point_id) {
                mark_all(old(self)@.tree, point_id)
            } else {
                old(self)@.tree
            }),
            old(self)@.well_formed() ==> final(self)@.well_formed(),
    {
        Ok(self.delete_point(&point_id))
    }
}

/// A registered id always names a live node of a well-formed tree, so
/// deleting it finds one.
pub proof fn law_registered_delete_succeeds(t: KDTreeView, id: PointId)
    requires
        t.well_formed(),
        t.ids.contains(id),
    ensures
        holds_live(t.tree, id),
{
}

/// Deleting marks nodes and moves nothing: the points, and how the tree
/// splits them, stay as they were.
pub proof fn law_delete_moves_nothing(t: IndexTree, id: PointId, dims: nat)
    ensures
        points(mark_all(t, id)) == points(t),
        ordered(mark_all(t, id)) == ordered(t),
        axes_from(mark_all(t, id), 0, dims) == axes_from(t, 0, dims),
{
    lemma_mark_all(t, id, 0, dims);
}

/// Filing a point into a tree that splits as its axes say keeps it so, and
/// adds exactly that point, live.
pub proof fn law_insert_keeps_order(t: IndexTree, p: (PointId, Seq<Component>), dims: nat)
    requires
        ordered(t),
        axes_from(t, 0, dims),
        covers(t, dims),
        p.1.len() >= dims,
        dims <= usize::MAX,
    ensures
        ordered(placed(t, p, 0, dims)),
        axes_from(placed(t, p, 0, dims), 0, dims),
        points(placed(t, p, 0, dims)).to_multiset() == points(t).to_multiset().insert(p),
        live_points(placed(t, p, 0, dims)).to_multiset() == live_points(t).to_multiset().insert(p),
{
    lemma_placed(t, p, 0, dims);
}

/// Once a point is deleted, no live point has its id: a search cannot
/// return it. Other ids stay live as they were.
pub proof fn law_deleted_point_not_live(t: IndexTree, id: PointId)
    ensures
        forall|k: int| 0 <= k < live_points(mark_all(t, id)).len()
            ==> (#[trigger] live_points(mark_all(t, id))[k]).0 != id,
        forall|x: PointId| x != id ==> (#[trigger] holds_live(mark_all(t, id), x) <==> holds_live(t, x)),
{
    lemma_mark_all(t, id, 0, 0);
    lemma_no_live_point(mark_all(t, id), id);
}

} // verus!
