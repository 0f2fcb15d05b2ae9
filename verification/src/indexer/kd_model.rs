//! The indexer's k-d tree of keyed points. New points descend from the root
//! comparing one axis per level; when the tree has grown to more than twice
//! its size at the last rebuild, it is rebuilt balanced around medians.
use vstd::prelude::*;
use crate::indexer::select::{
    has_axis, key_at, lemma_map_multiset, lemma_ms_member, lemma_partitioned_range, lemma_range_multiset, lemma_scan_range,
    partitioned, quickselect_by, same_outside, scan, selected, swapped, Point,
};
use vstd::seq_lib::*;
use crate::types::DenseVector;

verus! {

broadcast use vstd::seq_lib::group_to_multiset_ensures;

/// A node: a keyed point, the axis it was filed under, and two subtrees.
pub struct KDTreeNode {
    pub key: String,
    pub vector: DenseVector,
    pub left: Option<Box<KDTreeNode>>,
    pub right: Option<Box<KDTreeNode>>,
    pub dim: usize,
}

/// A tree, as a mathematical value.
pub enum Tree {
    Empty,
    Node { key: Seq<char>, vector: Seq<u32>, dim: usize, left: Box<Tree>, right: Box<Tree> },
}

pub open spec fn tree_of(t: Option<Box<KDTreeNode>>) -> Tree
    decreases t,
{
    match t {
        None => Tree::Empty,
        Some(n) => Tree::Node {
            key: n.key@,
            vector: n.vector@,
            dim: n.dim,
            left: Box::new(tree_of(n.left)),
            right: Box::new(tree_of(n.right)),
        },
    }
}

pub open spec fn node_tree(n: KDTreeNode) -> Tree {
    tree_of(Some(Box::new(n)))
}

/// A point, as a mathematical value.
pub open spec fn point_view(p: Point) -> (Seq<char>, Seq<u32>) {
    (p.0@, p.1@)
}

pub open spec fn points_view(s: Seq<Point>) -> Seq<(Seq<char>, Seq<u32>)> {
    s.map_values(|p: Point| point_view(p))
}

/// The points of a tree, in order: left subtree, node, right subtree.
pub open spec fn inorder(t: Tree) -> Seq<(Seq<char>, Seq<u32>)>
    decreases t,
{
    match t {
        Tree::Empty => Seq::empty(),
        Tree::Node { key, vector, left, right, .. } => inorder(*left).push((key, vector)) + inorder(*right),
    }
}

/// The in-order walk that appends to `acc` and stops entering nodes once
/// `acc` holds `k` points (`k == 0`: no limit). A node entered before the
/// limit is reached is still appended after its left subtree.
pub open spec fn walk(t: Tree, k: nat, acc: Seq<(Seq<char>, Seq<u32>)>) -> Seq<(Seq<char>, Seq<u32>)>
    decreases t,
{
    match t {
        Tree::Empty => acc,
        Tree::Node { key, vector, left, right, .. } => if k != 0 && k <= acc.len() {
            acc
        } else {
            walk(*right, k, walk(*left, k, acc).push((key, vector)))
        },
    }
}

pub open spec fn tree_size(t: Tree) -> nat
    decreases t,
{
    match t {
        Tree::Empty => 0,
        Tree::Node { left, right, .. } => tree_size(*left) + 1 + tree_size(*right),
    }
}

/// The tree after filing `(key, vector)` from `depth` on: at each node the
/// axis is the depth modulo `dims`; a smaller component goes left, anything
/// else right; the new leaf records the axis of its parent's comparison.
pub open spec fn filed(t: Tree, key: Seq<char>, vector: Seq<u32>, depth: nat, dims: nat, axis: usize) -> Tree
    decreases t,
{
    match t {
        Tree::Empty => Tree::Node { key, vector, dim: axis, left: Box::new(Tree::Empty), right: Box::new(Tree::Empty) },
        Tree::Node { key: k, vector: v, dim, left, right } => {
            let d = (depth % dims) as int;
            if vector[d] < v[d] {
                Tree::Node { key: k, vector: v, dim, left: Box::new(filed(*left, key, vector, depth + 1, dims, d as usize)), right }
            } else {
                Tree::Node { key: k, vector: v, dim, left, right: Box::new(filed(*right, key, vector, depth + 1, dims, d as usize)) }
            }
        },
    }
}

/// Every node splits on its axis: nothing to its left has a larger
/// component there, nothing to its right a smaller one.
pub open spec fn split_ordered(t: Tree) -> bool
    decreases t,
{
    match t {
        Tree::Empty => true,
        Tree::Node { vector, dim, left, right, .. } => {
            &&& forall|i: int| 0 <= i < inorder(*left).len() ==> (#[trigger] inorder(*left)[i]).1[dim as int] <= vector[dim as int]
            &&& forall|i: int| 0 <= i < inorder(*right).len() ==> (#[trigger] inorder(*right)[i]).1[dim as int] >= vector[dim as int]
            &&& split_ordered(*left)
            &&& split_ordered(*right)
        },
    }
}

/// Every node's left subtree holds as many points as its right one, or one
/// more.
pub open spec fn balanced(t: Tree) -> bool
    decreases t,
{
    match t {
        Tree::Empty => true,
        Tree::Node { left, right, .. } => {
            &&& tree_size(*right) <= tree_size(*left) <= tree_size(*right) + 1
            &&& balanced(*left)
            &&& balanced(*right)
        },
    }
}

/// The axes cycle: a node on axis `d` has children on axis `(d + 1) % dims`.
pub open spec fn axes_cycle(t: Tree, dim: usize, dims: nat) -> bool
    decreases t,
{
    match t {
        Tree::Empty => true,
        Tree::Node { dim: d, left, right, .. } => {
            &&& d == dim
            &&& axes_cycle(*left, ((dim + 1) % dims as int) as usize, dims)
            &&& axes_cycle(*right, ((dim + 1) % dims as int) as usize, dims)
        },
    }
}

impl KDTreeNode {
    pub fn new(data: (String, DenseVector), dim: usize) -> (r: KDTreeNode)
        ensures
            r.key@ == data.0@,
            r.vector@ == data.1@,
            r.left is None,
            r.right is None,
            r.dim == dim,
    {
        KDTreeNode { key: data.0, vector: data.1, left: None, right: None, dim }
    }
}

/// Appends the walk of `node` to `result`, as `walk` says. Answers `None`
/// when it entered nothing (no node, or the limit already reached).
fn inorder_traversal_helper(node: &Option<Box<KDTreeNode>>, result: &mut Vec<Point>, k_value: usize) -> (r: Option<bool>)
    ensures
        points_view(final(result)@) == walk(tree_of(*node), k_value as nat, points_view(old(result)@)),
        r is None <==> (node is None || (k_value != 0 && k_value <= old(result)@.len())),
        r matches Some(b) ==> b,
    decreases node,
{
    match node {
        None => None,
        Some(current) => {
            if k_value != 0 && k_value <= result.len() {
                return None;
            }
            inorder_traversal_helper(&current.left, result, k_value);
            let ghost mid = result@;
            result.push((current.key.clone(), current.vector.clone()));
            assert(points_view(result@) =~= points_view(mid).push((current.key@, current.vector@)));
            inorder_traversal_helper(&current.right, result, k_value);
            Some(true)
        },
    }
}

/// Every point has `dims` components.
pub open spec fn uniform(s: Seq<Point>, dims: nat) -> bool {
    forall|k: int| 0 <= k < s.len() ==> (#[trigger] s[k]).1@.len() == dims
}

proof fn lemma_uniform_ms(s: Seq<Point>, t: Seq<Point>, dims: nat)
    requires
        s.to_multiset() == t.to_multiset(),
        uniform(s, dims),
    ensures
        uniform(t, dims),
{
    assert forall|k: int| 0 <= k < t.len() implies (#[trigger] t[k]).1@.len() == dims by {
        lemma_ms_member(s, t, k);
    }
}

/// The tree built from the points in `lo..hi` with axis `dim` at the root,
/// and the points after the building rearranged them: the point a sort on
/// the axis would put in the middle (`lo + (hi - lo) / 2`) is moved there
/// by quickselect and becomes the node; the points before it are built
/// into the left subtree, then those after it into the right one, both on
/// the next axis.
pub open spec fn built(s: Seq<(Seq<char>, Seq<u32>)>, lo: int, hi: int, dim: usize) -> (Tree, Seq<(Seq<char>, Seq<u32>)>)
    decreases hi - lo,
{
    if 0 <= lo < hi <= s.len() {
        if hi - lo == 1 {
            (Tree::Node { key: s[lo].0, vector: s[lo].1, dim, left: Box::new(Tree::Empty), right: Box::new(Tree::Empty) }, s)
        } else {
            let mid = lo + (hi - lo) / 2;
            let s1 = selected(s, lo, hi, mid, dim as int);
            let p = s1[mid];
            let next = ((dim + 1) % (p.1.len() as int)) as usize;
            let (lt, s2) = built(s1, lo, mid, next);
            let (rt, s3) = if hi - lo >= 3 {
                built(s2, mid + 1, hi, next)
            } else {
                (Tree::Empty, s2)
            };
            (Tree::Node { key: p.0, vector: p.1, dim, left: Box::new(lt), right: Box::new(rt) }, s3)
        }
    } else {
        (Tree::Empty, s)
    }
}

proof fn lemma_view_swapped(s: Seq<Point>, i: int, j: int)
    requires
        0 <= i < s.len(),
        0 <= j < s.len(),
    ensures
        points_view(swapped(s, i, j)) == swapped(points_view(s), i, j),
{
    assert(points_view(swapped(s, i, j)) =~= swapped(points_view(s), i, j));
}

/// The partition's scan makes the same moves on the points and on their views.
proof fn lemma_view_scan(s: Seq<Point>, i: int, store: int, last: int, dim: int)
    requires
        0 <= store <= i <= last < s.len(),
    ensures
        points_view(scan(s, i, store, last, dim).0) == scan(points_view(s), i, store, last, dim).0,
        scan(s, i, store, last, dim).1 == scan(points_view(s), i, store, last, dim).1,
    decreases last - i,
{
    if i < last {
        assert(key_at(s[i], dim) == key_at(points_view(s)[i], dim));
        assert(key_at(s[last], dim) == key_at(points_view(s)[last], dim));
        if key_at(s[i], dim) < key_at(s[last], dim) {
            lemma_view_swapped(s, i, store);
            lemma_view_scan(swapped(s, i, store), i + 1, store + 1, last, dim);
        } else {
            lemma_view_scan(s, i + 1, store, last, dim);
        }
    }
}

proof fn lemma_view_partitioned(s: Seq<Point>, lo: int, hi: int, pivot: int, dim: int)
    requires
        0 <= lo <= pivot < hi <= s.len(),
    ensures
        points_view(partitioned(s, lo, hi, pivot, dim).0) == partitioned(points_view(s), lo, hi, pivot, dim).0,
        partitioned(s, lo, hi, pivot, dim).1 == partitioned(points_view(s), lo, hi, pivot, dim).1,
{
    let last = hi - 1;
    lemma_view_swapped(s, pivot, last);
    let u = swapped(s, pivot, last);
    lemma_view_scan(u, lo, lo, last, dim);
    lemma_scan_range(u, lo, lo, last, dim);
    let (t, store) = scan(u, lo, lo, last, dim);
    lemma_view_swapped(t, last, store);
}

/// Quickselect makes the same moves on the points and on their views.
proof fn lemma_view_selected(s: Seq<Point>, a: int, b: int, pos: int, dim: int)
    ensures
        points_view(selected(s, a, b, pos, dim)) == selected(points_view(s), a, b, pos, dim),
    decreases b - a,
{
    if 0 <= a <= pos < b <= s.len() {
        lemma_view_partitioned(s, a, b, a, dim);
        lemma_partitioned_range(s, a, b, a, dim);
        let (t, p) = partitioned(s, a, b, a, dim);
        if p == pos {
        } else if pos < p {
            lemma_view_selected(t, a, p, pos, dim);
        } else {
            lemma_view_selected(t, p + 1, b, pos, dim);
        }
    }
}

/// Builds a balanced tree of the points in `lo..hi`, splitting on axis
/// `dim` at the root and on the following axes below; the median on the
/// axis becomes the node, the smaller half the left subtree and the rest
/// the right one. The points in `lo..hi` are rearranged in the process.
fn create_tree_helper(points: &mut Vec<Point>, lo: usize, hi: usize, dim: usize) -> (r: KDTreeNode)
    requires
        lo < hi <= old(points)@.len(),
        uniform(old(points)@, old(points)@[lo as int].1@.len()),
        hi - lo >= 2 ==> dim < old(points)@[lo as int].1@.len(),
    ensures
        same_outside(old(points)@, final(points)@, lo as int, hi as int),
        final(points)@.to_multiset() == old(points)@.to_multiset(),
        inorder(node_tree(r)).to_multiset() == points_view(old(points)@.subrange(lo as int, hi as int)).to_multiset(),
        split_ordered(node_tree(r)),
        axes_cycle(node_tree(r), dim, old(points)@[lo as int].1@.len()),
        balanced(node_tree(r)),
        tree_size(node_tree(r)) == hi - lo,
        node_tree(r) == built(points_view(old(points)@), lo as int, hi as int, dim).0,
        points_view(final(points)@) == built(points_view(old(points)@), lo as int, hi as int, dim).1,
    decreases hi - lo,
{
    let ghost dims = old(points)@[lo as int].1@.len();
    let ghost a0 = points@;
    let len = hi - lo;
    if len == 1 {
        let r = KDTreeNode { key: points[lo].0.clone(), vector: points[lo].1.clone(), left: None, right: None, dim };
        proof {
            assert(tree_of(r.left) == Tree::Empty);
            assert(tree_of(r.right) == Tree::Empty);
            let t = node_tree(r);
            assert(t == Tree::Node { key: r.key@, vector: r.vector@, dim, left: Box::new(Tree::Empty), right: Box::new(Tree::Empty) });
            assert(inorder(Tree::Empty) == Seq::<(Seq<char>, Seq<u32>)>::empty());
            assert(split_ordered(Tree::Empty));
            assert(balanced(Tree::Empty) && tree_size(Tree::Empty) == 0);
            assert(axes_cycle(Tree::Empty, ((dim + 1) % dims as int) as usize, dims));
            assert(inorder(t) =~= seq![(r.key@, r.vector@)]);
            assert(points_view(a0.subrange(lo as int, hi as int)) =~= seq![point_view(a0[lo as int])]);
        }
        return r;
    }
    let mid = lo + len / 2;
    quickselect_by(points, lo, hi, mid, dim);
    let pivot = (points[mid].0.clone(), points[mid].1.clone());
    let ghost a1 = points@;
    proof {
        lemma_view_selected(a0, lo as int, hi as int, mid as int, dim as int);
        lemma_uniform_ms(a0, a1, dims);
        lemma_range_multiset(a0, a1, lo as int, hi as int);
        lemma_map_multiset(a0.subrange(lo as int, hi as int), a1.subrange(lo as int, hi as int), |p: Point| point_view(p));
        assert(points_view(a0.subrange(lo as int, hi as int)) =~= a0.subrange(lo as int, hi as int).map_values(|p: Point| point_view(p)));
        assert(points_view(a1.subrange(lo as int, hi as int)) =~= a1.subrange(lo as int, hi as int).map_values(|p: Point| point_view(p)));
    }
    assert(a1[mid as int].1@.len() == dims);
    assert(pivot.1@.len() == dims);
    let plen = pivot.1.len();
    assert(dim < plen);
    let next = (dim + 1) % plen;
    assert(points@[lo as int].1@.len() == dims);
    let left_node = create_tree_helper(points, lo, mid, next);
    let ghost a2 = points@;
    proof {
        lemma_uniform_ms(a1, a2, dims);
    }
    let right = if len >= 3 {
        assert(points@[mid + 1].1@.len() == dims);
        let right_node = create_tree_helper(points, mid + 1, hi, next);
        Some(Box::new(right_node))
    } else {
        None
    };
    let r = KDTreeNode { key: pivot.0, vector: pivot.1, left: Some(Box::new(left_node)), right, dim };
    proof {
        let lt = node_tree(left_node);
        let rt = tree_of(right);
        let v1 = points_view(a1);
        assert(v1[mid as int] == (pivot.0@, pivot.1@));
        assert(next == ((dim + 1) % (v1[mid as int].1.len() as int)) as usize);
        assert(built(points_view(a0), lo as int, hi as int, dim).0 == node_tree(r) && points_view(points@)
            == built(points_view(a0), lo as int, hi as int, dim).1) by {
            if len < 3 {
                assert(points@ == a2);
            }
        }
        assert(split_ordered(lt));
        assert(next == ((dim + 1) % dims as int) as usize);
        assert(a1[lo as int].1@.len() == dims);
        assert(axes_cycle(lt, next, dims));
        assert(axes_cycle(rt, next, dims)) by {
            if len < 3 {
                assert(rt == Tree::Empty);
            } else {
                assert(a2[mid + 1].1@.len() == dims);
            }
        }
        assert(split_ordered(rt)) by {
            if len < 3 {
                assert(rt == Tree::Empty);
            }
        }
        assert(node_tree(r) == Tree::Node { key: pivot.0@, vector: pivot.1@, dim, left: Box::new(lt), right: Box::new(rt) });
        assert(a2.subrange(mid + 1, hi as int) =~= a1.subrange(mid + 1, hi as int));
        assert(a2[mid as int] == a1[mid as int]);
        if len < 3 {
            assert(a1.subrange(mid + 1, hi as int) =~= Seq::<Point>::empty());
            assert(inorder(rt) =~= Seq::<(Seq<char>, Seq<u32>)>::empty());
        }
        let lv = points_view(a1.subrange(lo as int, mid as int));
        let rv = points_view(a1.subrange(mid + 1, hi as int));
        let pv = point_view(a1[mid as int]);
        assert(points_view(a1.subrange(lo as int, hi as int)) =~= lv.push(pv) + rv);
        assert(inorder(node_tree(r)) =~= inorder(lt).push((pivot.0@, pivot.1@)) + inorder(rt));
        lemma_multiset_commutative(lv.push(pv), rv);
        lemma_multiset_commutative(inorder(lt).push((pivot.0@, pivot.1@)), inorder(rt));
        // the left subtree holds points from before the median
        assert forall|i: int| 0 <= i < inorder(lt).len() implies
            (#[trigger] inorder(lt)[i]).1[dim as int] <= pivot.1@[dim as int] by {
            let x = inorder(lt)[i];
            assert(inorder(lt).contains(x));
            assert(lv.to_multiset().count(x) > 0);
            assert(lv.contains(x));
            let k = choose|k: int| 0 <= k < lv.len() && lv[k] == x;
            assert(a1[lo + k].1@ == x.1);
            assert(key_at(a1[lo + k], dim as int) <= key_at(a1[mid as int], dim as int));
        }
        assert forall|i: int| 0 <= i < inorder(rt).len() implies
            (#[trigger] inorder(rt)[i]).1[dim as int] >= pivot.1@[dim as int] by {
            let x = inorder(rt)[i];
            assert(inorder(rt).contains(x));
            assert(rv.to_multiset().count(x) > 0);
            assert(rv.contains(x));
            let k = choose|k: int| 0 <= k < rv.len() && rv[k] == x;
            assert(a1[mid + 1 + k].1@ == x.1);
            assert(key_at(a1[mid + 1 + k], dim as int) >= key_at(a1[mid as int], dim as int));
        }
        assert(pivot.1@.len() == dims);
    }
    r
}

/// The power of two by which `x` must be divided to keep 24 significant
/// bits (the precision of an `f32`), starting the search at `s`.
pub open spec fn f32_scale(x: nat, s: nat) -> nat
    decreases x - s,
{
    if s == 0 {
        1
    } else if x / s < 16777216 {
        s
    } else {
        proof {
            assert(x >= s * 16777216) by (nonlinear_arith)
                requires
                    x / s >= 16777216,
                    s > 0,
            ;
        }
        f32_scale(x, 2 * s)
    }
}

/// `x as f32`, as an integer: `x` rounded to 24 significant bits, ties to
/// even.
pub open spec fn f32_round(x: nat) -> nat {
    let s = f32_scale(x, 1);
    let q = x / s;
    let r = x % s;
    if r * 2 > s || (r * 2 == s && q % 2 == 1) {
        ((q + 1) * s) as nat
    } else {
        (q * s) as nat
    }
}

/// `a as f32 / b as f32 > 2.0` for `b > 0`: the quotient of the rounded
/// values exceeds 2 by more than half a unit in the last place of 2.0
/// (2^-23), the one case where it does not round back down to 2.0.
pub open spec fn grew_past_double(a: nat, b: nat) -> bool {
    f32_round(a) * 8388608 > 16777217 * f32_round(b)
}

/// `x as f32`, as an integer.
fn f32_rounded(x: u64) -> (r: u128)
    ensures
        r == f32_round(x as nat),
        r <= 2 * (x as int) + 1,
{
    let mut s: u64 = 1;
    while x / s >= 16777216
        invariant
            s >= 1,
            s == 1 || s <= x,
            f32_scale(x as nat, 1) == f32_scale(x as nat, s as nat),
        decreases x - s,
    {
        assert(x >= s * 16777216) by (nonlinear_arith)
            requires
                x / s >= 16777216,
                s > 0,
        ;
        s = s * 2;
    }
    let q = x / s;
    let r = x % s;
    assert(r < s);
    let up = (r as u128) * 2 > (s as u128) || ((r as u128) * 2 == (s as u128) && q % 2 == 1);
    assert(q * s <= x) by (nonlinear_arith)
        requires
            q == x / s,
            s > 0,
    ;
    if up {
        assert((q + 1) * s <= x + s) by (nonlinear_arith)
            requires
                q * s <= x,
        ;
        ((q as u128) + 1) * (s as u128)
    } else {
        (q as u128) * (s as u128)
    }
}

/// The tree's bookkeeping.
pub struct KDTreeInternals {
    pub kd_tree_allow_update: bool,
    pub current_number_of_kd_tree_nodes: usize,
    pub previous_tree_size: usize,
    pub rebuild_counter: usize,
}

/// The indexer's k-d tree. The tree is rebuilt when it has grown to more
/// than twice (the rebuild threshold, 2.0) its size at the last rebuild.
pub struct KDTree {
    pub _root: Option<Box<KDTreeNode>>,
    pub _internals: KDTreeInternals,
    pub is_debug_run: bool,
    pub dim: usize,
}

/// Every point of the tree has `dims` components.
pub open spec fn points_have_dims(t: Tree, dims: nat) -> bool {
    forall|i: int| 0 <= i < inorder(t).len() ==> (#[trigger] inorder(t)[i]).1.len() == dims
}

/// `t` is the balanced rebuild of the points `pts`, taken in that order:
/// the tree `built` makes of them from axis 0 at the root. It holds the same
/// points, split on every axis in turn.
pub open spec fn rebuilt_from(t: Tree, pts: Seq<(Seq<char>, Seq<u32>)>, dims: nat) -> bool {
    &&& t == built(pts, 0, pts.len() as int, 0).0
    &&& inorder(t).to_multiset() == pts.to_multiset()
    &&& split_ordered(t)
    &&& axes_cycle(t, 0, dims)
    &&& balanced(t)
    &&& t is Node
}

/// The first position in `pts` whose key is `key`.
pub open spec fn first_key_position(pts: Seq<(Seq<char>, Seq<u32>)>, key: Seq<char>) -> int {
    choose|p: int| 0 <= p < pts.len() && pts[p].0 == key && forall|q: int| 0 <= q < p ==> pts[q].0 != key
}

pub open spec fn has_key(pts: Seq<(Seq<char>, Seq<u32>)>, key: Seq<char>) -> bool {
    exists|p: int| 0 <= p < pts.len() && pts[p].0 == key
}

impl KDTree {
    /// An empty tree, open for updates.
    pub fn new() -> (r: KDTree)
        ensures
            r._root is None,
            r._internals.kd_tree_allow_update,
            r._internals.current_number_of_kd_tree_nodes == 0,
            r._internals.previous_tree_size == 0,
            r._internals.rebuild_counter == 0,
            r.is_debug_run,
            r.dim == 0,
    {
        KDTree {
            _root: None,
            _internals: KDTreeInternals {
                kd_tree_allow_update: true,
                current_number_of_kd_tree_nodes: 0,
                previous_tree_size: 0,
                rebuild_counter: 0,
            },
            is_debug_run: true,
            dim: 0,
        }
    }

    pub fn _root(&self) -> (r: Option<&KDTreeNode>)
        ensures
            match (r, self._root) {
                (Some(n), Some(b)) => *n == *b,
                (None, None) => true,
                _ => false,
            },
    {
        match &self._root {
            Some(b) => Some(&**b),
            None => None,
        }
    }

    /// The points in order, stopping once `k_value` are collected
    /// (`0`: all of them).
    pub fn traversal(&self, k_value: usize) -> (r: Vec<Point>)
        ensures
            points_view(r@) == walk(tree_of(self._root), k_value as nat, Seq::empty()),
    {
        let mut result: Vec<Point> = Vec::new();
        assert(points_view(result@) =~= Seq::<(Seq<char>, Seq<u32>)>::empty());
        inorder_traversal_helper(&self._root, &mut result, k_value);
        result
    }
}

/// Adding a point from `depth` on panics nowhere: the counters it raises are
/// below their limits, the dimension it divides by is not zero, and the
/// depth of the descent stays within `usize`.
pub open spec fn adds_fit(t: KDTree, depth: nat) -> bool {
    let count = t._internals.current_number_of_kd_tree_nodes;
    let previous = t._internals.previous_tree_size;
    let filing = t._root is Some && t._internals.kd_tree_allow_update;
    &&& (t._root is None || t._internals.kd_tree_allow_update) ==> count < usize::MAX
    &&& filing && previous != 0 && grew_past_double(count as nat, previous as nat) ==> t._internals.rebuild_counter < usize::MAX
    &&& filing ==> t.dim > 0
    &&& filing ==> depth + tree_size(tree_of(t._root)) <= usize::MAX
}

/// `new` is `old` after `(key, vector)` was added from `depth` on. The first
/// point fixes the dimension and becomes the root. Later points are refused
/// while the tree is locked for a rebuild; otherwise, when the tree has
/// grown to more than twice its size at the last rebuild, it is first
/// rebuilt balanced, and the point is then filed from the root.
pub open spec fn added(old: KDTree, new: KDTree, key: Seq<char>, vector: Seq<u32>, depth: nat) -> bool {
    let count = old._internals.current_number_of_kd_tree_nodes;
    let previous = old._internals.previous_tree_size;
    let old_tree = tree_of(old._root);
    &&& new.is_debug_run == old.is_debug_run
    &&& old._root is None ==> {
        &&& tree_of(new._root) == (Tree::Node {
            key,
            vector,
            dim: 0,
            left: Box::new(Tree::Empty),
            right: Box::new(Tree::Empty),
        })
        &&& new.dim == vector.len()
        &&& new._internals.current_number_of_kd_tree_nodes == count + 1
        &&& new._internals.previous_tree_size == previous
        &&& new._internals.rebuild_counter == old._internals.rebuild_counter
        &&& new._internals.kd_tree_allow_update == old._internals.kd_tree_allow_update
    }
    &&& old._root is Some && !old._internals.kd_tree_allow_update ==> new == old
    &&& old._root is Some && old._internals.kd_tree_allow_update ==> {
        let rebuilt = previous != 0 && grew_past_double(count as nat, previous as nat);
        &&& new.dim == old.dim
        &&& new._internals.kd_tree_allow_update
        &&& new._internals.current_number_of_kd_tree_nodes == count + 1
        &&& new._internals.previous_tree_size == (if previous == 0 || rebuilt { count } else { previous })
        &&& new._internals.rebuild_counter == old._internals.rebuild_counter + (if rebuilt { 1int } else { 0int })
        &&& !rebuilt ==> tree_of(new._root) == filed(old_tree, key, vector, depth, old.dim as nat, 0)
        &&& rebuilt ==> {
            let t = built(inorder(old_tree), 0, inorder(old_tree).len() as int, 0).0;
            &&& rebuilt_from(t, inorder(old_tree), old.dim as nat)
            &&& tree_of(new._root) == filed(t, key, vector, depth, old.dim as nat, 0)
        }
        &&& inorder(tree_of(new._root)).to_multiset() == inorder(old_tree).to_multiset().insert((key, vector))
    }
}

/// `new` is `old` after the first point keyed `key` was removed: a balanced
/// rebuild of the other points, the counters as they were.
pub open spec fn removed(old: KDTree, new: KDTree, key: Seq<char>) -> bool {
    let pts = inorder(tree_of(old._root));
    &&& rebuilt_from(tree_of(new._root), pts.remove(first_key_position(pts, key)), old.dim as nat)
    &&& new._internals.kd_tree_allow_update
    &&& new._internals.rebuild_counter == old._internals.rebuild_counter
    &&& new._internals.current_number_of_kd_tree_nodes == old._internals.current_number_of_kd_tree_nodes
    &&& new._internals.previous_tree_size == old._internals.previous_tree_size
    &&& new.dim == old.dim
    &&& new.is_debug_run == old.is_debug_run
}

impl KDTree {
    /// Every point of the tree has as many components as the tree's
    /// dimension, and the tree holds no more nodes than were ever added.
    pub open spec fn well_formed(&self) -> bool {
        &&& points_have_dims(tree_of(self._root), self.dim as nat)
        &&& tree_size(tree_of(self._root)) <= self._internals.current_number_of_kd_tree_nodes
    }

    /// Whether the tree has grown to more than twice its size at the last
    /// rebuild, the ratio computed on `f32` as the counts are.
    pub fn rebuild_due(&self) -> (r: bool)
        ensures
            r == (self._internals.previous_tree_size != 0 && grew_past_double(
                self._internals.current_number_of_kd_tree_nodes as nat,
                self._internals.previous_tree_size as nat,
            )),
    {
        let previous = self._internals.previous_tree_size;
        if previous == 0 {
            return false;
        }
        let a = f32_rounded(self._internals.current_number_of_kd_tree_nodes as u64);
        let b = f32_rounded(previous as u64);
        a * 8388608 > 16777217 * b
    }

    /// Adds a keyed point, whose length must be the tree's dimension once
    /// that is set. The first point fixes the dimension (when it is not set
    /// yet) and becomes the root. Later points are refused while the tree is locked
    /// for a rebuild; otherwise, when the tree has grown to more than twice
    /// its size at the last rebuild, it is first rebuilt balanced, and the
    /// point is then filed from the root, the comparison axis starting at
    /// `depth` (modulo the dimension) and advancing by one per level.
    pub fn add_node(&mut self, data: Point, depth: usize)
        requires
            old(self).well_formed(),
            old(self)._root is Some || old(self).dim != 0 ==> data.1@.len() == old(self).dim,
            adds_fit(*old(self), depth as nat),
        ensures
            final(self).well_formed(),
            added(*old(self), *final(self), data.0@, data.1@, depth as nat),
    {
        if self._root.is_none() {
            self.dim = data.1.len();
            let leaf = KDTreeNode::new(data, 0);
            proof {
                assert(tree_of(leaf.left) == Tree::Empty && tree_of(leaf.right) == Tree::Empty);
            }
            self._root = Some(Box::new(leaf));
            self._internals.current_number_of_kd_tree_nodes = self._internals.current_number_of_kd_tree_nodes + 1;
            proof {
                let t = tree_of(self._root);
                assert(inorder(Tree::Empty) == Seq::<(Seq<char>, Seq<u32>)>::empty());
                assert(inorder(t) =~= seq![(leaf.key@, leaf.vector@)]);
                lemma_size_is_len(t);
            }
            return;
        }
        if !self._internals.kd_tree_allow_update {
            return;
        }
        let ghost old_tree = tree_of(self._root);
        let count = self._internals.current_number_of_kd_tree_nodes;
        let previous = self._internals.previous_tree_size;
        if previous != 0 {
            if self.rebuild_due() {
                self._internals.previous_tree_size = count;
                self.rebuild();
                proof {
                    let t = tree_of(self._root);
                    lemma_dims_same(old_tree, t, self.dim as nat);
                    assert(inorder(t).len() == inorder(old_tree).len()) by {
                        assert(inorder(t).to_multiset().len() == inorder(old_tree).to_multiset().len());
                    }
                    lemma_size_is_len(t);
                    lemma_size_is_len(old_tree);
                }
            }
        } else {
            self._internals.previous_tree_size = count;
        }
        self._internals.current_number_of_kd_tree_nodes = count + 1;
        let ghost mid_tree = tree_of(self._root);
        let ghost key = data.0@;
        let ghost vector = data.1@;
        let mut root = self._root.take().unwrap();
        file_into(&mut root, data, depth, self.dim);
        self._root = Some(root);
        proof {
            let t = tree_of(self._root);
            lemma_filed_points(mid_tree, key, vector, depth as nat, self.dim as nat, 0);
            lemma_dims_insert(mid_tree, t, (key, vector), self.dim as nat);
            assert(inorder(t).len() == inorder(mid_tree).len() + 1) by {
                assert(inorder(t).to_multiset().len() == inorder(mid_tree).to_multiset().len() + 1);
            }
            lemma_size_is_len(t);
            lemma_size_is_len(mid_tree);
        }
    }

    /// Rebuilds the tree balanced from its points.
    fn rebuild(&mut self)
        requires
            old(self)._root is Some,
            points_have_dims(tree_of(old(self)._root), old(self).dim as nat),
            old(self).dim > 0,
            old(self)._internals.rebuild_counter < usize::MAX,
        ensures
            rebuilt_from(tree_of(final(self)._root), inorder(tree_of(old(self)._root)), old(self).dim as nat),
            final(self)._internals.rebuild_counter == old(self)._internals.rebuild_counter + 1,
            final(self)._internals.kd_tree_allow_update,
            final(self)._internals.current_number_of_kd_tree_nodes == old(self)._internals.current_number_of_kd_tree_nodes,
            final(self)._internals.previous_tree_size == old(self)._internals.previous_tree_size,
            final(self).dim == old(self).dim,
            final(self).is_debug_run == old(self).is_debug_run,
    {
        self._internals.kd_tree_allow_update = false;
        self._internals.rebuild_counter = self._internals.rebuild_counter + 1;
        let mut points = self.traversal(0);
        let ghost t = tree_of(self._root);
        proof {
            lemma_walk_all(t, Seq::empty());
            assert(points_view(points@) =~= inorder(t));
            lemma_tree_nonempty(t);
            lemma_views_uniform(points@, self.dim as nat);
            assert(points@[0].1@.len() == self.dim);
            assert(points@.subrange(0, points@.len() as int) =~= points@);
        }
        let n = points.len();
        let root = create_tree_helper(&mut points, 0, n, 0);
        self._root = Some(Box::new(root));
        self._internals.kd_tree_allow_update = true;
    }

    /// Removes the first point (in order) keyed `data` and rebuilds the tree
    /// from the rest.
    pub fn delete_node(&mut self, data: String)
        requires
            old(self).well_formed(),
            has_key(inorder(tree_of(old(self)._root)), data@),
            inorder(tree_of(old(self)._root)).len() >= 2,
            inorder(tree_of(old(self)._root)).len() >= 3 ==> old(self).dim > 0,
        ensures
            final(self).well_formed(),
            removed(*old(self), *final(self), data@),
    {
        self._internals.kd_tree_allow_update = false;
        let mut points = self.traversal(0);
        let ghost t = tree_of(self._root);
        let ghost pts = inorder(t);
        proof {
            lemma_walk_all(t, Seq::empty());
            assert(points_view(points@) =~= pts);
        }
        let n = points.len();
        let mut index: usize = 0;
        while index < n && !points[index].0.eq(&data)
            invariant
                index <= n,
                n == points@.len(),
                points_view(points@) == pts,
                forall|q: int| 0 <= q < index ==> pts[q].0 != data@,
            decreases n - index,
        {
            assert(pts[index as int].0 == points@[index as int].0@);
            index = index + 1;
        }
        proof {
            if index == n {
                let p = choose|p: int| 0 <= p < pts.len() && pts[p].0 == data@;
                assert(false);
            }
            assert(pts[index as int].0 == points@[index as int].0@);
            let f = first_key_position(pts, data@);
            assert(0 <= f < pts.len() && pts[f].0 == data@ && forall|q: int| 0 <= q < f ==> pts[q].0 != data@);
            assert(f == index);
        }
        points.remove(index);
        proof {
            assert(points_view(points@) =~= pts.remove(index as int));
            assert forall|i: int| 0 <= i < points_view(points@).len() implies
                (#[trigger] points_view(points@)[i]).1.len() == self.dim by {
                if i < index {
                    assert(points_view(points@)[i] == pts[i]);
                } else {
                    assert(points_view(points@)[i] == pts[i + 1]);
                }
            }
            lemma_views_uniform(points@, self.dim as nat);
            assert(points@[0].1@.len() == self.dim);
            assert(points@.subrange(0, points@.len() as int) =~= points@);
        }
        let m = points.len();
        let ghost rest = points_view(points@);
        let root = create_tree_helper(&mut points, 0, m, 0);
        self._root = Some(Box::new(root));
        self._internals.kd_tree_allow_update = true;
        proof {
            let u = tree_of(self._root);
            assert(inorder(u).len() == rest.len()) by {
                assert(inorder(u).to_multiset().len() == rest.to_multiset().len());
            }
            lemma_size_is_len(u);
            lemma_size_is_len(t);
            assert forall|i: int| 0 <= i < inorder(u).len() implies (#[trigger] inorder(u)[i]).1.len() == self.dim by {
                let y = inorder(u)[i];
                assert(inorder(u).contains(y));
                assert(rest.to_multiset().count(y) > 0);
                assert(rest.contains(y));
            }
        }
    }
}

/// Files `data` below `node`, comparing on axis `depth % dims` here and on
/// the following axes further down.
fn file_into(node: &mut KDTreeNode, data: Point, depth: usize, dims: usize)
    requires
        dims > 0,
        data.1@.len() == dims,
        points_have_dims(node_tree(*old(node)), dims as nat),
        depth + tree_size(node_tree(*old(node))) <= usize::MAX,
    ensures
        node_tree(*final(node)) == filed(node_tree(*old(node)), data.0@, data.1@, depth as nat, dims as nat, 0),
    decreases *old(node),
{
    proof {
        lemma_dims_parts(node_tree(*node), dims as nat);
    }
    let d = depth % dims;
    let ghost key = data.0@;
    let ghost vector = data.1@;
    if data.1[d] < node.vector[d] {
        match node.left.take() {
            None => {
                let leaf = KDTreeNode::new(data, d);
                assert(tree_of(leaf.left) == Tree::Empty && tree_of(leaf.right) == Tree::Empty);
                node.left = Some(Box::new(leaf));
                assert(tree_of(node.left) == filed(Tree::Empty, key, vector, depth as nat + 1, dims as nat, d));
            },
            Some(mut child) => {
                let ghost c0 = node_tree(*child);
                file_into(&mut child, data, depth + 1, dims);
                assert(filed(c0, key, vector, depth as nat + 1, dims as nat, 0)
                    == filed(c0, key, vector, depth as nat + 1, dims as nat, d));
                node.left = Some(child);
            },
        }
    } else {
        match node.right.take() {
            None => {
                let leaf = KDTreeNode::new(data, d);
                assert(tree_of(leaf.left) == Tree::Empty && tree_of(leaf.right) == Tree::Empty);
                node.right = Some(Box::new(leaf));
                assert(tree_of(node.right) == filed(Tree::Empty, key, vector, depth as nat + 1, dims as nat, d));
            },
            Some(mut child) => {
                let ghost c0 = node_tree(*child);
                file_into(&mut child, data, depth + 1, dims);
                assert(filed(c0, key, vector, depth as nat + 1, dims as nat, 0)
                    == filed(c0, key, vector, depth as nat + 1, dims as nat, d));
                node.right = Some(child);
            },
        }
    }
    assert(node_tree(*node) == Tree::Node {
        key: node.key@,
        vector: node.vector@,
        dim: node.dim,
        left: Box::new(tree_of(node.left)),
        right: Box::new(tree_of(node.right)),
    });
}

/// The parts of a tree whose points all have `dims` components have them too.
proof fn lemma_dims_parts(t: Tree, dims: nat)
    requires
        points_have_dims(t, dims),
    ensures
        t matches Tree::Node { vector, left, right, .. } ==> {
            &&& vector.len() == dims
            &&& points_have_dims(*left, dims)
            &&& points_have_dims(*right, dims)
            &&& tree_size(t) == tree_size(*left) + 1 + tree_size(*right)
        },
{
    match t {
        Tree::Empty => {},
        Tree::Node { key, vector, left, right, .. } => {
            let l = inorder(*left);
            let r = inorder(*right);
            assert(inorder(t) == l.push((key, vector)) + r);
            assert(inorder(t)[l.len() as int] == (key, vector));
            assert forall|i: int| 0 <= i < l.len() implies (#[trigger] l[i]).1.len() == dims by {
                assert(inorder(t)[i] == l[i]);
            }
            assert forall|i: int| 0 <= i < r.len() implies (#[trigger] r[i]).1.len() == dims by {
                assert(inorder(t)[l.len() + 1 + i] == r[i]);
            }
        },
    }
}

/// Two trees with the same points agree on their components' count.
proof fn lemma_dims_same(t: Tree, u: Tree, dims: nat)
    requires
        points_have_dims(t, dims),
        inorder(u).to_multiset() == inorder(t).to_multiset(),
    ensures
        points_have_dims(u, dims),
{
    assert forall|i: int| 0 <= i < inorder(u).len() implies (#[trigger] inorder(u)[i]).1.len() == dims by {
        let y = inorder(u)[i];
        assert(inorder(u).contains(y));
        assert(inorder(t).to_multiset().count(y) > 0);
        assert(inorder(t).contains(y));
        let j = choose|j: int| 0 <= j < inorder(t).len() && inorder(t)[j] == y;
    }
}

/// A tree whose points are those of `t` and one more of `dims`
/// components has only points of `dims` components.
proof fn lemma_dims_insert(t: Tree, u: Tree, x: (Seq<char>, Seq<u32>), dims: nat)
    requires
        points_have_dims(t, dims),
        x.1.len() == dims,
        inorder(u).to_multiset() == inorder(t).to_multiset().insert(x),
    ensures
        points_have_dims(u, dims),
{
    assert forall|i: int| 0 <= i < inorder(u).len() implies (#[trigger] inorder(u)[i]).1.len() == dims by {
        let y = inorder(u)[i];
        assert(inorder(u).contains(y));
        assert(inorder(u).to_multiset().count(y) > 0);
        if y != x {
            assert(inorder(t).to_multiset().count(y) > 0);
            assert(inorder(t).contains(y));
            let j = choose|j: int| 0 <= j < inorder(t).len() && inorder(t)[j] == y;
        }
    }
}

pub proof fn lemma_size_is_len(t: Tree)
    ensures
        tree_size(t) == inorder(t).len(),
    decreases t,
{
    match t {
        Tree::Empty => {},
        Tree::Node { left, right, .. } => {
            lemma_size_is_len(*left);
            lemma_size_is_len(*right);
        },
    }
}

/// Filing a point adds exactly that point to the tree.
pub proof fn lemma_filed_points(t: Tree, key: Seq<char>, vector: Seq<u32>, depth: nat, dims: nat, axis: usize)
    ensures
        inorder(filed(t, key, vector, depth, dims, axis)).to_multiset() == inorder(t).to_multiset().insert((key, vector)),
    decreases t,
{
    match t {
        Tree::Empty => {
            let f = filed(t, key, vector, depth, dims, axis);
            assert(f == Tree::Node { key, vector, dim: axis, left: Box::new(Tree::Empty), right: Box::new(Tree::Empty) });
            assert(inorder(Tree::Empty) =~= Seq::<(Seq<char>, Seq<u32>)>::empty());
            assert(inorder(f) =~= seq![(key, vector)]);
            assert(inorder(t) =~= Seq::<(Seq<char>, Seq<u32>)>::empty());
        },
        Tree::Node { key: k, vector: v, dim, left, right } => {
            let d = (depth % dims) as int;
            let me = seq![(k, v)];
            lemma_multiset_commutative(inorder(*left).push((k, v)), inorder(*right));
            lemma_multiset_commutative(inorder(*left), me);
            assert(inorder(*left).push((k, v)) =~= inorder(*left) + me);
            if vector[d] < v[d] {
                let nl = filed(*left, key, vector, depth + 1, dims, d as usize);
                lemma_filed_points(*left, key, vector, depth + 1, dims, d as usize);
                lemma_multiset_commutative(inorder(nl).push((k, v)), inorder(*right));
                lemma_multiset_commutative(inorder(nl), me);
                assert(inorder(nl).push((k, v)) =~= inorder(nl) + me);
            } else {
                let nr = filed(*right, key, vector, depth + 1, dims, d as usize);
                lemma_filed_points(*right, key, vector, depth + 1, dims, d as usize);
                lemma_multiset_commutative(inorder(*left).push((k, v)), inorder(nr));
            }
        },
    }
}

proof fn lemma_tree_nonempty(t: Tree)
    requires
        t is Node,
    ensures
        inorder(t).len() > 0,
{
    match t {
        Tree::Node { key, vector, left, right, .. } => {
            assert(inorder(t) == inorder(*left).push((key, vector)) + inorder(*right));
        },
        Tree::Empty => {},
    }
}

pub proof fn lemma_walk_all(t: Tree, acc: Seq<(Seq<char>, Seq<u32>)>)
    ensures
        walk(t, 0, acc) == acc + inorder(t),
    decreases t,
{
    match t {
        Tree::Empty => {
            assert(acc + inorder(t) =~= acc);
        },
        Tree::Node { key, vector, left, right, .. } => {
            lemma_walk_all(*left, acc);
            lemma_walk_all(*right, walk(*left, 0, acc).push((key, vector)));
            assert(acc + inorder(t) =~= (acc + inorder(*left)).push((key, vector)) + inorder(*right));
        },
    }
}

proof fn lemma_views_uniform(s: Seq<Point>, dims: nat)
    requires
        forall|i: int| 0 <= i < points_view(s).len() ==> (#[trigger] points_view(s)[i]).1.len() == dims,
    ensures
        uniform(s, dims),
{
    assert forall|k: int| 0 <= k < s.len() implies (#[trigger] s[k]).1@.len() == dims by {
        assert(points_view(s)[k].1 == s[k].1@);
    }
}

} // verus!
