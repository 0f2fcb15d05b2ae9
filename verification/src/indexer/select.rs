//! Selection of the k-th smallest point along one axis, in place: the
//! partition step (Lomuto, pivot moved to the end) and the quickselect
//! built on it. Both work on the range `lo..hi` of a vector of points and
//! leave everything outside the range as it was. They serve any point type
//! whose components can be read axis by axis.
use vstd::prelude::*;
use vstd::seq_lib::*;
use crate::types::DenseVector;

verus! {

broadcast use vstd::seq_lib::group_to_multiset_ensures;

/// A keyed point of the indexer.
pub type Point = (String, DenseVector);

/// A point whose components are order keys.
pub trait Axes {
    /// The components.
    spec fn axes(&self) -> Seq<u32>;
}

/// A point whose components can be read axis by axis.
pub trait Axial: Axes + Sized {
    fn axis_value(&self, axis: usize) -> (r: u32)
        requires
            axis < self.axes().len(),
        ensures
            r == self.axes()[axis as int],
    ;

    /// A value that briefly holds a slot while two points trade places.
    fn placeholder() -> Self;
}

impl Axes for Point {
    open spec fn axes(&self) -> Seq<u32> {
        self.1@
    }
}

/// A point as a mathematical value: its key and its components.
impl Axes for (Seq<char>, Seq<u32>) {
    open spec fn axes(&self) -> Seq<u32> {
        self.1
    }
}

impl Axial for Point {
    fn axis_value(&self, axis: usize) -> (r: u32) {
        self.1[axis]
    }

    fn placeholder() -> (r: Self)
        ensures
            r.0@ == Seq::<char>::empty(),
            r.1@ == Seq::<u32>::empty(),
    {
        (String::new(), Vec::new())
    }
}

/// The order key of a point on axis `dim`.
pub open spec fn key_at<T: Axes>(p: T, dim: int) -> u32 {
    p.axes()[dim]
}

/// Every point has a component on axis `dim`.
pub open spec fn has_axis<T: Axes>(s: Seq<T>, dim: int) -> bool {
    forall|k: int| 0 <= k < s.len() ==> (#[trigger] s[k]).axes().len() > dim
}

/// `t` equals `s` outside `lo..hi`.
pub open spec fn same_outside<T>(s: Seq<T>, t: Seq<T>, lo: int, hi: int) -> bool {
    &&& s.len() == t.len()
    &&& forall|k: int| 0 <= k < s.len() && !(lo <= k < hi) ==> #[trigger] t[k] == s[k]
}

fn swap_points<T: Axial>(arr: &mut Vec<T>, i: usize, j: usize)
    requires
        i < old(arr)@.len(),
        j < old(arr)@.len(),
    ensures
        final(arr)@ == old(arr)@.update(i as int, old(arr)@[j as int]).update(j as int, old(arr)@[i as int]),
        final(arr)@.to_multiset() == old(arr)@.to_multiset(),
{
    if i != j {
        let mut tmp = T::placeholder();
        arr.set_and_swap(i, &mut tmp);
        arr.set_and_swap(j, &mut tmp);
        arr.set_and_swap(i, &mut tmp);
    }
    proof {
        let s = old(arr)@;
        to_multiset_update(s, i as int, s[j as int]);
        to_multiset_update(s.update(i as int, s[j as int]), j as int, s[i as int]);
        assert(s.update(i as int, s[j as int]).update(j as int, s[i as int]).to_multiset()
            =~= s.to_multiset());
        if i == j {
            assert(s.update(i as int, s[j as int]).update(j as int, s[i as int]) =~= s);
        }
    }
}

/// `s` with the items at `i` and `j` traded.
pub open spec fn swapped<T>(s: Seq<T>, i: int, j: int) -> Seq<T> {
    s.update(i, s[j]).update(j, s[i])
}

/// The scan of the partition over `i..last` against the pivot at `last`:
/// an item with a smaller key is traded into place `store`, which then
/// moves on. Gives the items after the scan and the final `store`.
pub open spec fn scan<T: Axes>(s: Seq<T>, i: int, store: int, last: int, dim: int) -> (Seq<T>, int)
    decreases last - i,
{
    if i >= last {
        (s, store)
    } else if key_at(s[i], dim) < key_at(s[last], dim) {
        scan(swapped(s, i, store), i + 1, store + 1, last, dim)
    } else {
        scan(s, i + 1, store, last, dim)
    }
}

/// The partition of `lo..hi` around the item at `pivot`: the pivot is
/// traded to the end, the range scanned, and the pivot traded into the
/// place the scan stopped at. Gives the items and the pivot's place.
pub open spec fn partitioned<T: Axes>(s: Seq<T>, lo: int, hi: int, pivot: int, dim: int) -> (Seq<T>, int) {
    let last = hi - 1;
    let (t, store) = scan(swapped(s, pivot, last), lo, lo, last, dim);
    (swapped(t, last, store), store)
}

/// The scan keeps the length and stops between where it started and `last`.
pub proof fn lemma_scan_range<T: Axes>(s: Seq<T>, i: int, store: int, last: int, dim: int)
    requires
        0 <= store <= i <= last < s.len(),
    ensures
        scan(s, i, store, last, dim).0.len() == s.len(),
        store <= scan(s, i, store, last, dim).1 <= last,
    decreases last - i,
{
    if i < last {
        if key_at(s[i], dim) < key_at(s[last], dim) {
            lemma_scan_range(swapped(s, i, store), i + 1, store + 1, last, dim);
        } else {
            lemma_scan_range(s, i + 1, store, last, dim);
        }
    }
}

/// The pivot's place is in the range, and the length is kept.
pub proof fn lemma_partitioned_range<T: Axes>(s: Seq<T>, lo: int, hi: int, pivot: int, dim: int)
    requires
        0 <= lo <= pivot < hi <= s.len(),
    ensures
        partitioned(s, lo, hi, pivot, dim).0.len() == s.len(),
        lo <= partitioned(s, lo, hi, pivot, dim).1 < hi,
{
    lemma_scan_range(swapped(s, pivot, hi - 1), lo, lo, hi - 1, dim);
}

/// The items after quickselect moves the one a sort would put at `pos`
/// there: partition around the first item of the range, then go on in the
/// part that holds `pos`.
pub open spec fn selected<T: Axes>(s: Seq<T>, a: int, b: int, pos: int, dim: int) -> Seq<T>
    decreases b - a,
{
    if 0 <= a <= pos < b <= s.len() {
        let (t, p) = partitioned(s, a, b, a, dim);
        proof {
            lemma_partitioned_range(s, a, b, a, dim);
        }
        if p == pos {
            t
        } else if pos < p {
            selected(t, a, p, pos, dim)
        } else {
            selected(t, p + 1, b, pos, dim)
        }
    } else {
        s
    }
}

/// Partitions `lo..hi` around the point at `pivot_index`: the points whose
/// key on `dim` is smaller come first, then the pivot, then the rest.
/// Returns where the pivot ends up.
pub fn partition_by<T: Axial>(arr: &mut Vec<T>, lo: usize, hi: usize, pivot_index: usize, dim: usize) -> (r: usize)
    requires
        lo <= pivot_index < hi <= old(arr)@.len(),
        has_axis(old(arr)@, dim as int),
    ensures
        (final(arr)@, r as int) == partitioned(old(arr)@, lo as int, hi as int, pivot_index as int, dim as int),
        lo <= r < hi,
        final(arr)@[r as int] == old(arr)@[pivot_index as int],
        forall|k: int| lo <= k < r ==> key_at(#[trigger] final(arr)@[k], dim as int) < key_at(final(arr)@[r as int], dim as int),
        forall|k: int| r < k < hi ==> key_at(#[trigger] final(arr)@[k], dim as int) >= key_at(final(arr)@[r as int], dim as int),
        same_outside(old(arr)@, final(arr)@, lo as int, hi as int),
        final(arr)@.to_multiset() == old(arr)@.to_multiset(),
        has_axis(final(arr)@, dim as int),
{
    let last = hi - 1;
    swap_points(arr, pivot_index, last);
    let ghost s1 = arr@;
    let ghost pivot = old(arr)@[pivot_index as int];
    assert(arr@[last as int] == pivot);
    let mut store = lo;
    let mut i = lo;
    while i < last
        invariant
            lo <= store <= i <= last,
            last + 1 == hi,
            hi <= arr@.len(),
            arr@[last as int] == pivot,
            pivot.axes().len() > dim,
            has_axis(arr@, dim as int),
            forall|k: int| lo <= k < store ==> key_at(#[trigger] arr@[k], dim as int) < key_at(pivot, dim as int),
            forall|k: int| store <= k < i ==> key_at(#[trigger] arr@[k], dim as int) >= key_at(pivot, dim as int),
            same_outside(old(arr)@, arr@, lo as int, hi as int),
            arr@.to_multiset() == old(arr)@.to_multiset(),
            s1 == swapped(old(arr)@, pivot_index as int, last as int),
            scan(arr@, i as int, store as int, last as int, dim as int)
                == scan(s1, lo as int, lo as int, last as int, dim as int),
        decreases last - i,
    {
        let ghost before = arr@;
        assert(arr@[i as int].axes().len() > dim);
        assert(arr@[last as int].axes().len() > dim);
        if arr[i].axis_value(dim) < arr[last].axis_value(dim) {
            swap_points(arr, i, store);
            proof {
                assert forall|k: int| lo <= k < store + 1 implies key_at(#[trigger] arr@[k], dim as int) < key_at(pivot, dim as int) by {
                    if k == store {
                        assert(arr@[k] == before[i as int]);
                    } else {
                        assert(arr@[k] == before[k]);
                    }
                }
                assert forall|k: int| store + 1 <= k < i + 1 implies key_at(#[trigger] arr@[k], dim as int) >= key_at(pivot, dim as int) by {
                    if k == i {
                        assert(arr@[k] == before[store as int]);
                    } else {
                        assert(arr@[k] == before[k]);
                    }
                }
                assert forall|k: int| 0 <= k < arr@.len() implies (#[trigger] arr@[k]).axes().len() > dim by {
                    if k == i {
                        assert(arr@[k] == before[store as int]);
                    } else if k == store {
                        assert(arr@[k] == before[i as int]);
                    } else {
                        assert(arr@[k] == before[k]);
                    }
                }
            }
            store = store + 1;
        }
        i = i + 1;
    }
    let ghost before = arr@;
    swap_points(arr, last, store);
    proof {
        assert(arr@[store as int] == pivot);
        assert forall|k: int| lo <= k < store implies key_at(#[trigger] arr@[k], dim as int) < key_at(arr@[store as int], dim as int) by {
            assert(arr@[k] == before[k]);
        }
        assert forall|k: int| store < k < hi implies key_at(#[trigger] arr@[k], dim as int) >= key_at(arr@[store as int], dim as int) by {
            if k == last {
                assert(arr@[k] == before[store as int]);
            } else {
                assert(arr@[k] == before[k]);
            }
        }
        assert forall|k: int| 0 <= k < arr@.len() implies (#[trigger] arr@[k]).axes().len() > dim by {
            if k == last {
                assert(arr@[k] == before[store as int]);
            } else if k == store {
                assert(arr@[k] == before[last as int]);
            } else {
                assert(arr@[k] == before[k]);
            }
        }
    }
    store
}

/// Rearranges `lo..hi` so that the point at `position` is the one a sort by
/// the key on `dim` would put there, with no larger key before it and no
/// smaller key after it.
pub fn quickselect_by<T: Axial>(arr: &mut Vec<T>, lo: usize, hi: usize, position: usize, dim: usize)
    requires
        lo <= position < hi <= old(arr)@.len(),
        has_axis(old(arr)@, dim as int),
    ensures
        final(arr)@ == selected(old(arr)@, lo as int, hi as int, position as int, dim as int),
        forall|k: int| lo <= k < position ==> key_at(#[trigger] final(arr)@[k], dim as int) <= key_at(final(arr)@[position as int], dim as int),
        forall|k: int| position < k < hi ==> key_at(#[trigger] final(arr)@[k], dim as int) >= key_at(final(arr)@[position as int], dim as int),
        same_outside(old(arr)@, final(arr)@, lo as int, hi as int),
        final(arr)@.to_multiset() == old(arr)@.to_multiset(),
        has_axis(final(arr)@, dim as int),
{
    let mut a = lo;
    let mut b = hi;
    loop
        invariant
            lo <= a <= position < b <= hi,
            hi <= arr@.len(),
            has_axis(arr@, dim as int),
            same_outside(old(arr)@, arr@, lo as int, hi as int),
            arr@.to_multiset() == old(arr)@.to_multiset(),
            forall|k: int, m: int| lo <= k < a && a <= m < b ==>
                key_at(#[trigger] arr@[k], dim as int) <= key_at(#[trigger] arr@[m], dim as int),
            forall|k: int, m: int| b <= k < hi && a <= m < b ==>
                key_at(#[trigger] arr@[k], dim as int) >= key_at(#[trigger] arr@[m], dim as int),
            selected(arr@, a as int, b as int, position as int, dim as int)
                == selected(old(arr)@, lo as int, hi as int, position as int, dim as int),
        decreases b - a,
    {
        let ghost before = arr@;
        let p = partition_by(arr, a, b, a, dim);
        proof {
            assert forall|k: int, m: int| lo <= k < a && a <= m < b implies
                key_at(#[trigger] arr@[k], dim as int) <= key_at(#[trigger] arr@[m], dim as int) by {
                assert(arr@[k] == before[k]);
                assert(arr@.to_multiset() == before.to_multiset());
                assert(arr@.subrange(a as int, b as int).to_multiset() == before.subrange(a as int, b as int).to_multiset()) by {
                    lemma_range_multiset(before, arr@, a as int, b as int);
                }
                assert(arr@.subrange(a as int, b as int)[m - a] == arr@[m]);
                assert(arr@.subrange(a as int, b as int).contains(arr@[m]));
                assert(before.subrange(a as int, b as int).to_multiset().count(arr@[m]) > 0);
                let m2 = choose|m2: int| 0 <= m2 < b - a && before.subrange(a as int, b as int)[m2] == arr@[m];
                assert(before[a + m2] == arr@[m]);
            }
            assert forall|k: int, m: int| b <= k < hi && a <= m < b implies
                key_at(#[trigger] arr@[k], dim as int) >= key_at(#[trigger] arr@[m], dim as int) by {
                assert(arr@[k] == before[k]);
                assert(arr@.subrange(a as int, b as int).to_multiset() == before.subrange(a as int, b as int).to_multiset()) by {
                    lemma_range_multiset(before, arr@, a as int, b as int);
                }
                assert(arr@.subrange(a as int, b as int)[m - a] == arr@[m]);
                assert(arr@.subrange(a as int, b as int).contains(arr@[m]));
                assert(before.subrange(a as int, b as int).to_multiset().count(arr@[m]) > 0);
                let m2 = choose|m2: int| 0 <= m2 < b - a && before.subrange(a as int, b as int)[m2] == arr@[m];
                assert(before[a + m2] == arr@[m]);
            }
        }
        if position == p {
            return;
        } else if position < p {
            b = p;
        } else {
            a = p + 1;
        }
    }
}

/// When `t` equals `s` outside `lo..hi` and both hold the same points, the
/// range `lo..hi` holds the same points in both.
pub proof fn lemma_range_multiset<T>(s: Seq<T>, t: Seq<T>, lo: int, hi: int)
    requires
        0 <= lo <= hi <= s.len(),
        same_outside(s, t, lo, hi),
        s.to_multiset() == t.to_multiset(),
    ensures
        s.subrange(lo, hi).to_multiset() == t.subrange(lo, hi).to_multiset(),
{
    let n = s.len() as int;
    assert(s =~= s.subrange(0, lo) + s.subrange(lo, hi) + s.subrange(hi, n));
    assert(t =~= t.subrange(0, lo) + t.subrange(lo, hi) + t.subrange(hi, n));
    assert(s.subrange(0, lo) =~= t.subrange(0, lo));
    assert(s.subrange(hi, n) =~= t.subrange(hi, n));
    lemma_multiset_commutative(s.subrange(0, lo) + s.subrange(lo, hi), s.subrange(hi, n));
    lemma_multiset_commutative(s.subrange(0, lo), s.subrange(lo, hi));
    lemma_multiset_commutative(t.subrange(0, lo) + t.subrange(lo, hi), t.subrange(hi, n));
    lemma_multiset_commutative(t.subrange(0, lo), t.subrange(lo, hi));
    let a = s.subrange(0, lo).to_multiset();
    let c = s.subrange(hi, n).to_multiset();
    let b1 = s.subrange(lo, hi).to_multiset();
    let b2 = t.subrange(lo, hi).to_multiset();
    assert(a.add(b1).add(c) == a.add(b2).add(c));
    assert(b1 =~= b2) by {
        assert forall|x: T| b1.count(x) == b2.count(x) by {
            assert(a.add(b1).add(c).count(x) == a.count(x) + b1.count(x) + c.count(x));
            assert(a.add(b2).add(c).count(x) == a.count(x) + b2.count(x) + c.count(x));
        }
    }
}

/// An item of `t` occurs in `s` when both hold the same items.
pub proof fn lemma_ms_member<T>(s: Seq<T>, t: Seq<T>, k: int)
    requires
        s.to_multiset() == t.to_multiset(),
        0 <= k < t.len(),
    ensures
        exists|j: int| 0 <= j < s.len() && s[j] == t[k],
{
    assert(t.contains(t[k]));
    assert(t.to_multiset().count(t[k]) > 0);
    assert(s.contains(t[k]));
}

/// Mapping two sequences that hold the same items gives two sequences that
/// hold the same items.
pub proof fn lemma_map_multiset<T, V>(s: Seq<T>, t: Seq<T>, f: spec_fn(T) -> V)
    requires
        s.to_multiset() == t.to_multiset(),
    ensures
        s.map_values(f).to_multiset() == t.map_values(f).to_multiset(),
    decreases s.len(),
{
    if s.len() == 0 {
        assert(t.to_multiset().len() == 0);
        assert(t.len() == 0);
        assert(s.map_values(f) =~= t.map_values(f));
    } else {
        let x = s[0];
        lemma_ms_member(t, s, 0);
        let j = choose|j: int| 0 <= j < t.len() && t[j] == x;
        let s1 = s.drop_first();
        let t1 = t.remove(j);
        assert(s1 =~= s.remove(0));
        assert(s1.to_multiset() =~= s.to_multiset().remove(x));
        assert(t1.to_multiset() =~= t.to_multiset().remove(x));
        lemma_map_multiset(s1, t1, f);
        assert(s1.map_values(f) =~= s.map_values(f).remove(0));
        assert(t1.map_values(f) =~= t.map_values(f).remove(j));
        assert(s1.map_values(f).to_multiset() =~= s.map_values(f).to_multiset().remove(f(x)));
        assert(t1.map_values(f).to_multiset() =~= t.map_values(f).to_multiset().remove(f(x)));
        assert(s.map_values(f).contains(f(x))) by {
            assert(s.map_values(f)[0] == f(x));
        }
        assert(t.map_values(f).contains(f(x))) by {
            assert(t.map_values(f)[j] == f(x));
        }
        let ms = s.map_values(f).to_multiset();
        let mt = t.map_values(f).to_multiset();
        assert(ms =~= mt) by {
            assert forall|y: V| ms.count(y) == mt.count(y) by {
                if y == f(x) {
                    assert(ms.remove(y).count(y) == ms.count(y) - 1);
                    assert(mt.remove(y).count(y) == mt.count(y) - 1);
                } else {
                    assert(ms.remove(f(x)).count(y) == ms.count(y));
                    assert(mt.remove(f(x)).count(y) == mt.count(y));
                }
            }
        }
    }
}

} // verus!
