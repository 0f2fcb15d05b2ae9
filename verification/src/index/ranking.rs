//! Ranking by score: a stable sort of positions by their keys, ascending or
//! descending, with ties kept in their original order.
use vstd::prelude::*;

verus! {

/// Position `i` comes before position `j`: its key is better, or the keys
/// tie and `i` came first.
pub open spec fn ranks_before(keys: Seq<u32>, descending: bool, i: int, j: int) -> bool {
    if descending {
        keys[i] > keys[j] || (keys[i] == keys[j] && i < j)
    } else {
        keys[i] < keys[j] || (keys[i] == keys[j] && i < j)
    }
}

pub open spec fn sorted_by_rank(keys: Seq<u32>, descending: bool, order: Seq<usize>) -> bool {
    forall|a: int, b: int| 0 <= a < b < order.len() ==>
        ranks_before(keys, descending, #[trigger] order[a] as int, #[trigger] order[b] as int)
}

/// `order` lists every position of `keys` once, best first.
pub open spec fn is_ranking(keys: Seq<u32>, descending: bool, order: Seq<usize>) -> bool {
    &&& order.len() == keys.len()
    &&& sorted_by_rank(keys, descending, order)
    &&& forall|a: int| 0 <= a < order.len() ==> #[trigger] order[a] < keys.len()
    &&& forall|i: usize| i < keys.len() ==> #[trigger] order.contains(i)
}

/// The ranking of `keys` (there is exactly one, see `lemma_ranking_unique`).
pub open spec fn ranking(keys: Seq<u32>, descending: bool) -> Seq<usize> {
    choose|order: Seq<usize>| is_ranking(keys, descending, order)
}

proof fn lemma_sorted_unique(keys: Seq<u32>, descending: bool, o1: Seq<usize>, o2: Seq<usize>)
    requires
        sorted_by_rank(keys, descending, o1),
        sorted_by_rank(keys, descending, o2),
        forall|x: usize| o1.contains(x) <==> o2.contains(x),
    ensures
        o1 == o2,
    decreases o1.len(),
{
    if o1.len() == 0 {
        if o2.len() > 0 {
            assert(o2.contains(o2[0]));
        }
        assert(o1 =~= o2);
    } else {
        assert(o1.contains(o1[0]));
        assert(o2.len() > 0);
        let x = o1[0];
        let y = o2[0];
        assert(o2.contains(y));
        assert(o1.contains(y));
        let a = choose|a: int| 0 <= a < o1.len() && o1[a] == y;
        assert(o2.contains(x));
        let b = choose|b: int| 0 <= b < o2.len() && o2[b] == x;
        if x != y {
            assert(a > 0);
            assert(b > 0);
            assert(ranks_before(keys, descending, o1[0] as int, o1[a] as int));
            assert(ranks_before(keys, descending, o2[0] as int, o2[b] as int));
            assert(false);
        }
        let r1 = o1.drop_first();
        let r2 = o2.drop_first();
        assert forall|z: usize| r1.contains(z) <==> r2.contains(z) by {
            if r1.contains(z) {
                let i = choose|i: int| 0 <= i < r1.len() && r1[i] == z;
                assert(o1[i + 1] == z);
                assert(ranks_before(keys, descending, o1[0] as int, o1[i + 1] as int));
                assert(o1.contains(z));
                assert(o2.contains(z));
                let j = choose|j: int| 0 <= j < o2.len() && o2[j] == z;
                assert(j != 0);
                assert(r2[j - 1] == z);
            }
            if r2.contains(z) {
                let i = choose|i: int| 0 <= i < r2.len() && r2[i] == z;
                assert(o2[i + 1] == z);
                assert(ranks_before(keys, descending, o2[0] as int, o2[i + 1] as int));
                assert(o2.contains(z));
                assert(o1.contains(z));
                let j = choose|j: int| 0 <= j < o1.len() && o1[j] == z;
                assert(j != 0);
                assert(r1[j - 1] == z);
            }
        }
        assert(sorted_by_rank(keys, descending, r1)) by {
            assert forall|p: int, q: int| 0 <= p < q < r1.len() implies
                ranks_before(keys, descending, #[trigger] r1[p] as int, #[trigger] r1[q] as int) by {
                assert(r1[p] == o1[p + 1] && r1[q] == o1[q + 1]);
            }
        }
        assert(sorted_by_rank(keys, descending, r2)) by {
            assert forall|p: int, q: int| 0 <= p < q < r2.len() implies
                ranks_before(keys, descending, #[trigger] r2[p] as int, #[trigger] r2[q] as int) by {
                assert(r2[p] == o2[p + 1] && r2[q] == o2[q + 1]);
            }
        }
        lemma_sorted_unique(keys, descending, r1, r2);
        assert(o1 =~= seq![x] + r1);
        assert(o2 =~= seq![y] + r2);
    }
}

/// The ranking of a key sequence is unique.
pub proof fn lemma_ranking_unique(keys: Seq<u32>, descending: bool, o1: Seq<usize>, o2: Seq<usize>)
    requires
        is_ranking(keys, descending, o1),
        is_ranking(keys, descending, o2),
    ensures
        o1 == o2,
{
    assert forall|x: usize| o1.contains(x) <==> o2.contains(x) by {
        if o1.contains(x) {
            let i = choose|i: int| 0 <= i < o1.len() && o1[i] == x;
            assert(o1[i] < keys.len());
        }
        if o2.contains(x) {
            let i = choose|i: int| 0 <= i < o2.len() && o2[i] == x;
            assert(o2[i] < keys.len());
        }
    }
    lemma_sorted_unique(keys, descending, o1, o2);
}

fn before(keys: &Vec<u32>, descending: bool, i: usize, j: usize) -> (r: bool)
    requires
        i < keys@.len(),
        j < keys@.len(),
    ensures
        r == ranks_before(keys@, descending, i as int, j as int),
{
    if descending {
        keys[i] > keys[j] || (keys[i] == keys[j] && i < j)
    } else {
        keys[i] < keys[j] || (keys[i] == keys[j] && i < j)
    }
}

/// Every position of `keys`, best first; ties keep their order.
pub fn rank_positions(keys: &Vec<u32>, descending: bool) -> (order: Vec<usize>)
    ensures
        is_ranking(keys@, descending, order@),
        order@ == ranking(keys@, descending),
{
    let n = keys.len();
    let mut order: Vec<usize> = Vec::new();
    let mut i: usize = 0;
    while i < n
        invariant
            i <= n,
            n == keys@.len(),
            order@.len() == i,
            sorted_by_rank(keys@, descending, order@),
            forall|a: int| 0 <= a < order@.len() ==> #[trigger] order@[a] < i,
            forall|x: usize| x < i ==> #[trigger] order@.contains(x),
        decreases n - i,
    {
        let mut p: usize = 0;
        while p < order.len() && !before(keys, descending, i, order[p])
            invariant
                p <= order@.len(),
                i < n,
                n == keys@.len(),
                forall|a: int| 0 <= a < order@.len() ==> #[trigger] order@[a] < i,
                forall|a: int| 0 <= a < p ==> !ranks_before(keys@, descending, i as int, #[trigger] order@[a] as int),
            decreases order@.len() - p,
        {
            p = p + 1;
        }
        let ghost old_order = order@;
        order.insert(p, i);
        proof {
            assert(order@ =~= old_order.subrange(0, p as int).push(i) + old_order.subrange(p as int, old_order.len() as int));
            assert forall|a: int, b: int| 0 <= a < b < order@.len() implies
                ranks_before(keys@, descending, #[trigger] order@[a] as int, #[trigger] order@[b] as int) by {
                if a < p && b < p {
                    assert(order@[a] == old_order[a] && order@[b] == old_order[b]);
                } else if a < p && b == p {
                    assert(order@[a] == old_order[a]);
                    assert(!ranks_before(keys@, descending, i as int, old_order[a] as int));
                } else if a < p && b > p {
                    assert(order@[a] == old_order[a] && order@[b] == old_order[b - 1]);
                } else if a == p {
                    assert(order@[b] == old_order[b - 1]);
                    assert(ranks_before(keys@, descending, i as int, old_order[p as int] as int));
                    if b - 1 > p {
                        assert(ranks_before(keys@, descending, old_order[p as int] as int, old_order[b - 1] as int));
                    }
                } else {
                    assert(order@[a] == old_order[a - 1] && order@[b] == old_order[b - 1]);
                }
            }
            assert forall|a: int| 0 <= a < order@.len() implies #[trigger] order@[a] < i + 1 by {
                if a < p {
                    assert(order@[a] == old_order[a]);
                } else if a > p {
                    assert(order@[a] == old_order[a - 1]);
                }
            }
            assert forall|x: usize| x < i + 1 implies #[trigger] order@.contains(x) by {
                if x == i {
                    assert(order@[p as int] == i);
                } else {
                    assert(old_order.contains(x));
                    let a = choose|a: int| 0 <= a < old_order.len() && old_order[a] == x;
                    if a < p {
                        assert(order@[a] == x);
                    } else {
                        assert(order@[a + 1] == x);
                    }
                }
            }
        }
        i = i + 1;
    }
    proof {
        lemma_ranking_unique(keys@, descending, order@, ranking(keys@, descending));
    }
    order
}

} // verus!
