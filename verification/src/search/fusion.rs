//! Score fusion strategies.

use vstd::prelude::*;

verus! {

/// Weighted-average fusion of the search strategies' scores.
#[derive(Debug, Clone, Copy, PartialEq, Eq, Structural)]
pub struct BasicWeightedFusion;

impl BasicWeightedFusion {
    /// A new weighted-average fusion.
    pub fn new() -> (f: Self)
        ensures
            f == BasicWeightedFusion,
    {
        BasicWeightedFusion
    }
}

impl Default for BasicWeightedFusion {
    fn default() -> (f: Self)
        ensures
            f == BasicWeightedFusion,
    {
        BasicWeightedFusion
    }
}

/// Position `a` comes before position `b` in a ranking: a higher rank, or
/// the same rank and an earlier position.
pub open spec fn precedes(ranks: Seq<u64>, a: usize, b: usize) -> bool {
    ranks[a as int] > ranks[b as int] || (ranks[a as int] == ranks[b as int] && a < b)
}

/// The positions `r` are in ranking order.
pub open spec fn in_rank_order(ranks: Seq<u64>, r: Seq<usize>) -> bool {
    forall|k1: int, k2: int|
        0 <= k1 < k2 < r.len() ==> precedes(ranks, #[trigger] r[k1], #[trigger] r[k2])
}

/// Inserts position `i`, which follows every position already there, in
/// ranking order.
fn insert_ranked(order: &mut Vec<usize>, ranks: &Vec<u64>, i: usize)
    requires
        i < ranks.len(),
        forall|k: int| 0 <= k < old(order).len() ==> #[trigger] old(order)@[k] < i,
        in_rank_order(ranks@, old(order)@),
    ensures
        final(order)@.len() == old(order)@.len() + 1,
        forall|x: usize| #[trigger] final(order)@.contains(x) <==> (old(order)@.contains(x) || x == i),
        forall|k: int| 0 <= k < final(order).len() ==> #[trigger] final(order)@[k] <= i,
        in_rank_order(ranks@, final(order)@),
{
    let ghost rs = ranks@;
    let rank = ranks[i];
    let mut p: usize = 0;
    while p < order.len() && ranks[order[p]] >= rank
        invariant
            i < ranks.len(),
            rs == ranks@,
            rank == rs[i as int],
            p <= order.len(),
            forall|k: int| 0 <= k < order.len() ==> #[trigger] order@[k] < i,
            forall|k: int| 0 <= k < p ==> rs[#[trigger] order@[k] as int] >= rank,
        decreases order.len() - p,
    {
        p = p + 1;
    }
    let ghost old_order = order@;
    proof {
        assert forall|k: int| p <= k < old_order.len() implies rs[#[trigger] old_order[k] as int]
            < rank by {
            assert(rs[old_order[p as int] as int] < rank);
            if k > p {
                assert(precedes(rs, old_order[p as int], old_order[k]));
            }
        }
    }
    order.insert(p, i);
    proof {
        let r = order@;
        assert(r == old_order.insert(p as int, i));
        assert forall|x: usize| #[trigger] r.contains(x) <==> (old_order.contains(x) || x == i) by {
            if r.contains(x) {
                let k = choose|k: int| 0 <= k < r.len() && r[k] == x;
                if k < p {
                    assert(old_order[k] == x);
                } else if k > p {
                    assert(old_order[k - 1] == x);
                }
            }
            if old_order.contains(x) {
                let k = choose|k: int| 0 <= k < old_order.len() && old_order[k] == x;
                if k < p {
                    assert(r[k] == x);
                } else {
                    assert(r[k + 1] == x);
                }
            }
            if x == i {
                assert(r[p as int] == i);
            }
        }
        assert forall|k: int| 0 <= k < r.len() implies #[trigger] r[k] <= i by {
            if k < p {
                assert(r[k] == old_order[k]);
            } else if k > p {
                assert(r[k] == old_order[k - 1]);
            }
        }
        assert forall|k1: int, k2: int| 0 <= k1 < k2 < r.len() implies precedes(
            rs,
            #[trigger] r[k1],
            #[trigger] r[k2],
        ) by {
            if k1 != p && k2 != p {
                let a = if k1 < p { k1 } else { k1 - 1 };
                let b = if k2 < p { k2 } else { k2 - 1 };
                assert(r[k1] == old_order[a]);
                assert(r[k2] == old_order[b]);
                assert(precedes(rs, old_order[a], old_order[b]));
            } else if k1 == p {
                assert(r[k2] == old_order[k2 - 1]);
                assert(rs[old_order[k2 - 1] as int] < rank);
            } else {
                assert(r[k1] == old_order[k1]);
                assert(old_order[k1] < i);
                assert(rs[old_order[k1] as int] >= rank);
            }
        }
    }
}

/// The positions of the `limit` best-ranked entries, best first; entries of
/// equal rank keep their order.
pub fn top_by_rank(ranks: &Vec<u64>, limit: usize) -> (r: Vec<usize>)
    ensures
        r.len() == if limit < ranks.len() { limit as int } else { ranks.len() as int },
        forall|k: int| 0 <= k < r.len() ==> #[trigger] r[k] < ranks.len(),
        in_rank_order(ranks@, r@),
        forall|x: usize|
            x < ranks.len() && !r@.contains(x) ==> forall|k: int|
                0 <= k < r.len() ==> precedes(ranks@, #[trigger] r[k], x),
{
    let n = ranks.len();
    let mut order: Vec<usize> = Vec::new();
    let mut i: usize = 0;
    while i < n
        invariant
            n == ranks.len(),
            i <= n,
            order.len() == i,
            forall|k: int| 0 <= k < order.len() ==> #[trigger] order@[k] < i,
            forall|x: usize| #[trigger] order@.contains(x) <==> x < i,
            in_rank_order(ranks@, order@),
        decreases n - i,
    {
        insert_ranked(&mut order, ranks, i);
        proof {
            assert forall|k: int| 0 <= k < order.len() implies #[trigger] order@[k] < i + 1 by {}
        }
        i = i + 1;
    }
    let ghost full = order@;
    if limit < order.len() {
        order.truncate(limit);
    }
    proof {
        assert(order@ == full.take(order.len() as int));
        assert forall|x: usize| x < n && !order@.contains(x) implies forall|k: int|
            0 <= k < order.len() ==> precedes(ranks@, #[trigger] order@[k], x) by {
            assert(full.contains(x));
            let p = choose|p: int| 0 <= p < full.len() && full[p] == x;
            if p < order.len() {
                assert(order@[p] == x);
            }
            assert forall|k: int| 0 <= k < order.len() implies precedes(ranks@, #[trigger] order@[k], x) by {
                assert(order@[k] == full[k]);
            }
        }
    }
    order
}

/// The distinct values of `s` in order of first appearance.
pub open spec fn distinct_in_order(s: Seq<i64>) -> Seq<i64>
    decreases s.len(),
{
    if s.len() == 0 {
        Seq::empty()
    } else {
        let d = distinct_in_order(s.drop_last());
        if d.contains(s.last()) {
            d
        } else {
            d.push(s.last())
        }
    }
}

/// Groups hits by chunk: the distinct chunk ids in order of first
/// appearance, and for each hit the position of its chunk among them.
pub fn group_by_chunk(chunk_ids: &Vec<i64>) -> (r: (Vec<i64>, Vec<usize>))
    ensures
        r.0@ == distinct_in_order(chunk_ids@),
        forall|k1: int, k2: int| 0 <= k1 < k2 < r.0.len() ==> #[trigger] r.0[k1] != #[trigger] r.0[k2],
        r.1.len() == chunk_ids.len(),
        forall|i: int|
            0 <= i < chunk_ids.len() ==> #[trigger] r.1[i] < r.0.len() && r.0[r.1[i] as int]
                == chunk_ids[i],
{
    let n = chunk_ids.len();
    let mut ids: Vec<i64> = Vec::new();
    let mut group_of: Vec<usize> = Vec::new();
    let mut i: usize = 0;
    while i < n
        invariant
            n == chunk_ids.len(),
            i <= n,
            ids@ == distinct_in_order(chunk_ids@.take(i as int)),
            forall|k1: int, k2: int| 0 <= k1 < k2 < ids.len() ==> #[trigger] ids[k1] != #[trigger] ids[k2],
            group_of.len() == i,
            forall|t: int|
                0 <= t < i ==> #[trigger] group_of[t] < ids.len() && ids[group_of[t] as int]
                    == chunk_ids[t],
        decreases n - i,
    {
        let id = chunk_ids[i];
        let mut k: usize = 0;
        while k < ids.len() && ids[k] != id
            invariant
                k <= ids.len(),
                forall|q: int| 0 <= q < k ==> ids[q] != id,
            decreases ids.len() - k,
        {
            k = k + 1;
        }
        proof {
            assert(chunk_ids@.take(i + 1).drop_last() =~= chunk_ids@.take(i as int));
            assert(chunk_ids@.take(i + 1).last() == id);
            if k < ids.len() {
                assert(ids@.contains(id));
            } else {
                assert(!ids@.contains(id));
            }
        }
        if k == ids.len() {
            ids.push(id);
        }
        group_of.push(k);
        i = i + 1;
    }
    proof {
        assert(chunk_ids@.take(n as int) =~= chunk_ids@);
    }
    (ids, group_of)
}

} // verus!
