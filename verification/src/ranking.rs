//! Largest-first ranking. Every "largest first" list of the library is a
//! stable sort by descending size: equal sizes keep their input order.
use vstd::prelude::*;

verus! {

/// Index `a` ranks before index `b`: larger key first, ties by position.
pub open spec fn ranks_before(keys: Seq<u64>, a: int, b: int) -> bool {
    keys[a] > keys[b] || (keys[a] == keys[b] && a < b)
}

/// `order` lists every index of `keys` exactly once, largest key first, equal
/// keys in their original order. There is exactly one such order.
pub open spec fn stable_desc(keys: Seq<u64>, order: Seq<usize>) -> bool {
    &&& order.len() == keys.len()
    &&& forall|i: int| 0 <= i < order.len() ==> #[trigger] order[i] < keys.len()
    &&& forall|i: int, j: int|
        0 <= i < j < order.len() ==> ranks_before(keys, #[trigger] order[i] as int, #[trigger] order[j] as int)
}

/// Every index below `n` occurs in `order`.
pub open spec fn covers(order: Seq<usize>, n: int) -> bool {
    forall|k: int| 0 <= k < n ==> #[trigger] occurs(order, k)
}

/// `k` occurs in `order`.
pub open spec fn occurs(order: Seq<usize>, k: int) -> bool {
    exists|i: int| 0 <= i < order.len() && order[i] == k
}

/// `r` is the first `n` of `items` in stable descending order of `keys`
/// (`keys[i]` is the key of `items[i]`).
pub open spec fn top_by<T>(items: Seq<T>, keys: Seq<u64>, n: int, r: Seq<T>) -> bool {
    exists|order: Seq<usize>|
        #![trigger stable_desc(keys, order)]
        stable_desc(keys, order) && r.len() == (if n < items.len() {
            n
        } else {
            items.len() as int
        }) && forall|i: int| 0 <= i < r.len() ==> #[trigger] r[i] == items[order[i] as int]
}

/// The positions of `keys` in stable descending order of their key.
pub fn rank_desc(keys: &Vec<u64>) -> (order: Vec<usize>)
    ensures
        stable_desc(keys@, order@),
        covers(order@, keys@.len() as int),
{
    let mut order: Vec<usize> = Vec::new();
    for k in 0..keys.len()
        invariant
            order@.len() == k,
            forall|i: int| 0 <= i < order@.len() ==> #[trigger] order@[i] < k,
            forall|i: int, j: int|
                0 <= i < j < order@.len() ==> ranks_before(keys@, #[trigger] order@[i] as int, #[trigger] order@[j] as int),
            covers(order@, k as int),
    {
        let key = keys[k];
        let mut p: usize = 0;
        while p < order.len() && keys[order[p]] >= key
            invariant
                p <= order@.len(),
                k < keys@.len(),
                forall|i: int| 0 <= i < order@.len() ==> #[trigger] order@[i] < k,
                forall|i: int| 0 <= i < p ==> keys@[#[trigger] order@[i] as int] >= key,
            decreases order.len() - p,
        {
            p = p + 1;
        }
        let ghost old_order = order@;
        order.insert(p, k);
        assert(order@ =~= old_order.take(p as int).push(k) + old_order.skip(p as int));
        assert forall|i: int| 0 <= i < order@.len() implies #[trigger] order@[i] < k + 1 by {
            if i < p {
                assert(order@[i] == old_order[i]);
            } else if i > p {
                assert(order@[i] == old_order[i - 1]);
            }
        }
        assert forall|i: int, j: int|
            0 <= i < j < order@.len() implies ranks_before(keys@, #[trigger] order@[i] as int, #[trigger] order@[j] as int) by {
            if j < p {
                assert(order@[i] == old_order[i] && order@[j] == old_order[j]);
            } else if j == p {
                assert(order@[i] == old_order[i]);
            } else if i > p {
                assert(order@[i] == old_order[i - 1] && order@[j] == old_order[j - 1]);
            } else if i == p {
                assert(order@[j] == old_order[j - 1]);
                // everything from p on has a smaller key
                if j - 1 >= p {
                    if keys@[old_order[j - 1] as int] >= key {
                        // then p did not stop at a smaller key: contradiction with sortedness
                        assert(p < old_order.len());
                        assert(keys@[old_order[p as int] as int] < key);
                        assert(ranks_before(keys@, old_order[p as int] as int, old_order[j - 1] as int) || p == j - 1);
                    }
                }
            } else {
                assert(order@[i] == old_order[i] && order@[j] == old_order[j - 1]);
            }
        }
        assert forall|m: int| 0 <= m < k + 1 implies #[trigger] occurs(order@, m) by {
            if m == k {
                assert(order@[p as int] == k);
            } else {
                assert(occurs(old_order, m));
                let i0 = choose|i: int| 0 <= i < old_order.len() && old_order[i] == m;
                if i0 < p {
                    assert(order@[i0] == m);
                } else {
                    assert(order@[i0 + 1] == m);
                }
            }
        }
    }
    order
}

} // verus!
