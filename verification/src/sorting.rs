//! Stable sorting by integer keys.
//!
//! Items are sorted indirectly: the keys of the items are sorted into an
//! order, a sequence of indices, and the items are then taken in that order.

use vstd::prelude::*;

verus! {

/// A sort key: compared by the first component, then by the second.
pub type Key = (i64, i64);

/// `a` comes before `b`, or the two are equal.
pub open spec fn key_le(a: Key, b: Key) -> bool {
    a.0 < b.0 || (a.0 == b.0 && a.1 <= b.1)
}

/// Where a new key goes in an order over `keys`: behind the last index whose
/// key does not come after it.
pub open spec fn insert_position(keys: Seq<Key>, order: Seq<int>, k: Key) -> int
    decreases order.len(),
{
    if order.len() == 0 {
        0
    } else if key_le(keys[order.last()], k) {
        order.len() as int
    } else {
        insert_position(keys, order.drop_last(), k)
    }
}

/// The indices of `keys` in ascending order of their keys; indices with
/// equal keys stay in the order in which they came.
pub open spec fn sort_order(keys: Seq<Key>) -> Seq<int>
    decreases keys.len(),
{
    if keys.len() == 0 {
        Seq::empty()
    } else {
        let prev = sort_order(keys.drop_last());
        prev.insert(insert_position(keys, prev, keys.last()), keys.len() - 1)
    }
}

/// Every index occurs in the order exactly once.
pub open spec fn is_permutation(order: Seq<int>, n: int) -> bool {
    &&& order.len() == n
    &&& forall|i: int| 0 <= i < order.len() ==> 0 <= #[trigger] order[i] < n
    &&& forall|i: int, j: int|
        0 <= i < j < order.len() ==> #[trigger] order[i] != #[trigger] order[j]
}

/// The keys do not decrease along the order, and indices with equal keys
/// ascend.
pub open spec fn is_stably_sorted(keys: Seq<Key>, order: Seq<int>) -> bool {
    forall|i: int, j: int|
        0 <= i < j < order.len() ==> {
            let a = keys[#[trigger] order[i]];
            let b = keys[#[trigger] order[j]];
            key_le(a, b) && (a == b ==> order[i] < order[j])
        }
}

proof fn lemma_insert_position_bounds(keys: Seq<Key>, order: Seq<int>, k: Key)
    ensures
        0 <= insert_position(keys, order, k) <= order.len(),
        forall|i: int|
            insert_position(keys, order, k) <= i < order.len() ==> !key_le(
                keys[#[trigger] order[i]],
                k,
            ),
        insert_position(keys, order, k) > 0 ==> key_le(
            keys[order[insert_position(keys, order, k) - 1]],
            k,
        ),
    decreases order.len(),
{
    if order.len() > 0 && !key_le(keys[order.last()], k) {
        lemma_insert_position_bounds(keys, order.drop_last(), k);
        let p = insert_position(keys, order, k);
        assert forall|i: int| p <= i < order.len() implies !key_le(keys[#[trigger] order[i]], k) by {
            if i < order.len() - 1 {
                assert(order.drop_last()[i] == order[i]);
            }
        }
        if p > 0 {
            assert(order.drop_last()[p - 1] == order[p - 1]);
        }
    }
}

/// The order that sorting gives is a permutation of the indices, and it is
/// stably sorted.
pub proof fn lemma_sort_order_sorted(keys: Seq<Key>)
    ensures
        is_permutation(sort_order(keys), keys.len() as int),
        is_stably_sorted(keys, sort_order(keys)),
    decreases keys.len(),
{
    if keys.len() > 0 {
        let shorter = keys.drop_last();
        let prev = sort_order(shorter);
        lemma_sort_order_sorted(shorter);
        let n = keys.len() - 1;
        let k = keys.last();
        assert forall|i: int| 0 <= i < prev.len() implies keys[#[trigger] prev[i]] == shorter[prev[i]] by {}
        lemma_insert_position_bounds(keys, prev, k);
        let p = insert_position(keys, prev, k);
        let order = prev.insert(p, n);
        assert(order == sort_order(keys));
        assert forall|i: int| 0 <= i < order.len() implies 0 <= #[trigger] order[i] < keys.len() by {
            if i < p {
                assert(order[i] == prev[i]);
            } else if i > p {
                assert(order[i] == prev[i - 1]);
            }
        }
        assert forall|i: int, j: int| 0 <= i < j < order.len() implies #[trigger] order[i]
            != #[trigger] order[j] by {
            let a = if i < p { prev[i] } else if i == p { n } else { prev[i - 1] };
            let b = if j < p { prev[j] } else if j == p { n } else { prev[j - 1] };
            assert(order[i] == a && order[j] == b);
        }
        assert forall|i: int, j: int| 0 <= i < j < order.len() implies {
            let a = keys[#[trigger] order[i]];
            let b = keys[#[trigger] order[j]];
            key_le(a, b) && (a == b ==> order[i] < order[j])
        } by {
            let oi = if i < p { prev[i] } else if i == p { n } else { prev[i - 1] };
            let oj = if j < p { prev[j] } else if j == p { n } else { prev[j - 1] };
            assert(order[i] == oi && order[j] == oj);
            if j == p {
                // every element before the position is at most the one just before it
                if i < p - 1 {
                    assert(key_le(shorter[prev[i]], shorter[prev[p - 1]]));
                }
                assert(key_le(keys[prev[p - 1]], k));
            } else if i == p {
                assert(!key_le(keys[prev[j - 1]], k));
            } else {
                let pi = if i < p { i } else { i - 1 };
                let pj = if j < p { j } else { j - 1 };
                assert(key_le(shorter[prev[pi]], shorter[prev[pj]]));
            }
        }
    }
}

/// Tests whether `a` comes before `b` or equals it.
pub fn key_le_exec(a: Key, b: Key) -> (r: bool)
    ensures
        r == key_le(a, b),
{
    a.0 < b.0 || (a.0 == b.0 && a.1 <= b.1)
}

/// The indices as mathematical integers.
pub open spec fn as_ints(order: Seq<usize>) -> Seq<int> {
    order.map_values(|i: usize| i as int)
}

/// Sorts the keys: returns their indices in ascending order of the keys,
/// equal keys in the order in which they came.
pub fn sorted_order(keys: &Vec<Key>) -> (order: Vec<usize>)
    ensures
        as_ints(order@) == sort_order(keys@),
        order.len() == keys.len(),
        forall|i: int| 0 <= i < order.len() ==> #[trigger] order@[i] < keys.len(),
{
    let n = keys.len();
    let mut order: Vec<usize> = Vec::new();
    let mut i: usize = 0;
    assert(as_ints(order@) =~= sort_order(keys@.take(0)));
    while i < n
        invariant
            i <= n,
            n == keys.len(),
            order.len() == i,
            as_ints(order@) == sort_order(keys@.take(i as int)),
            forall|j: int| 0 <= j < order.len() ==> #[trigger] order@[j] < i,
        decreases n - i,
    {
        let ghost part = keys@.take(i + 1);
        let ghost prev = as_ints(order@);
        assert(part.drop_last() == keys@.take(i as int));
        let k = keys[i];
        let mut j: usize = order.len();
        assert(prev.take(j as int) == prev);
        while j > 0 && !key_le_exec(keys[order[j - 1]], k)
            invariant
                j <= order.len(),
                order.len() == i,
                i < n,
                n == keys.len(),
                k == keys@[i as int],
                part == keys@.take(i + 1),
                prev == as_ints(order@),
                forall|m: int| 0 <= m < order.len() ==> #[trigger] order@[m] < i,
                insert_position(part, prev, k) == insert_position(part, prev.take(j as int), k),
            decreases j,
        {
            assert(prev.take(j as int).drop_last() == prev.take(j - 1));
            assert(prev.take(j as int).last() == order@[j - 1] as int);
            assert(part[order@[j - 1] as int] == keys@[order@[j - 1] as int]);
            j -= 1;
        }
        proof {
            if j > 0 {
                assert(prev.take(j as int).last() == order@[j - 1] as int);
                assert(part[order@[j - 1] as int] == keys@[order@[j - 1] as int]);
            }
            assert(insert_position(part, prev, k) == j);
            assert(prev.take(order.len() as int) == prev);
        }
        order.insert(j, i);
        assert(as_ints(order@) =~= prev.insert(j as int, i as int));
        i += 1;
    }
    assert(keys@.take(n as int) == keys@);
    order
}

} // verus!
