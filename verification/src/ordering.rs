//! Stable ordering by a numeric key.
//!
//! The order is kept as a list of positions, so that whatever the keys were
//! taken from can be rearranged by it, and another way of keying can be put
//! in without touching what consumes the order.
use vstd::prelude::*;

verus! {

/// Position `a` comes before position `b`: its key is smaller, or the keys
/// are equal and `a` was met first.
pub open spec fn comes_before(keys: Seq<u64>, a: int, b: int) -> bool {
    keys[a] < keys[b] || (keys[a] == keys[b] && a < b)
}

/// Whether `position` stands somewhere in `order`.
pub open spec fn lists(order: Seq<usize>, position: int) -> bool {
    exists|i: int| 0 <= i < order.len() && #[trigger] order[i] == position
}

/// `order` lists every position of `keys` once, by ascending key, positions
/// with equal keys in the order in which they were met.
pub open spec fn is_stable_order(keys: Seq<u64>, order: Seq<usize>) -> bool {
    &&& order.len() == keys.len()
    &&& forall|i: int| 0 <= i < order.len() ==> 0 <= #[trigger] order[i] < keys.len()
    &&& forall|position: int| 0 <= position < keys.len() ==> #[trigger] lists(order, position)
    &&& forall|i: int, j: int|
        0 <= i < j < order.len() ==> comes_before(keys, #[trigger] order[i] as int, #[trigger] order[j] as int)
}

/// Two stable orders of the same keys agree up to and at index `i`.
proof fn lemma_stable_orders_agree_at(keys: Seq<u64>, a: Seq<usize>, b: Seq<usize>, i: int)
    requires
        is_stable_order(keys, a),
        is_stable_order(keys, b),
        0 <= i < keys.len(),
    ensures
        a[i] == b[i],
    decreases i,
{
    assert forall|k: int| 0 <= k < i implies a[k] == b[k] by {
        lemma_stable_orders_agree_at(keys, a, b, k);
    }
    let x = a[i] as int;
    let y = b[i] as int;
    if x != y {
        assert(lists(b, x) && lists(a, y));
        let in_b = choose|j: int| 0 <= j < b.len() && #[trigger] b[j] == x;
        if in_b < i {
            assert(a[in_b] == b[in_b]);
            assert(comes_before(keys, a[in_b] as int, a[i] as int));
        }
        assert(comes_before(keys, b[i] as int, b[in_b] as int));
        let in_a = choose|j: int| 0 <= j < a.len() && #[trigger] a[j] == y;
        if in_a < i {
            assert(a[in_a] == b[in_a]);
            assert(comes_before(keys, b[in_a] as int, b[i] as int));
        }
        assert(comes_before(keys, a[i] as int, a[in_a] as int));
    }
}

/// The keys have only one stable order.
pub proof fn lemma_stable_order_is_unique(keys: Seq<u64>, a: Seq<usize>, b: Seq<usize>)
    requires
        is_stable_order(keys, a),
        is_stable_order(keys, b),
    ensures
        a == b,
{
    assert forall|i: int| 0 <= i < a.len() implies a[i] == b[i] by {
        lemma_stable_orders_agree_at(keys, a, b, i);
    }
    assert(a =~= b);
}

/// The positions of `keys` in ascending order of key, equal keys in the
/// order in which they stand in `keys`.
pub fn stable_order(keys: &Vec<u64>) -> (order: Vec<usize>)
    ensures
        is_stable_order(keys@, order@),
{
    let mut order: Vec<usize> = Vec::new();
    let mut next: usize = 0;
    while next < keys.len()
        invariant
            next <= keys.len(),
            is_stable_order(keys@.take(next as int), order@),
        decreases keys.len() - next,
    {
        let key = keys[next];
        let mut at: usize = 0;
        while at < order.len() && keys[order[at]] <= key
            invariant
                at <= order.len(),
                next < keys.len(),
                key == keys@[next as int],
                is_stable_order(keys@.take(next as int), order@),
                forall|i: int| 0 <= i < at ==> keys@[order@[i] as int] <= key,
            decreases order.len() - at,
        {
            at += 1;
        }
        let ghost before = order@;
        let ghost seen = keys@.take(next as int);
        order.insert(at, next);
        proof {
            let now = keys@.take(next + 1);
            assert forall|i: int| 0 <= i < order@.len() implies 0 <= #[trigger] order@[i]
                < now.len() by {
                if i < at {
                    assert(order@[i] == before[i]);
                } else if i > at {
                    assert(order@[i] == before[i - 1]);
                }
            }
            assert forall|position: int| 0 <= position < now.len() implies #[trigger] lists(
                order@,
                position,
            ) by {
                if position == next {
                    assert(order@[at as int] == position);
                } else {
                    assert(lists(before, position));
                    let old_i = choose|i: int|
                        0 <= i < before.len() && #[trigger] before[i] == position;
                    if old_i < at {
                        assert(order@[old_i] == position);
                    } else {
                        assert(order@[old_i + 1] == position);
                    }
                }
            }
            assert forall|i: int, j: int| 0 <= i < j < order@.len() implies comes_before(
                now,
                #[trigger] order@[i] as int,
                #[trigger] order@[j] as int,
            ) by {
                let old_i = if i < at { i } else { i - 1 };
                let old_j = if j < at { j } else { j - 1 };
                if i != at && j != at {
                    assert(order@[i] == before[old_i] && order@[j] == before[old_j]);
                    assert(comes_before(seen, before[old_i] as int, before[old_j] as int));
                } else if j == at {
                    assert(order@[i] == before[i]);
                    assert(keys@[before[i] as int] <= key);
                } else {
                    assert(order@[j] == before[j - 1]);
                    if j - 1 > at {
                        assert(comes_before(seen, before[at as int] as int, before[j - 1] as int));
                    }
                }
            }
        }
        next += 1;
    }
    assert(keys@.take(keys.len() as int) =~= keys@);
    order
}

} // verus!
