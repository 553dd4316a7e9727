//! Stable orderings: positions sorted by a key, earlier positions first among
//! equal keys.

use vstd::prelude::*;

verus! {

/// Whether position `a` comes before position `b`: a smaller key, or an equal
/// key and an earlier position.
pub open spec fn key_before(keys: Seq<usize>, a: int, b: int) -> bool {
    keys[a] < keys[b] || (keys[a] == keys[b] && a < b)
}

/// Whether position `i` occurs in `order`.
pub open spec fn occurs(order: Seq<usize>, i: int) -> bool {
    exists|x: int| 0 <= x < order.len() && order[x] == i
}

/// Whether `order` lists each position of `keys` once, in `key_before` order.
pub open spec fn sorts(keys: Seq<usize>, order: Seq<usize>) -> bool {
    &&& order.len() == keys.len()
    &&& order.no_duplicates()
    &&& forall|t: int| 0 <= t < order.len() ==> #[trigger] order[t] < keys.len()
    &&& forall|a: int, b: int| 0 <= a < b < order.len() ==> key_before(keys, order[a] as int, order[b] as int)
}

/// How many positions come before position `j`.
pub open spec fn rank(keys: Seq<usize>, j: int) -> int {
    Set::new(|l: int| 0 <= l < keys.len() && key_before(keys, l, j)).len() as int
}

/// The positions of `keys`, smaller keys first, earlier positions first among
/// equal keys.
pub fn stable_order(keys: &Vec<usize>) -> (r: Vec<usize>)
    ensures
        sorts(keys@, r@),
{
    let mut order: Vec<usize> = Vec::new();
    let mut k: usize = 0;
    while k < keys.len()
        invariant
            0 <= k <= keys.len(),
            order@.len() == k,
            order@.no_duplicates(),
            forall|t: int| 0 <= t < order@.len() ==> #[trigger] order@[t] < k,
            forall|a: int, b: int| 0 <= a < b < order@.len() ==> key_before(keys@, order@[a] as int, order@[b] as int),
        decreases keys.len() - k,
    {
        let key = keys[k];
        let mut p: usize = 0;
        while p < order.len() && keys[order[p]] <= key
            invariant
                0 <= p <= order@.len(),
                order@.len() == k,
                k < keys@.len(),
                key == keys@[k as int],
                forall|t: int| 0 <= t < order@.len() ==> #[trigger] order@[t] < k,
                forall|t: int| 0 <= t < p ==> keys@[#[trigger] order@[t] as int] <= key,
            decreases order@.len() - p,
        {
            p = p + 1;
        }
        let ghost before = order@;
        order.insert(p, k);
        proof {
            assert(order@ == before.insert(p as int, k));
            assert forall|t: int| 0 <= t < order@.len() implies #[trigger] order@[t] < k + 1 by {
                if t < p {
                    assert(order@[t] == before[t]);
                } else if t > p {
                    assert(order@[t] == before[t - 1]);
                }
            }
            assert forall|a: int, b: int| 0 <= a < b < order@.len() implies key_before(
                keys@,
                order@[a] as int,
                order@[b] as int,
            ) by {
                if b < p {
                    assert(order@[a] == before[a] && order@[b] == before[b]);
                } else if b == p {
                    assert(order@[a] == before[a]);
                    assert(before[a] < k);
                } else if a > p {
                    assert(order@[a] == before[a - 1] && order@[b] == before[b - 1]);
                } else if a == p {
                    assert(order@[b] == before[b - 1]);
                    assert(p < before.len());
                    if b - 1 > p {
                        assert(key_before(keys@, before[p as int] as int, before[b - 1] as int));
                    }
                } else {
                    assert(order@[a] == before[a] && order@[b] == before[b - 1]);
                }
            }
            assert forall|a: int, b: int| 0 <= a < b < order@.len() implies order@[a] != order@[b] by {
                if b < p {
                    assert(order@[a] == before[a] && order@[b] == before[b]);
                } else if b == p {
                    assert(order@[a] == before[a]);
                } else if a > p {
                    assert(order@[a] == before[a - 1] && order@[b] == before[b - 1]);
                } else if a == p {
                    assert(order@[b] == before[b - 1]);
                } else {
                    assert(order@[a] == before[a] && order@[b] == before[b - 1]);
                }
            }
        }
        k = k + 1;
    }
    order
}

/// A duplicate-free list of `n` positions below `n` holds every position.
pub proof fn lemma_order_covers(order: Seq<usize>, n: nat)
    requires
        order.len() == n,
        order.no_duplicates(),
        forall|t: int| 0 <= t < order.len() ==> #[trigger] order[t] < n,
    ensures
        forall|i: int| 0 <= i < n ==> #[trigger] occurs(order, i),
{
    broadcast use vstd::seq_lib::group_seq_properties;
    let oi = order.map_values(|x: usize| x as int);
    assert(oi.no_duplicates()) by {
        assert forall|a: int, b: int| 0 <= a < b < oi.len() implies oi[a] != oi[b] by {
            assert(order[a] != order[b]);
        }
    }
    oi.unique_seq_to_set();
    let s = oi.to_set();
    let range = vstd::set_lib::set_int_range(0, n as int);
    vstd::set_lib::lemma_int_range(0, n as int);
    assert(s.subset_of(range)) by {
        assert forall|v: int| s.contains(v) implies range.contains(v) by {
            assert(oi.contains(v));
            let x = choose|x: int| 0 <= x < oi.len() && oi[x] == v;
            assert(order[x] < n);
        }
    }
    vstd::set_lib::lemma_len_subset(s, range);
    vstd::set_lib::lemma_subset_equality(s, range);
    assert forall|i: int| 0 <= i < n implies #[trigger] occurs(order, i) by {
        assert(range.contains(i));
        assert(s.contains(i));
        assert(oi.contains(i));
        let x = choose|x: int| 0 <= x < oi.len() && oi[x] == i;
        assert(order[x] == i);
    }
}

/// In a sorting order, the position at index `p` has exactly `p` positions
/// before it.
pub proof fn lemma_rank_in_order(keys: Seq<usize>, order: Seq<usize>, p: int)
    requires
        sorts(keys, order),
        0 <= p < order.len(),
    ensures
        rank(keys, order[p] as int) == p,
{
    broadcast use vstd::seq_lib::group_seq_properties;
    lemma_order_covers(order, keys.len());
    let j = order[p] as int;
    let prefix = order.take(p).map_values(|x: usize| x as int);
    assert(prefix.no_duplicates()) by {
        assert forall|a: int, b: int| 0 <= a < b < prefix.len() implies prefix[a] != prefix[b] by {
            assert(order[a] != order[b]);
        }
    }
    prefix.unique_seq_to_set();
    let before = Set::new(|l: int| 0 <= l < keys.len() && key_before(keys, l, j));
    assert forall|l: int| before.contains(l) <==> prefix.to_set().contains(l) by {
        if before.contains(l) {
            assert(occurs(order, l));
            let x = choose|x: int| 0 <= x < order.len() && order[x] == l;
            if x >= p {
                if x > p {
                    assert(key_before(keys, j, l));
                }
            }
            assert(prefix[x] == l);
            assert(prefix.contains(l));
        }
        if prefix.to_set().contains(l) {
            assert(prefix.contains(l));
            let x = choose|x: int| 0 <= x < prefix.len() && prefix[x] == l;
            assert(order[x] == l);
            assert(key_before(keys, order[x] as int, order[p] as int));
        }
    }
    assert(before =~= prefix.to_set());
}

} // verus!
