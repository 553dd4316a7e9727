//! The item map: item id -> quantity, held in bevy's deterministic hash map.

use vstd::prelude::*;

use crate::data::{ItemId, all_item_ids, lemma_all_item_ids};
use bevy_platform::collections::HashMap;
use bevy_platform::hash::FixedHasher;

verus! {

#[verifier::external_type_specification]
#[verifier::external_body]
#[verifier::reject_recursive_types(K)]
#[verifier::reject_recursive_types(V)]
#[verifier::reject_recursive_types(S)]
pub struct ExBevyHashMap<K, V, S>(HashMap<K, V, S>);

#[verifier::external_type_specification]
#[verifier::external_body]
pub struct ExFixedHasher(FixedHasher);

/// Item id -> quantity.
pub type ItemMap = HashMap<ItemId, u32>;

/// The entries that an item map holds.
pub uninterp spec fn item_map_view(m: ItemMap) -> Map<ItemId, u32>;

/// The map with no entry.
pub open spec fn no_items() -> Map<ItemId, u32> {
    Map::empty()
}

/// Quantity that `m` records for `id` (0 when absent).
pub open spec fn qty(m: Map<ItemId, u32>, id: ItemId) -> u32 {
    if m.dom().contains(id) {
        m[id]
    } else {
        0
    }
}

/// `HashMap::new`: the new map is empty.
#[verifier::external_body]
pub(crate) fn item_map_new() -> (r: ItemMap)
    ensures
        item_map_view(r) == no_items(),
{
    HashMap::new()
}

/// `HashMap::get`: the value stored under `id`, if any.
#[verifier::external_body]
pub(crate) fn item_map_get(m: &ItemMap, id: ItemId) -> (r: Option<u32>)
    ensures
        r == (if item_map_view(*m).dom().contains(id) {
            Some(item_map_view(*m)[id])
        } else {
            None
        }),
{
    m.get(&id).copied()
}

/// `HashMap::insert`: stores `quantity` under `id`, replacing any earlier value.
#[verifier::external_body]
pub(crate) fn item_map_insert(m: &mut ItemMap, id: ItemId, quantity: u32)
    ensures
        item_map_view(*final(m)) == item_map_view(*old(m)).insert(id, quantity),
{
    m.insert(id, quantity);
}

/// `HashMap::remove`: drops the entry of `id`, if any.
#[verifier::external_body]
pub(crate) fn item_map_remove(m: &mut ItemMap, id: ItemId)
    ensures
        item_map_view(*final(m)) == item_map_view(*old(m)).remove(id),
{
    m.remove(&id);
}

/// `HashMap::iter`, each entry copied out: every entry of the map once, in the
/// map's own order (which the map does not promise).
#[verifier::external_body]
pub(crate) fn item_map_entries(m: &ItemMap) -> (r: Vec<(ItemId, u32)>)
    ensures
        forall|i: int| 0 <= i < r@.len()
            ==> #[trigger] item_map_view(*m).dom().contains(r@[i].0)
            && item_map_view(*m)[r@[i].0] == r@[i].1,
        forall|i: int, j: int| 0 <= i < j < r@.len() ==> r@[i].0 != r@[j].0,
        forall|id: ItemId| item_map_view(*m).dom().contains(id)
            ==> exists|i: int| 0 <= i < r@.len() && #[trigger] r@[i].0 == id,
{
    m.iter().map(|(id, quantity)| (*id, *quantity)).collect()
}

/// `HashMap::keys`, copied out: every key of the map once, in the map's own
/// order (which the map does not promise).
#[verifier::external_body]
pub(crate) fn item_map_keys(m: &ItemMap) -> (r: Vec<ItemId>)
    ensures
        r@.no_duplicates(),
        r@.to_set() == item_map_view(*m).dom(),
{
    m.keys().copied().collect()
}

/// `HashMap::clone`: a map with the same entries.
#[verifier::external_body]
pub(crate) fn item_map_clone(m: &ItemMap) -> (r: ItemMap)
    ensures
        item_map_view(r) == item_map_view(*m),
{
    m.clone()
}

/// `HashMap::eq`: two maps are equal when they hold the same entries.
#[verifier::external_body]
pub(crate) fn item_map_eq(a: &ItemMap, b: &ItemMap) -> (r: bool)
    ensures
        r == (item_map_view(*a) == item_map_view(*b)),
{
    a == b
}

/// Sum of the quantities that `m` records for the ids of `ids`.
pub open spec fn sum_qty(m: Map<ItemId, u32>, ids: Seq<ItemId>) -> int
    decreases ids.len(),
{
    if ids.len() == 0 {
        0
    } else {
        sum_qty(m, ids.drop_last()) + qty(m, ids.last())
    }
}

/// Sum of all quantities that `m` records.
pub open spec fn total(m: Map<ItemId, u32>) -> int {
    sum_qty(m, all_item_ids())
}

/// `m` with `quantity` more of `id`.
pub open spec fn add_qty(m: Map<ItemId, u32>, id: ItemId, quantity: u32) -> Map<ItemId, u32> {
    m.insert(id, (qty(m, id) + quantity) as u32)
}

/// `m` with `quantity` less of `id`; an entry that falls to zero is dropped,
/// and an absent id is left absent.
pub open spec fn remove_qty(m: Map<ItemId, u32>, id: ItemId, quantity: u32) -> Map<ItemId, u32> {
    if !m.dom().contains(id) {
        m
    } else if m[id] - quantity == 0 {
        m.remove(id)
    } else {
        m.insert(id, (m[id] - quantity) as u32)
    }
}

/// A partial sum over a prefix of `ids` is at most the sum over a longer prefix,
/// and sums are never negative.
pub proof fn lemma_sum_qty_prefix(m: Map<ItemId, u32>, ids: Seq<ItemId>, i: int, j: int)
    requires
        0 <= i <= j <= ids.len(),
    ensures
        0 <= sum_qty(m, ids.take(i)) <= sum_qty(m, ids.take(j)),
    decreases j - i,
{
    if i < j {
        lemma_sum_qty_prefix(m, ids, i, j - 1);
        assert(ids.take(j).drop_last() =~= ids.take(j - 1));
    } else {
        lemma_sum_qty_nonneg(m, ids.take(i));
    }
}

/// Sums are never negative.
pub proof fn lemma_sum_qty_nonneg(m: Map<ItemId, u32>, ids: Seq<ItemId>)
    ensures
        sum_qty(m, ids) >= 0,
    decreases ids.len(),
{
    if ids.len() > 0 {
        lemma_sum_qty_nonneg(m, ids.drop_last());
    }
}

/// The sum only depends on the quantities, and when two maps differ at most at
/// `id`, the sums over a list holding `id` once differ by the quantities there.
pub proof fn lemma_sum_qty_change(m1: Map<ItemId, u32>, m2: Map<ItemId, u32>, ids: Seq<ItemId>, id: ItemId)
    requires
        ids.no_duplicates(),
        forall|k: ItemId| k != id ==> qty(m1, k) == qty(m2, k),
    ensures
        sum_qty(m2, ids) == sum_qty(m1, ids) + (if ids.contains(id) {
            qty(m2, id) - qty(m1, id)
        } else {
            0
        }),
    decreases ids.len(),
{
    if ids.len() > 0 {
        let rest = ids.drop_last();
        assert(rest.no_duplicates()) by {
            assert forall|a: int, b: int| 0 <= a < b < rest.len() implies rest[a] != rest[b] by {
                assert(rest[a] == ids[a] && rest[b] == ids[b]);
            }
        }
        lemma_sum_qty_change(m1, m2, rest, id);
        if ids.last() == id {
            assert(!rest.contains(id)) by {
                if rest.contains(id) {
                    let k = choose|k: int| 0 <= k < rest.len() && rest[k] == id;
                    assert(ids[k] == ids[ids.len() - 1]);
                }
            }
            assert(ids.contains(id)) by {
                assert(ids[ids.len() - 1] == id);
            }
        } else {
            assert(ids.contains(id) == rest.contains(id)) by {
                if ids.contains(id) {
                    let k = choose|k: int| 0 <= k < ids.len() && ids[k] == id;
                    assert(k != ids.len() - 1);
                    assert(rest[k] == id);
                }
                if rest.contains(id) {
                    let k = choose|k: int| 0 <= k < rest.len() && rest[k] == id;
                    assert(ids[k] == id);
                }
            }
        }
    }
}

/// Adding to one id adds exactly that much to the total.
pub proof fn lemma_total_add(m: Map<ItemId, u32>, id: ItemId, quantity: u32)
    requires
        qty(m, id) + quantity <= u32::MAX,
    ensures
        total(add_qty(m, id, quantity)) == total(m) + quantity,
        forall|k: ItemId| k != id ==> qty(add_qty(m, id, quantity), k) == qty(m, k),
        qty(add_qty(m, id, quantity), id) == qty(m, id) + quantity,
{
    lemma_all_item_ids(id);
    lemma_sum_qty_change(m, add_qty(m, id, quantity), all_item_ids(), id);
}

/// Taking from one id takes exactly that much from the total.
pub proof fn lemma_total_remove(m: Map<ItemId, u32>, id: ItemId, quantity: u32)
    requires
        m.dom().contains(id) ==> quantity <= m[id],
    ensures
        total(remove_qty(m, id, quantity)) == total(m) - (if m.dom().contains(id) {
            quantity as int
        } else {
            0
        }),
        forall|k: ItemId| k != id ==> qty(remove_qty(m, id, quantity), k) == qty(m, k),
        m.dom().contains(id) ==> qty(remove_qty(m, id, quantity), id) == qty(m, id) - quantity,
{
    lemma_all_item_ids(id);
    lemma_sum_qty_change(m, remove_qty(m, id, quantity), all_item_ids(), id);
}

/// One quantity never exceeds the total.
pub proof fn lemma_qty_le_total(m: Map<ItemId, u32>, id: ItemId)
    ensures
        qty(m, id) <= total(m),
{
    lemma_all_item_ids(id);
    let m0 = m.remove(id);
    lemma_sum_qty_change(m0, m, all_item_ids(), id);
    lemma_sum_qty_nonneg(m0, all_item_ids());
}

/// Sum of all quantities of an item map.
pub fn item_map_total(m: &ItemMap) -> (r: u32)
    requires
        total(item_map_view(*m)) <= u32::MAX,
    ensures
        r == total(item_map_view(*m)),
{
    let ids = ItemId::all();
    let ghost v = item_map_view(*m);
    let mut sum: u32 = 0;
    let mut i: usize = 0;
    while i < ids.len()
        invariant
            ids@ == all_item_ids(),
            v == item_map_view(*m),
            total(v) <= u32::MAX,
            0 <= i <= ids.len(),
            sum == sum_qty(v, ids@.take(i as int)),
        decreases ids.len() - i,
    {
        proof {
            lemma_sum_qty_prefix(v, ids@, i + 1, ids.len() as int);
            assert(ids@.take(ids.len() as int) =~= ids@);
            assert(ids@.take(i + 1).drop_last() =~= ids@.take(i as int));
        }
        let q = match item_map_get(m, ids[i]) {
            Some(q) => q,
            None => 0,
        };
        sum = sum + q;
        i = i + 1;
    }
    proof {
        assert(ids@.take(ids.len() as int) =~= ids@);
    }
    sum
}


/// Sum of all quantities of an item map, or `None` when it exceeds `u32::MAX`.
pub fn item_map_checked_total(m: &ItemMap) -> (r: Option<u32>)
    ensures
        r == (if total(item_map_view(*m)) <= u32::MAX {
            Some(total(item_map_view(*m)) as u32)
        } else {
            None::<u32>
        }),
        r matches Some(t) ==> t == total(item_map_view(*m)),
{
    proof {
        lemma_sum_qty_nonneg(item_map_view(*m), all_item_ids());
    }
    let ids = ItemId::all();
    let ghost v = item_map_view(*m);
    let mut sum: u32 = 0;
    let mut i: usize = 0;
    while i < ids.len()
        invariant
            ids@ == all_item_ids(),
            v == item_map_view(*m),
            0 <= i <= ids.len(),
            sum == sum_qty(v, ids@.take(i as int)),
        decreases ids.len() - i,
    {
        proof {
            assert(ids@.take(i + 1).drop_last() =~= ids@.take(i as int));
        }
        let q = match item_map_get(m, ids[i]) {
            Some(q) => q,
            None => 0,
        };
        match sum.checked_add(q) {
            Some(next) => {
                sum = next;
            },
            None => {
                proof {
                    lemma_sum_qty_prefix(v, ids@, i + 1, ids.len() as int);
                    assert(ids@.take(ids.len() as int) =~= ids@);
                }
                return None;
            },
        }
        i = i + 1;
    }
    proof {
        assert(ids@.take(ids.len() as int) =~= ids@);
    }
    Some(sum)
}

} // verus!
