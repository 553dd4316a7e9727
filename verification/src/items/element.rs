//! Elements: the raw items found on astres, and their physical state.

use vstd::prelude::*;

use crate::data::{ItemId, all_item_ids, lemma_all_item_ids};
use crate::order::{lemma_rank_in_order, rank, stable_order};
use crate::random::{choose_multiple_ids, random_range_inclusive};
use rand::rngs::StdRng;

verus! {

/// Physical state of an element.
#[derive(PartialEq, Eq, Structural, Clone, Copy, Debug, Default)]
pub enum ElementState {
    #[default]
    Solid,
    Liquid,
    Gas,
    Plasma,
}

/// The state of each item that is an element (processed items have none).
pub open spec fn element_state_of(id: ItemId) -> Option<ElementState> {
    match id {
        ItemId::Aer => Some(ElementState::Gas),
        ItemId::Aqua => Some(ElementState::Liquid),
        ItemId::Terra => Some(ElementState::Solid),
        ItemId::Astrium => Some(ElementState::Solid),
        ItemId::ElectroniteOre => Some(ElementState::Solid),
        ItemId::QuarkCrystal => Some(ElementState::Solid),
        ItemId::Photonite => Some(ElementState::Plasma),
        ItemId::Neutronite => Some(ElementState::Plasma),
        ItemId::Gravitonite => Some(ElementState::Plasma),
        _ => None,
    }
}

/// The state of the element `id`, if it is an element.
pub fn element_state(id: ItemId) -> (r: Option<ElementState>)
    ensures
        r == element_state_of(id),
{
    match id {
        ItemId::Aer => Some(ElementState::Gas),
        ItemId::Aqua => Some(ElementState::Liquid),
        ItemId::Terra => Some(ElementState::Solid),
        ItemId::Astrium => Some(ElementState::Solid),
        ItemId::ElectroniteOre => Some(ElementState::Solid),
        ItemId::QuarkCrystal => Some(ElementState::Solid),
        ItemId::Photonite => Some(ElementState::Plasma),
        ItemId::Neutronite => Some(ElementState::Plasma),
        ItemId::Gravitonite => Some(ElementState::Plasma),
        _ => None,
    }
}

/// Name of the icon shown for an item: its element state, or "item" for a
/// processed item.
pub fn icon_name(id: ItemId) -> (r: &'static str)
    ensures
        element_state_of(id) == Some(ElementState::Solid) ==> r@ == "solid"@,
        element_state_of(id) == Some(ElementState::Liquid) ==> r@ == "liquid"@,
        element_state_of(id) == Some(ElementState::Gas) ==> r@ == "gas"@,
        element_state_of(id) == Some(ElementState::Plasma) ==> r@ == "plasma"@,
        element_state_of(id) is None ==> r@ == "item"@,
{
    match element_state(id) {
        Some(ElementState::Solid) => "solid",
        Some(ElementState::Liquid) => "liquid",
        Some(ElementState::Gas) => "gas",
        Some(ElementState::Plasma) => "plasma",
        None => "item",
    }
}

/// Whether `id` is an element in one of the given states.
pub open spec fn in_states(id: ItemId, states: Seq<ElementState>) -> bool {
    element_state_of(id) matches Some(state) && states.contains(state)
}

/// The elements in one of the given states, in item-id order.
pub open spec fn elements_in_states(states: Seq<ElementState>) -> Seq<ItemId> {
    all_item_ids().filter(|id: ItemId| in_states(id, states))
}

/// A quantity of an element on an astre.
#[derive(Clone, Copy, Debug)]
pub struct ElementOnAstre {
    pub id: ItemId,
    pub quantity: u32,
}

/// The map that inserting each element in turn builds (a later element of the
/// same id overwrites an earlier one).
pub open spec fn elements_map(elements: Seq<ElementOnAstre>) -> Map<ItemId, u32>
    decreases elements.len(),
{
    if elements.len() == 0 {
        Map::empty()
    } else {
        elements_map(elements.drop_last()).insert(elements.last().id, elements.last().quantity)
    }
}

/// The quantities of the elements, as sorting keys.
pub open spec fn quantity_keys(elements: Seq<ElementOnAstre>) -> Seq<usize> {
    elements.map_values(|e: ElementOnAstre| e.quantity as usize)
}

impl ElementOnAstre {
    /// The elements whose colors paint a planet, one per color slot: the
    /// elements are taken by increasing quantity (earlier first among equal
    /// quantities), slot `i` gets the `i`-th, and the slots past the last
    /// element repeat it.  Slot `i` thus holds the element with `min(i, n - 1)`
    /// elements before it.
    pub fn color_slot_ids(elements: &[ElementOnAstre], slots: usize) -> (r: Vec<ItemId>)
        requires
            elements@.len() > 0,
        ensures
            r@.len() == slots,
            forall|i: int| 0 <= i < slots ==> slot_holds(elements@, i, #[trigger] r@[i]),
    {
        let mut keys: Vec<usize> = Vec::new();
        let mut k: usize = 0;
        while k < elements.len()
            invariant
                0 <= k <= elements.len(),
                keys@ == quantity_keys(elements@.take(k as int)),
            decreases elements.len() - k,
        {
            keys.push(elements[k].quantity as usize);
            proof {
                assert(quantity_keys(elements@.take(k + 1)) =~= quantity_keys(elements@.take(k as int)).push(elements@[k as int].quantity as usize));
            }
            k = k + 1;
        }
        proof {
            assert(elements@.take(elements.len() as int) =~= elements@);
        }
        let order = stable_order(&keys);
        let n = elements.len();
        let mut r: Vec<ItemId> = Vec::new();
        let mut i: usize = 0;
        while i < slots
            invariant
                0 <= i <= slots,
                n == elements@.len(),
                n > 0,
                keys@ == quantity_keys(elements@),
                crate::order::sorts(keys@, order@),
                r@.len() == i,
                forall|t: int| 0 <= t < i ==> slot_holds(elements@, t, #[trigger] r@[t]),
            decreases slots - i,
        {
            let slot = if i < n - 1 {
                i
            } else {
                n - 1
            };
            let j = order[slot];
            proof {
                lemma_rank_in_order(keys@, order@, slot as int);
            }
            let ghost before = r@;
            r.push(elements[j].id);
            proof {
                assert(slot_holds(elements@, i as int, r@[i as int]));
                assert forall|t: int| 0 <= t < i + 1 implies slot_holds(elements@, t, #[trigger] r@[t]) by {
                    if t < i {
                        assert(r@[t] == before[t]);
                    }
                }
            }
            i = i + 1;
        }
        r
    }

    /// Up to `n` distinct elements in the given states, chosen at random, each
    /// with a random quantity between 1 and `max_quantity`.
    pub fn random_elements(rng: &mut StdRng, n: u32, max_quantity: u32, states: &[ElementState]) -> (r: Vec<ElementOnAstre>)
        requires
            max_quantity == 0 ==> (n == 0 || elements_in_states(states@).len() == 0),
        ensures
            r@.len() == (if n <= elements_in_states(states@).len() {
                n as int
            } else {
                elements_in_states(states@).len() as int
            }),
            forall|i: int| 0 <= i < r@.len() ==> in_states(#[trigger] r@[i].id, states@),
            forall|i: int| 0 <= i < r@.len() ==> 1 <= #[trigger] r@[i].quantity <= max_quantity,
            forall|i: int, j: int| 0 <= i < j < r@.len() ==> r@[i].id != r@[j].id,
            n >= elements_in_states(states@).len() ==> forall|i: int| 0 <= i < r@.len()
                ==> #[trigger] r@[i].id == elements_in_states(states@)[i],
    {
        let candidates = Self::candidates(states);
        let chosen = choose_multiple_ids(rng, candidates, n as usize);
        let mut elements: Vec<ElementOnAstre> = Vec::new();
        let mut i: usize = 0;
        while i < chosen.len()
            invariant
                0 <= i <= chosen.len(),
                max_quantity >= 1 || chosen.len() == 0,
                elements@.len() == i,
                forall|j: int| 0 <= j < i ==> #[trigger] elements@[j].id == chosen@[j],
                forall|j: int| 0 <= j < i ==> 1 <= #[trigger] elements@[j].quantity <= max_quantity,
            decreases chosen.len() - i,
        {
            let quantity = random_range_inclusive(rng, 1, max_quantity);
            elements.push(ElementOnAstre { id: chosen[i], quantity });
            i = i + 1;
        }
        proof {
            broadcast use vstd::seq_lib::group_filter_ensures;
            assert forall|j: int| 0 <= j < elements@.len() implies in_states(#[trigger] elements@[j].id, states@) by {
                assert(elements_in_states(states@).contains(chosen@[j]));
            }
            if chosen@.no_duplicates() {
                assert forall|a: int, b: int| 0 <= a < b < elements@.len() implies elements@[a].id != elements@[b].id by {
                    assert(elements@[a].id == chosen@[a]);
                    assert(elements@[b].id == chosen@[b]);
                }
            }
        }
        elements
    }

    /// The elements in one of the given states, in item-id order.
    fn candidates(states: &[ElementState]) -> (r: Vec<ItemId>)
        ensures
            r@ == elements_in_states(states@),
            r@.no_duplicates(),
    {
        let ids = ItemId::all();
        let mut r: Vec<ItemId> = Vec::new();
        let mut i: usize = 0;
        while i < ids.len()
            invariant
                ids@ == all_item_ids(),
                0 <= i <= ids.len(),
                r@ == ids@.take(i as int).filter(|id: ItemId| in_states(id, states@)),
                r@.no_duplicates(),
                forall|x: ItemId| r@.contains(x) ==> ids@.take(i as int).contains(x),
            decreases ids.len() - i,
        {
            proof {
                assert(ids@.take(i + 1).drop_last() =~= ids@.take(i as int));
                reveal_with_fuel(Seq::filter, 1);
            }
            let id = ids[i];
            let keep = match element_state(id) {
                Some(state) => contains_state(states, state),
                None => false,
            };
            proof {
                lemma_all_item_ids(id);
                if ids@.take(i as int).contains(id) {
                    let k = choose|k: int| 0 <= k < i && ids@.take(i as int)[k] == id;
                    assert(ids@[k] == ids@[i as int]);
                }
                assert(!ids@.take(i as int).contains(id));
                assert forall|x: ItemId| ids@.take(i as int).contains(x) implies ids@.take(i + 1).contains(x) by {
                    let k = choose|k: int| 0 <= k < i && ids@.take(i as int)[k] == x;
                    assert(ids@.take(i + 1)[k] == x);
                }
                assert(ids@.take(i + 1)[i as int] == id);
            }
            let ghost old_r = r@;
            if keep {
                r.push(id);
                proof {
                    assert(!old_r.contains(id));
                    assert forall|x: ItemId| r@.contains(x) implies ids@.take(i + 1).contains(x) by {
                        if x != id {
                            let k = choose|k: int| 0 <= k < r@.len() && r@[k] == x;
                            assert(old_r[k] == x);
                            assert(old_r.contains(x));
                            assert(ids@.take(i as int).contains(x));
                        } else {
                            assert(ids@.take(i + 1)[i as int] == id);
                        }
                    }
                    assert forall|a: int, b: int| 0 <= a < b < r@.len() implies r@[a] != r@[b] by {
                        if b == r@.len() - 1 {
                            assert(old_r.contains(r@[a]));
                        }
                    }
                }
            }
            i = i + 1;
        }
        proof {
            assert(ids@.take(ids.len() as int) =~= ids@);
        }
        r
    }
}

/// Whether `id` is the element for color slot `i`: the one with
/// `min(i, n - 1)` elements before it by quantity.
pub open spec fn slot_holds(elements: Seq<ElementOnAstre>, i: int, id: ItemId) -> bool {
    exists|j: int|
        0 <= j < elements.len() && rank(quantity_keys(elements), j) == (if i < elements.len() - 1 {
            i
        } else {
            elements.len() - 1
        }) && #[trigger] elements[j].id == id
}

/// Whether `state` is one of `states`.
fn contains_state(states: &[ElementState], state: ElementState) -> (r: bool)
    ensures
        r == states@.contains(state),
{
    let mut i: usize = 0;
    while i < states.len()
        invariant
            0 <= i <= states.len(),
            forall|j: int| 0 <= j < i ==> states@[j] != state,
        decreases states.len() - i,
    {
        if states[i] == state {
            return true;
        }
        i = i + 1;
    }
    false
}

} // verus!
