//! Extractors: buildings that mine the elements of the astre they stand on.
//!
//! The cooldown timer is kept by the caller; these functions decide whether to
//! extract and what one extraction moves.

use vstd::prelude::*;

use crate::data::ItemId;
use crate::items::element::{ElementState, element_state, element_state_of};
use crate::items::inventory::{Inventory, InventoryView, transfer_amount, transfer_fits};
use crate::items::item_map::{add_qty, qty, remove_qty, total};
use crate::items::logistic::{LogisticProvider, LogisticScope};
use crate::random::{choose_weighted_id, thread_rng, weights_total};

verus! {

/// An extractor of one element state.  It remembers the ids of the astre's
/// elements of that state between extractions.
pub struct Extractor {
    amount_per_tick: u32,
    element_state: ElementState,
    cached_item_ids: Option<Vec<ItemId>>,
}

/// The mathematical content of an `Extractor`.
pub struct ExtractorView {
    pub amount_per_tick: u32,
    pub element_state: ElementState,
    pub cached_item_ids: Option<Seq<ItemId>>,
}

impl View for Extractor {
    type V = ExtractorView;

    closed spec fn view(&self) -> ExtractorView {
        ExtractorView {
            amount_per_tick: self.amount_per_tick,
            element_state: self.element_state,
            cached_item_ids: match self.cached_item_ids {
                Some(ids) => Some(ids@),
                None => None,
            },
        }
    }
}

/// `min(a, b)`.
pub open spec fn min_u32(a: u32, b: u32) -> u32 {
    if a <= b {
        a
    } else {
        b
    }
}

/// The ids, among those an astre holds, of elements in `state`.
pub open spec fn ids_of_state(astre: InventoryView, state: ElementState) -> Set<ItemId> {
    astre.items.dom().filter(|id: ItemId| element_state_of(id) == Some(state))
}

/// Each id paired with the quantity the astre holds of it.
pub open spec fn weighted(ids: Seq<ItemId>, astre: InventoryView) -> Seq<(ItemId, u32)> {
    ids.map_values(|id: ItemId| (id, astre.quantity(id)))
}

/// What extracting `id` from `astre` into `extractor_inventory` moves: what
/// the astre holds of it, at most `amount` (and what the extractor has room
/// for).
pub open spec fn extraction(astre: InventoryView, extractor_inventory: InventoryView, id: ItemId, amount: u32) -> u32 {
    transfer_amount(astre, extractor_inventory, id, min_u32(astre.quantity(id), amount))
}

/// When extracting any of `ids` runs without overflow.
pub open spec fn extractions_fit(astre: InventoryView, extractor_inventory: InventoryView, ids: Seq<ItemId>, amount: u32) -> bool {
    forall|i: int| 0 <= i < ids.len() ==> transfer_fits(
        astre,
        extractor_inventory,
        #[trigger] ids[i],
        min_u32(astre.quantity(ids[i]), amount),
    )
}

/// The elements of `state` that the astre holds, with their quantities.
pub open spec fn state_items(astre: InventoryView, state: ElementState) -> Map<ItemId, u32> {
    astre.items.restrict(ids_of_state(astre, state))
}

/// Weighing distinct ids by what `astre` holds of them, where that agrees with
/// `m` and the ids are exactly `m`'s keys, gives `m`'s total weight.
pub proof fn lemma_weights_total_is_total(s: Seq<ItemId>, astre: InventoryView, m: Map<ItemId, u32>)
    requires
        s.no_duplicates(),
        s.to_set() == m.dom(),
        forall|i: int| 0 <= i < s.len() ==> astre.quantity(#[trigger] s[i]) == qty(m, s[i]),
    ensures
        weights_total(weighted(s, astre)) == total(m),
    decreases s.len(),
{
    if s.len() == 0 {
        assert(m =~= Map::<ItemId, u32>::empty()) by {
            assert forall|k: ItemId| !m.dom().contains(k) by {
                assert(!s.to_set().contains(k));
            }
        }
        lemma_empty_total();
    } else {
        let x = s.last();
        let rest = s.drop_last();
        let m0 = m.remove(x);
        assert(rest.no_duplicates()) by {
            assert forall|a: int, b: int| 0 <= a < b < rest.len() implies rest[a] != rest[b] by {
                assert(rest[a] == s[a] && rest[b] == s[b]);
            }
        }
        assert(rest.to_set() =~= m0.dom()) by {
            assert forall|k: ItemId| rest.to_set().contains(k) <==> m0.dom().contains(k) by {
                if rest.to_set().contains(k) {
                    let j = choose|j: int| 0 <= j < rest.len() && rest[j] == k;
                    assert(s[j] == k);
                    assert(s.to_set().contains(k));
                    assert(k != x) by {
                        assert(s[s.len() - 1] == x);
                    }
                }
                if m0.dom().contains(k) {
                    assert(s.to_set().contains(k));
                    let j = choose|j: int| 0 <= j < s.len() && s[j] == k;
                    assert(j != s.len() - 1);
                    assert(rest[j] == k);
                }
            }
        }
        assert forall|i: int| 0 <= i < rest.len() implies astre.quantity(#[trigger] rest[i]) == qty(m0, rest[i]) by {
            assert(rest[i] == s[i]);
            assert(s[i] != s[s.len() - 1]);
        }
        lemma_weights_total_is_total(rest, astre, m0);
        assert(weighted(s, astre).drop_last() =~= weighted(rest, astre));
        assert(astre.quantity(x) == qty(m, x)) by {
            assert(s[s.len() - 1] == x);
        }
        crate::data::lemma_all_item_ids(x);
        crate::items::item_map::lemma_sum_qty_change(m0, m, crate::data::all_item_ids(), x);
    }
}

impl Default for Extractor {
    /// An extractor of solids that extracts nothing.
    fn default() -> (r: Self)
        ensures
            r@.amount_per_tick == 0,
            r@.element_state == ElementState::Solid,
            r@.cached_item_ids is None,
    {
        Extractor { amount_per_tick: 0, element_state: ElementState::Solid, cached_item_ids: None }
    }
}

impl Extractor {
    /// An extractor of solids, 100 per extraction.
    pub fn new_solid() -> (r: Self)
        ensures
            r@ == (ExtractorView { amount_per_tick: 100, element_state: ElementState::Solid, cached_item_ids: None }),
    {
        Extractor { element_state: ElementState::Solid, amount_per_tick: 100, cached_item_ids: None }
    }

    /// An extractor of liquids, 1000 per extraction.
    pub fn new_liquid() -> (r: Self)
        ensures
            r@ == (ExtractorView { amount_per_tick: 1000, element_state: ElementState::Liquid, cached_item_ids: None }),
    {
        Extractor { element_state: ElementState::Liquid, amount_per_tick: 1000, cached_item_ids: None }
    }

    /// An extractor of gases, 500 per extraction.
    pub fn new_gas() -> (r: Self)
        ensures
            r@ == (ExtractorView { amount_per_tick: 500, element_state: ElementState::Gas, cached_item_ids: None }),
    {
        Extractor { element_state: ElementState::Gas, amount_per_tick: 500, cached_item_ids: None }
    }

    /// An extractor of plasmas, 10 per extraction.
    pub fn new_plasma() -> (r: Self)
        ensures
            r@ == (ExtractorView { amount_per_tick: 10, element_state: ElementState::Plasma, cached_item_ids: None }),
    {
        Extractor { element_state: ElementState::Plasma, amount_per_tick: 10, cached_item_ids: None }
    }

    /// Whether to extract now: the cooldown is over and the extractor's
    /// inventory has room left.
    pub fn should_extract(&self, cooldown_finished: bool, extractor_inventory: &Inventory) -> (r: bool)
        requires
            cooldown_finished ==> extractor_inventory@.total() <= u32::MAX,
        ensures
            r == (cooldown_finished && extractor_inventory@.remaining_space() > 0),
    {
        cooldown_finished && extractor_inventory.remaining_space() > 0
    }

    /// Whether `extract` stays within `u32` (the condition that `extract`
    /// requires): moving any remembered element of the astre into the
    /// extractor's inventory does.
    pub fn extract_fits(&self, extractor_inventory: &Inventory, astre_inventory: &Inventory) -> (r: bool)
        ensures
            r == (self@.cached_item_ids matches Some(ids) ==> extractions_fit(
                astre_inventory@,
                extractor_inventory@,
                ids,
                self@.amount_per_tick,
            )),
    {
        match &self.cached_item_ids {
            None => true,
            Some(ids) => {
                let mut i: usize = 0;
                while i < ids.len()
                    invariant
                        0 <= i <= ids.len(),
                        self@.cached_item_ids == Some(ids@),
                        forall|j: int| 0 <= j < i ==> transfer_fits(
                            astre_inventory@,
                            extractor_inventory@,
                            #[trigger] ids@[j],
                            min_u32(astre_inventory@.quantity(ids@[j]), self@.amount_per_tick),
                        ),
                    decreases ids.len() - i,
                {
                    let id = ids[i];
                    let held = astre_inventory.quantity(id);
                    let quantity = if held <= self.amount_per_tick {
                        held
                    } else {
                        self.amount_per_tick
                    };
                    if !astre_inventory.transfer_fits_u32(extractor_inventory, id, quantity) {
                        proof {
                            assert(!transfer_fits(
                                astre_inventory@,
                                extractor_inventory@,
                                ids@[i as int],
                                min_u32(astre_inventory@.quantity(ids@[i as int]), self@.amount_per_tick),
                            ));
                        }
                        return false;
                    }
                    i = i + 1;
                }
                true
            },
        }
    }

    /// One extraction with the element already chosen (`None` when no choice
    /// could be made): the chosen element is moved from the astre, as much as
    /// it holds, at most the amount per extraction; without a choice the
    /// remembered ids are forgotten.
    pub fn extract_chosen(&mut self, choice: Option<ItemId>, extractor_inventory: &mut Inventory, astre_inventory: &mut Inventory)
        requires
            choice matches Some(id) ==> transfer_fits(
                old(astre_inventory)@,
                old(extractor_inventory)@,
                id,
                min_u32(old(astre_inventory)@.quantity(id), old(self)@.amount_per_tick),
            ),
        ensures
            final(self)@.amount_per_tick == old(self)@.amount_per_tick,
            final(self)@.element_state == old(self)@.element_state,
            final(extractor_inventory)@.size == old(extractor_inventory)@.size,
            final(astre_inventory)@.size == old(astre_inventory)@.size,
            choice is None ==> final(self)@.cached_item_ids is None
                && final(extractor_inventory)@ == old(extractor_inventory)@
                && final(astre_inventory)@ == old(astre_inventory)@,
            choice matches Some(id) ==> {
                let moved = extraction(old(astre_inventory)@, old(extractor_inventory)@, id, old(self)@.amount_per_tick);
                &&& final(self)@.cached_item_ids == old(self)@.cached_item_ids
                &&& moved > 0 ==> final(astre_inventory)@.items == remove_qty(old(astre_inventory)@.items, id, moved)
                    && final(extractor_inventory)@.items == add_qty(old(extractor_inventory)@.items, id, moved)
                &&& moved == 0 ==> final(astre_inventory)@ == old(astre_inventory)@
                    && final(extractor_inventory)@ == old(extractor_inventory)@
            },
    {
        match choice {
            Some(id) => {
                let held = astre_inventory.quantity(id);
                let quantity = if held <= self.amount_per_tick {
                    held
                } else {
                    self.amount_per_tick
                };
                astre_inventory.transfer_to(extractor_inventory, id, quantity);
            },
            None => {
                self.cached_item_ids = None;
            },
        }
    }

    /// One extraction.  The first time, the ids of the astre's elements of the
    /// extractor's state are remembered and nothing moves.  Afterwards one of
    /// them is chosen at random, weighted by what the astre holds, and
    /// extracted (see `extract_chosen`); when none can be chosen (no id, or
    /// weights that sum to 0 or beyond `u32::MAX`), the ids are forgotten and
    /// nothing moves.
    pub fn extract(&mut self, extractor_inventory: &mut Inventory, astre_inventory: &mut Inventory)
        requires
            old(self)@.cached_item_ids matches Some(ids) ==> extractions_fit(
                old(astre_inventory)@,
                old(extractor_inventory)@,
                ids,
                old(self)@.amount_per_tick,
            ),
        ensures
            final(self)@.amount_per_tick == old(self)@.amount_per_tick,
            final(self)@.element_state == old(self)@.element_state,
            final(extractor_inventory)@.size == old(extractor_inventory)@.size,
            final(astre_inventory)@.size == old(astre_inventory)@.size,
            old(self)@.cached_item_ids is None ==> {
                &&& final(self)@.cached_item_ids matches Some(ids) && ids.no_duplicates()
                    && ids.to_set() == ids_of_state(old(astre_inventory)@, old(self)@.element_state)
                &&& final(extractor_inventory)@ == old(extractor_inventory)@
                &&& final(astre_inventory)@ == old(astre_inventory)@
            },
            old(self)@.cached_item_ids matches Some(ids) ==> {
                let weights = weighted(ids, old(astre_inventory)@);
                if ids.len() == 0 || weights_total(weights) == 0 || weights_total(weights) > u32::MAX {
                    &&& final(self)@.cached_item_ids is None
                    &&& final(extractor_inventory)@ == old(extractor_inventory)@
                    &&& final(astre_inventory)@ == old(astre_inventory)@
                } else {
                    exists|i: int| 0 <= i < ids.len() && old(astre_inventory)@.quantity(#[trigger] ids[i]) > 0 && {
                        let moved = extraction(old(astre_inventory)@, old(extractor_inventory)@, ids[i], old(self)@.amount_per_tick);
                        &&& final(self)@.cached_item_ids == old(self)@.cached_item_ids
                        &&& moved > 0 ==> final(astre_inventory)@.items == remove_qty(old(astre_inventory)@.items, ids[i], moved)
                            && final(extractor_inventory)@.items == add_qty(old(extractor_inventory)@.items, ids[i], moved)
                        &&& moved == 0 ==> final(astre_inventory)@ == old(astre_inventory)@
                            && final(extractor_inventory)@ == old(extractor_inventory)@
                    }
                }
            },
    {
        let choice = match &self.cached_item_ids {
            Some(ids) => {
                let weights = weigh(ids, astre_inventory);
                let mut rng = thread_rng();
                let choice = choose_weighted_id(&mut rng, &weights);
                proof {
                    if let Some(id) = choice {
                        let i = choose|i: int| 0 <= i < weights@.len() && #[trigger] weights@[i].0 == id && weights@[i].1 > 0;
                        assert(ids@[i] == id);
                    }
                }
                choice
            },
            None => {
                let ids = ids_in_state(astre_inventory.all_ids(), self.element_state);
                self.cached_item_ids = Some(ids);
                return;
            },
        };
        proof {
            if let Some(id) = choice {
                let ids = old(self)@.cached_item_ids.unwrap();
                let i = choose|i: int| 0 <= i < ids.len() && ids[i] == id && #[trigger] old(astre_inventory)@.quantity(ids[i]) > 0;
                assert(transfer_fits(
                    old(astre_inventory)@,
                    old(extractor_inventory)@,
                    ids[i],
                    min_u32(old(astre_inventory)@.quantity(ids[i]), old(self)@.amount_per_tick),
                ));
            }
        }
        self.extract_chosen(choice, extractor_inventory, astre_inventory);
    }
}

/// An extractor of one element state that looks up the astre's elements at
/// every extraction.
pub struct ElementExtractor {
    amount_per_tick: u32,
    element_state: ElementState,
}

/// An element extractor with its inventory and a planet-wide provider.
pub struct ElementExtractorBundle {
    pub element_extractor: ElementExtractor,
    pub inventory: Inventory,
    pub logistic_provider: LogisticProvider,
}

impl ElementExtractor {
    pub closed spec fn amount(&self) -> u32 {
        self.amount_per_tick
    }

    pub closed spec fn state(&self) -> ElementState {
        self.element_state
    }

    /// Amount moved per extraction.
    pub fn amount_per_tick(&self) -> (r: u32)
        ensures
            r == self.amount(),
    {
        self.amount_per_tick
    }

    /// State of the elements extracted.
    pub fn element_state(&self) -> (r: ElementState)
        ensures
            r == self.state(),
    {
        self.element_state
    }

    /// Whether `extract` stays within `u32` (the condition that `extract`
    /// requires): moving any element of the extractor's state that the astre
    /// holds into the extractor's inventory does.
    pub fn extract_fits(&self, extractor_inventory: &Inventory, astre_inventory: &Inventory) -> (r: bool)
        ensures
            r == (forall|id: ItemId| #[trigger] ids_of_state(astre_inventory@, self.state()).contains(id) ==> transfer_fits(
                astre_inventory@,
                extractor_inventory@,
                id,
                min_u32(astre_inventory@.quantity(id), self.amount()),
            )),
    {
        let all = astre_inventory.all_ids();
        let ids = ids_in_state(all, self.element_state);
        proof {
            assert(ids@.to_set() =~= ids_of_state(astre_inventory@, self.state()));
        }
        let mut i: usize = 0;
        while i < ids.len()
            invariant
                0 <= i <= ids.len(),
                ids@.to_set() == ids_of_state(astre_inventory@, self.state()),
                forall|j: int| 0 <= j < i ==> transfer_fits(
                    astre_inventory@,
                    extractor_inventory@,
                    #[trigger] ids@[j],
                    min_u32(astre_inventory@.quantity(ids@[j]), self.amount()),
                ),
            decreases ids.len() - i,
        {
            let id = ids[i];
            let held = astre_inventory.quantity(id);
            let quantity = if held <= self.amount_per_tick {
                held
            } else {
                self.amount_per_tick
            };
            if !astre_inventory.transfer_fits_u32(extractor_inventory, id, quantity) {
                proof {
                    assert(ids@.to_set().contains(ids@[i as int]));
                }
                return false;
            }
            i = i + 1;
        }
        proof {
            assert forall|id: ItemId| #[trigger] ids_of_state(astre_inventory@, self.state()).contains(id) implies transfer_fits(
                astre_inventory@,
                extractor_inventory@,
                id,
                min_u32(astre_inventory@.quantity(id), self.amount()),
            ) by {
                assert(ids@.to_set().contains(id));
                let j = choose|j: int| 0 <= j < ids@.len() && ids@[j] == id;
                assert(ids@[j] == id);
            }
        }
        true
    }

    /// One extraction: an element of the extractor's state that the astre
    /// holds is chosen at random, weighted by what the astre holds, and as
    /// much of it as the astre holds, at most the amount per extraction, is
    /// moved into the extractor's inventory.  An element is chosen exactly
    /// when the astre's elements of that state add up to more than 0 and at
    /// most `u32::MAX`; otherwise nothing moves.
    pub fn extract(&self, extractor_inventory: &mut Inventory, astre_inventory: &mut Inventory)
        requires
            forall|id: ItemId| #[trigger] ids_of_state(old(astre_inventory)@, self.state()).contains(id) ==> transfer_fits(
                old(astre_inventory)@,
                old(extractor_inventory)@,
                id,
                min_u32(old(astre_inventory)@.quantity(id), self.amount()),
            ),
        ensures
            final(extractor_inventory)@.size == old(extractor_inventory)@.size,
            final(astre_inventory)@.size == old(astre_inventory)@.size,
            ({
                let held = total(state_items(old(astre_inventory)@, self.state()));
                if 0 < held <= u32::MAX {
                    exists|id: ItemId| #[trigger] ids_of_state(old(astre_inventory)@, self.state()).contains(id)
                        && old(astre_inventory)@.quantity(id) > 0 && {
                        let moved = extraction(old(astre_inventory)@, old(extractor_inventory)@, id, self.amount());
                        &&& moved > 0 ==> final(astre_inventory)@.items == remove_qty(old(astre_inventory)@.items, id, moved)
                            && final(extractor_inventory)@.items == add_qty(old(extractor_inventory)@.items, id, moved)
                        &&& moved == 0 ==> final(astre_inventory)@ == old(astre_inventory)@
                            && final(extractor_inventory)@ == old(extractor_inventory)@
                    }
                } else {
                    final(extractor_inventory)@ == old(extractor_inventory)@
                        && final(astre_inventory)@ == old(astre_inventory)@
                }
            }),
    {
        let all = astre_inventory.all_ids();
        let ids = ids_in_state(all, self.element_state);
        proof {
            assert(ids@.to_set() =~= ids_of_state(astre_inventory@, self.state()));
        }
        let weights = weigh(&ids, astre_inventory);
        proof {
            let m = state_items(astre_inventory@, self.state());
            assert(m.dom() =~= ids_of_state(astre_inventory@, self.state()));
            assert forall|i: int| 0 <= i < ids@.len() implies astre_inventory@.quantity(#[trigger] ids@[i]) == qty(m, ids@[i]) by {
                assert(ids@.to_set().contains(ids@[i]));
            }
            lemma_weights_total_is_total(ids@, astre_inventory@, m);
        }
        let ghost held_total = total(state_items(astre_inventory@, self.state()));
        proof {
            crate::items::item_map::lemma_sum_qty_nonneg(state_items(astre_inventory@, self.state()), crate::data::all_item_ids());
        }
        assert(weights_total(weights@) == held_total);
        let mut rng = thread_rng();
        match choose_weighted_id(&mut rng, &weights) {
            Some(id) => {
                proof {
                    let i = choose|i: int| 0 <= i < weights@.len() && #[trigger] weights@[i].0 == id && weights@[i].1 > 0;
                    assert(ids@[i] == id);
                    assert(ids@.to_set().contains(id));
                    assert(ids_of_state(astre_inventory@, self.state()).contains(id));
                    assert(astre_inventory@.quantity(id) > 0);
                }
                let held = astre_inventory.quantity(id);
                let quantity = if held <= self.amount_per_tick {
                    held
                } else {
                    self.amount_per_tick
                };
                astre_inventory.transfer_to(extractor_inventory, id, quantity);
                proof {
                    assert(0 < held_total <= u32::MAX);
                }
            },
            None => {
                proof {
                    if weights@.len() == 0 {
                        assert(weights_total(weights@) == 0);
                    }
                    assert(!(0 < held_total <= u32::MAX));
                }
            },
        }
    }
}

impl ElementExtractorBundle {
    /// A solid extractor: 100 per extraction, inventory of 1000.
    pub fn new_solid() -> (r: Self)
        ensures
            r.element_extractor.amount() == 100,
            r.element_extractor.state() == ElementState::Solid,
            r.inventory@.size == 1000,
            r.inventory@.total() == 0,
            r.logistic_provider@.scope == LogisticScope::Planet,
            r.logistic_provider@.freights.len() == 0,
    {
        let inventory = Inventory::new(1000);
        proof {
            lemma_empty_total();
        }
        ElementExtractorBundle {
            element_extractor: ElementExtractor { element_state: ElementState::Solid, amount_per_tick: 100 },
            inventory,
            logistic_provider: LogisticProvider::new(LogisticScope::Planet),
        }
    }

    /// A liquid extractor: 1000 per extraction, inventory of 5000.
    pub fn new_liquid() -> (r: Self)
        ensures
            r.element_extractor.amount() == 1000,
            r.element_extractor.state() == ElementState::Liquid,
            r.inventory@.size == 5000,
            r.inventory@.total() == 0,
            r.logistic_provider@.scope == LogisticScope::Planet,
            r.logistic_provider@.freights.len() == 0,
    {
        let inventory = Inventory::new(5000);
        proof {
            lemma_empty_total();
        }
        ElementExtractorBundle {
            element_extractor: ElementExtractor { element_state: ElementState::Liquid, amount_per_tick: 1000 },
            inventory,
            logistic_provider: LogisticProvider::new(LogisticScope::Planet),
        }
    }

    /// A gas extractor: 500 per extraction, inventory of 10000.
    pub fn new_gas() -> (r: Self)
        ensures
            r.element_extractor.amount() == 500,
            r.element_extractor.state() == ElementState::Gas,
            r.inventory@.size == 10_000,
            r.inventory@.total() == 0,
            r.logistic_provider@.scope == LogisticScope::Planet,
            r.logistic_provider@.freights.len() == 0,
    {
        let inventory = Inventory::new(10_000);
        proof {
            lemma_empty_total();
        }
        ElementExtractorBundle {
            element_extractor: ElementExtractor { element_state: ElementState::Gas, amount_per_tick: 500 },
            inventory,
            logistic_provider: LogisticProvider::new(LogisticScope::Planet),
        }
    }

    /// A plasma extractor: 10 per extraction, inventory of 100.
    pub fn new_plasma() -> (r: Self)
        ensures
            r.element_extractor.amount() == 10,
            r.element_extractor.state() == ElementState::Plasma,
            r.inventory@.size == 100,
            r.inventory@.total() == 0,
            r.logistic_provider@.scope == LogisticScope::Planet,
            r.logistic_provider@.freights.len() == 0,
    {
        let inventory = Inventory::new(100);
        proof {
            lemma_empty_total();
        }
        ElementExtractorBundle {
            element_extractor: ElementExtractor { element_state: ElementState::Plasma, amount_per_tick: 10 },
            inventory,
            logistic_provider: LogisticProvider::new(LogisticScope::Planet),
        }
    }
}

/// The empty map holds nothing.
proof fn lemma_empty_total()
    ensures
        crate::items::item_map::total(crate::items::item_map::no_items()) == 0,
{
    lemma_empty_sum(crate::data::all_item_ids());
}

proof fn lemma_empty_sum(ids: Seq<ItemId>)
    ensures
        crate::items::item_map::sum_qty(crate::items::item_map::no_items(), ids) == 0,
    decreases ids.len(),
{
    if ids.len() > 0 {
        lemma_empty_sum(ids.drop_last());
    }
}

/// Each id paired with the quantity the astre holds of it.
fn weigh(ids: &Vec<ItemId>, astre_inventory: &Inventory) -> (r: Vec<(ItemId, u32)>)
    ensures
        r@ == weighted(ids@, astre_inventory@),
{
    let mut r: Vec<(ItemId, u32)> = Vec::new();
    let mut i: usize = 0;
    while i < ids.len()
        invariant
            0 <= i <= ids.len(),
            r@ == weighted(ids@.take(i as int), astre_inventory@),
        decreases ids.len() - i,
    {
        r.push((ids[i], astre_inventory.quantity(ids[i])));
        proof {
            assert(weighted(ids@.take(i + 1), astre_inventory@) =~= weighted(ids@.take(i as int), astre_inventory@).push((ids@[i as int], astre_inventory@.quantity(ids@[i as int]))));
        }
        i = i + 1;
    }
    proof {
        assert(ids@.take(ids.len() as int) =~= ids@);
    }
    r
}

/// The ids of elements in `state`, in order.
fn ids_in_state(ids: Vec<ItemId>, state: ElementState) -> (r: Vec<ItemId>)
    requires
        ids@.no_duplicates(),
    ensures
        r@.no_duplicates(),
        r@.to_set() == ids@.to_set().filter(|id: ItemId| element_state_of(id) == Some(state)),
{
    let mut r: Vec<ItemId> = Vec::new();
    let mut i: usize = 0;
    while i < ids.len()
        invariant
            0 <= i <= ids.len(),
            ids@.no_duplicates(),
            r@.no_duplicates(),
            forall|x: ItemId| r@.contains(x) <==> (ids@.take(i as int).contains(x) && element_state_of(x) == Some(state)),
        decreases ids.len() - i,
    {
        let id = ids[i];
        let keep = match element_state(id) {
            Some(s) => s == state,
            None => false,
        };
        proof {
            assert(!ids@.take(i as int).contains(id)) by {
                if ids@.take(i as int).contains(id) {
                    let k = choose|k: int| 0 <= k < i && ids@.take(i as int)[k] == id;
                    assert(ids@[k] == ids@[i as int]);
                }
            }
            let next = ids@.take(i + 1);
            let prev = ids@.take(i as int);
            assert forall|x: ItemId| next.contains(x) <==> (prev.contains(x) || x == id) by {
                if next.contains(x) {
                    let k = choose|k: int| 0 <= k < next.len() && next[k] == x;
                    if k < i {
                        assert(prev[k] == x);
                    }
                }
                if prev.contains(x) {
                    let k = choose|k: int| 0 <= k < prev.len() && prev[k] == x;
                    assert(next[k] == x);
                }
                if x == id {
                    assert(next[i as int] == x);
                }
            }
        }
        let ghost old_r = r@;
        if keep {
            r.push(id);
            proof {
                assert forall|x: ItemId| r@.contains(x) <==> (old_r.contains(x) || x == id) by {
                    if r@.contains(x) {
                        let k = choose|k: int| 0 <= k < r@.len() && r@[k] == x;
                        if k < old_r.len() {
                            assert(old_r[k] == x);
                        }
                    }
                    if old_r.contains(x) {
                        let k = choose|k: int| 0 <= k < old_r.len() && old_r[k] == x;
                        assert(r@[k] == x);
                    }
                    if x == id {
                        assert(r@[old_r.len() as int] == x);
                    }
                }
                assert forall|a: int, b: int| 0 <= a < b < r@.len() implies r@[a] != r@[b] by {
                    if b == r@.len() - 1 {
                        assert(old_r.contains(r@[a]));
                    }
                }
            }
        }
        i = i + 1;
    }
    proof {
        broadcast use vstd::seq_lib::group_seq_properties;
        assert(ids@.take(ids.len() as int) =~= ids@);
        assert forall|x: ItemId| r@.to_set().contains(x) <==> ids@.to_set().filter(|id: ItemId| element_state_of(id) == Some(state)).contains(x) by {
            broadcast use vstd::set::group_set_axioms;
            assert(r@.to_set().contains(x) == r@.contains(x));
            assert(ids@.to_set().contains(x) == ids@.contains(x));
            assert(ids@.take(ids.len() as int).contains(x) == ids@.contains(x));
            assert(r@.contains(x) <==> (ids@.contains(x) && element_state_of(x) == Some(state)));
            let f = |id: ItemId| element_state_of(id) == Some(state);
            assert(ids@.to_set().filter(f).contains(x) == (ids@.to_set().contains(x) && f(x)));
        }
        assert(r@.to_set() =~= ids@.to_set().filter(|id: ItemId| element_state_of(id) == Some(state)));
    }
    r
}

} // verus!
