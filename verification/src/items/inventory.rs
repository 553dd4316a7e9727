//! Inventories: bounded (or unbounded) stores of items.

use vstd::prelude::*;

use crate::data::{BuildingId, ItemId, RecipeId, lemma_recipe_table, recipe_view};
use crate::items::element::{ElementOnAstre, elements_map};
use crate::items::recipe::{
    RecipeOutputs, RecipeOutputsView, RecipeView, distinct_ids, lemma_pairs_total_nonneg,
    outputs_total, pairs_total,
};
use crate::items::item_map::{
    ItemMap, add_qty, item_map_checked_total, item_map_clone, item_map_get, item_map_insert, item_map_keys, item_map_new,
    item_map_remove, item_map_total, item_map_view, lemma_qty_le_total, lemma_total_add,
    lemma_total_remove, no_items, qty, remove_qty, total,
};

verus! {

/// The mathematical content of an `Inventory`: what it holds and its size
/// (a size of 0 means that the inventory has no limit).
pub struct InventoryView {
    pub items: Map<ItemId, u32>,
    pub size: u32,
}

impl InventoryView {
    /// Quantity held of `id`.
    pub open spec fn quantity(self, id: ItemId) -> u32 {
        qty(self.items, id)
    }

    /// Total quantity held.
    pub open spec fn total(self) -> int {
        total(self.items)
    }

    /// Space left before the size is reached (0 when it is reached or exceeded).
    pub open spec fn remaining_space(self) -> int {
        if self.size >= self.total() {
            self.size - self.total()
        } else {
            0
        }
    }
}

/// Quantity of `id` that `from.transfer_to(to, id, max_quantity)` moves: as much
/// as `from` holds, at most `max_quantity`, and, when `to` is bounded, at most
/// the space `to` has left.
pub open spec fn transfer_amount(from: InventoryView, to: InventoryView, id: ItemId, max_quantity: u32) -> u32 {
    let wanted = if from.quantity(id) <= max_quantity {
        from.quantity(id)
    } else {
        max_quantity
    };
    if to.size != 0 && to.remaining_space() < wanted {
        to.remaining_space() as u32
    } else {
        wanted
    }
}

/// When `from.transfer_to(to, id, max_quantity)` runs without overflow: the
/// space of a bounded `to` is summed, and an unbounded `to` must be able to hold
/// the moved quantity of `id`.
pub open spec fn transfer_fits(from: InventoryView, to: InventoryView, id: ItemId, max_quantity: u32) -> bool {
    from.items.dom().contains(id) ==> {
        &&& to.size != 0 ==> to.total() <= u32::MAX
        &&& to.size == 0 ==> to.quantity(id) + transfer_amount(from, to, id, max_quantity) <= u32::MAX
    }
}

/// `a - b`, or 0 when `b` exceeds `a`.
pub open spec fn saturating_diff(a: int, b: int) -> int {
    if a >= b {
        a - b
    } else {
        0
    }
}

/// Whether every entry of `m` holds a positive quantity.
pub open spec fn no_zero_entries(m: Map<ItemId, u32>) -> bool {
    forall|id: ItemId| #[trigger] m.dom().contains(id) ==> m[id] > 0
}

/// Whether a recipe's net output fits: always in an unlimited inventory,
/// otherwise when outputs minus inputs do not exceed the remaining space.
pub open spec fn has_space_for_outputs(inv: InventoryView, recipe: RecipeView) -> bool {
    inv.size == 0 || saturating_diff(outputs_total(recipe.outputs), pairs_total(recipe.inputs))
        <= inv.remaining_space()
}

/// Whether `m` holds every pair in the required quantity.
pub open spec fn holds_all(m: Map<ItemId, u32>, pairs: Seq<(ItemId, u32)>) -> bool {
    forall|i: int| 0 <= i < pairs.len() ==> pairs[i].1 <= #[trigger] qty(m, pairs[i].0)
}

/// Whether the inventory holds every input in the required quantity.
pub open spec fn has_inputs(inv: InventoryView, inputs: Seq<(ItemId, u32)>) -> bool {
    holds_all(inv.items, inputs)
}

/// The missing inputs, collected in input order: each input held in too small a
/// quantity maps to the shortfall (a later pair of the same id overwrites an
/// earlier one).
pub open spec fn missing_inputs(inv: InventoryView, inputs: Seq<(ItemId, u32)>) -> Map<ItemId, u32>
    decreases inputs.len(),
{
    if inputs.len() == 0 {
        Map::empty()
    } else {
        let rest = missing_inputs(inv, inputs.drop_last());
        let (id, quantity) = inputs.last();
        if inv.quantity(id) < quantity {
            rest.insert(id, (quantity - inv.quantity(id)) as u32)
        } else {
            rest
        }
    }
}

/// The mathematical content of a `CanCraftResult`.
pub enum CanCraftView {
    Yes,
    NotEnoughSpace,
    MissingInputs(Map<ItemId, u32>),
}

/// Whether `inv` can craft `recipe` now: first the space check, then the
/// inputs.
pub open spec fn can_craft_view(inv: InventoryView, recipe: RecipeView) -> CanCraftView {
    if !has_space_for_outputs(inv, recipe) {
        CanCraftView::NotEnoughSpace
    } else if !has_inputs(inv, recipe.inputs) {
        CanCraftView::MissingInputs(missing_inputs(inv, recipe.inputs))
    } else {
        CanCraftView::Yes
    }
}

/// The map after taking each pair in turn.
pub open spec fn remove_all(m: Map<ItemId, u32>, pairs: Seq<(ItemId, u32)>) -> Map<ItemId, u32>
    decreases pairs.len(),
{
    if pairs.len() == 0 {
        m
    } else {
        remove_qty(remove_all(m, pairs.drop_last()), pairs.last().0, pairs.last().1)
    }
}

/// The map after adding each pair in turn.
pub open spec fn add_all(m: Map<ItemId, u32>, pairs: Seq<(ItemId, u32)>) -> Map<ItemId, u32>
    decreases pairs.len(),
{
    if pairs.len() == 0 {
        m
    } else {
        add_qty(add_all(m, pairs.drop_last()), pairs.last().0, pairs.last().1)
    }
}

/// Each addition in turn stays within `u32`.
pub open spec fn adds_fit(m: Map<ItemId, u32>, pairs: Seq<(ItemId, u32)>) -> bool
    decreases pairs.len(),
{
    pairs.len() > 0 ==> {
        &&& adds_fit(m, pairs.drop_last())
        &&& qty(add_all(m, pairs.drop_last()), pairs.last().0) + pairs.last().1 <= u32::MAX
    }
}

/// What `craft` leaves in the inventory and returns: when the recipe can be
/// crafted, its inputs are taken; item outputs are then added, while a
/// building output is returned.
pub open spec fn craft_view(inv: InventoryView, recipe: RecipeView) -> (Map<ItemId, u32>, Option<BuildingId>) {
    if can_craft_view(inv, recipe) is Yes {
        let taken = remove_all(inv.items, recipe.inputs);
        match recipe.outputs {
            RecipeOutputsView::Items(outputs) => (add_all(taken, outputs), None),
            RecipeOutputsView::Building(building) => (taken, Some(building)),
        }
    } else {
        (inv.items, None)
    }
}

/// When `craft` runs without overflow: the size of a bounded inventory is
/// summed, and an unlimited one must hold the added outputs.
pub open spec fn craft_fits(inv: InventoryView, recipe: RecipeView) -> bool {
    &&& inv.size != 0 ==> inv.total() <= u32::MAX
    &&& (can_craft_view(inv, recipe) is Yes && inv.size == 0) ==> (
    recipe.outputs matches RecipeOutputsView::Items(outputs) ==> adds_fit(
        remove_all(inv.items, recipe.inputs),
        outputs,
    ))
}

/// Taking distinct inputs that are all held: nothing underflows, ids outside
/// the inputs keep their quantity, and the total falls by the inputs' sum.
pub proof fn lemma_remove_all(m: Map<ItemId, u32>, pairs: Seq<(ItemId, u32)>)
    requires
        distinct_ids(pairs),
        holds_all(m, pairs),
    ensures
        total(remove_all(m, pairs)) == total(m) - pairs_total(pairs),
        forall|id: ItemId| (forall|i: int| 0 <= i < pairs.len() ==> pairs[i].0 != id)
            ==> qty(remove_all(m, pairs), id) == qty(m, id),
    decreases pairs.len(),
{
    if pairs.len() > 0 {
        let rest = pairs.drop_last();
        let (id, q) = pairs.last();
        assert(distinct_ids(rest));
        assert(holds_all(m, rest)) by {
            assert forall|i: int| 0 <= i < rest.len() implies rest[i].1 <= #[trigger] qty(m, rest[i].0) by {
                assert(rest[i] == pairs[i]);
            }
        }
        lemma_remove_all(m, rest);
        let before = remove_all(m, rest);
        assert(qty(before, id) == qty(m, id)) by {
            assert forall|i: int| 0 <= i < rest.len() implies rest[i].0 != id by {
                assert(rest[i] == pairs[i]);
                assert(pairs[pairs.len() - 1] == pairs.last());
            }
        }
        assert(q <= qty(m, id)) by {
            assert(pairs[pairs.len() - 1] == pairs.last());
            assert(pairs[pairs.len() - 1].1 <= qty(m, pairs[pairs.len() - 1].0));
        }
        lemma_total_remove(before, id, q);
        assert forall|k: ItemId| (forall|i: int| 0 <= i < pairs.len() ==> pairs[i].0 != k)
            implies qty(remove_all(m, pairs), k) == qty(m, k) by {
            assert(pairs[pairs.len() - 1] == pairs.last());
            assert forall|i: int| 0 <= i < rest.len() implies rest[i].0 != k by {
                assert(rest[i] == pairs[i]);
            }
        }
    }
}

/// Adding pairs whose sum fits beside the total: every addition fits, and the
/// total grows by the pairs' sum.
pub proof fn lemma_add_all(m: Map<ItemId, u32>, pairs: Seq<(ItemId, u32)>)
    requires
        total(m) + pairs_total(pairs) <= u32::MAX,
    ensures
        adds_fit(m, pairs),
        total(add_all(m, pairs)) == total(m) + pairs_total(pairs),
    decreases pairs.len(),
{
    if pairs.len() > 0 {
        let rest = pairs.drop_last();
        lemma_pairs_total_nonneg(rest);
        lemma_add_all(m, rest);
        let before = add_all(m, rest);
        lemma_qty_le_total(before, pairs.last().0);
        lemma_total_add(before, pairs.last().0, pairs.last().1);
    }
}

/// Additions that fit also fit for every prefix.
pub proof fn lemma_adds_fit_prefix(m: Map<ItemId, u32>, pairs: Seq<(ItemId, u32)>, k: int)
    requires
        0 <= k <= pairs.len(),
        adds_fit(m, pairs),
    ensures
        adds_fit(m, pairs.take(k)),
        k > 0 ==> qty(add_all(m, pairs.take(k - 1)), pairs[k - 1].0) + pairs[k - 1].1 <= u32::MAX,
    decreases pairs.len() - k,
{
    if k < pairs.len() {
        assert(pairs.drop_last().take(k) =~= pairs.take(k));
        lemma_adds_fit_prefix(m, pairs.drop_last(), k);
        if k > 0 {
            assert(pairs.drop_last().take(k - 1) =~= pairs.take(k - 1));
        }
    } else {
        assert(pairs.take(k) =~= pairs);
        if k > 0 {
            assert(pairs.drop_last() =~= pairs.take(k - 1));
        }
    }
}

/// A store of items, with a size limit (0 = unlimited).
pub struct Inventory {
    items: ItemMap,
    size: u32,
}

impl View for Inventory {
    type V = InventoryView;

    closed spec fn view(&self) -> InventoryView {
        InventoryView { items: item_map_view(self.items), size: self.size }
    }
}

/// Outcome of `Inventory::can_craft`.
pub enum CanCraftResult {
    Yes,
    NotEnoughSpace,
    MissingInputs(ItemMap),
}

impl View for CanCraftResult {
    type V = CanCraftView;

    open spec fn view(&self) -> CanCraftView {
        match self {
            CanCraftResult::Yes => CanCraftView::Yes,
            CanCraftResult::NotEnoughSpace => CanCraftView::NotEnoughSpace,
            CanCraftResult::MissingInputs(m) => CanCraftView::MissingInputs(item_map_view(*m)),
        }
    }
}

impl CanCraftResult {
    /// Whether the recipe can be crafted.
    pub fn yes(&self) -> (r: bool)
        ensures
            r == (self@ is Yes),
    {
        match self {
            CanCraftResult::Yes => true,
            _ => false,
        }
    }
}

impl From<Vec<ElementOnAstre>> for Inventory {
    /// An unlimited inventory holding the given elements (see `from_elements`).
    fn from(elements: Vec<ElementOnAstre>) -> (r: Self)
        ensures
            r@.items == elements_map(elements@),
            r@.size == 0,
    {
        Inventory::from_elements(elements)
    }
}

impl vstd::std_specs::convert::FromSpecImpl<Vec<ElementOnAstre>> for Inventory {
    /// The contract of `from` is its own `ensures` (the items of
    /// `from_elements`), not a spec value of the inventory.
    open spec fn obeys_from_spec() -> bool {
        false
    }

    open spec fn from_spec(v: Vec<ElementOnAstre>) -> Self {
        vstd::pervasive::arbitrary()
    }
}

impl Default for Inventory {
    /// An empty unlimited inventory.
    fn default() -> (r: Self)
        ensures
            r@.items == no_items(),
            r@.size == 0,
    {
        Inventory::new(0)
    }
}

impl Inventory {
    /// An empty inventory of the given size (0 = unlimited).
    pub fn new(size: u32) -> (r: Self)
        ensures
            r@.items == no_items(),
            r@.size == size,
    {
        Inventory { items: item_map_new(), size }
    }

    /// Adds `quantity` of `id`.
    fn add(&mut self, id: ItemId, quantity: u32)
        requires
            old(self)@.quantity(id) + quantity <= u32::MAX,
        ensures
            final(self)@.items == add_qty(old(self)@.items, id, quantity),
            final(self)@.size == old(self)@.size,
    {
        match item_map_get(&self.items, id) {
            Some(item) => item_map_insert(&mut self.items, id, item + quantity),
            None => item_map_insert(&mut self.items, id, quantity),
        }
    }

    /// Takes `quantity` of `id`, dropping the entry when it falls to zero; an
    /// absent id is left alone.
    fn remove(&mut self, id: ItemId, quantity: u32)
        requires
            old(self)@.items.dom().contains(id) ==> quantity <= old(self)@.items[id],
        ensures
            final(self)@.items == remove_qty(old(self)@.items, id, quantity),
            final(self)@.size == old(self)@.size,
    {
        match item_map_get(&self.items, id) {
            Some(item) => {
                let left = item - quantity;
                if left == 0 {
                    item_map_remove(&mut self.items, id);
                } else {
                    item_map_insert(&mut self.items, id, left);
                }
            },
            None => {},
        }
    }

    /// Space left before the size is reached (0 when reached or exceeded).
    pub fn remaining_space(&self) -> (r: u32)
        requires
            self@.total() <= u32::MAX,
        ensures
            r == self@.remaining_space(),
    {
        let held = item_map_total(&self.items);
        if self.size >= held {
            self.size - held
        } else {
            0
        }
    }

    /// Best-effort transfer of up to `max_quantity` of `id` into `other`.
    /// Returns the quantity actually transferred.
    pub fn transfer_to(&mut self, other: &mut Inventory, id: ItemId, max_quantity: u32) -> (r: u32)
        requires
            transfer_fits(old(self)@, old(other)@, id, max_quantity),
        ensures
            r == transfer_amount(old(self)@, old(other)@, id, max_quantity),
            r <= old(self)@.quantity(id),
            r <= max_quantity,
            old(other)@.size != 0 ==> r <= old(other)@.remaining_space(),
            r == old(self)@.quantity(id) || r == max_quantity || (old(other)@.size != 0 && r
                == old(other)@.remaining_space()),
            r > 0 ==> final(self)@.items == remove_qty(old(self)@.items, id, r),
            r > 0 ==> final(other)@.items == add_qty(old(other)@.items, id, r),
            r == 0 ==> final(self)@ == old(self)@,
            r == 0 ==> final(other)@ == old(other)@,
            final(self)@.size == old(self)@.size,
            final(other)@.size == old(other)@.size,
    {
        match item_map_get(&self.items, id) {
            Some(item_quantity) => {
                let mut real_quantity = if item_quantity <= max_quantity {
                    item_quantity
                } else {
                    max_quantity
                };
                if other.size != 0 {
                    let space = other.remaining_space();
                    if space < real_quantity {
                        real_quantity = space;
                    }
                }
                if real_quantity > 0 {
                    proof {
                        if other@.size != 0 {
                            lemma_qty_le_total(other@.items, id);
                        }
                    }
                    self.remove(id, real_quantity);
                    other.add(id, real_quantity);
                    return real_quantity;
                }
            },
            None => {},
        }
        0
    }

    /// Whether the recipe can be crafted now, and if not, why.
    pub fn can_craft(&self, recipe: RecipeId) -> (r: CanCraftResult)
        requires
            self@.size != 0 ==> self@.total() <= u32::MAX,
        ensures
            r@ == can_craft_view(self@, recipe_view(recipe)),
    {
        let recipe_id = recipe;
        let recipe = recipe_id.data();
        proof {
            lemma_recipe_table(recipe_id);
        }
        let has_space_for_outputs = if self.size == 0 {
            true
        } else {
            let outputs = recipe.outputs_quantity();
            let inputs = recipe.inputs_quantity();
            let net = if outputs >= inputs {
                outputs - inputs
            } else {
                0
            };
            net <= self.remaining_space()
        };
        if !has_space_for_outputs {
            return CanCraftResult::NotEnoughSpace;
        }
        let inputs = recipe.inputs();
        if !self.holds_all(inputs) {
            return CanCraftResult::MissingInputs(self.missing_inputs(inputs));
        }
        CanCraftResult::Yes
    }

    /// Whether every pair is held in the required quantity.
    fn holds_all(&self, pairs: &[(ItemId, u32)]) -> (r: bool)
        ensures
            r == holds_all(self@.items, pairs@),
    {
        let mut i: usize = 0;
        while i < pairs.len()
            invariant
                0 <= i <= pairs.len(),
                forall|j: int| 0 <= j < i ==> pairs@[j].1 <= #[trigger] qty(self@.items, pairs@[j].0),
            decreases pairs.len() - i,
        {
            let (id, quantity) = pairs[i];
            if self.quantity(id) < quantity {
                return false;
            }
            i = i + 1;
        }
        true
    }

    /// The shortfall of each input held in too small a quantity.
    fn missing_inputs(&self, inputs: &[(ItemId, u32)]) -> (r: ItemMap)
        ensures
            item_map_view(r) == missing_inputs(self@, inputs@),
    {
        let mut missing = item_map_new();
        let mut k: usize = 0;
        while k < inputs.len()
            invariant
                0 <= k <= inputs.len(),
                item_map_view(missing) == missing_inputs(self@, inputs@.take(k as int)),
            decreases inputs.len() - k,
        {
            proof {
                assert(inputs@.take(k + 1).drop_last() =~= inputs@.take(k as int));
            }
            let (id, quantity) = inputs[k];
            let held = self.quantity(id);
            if held < quantity {
                item_map_insert(&mut missing, id, quantity - held);
            }
            k = k + 1;
        }
        proof {
            assert(inputs@.take(inputs.len() as int) =~= inputs@);
        }
        missing
    }

    /// Takes the recipe's inputs, which are all held.
    fn take_inputs(&mut self, recipe_id: RecipeId)
        requires
            has_inputs(old(self)@, recipe_view(recipe_id).inputs),
        ensures
            final(self)@.items == remove_all(old(self)@.items, recipe_view(recipe_id).inputs),
            final(self)@.size == old(self)@.size,
    {
        let ghost start = self@;
        let recipe = recipe_id.data();
        proof {
            lemma_recipe_table(recipe_id);
        }
        let inputs = recipe.inputs();
        let mut i: usize = 0;
        while i < inputs.len()
            invariant
                0 <= i <= inputs.len(),
                inputs@ == recipe_view(recipe_id).inputs,
                distinct_ids(inputs@),
                has_inputs(start, inputs@),
                self@.items == remove_all(start.items, inputs@.take(i as int)),
                self@.size == start.size,
            decreases inputs.len() - i,
        {
            let (id, quantity) = inputs[i];
            proof {
                let pre = inputs@.take(i as int);
                assert(inputs@.take(i + 1).drop_last() =~= pre);
                assert(distinct_ids(pre));
                assert(holds_all(start.items, pre)) by {
                    assert forall|j: int| 0 <= j < pre.len() implies pre[j].1 <= #[trigger] qty(start.items, pre[j].0) by {
                        assert(pre[j] == inputs@[j]);
                    }
                }
                lemma_remove_all(start.items, pre);
                assert forall|j: int| 0 <= j < pre.len() implies pre[j].0 != id by {
                    assert(pre[j] == inputs@[j]);
                }
                assert(inputs@[i as int].1 <= qty(start.items, inputs@[i as int].0));
            }
            self.remove(id, quantity);
            i = i + 1;
        }
        proof {
            assert(inputs@.take(inputs.len() as int) =~= inputs@);
        }
    }

    /// Whether `transfer_to(other, id, max_quantity)` stays within `u32`
    /// (the condition that `transfer_to` requires).
    pub fn transfer_fits_u32(&self, other: &Inventory, id: ItemId, max_quantity: u32) -> (r: bool)
        ensures
            r == transfer_fits(self@, other@, id, max_quantity),
    {
        match item_map_get(&self.items, id) {
            None => true,
            Some(held) => {
                if other.size != 0 {
                    other.checked_total_quantity().is_some()
                } else {
                    let wanted = if held <= max_quantity {
                        held
                    } else {
                        max_quantity
                    };
                    other.quantity(id).checked_add(wanted).is_some()
                }
            },
        }
    }

    /// Whether `craft(recipe)` stays within `u32` (the condition that `craft`
    /// requires).
    pub fn craft_fits_u32(&self, recipe: RecipeId) -> (r: bool)
        ensures
            r == craft_fits(self@, recipe_view(recipe)),
    {
        if self.size != 0 {
            return self.checked_total_quantity().is_some();
        }
        if !self.can_craft(recipe).yes() {
            return true;
        }
        let data = recipe.data();
        match data.outputs() {
            RecipeOutputs::Building(_) => true,
            RecipeOutputs::Items(items) => {
                let mut copy = Inventory { items: item_map_clone(&self.items), size: 0 };
                copy.take_inputs(recipe);
                let ghost taken = copy@.items;
                let mut k: usize = 0;
                while k < items.len()
                    invariant
                        0 <= k <= items.len(),
                        recipe_view(recipe).outputs == RecipeOutputsView::Items(items@),
                        taken == remove_all(self@.items, recipe_view(recipe).inputs),
                        self@.size == 0,
                        can_craft_view(self@, recipe_view(recipe)) is Yes,
                        copy@.items == add_all(taken, items@.take(k as int)),
                        adds_fit(taken, items@.take(k as int)),
                        copy@.size == 0,
                    decreases items.len() - k,
                {
                    let (id, quantity) = items[k];
                    proof {
                        assert(items@.take(k + 1).drop_last() =~= items@.take(k as int));
                        assert(items@.take(k + 1).last() == items@[k as int]);
                    }
                    if copy.quantity(id).checked_add(quantity).is_none() {
                        proof {
                            if adds_fit(taken, items@) {
                                lemma_adds_fit_prefix(taken, items@, k + 1);
                                assert(qty(add_all(taken, items@.take(k as int)), id) + quantity <= u32::MAX);
                            }
                            assert(!adds_fit(taken, items@));
                        }
                        return false;
                    }
                    copy.add(id, quantity);
                    k = k + 1;
                }
                proof {
                    assert(items@.take(items.len() as int) =~= items@);
                }
                true
            },
        }
    }

    /// Crafts the recipe when it can be crafted now: its inputs are taken, item
    /// outputs are added, and a building output is returned.
    pub fn craft(&mut self, recipe: RecipeId) -> (r: Option<BuildingId>)
        requires
            craft_fits(old(self)@, recipe_view(recipe)),
        ensures
            final(self)@.items == craft_view(old(self)@, recipe_view(recipe)).0,
            final(self)@.size == old(self)@.size,
            r == craft_view(old(self)@, recipe_view(recipe)).1,
    {
        let ghost start = self@;
        if self.can_craft(recipe).yes() {
            let recipe_id = recipe;
            let recipe = recipe_id.data();
            proof {
                lemma_recipe_table(recipe_id);
                lemma_remove_all(start.items, recipe@.inputs);
                lemma_pairs_total_nonneg(recipe@.inputs);
            }
            self.take_inputs(recipe_id);
            match recipe.outputs() {
                RecipeOutputs::Items(items) => {
                    let ghost taken = self@.items;
                    proof {
                        if start.size != 0 {
                            lemma_add_all(taken, items@);
                        }
                    }
                    let mut k: usize = 0;
                    while k < items.len()
                        invariant
                            0 <= k <= items.len(),
                            adds_fit(taken, items@),
                            self@.items == add_all(taken, items@.take(k as int)),
                            self@.size == start.size,
                        decreases items.len() - k,
                    {
                        proof {
                            assert(items@.take(k + 1).drop_last() =~= items@.take(k as int));
                            lemma_adds_fit_prefix(taken, items@, k + 1);
                        }
                        let (id, quantity) = items[k];
                        self.add(id, quantity);
                        k = k + 1;
                    }
                    proof {
                        assert(items@.take(items.len() as int) =~= items@);
                    }
                },
                RecipeOutputs::Building(id) => {
                    return Some(id);
                },
            }
        }
        None
    }

    /// An unlimited inventory holding the given elements (a later element of
    /// the same id overwrites an earlier one).
    pub fn from_elements(elements: Vec<ElementOnAstre>) -> (r: Inventory)
        ensures
            r@.items == elements_map(elements@),
            r@.size == 0,
    {
        let mut inventory = Inventory::new(0);
        let mut i: usize = 0;
        while i < elements.len()
            invariant
                0 <= i <= elements.len(),
                inventory@.items == elements_map(elements@.take(i as int)),
                inventory@.size == 0,
            decreases elements.len() - i,
        {
            proof {
                assert(elements@.take(i + 1).drop_last() =~= elements@.take(i as int));
            }
            item_map_insert(&mut inventory.items, elements[i].id, elements[i].quantity);
            i = i + 1;
        }
        proof {
            assert(elements@.take(elements.len() as int) =~= elements@);
        }
        inventory
    }

    /// Quantity held of `id`.
    pub fn quantity(&self, id: ItemId) -> (r: u32)
        ensures
            r == self@.quantity(id),
    {
        match item_map_get(&self.items, id) {
            Some(q) => q,
            None => 0,
        }
    }

    /// The ids that have an entry, each once, in the map's own order.
    pub fn all_ids(&self) -> (r: Vec<ItemId>)
        ensures
            r@.no_duplicates(),
            r@.to_set() == self@.items.dom(),
            no_zero_entries(self@.items) ==> forall|id: ItemId| r@.contains(id) <==> self@.quantity(id) > 0,
    {
        let r = item_map_keys(&self.items);
        proof {
            assert forall|id: ItemId| no_zero_entries(self@.items) implies (r@.contains(id) <==> self@.quantity(id) > 0) by {
                assert(r@.contains(id) <==> r@.to_set().contains(id));
            }
        }
        r
    }

    /// The entries held.
    pub fn items(&self) -> (r: &ItemMap)
        ensures
            item_map_view(*r) == self@.items,
    {
        &self.items
    }

    /// The size limit (0 = unlimited).
    pub fn size(&self) -> (r: u32)
        ensures
            r == self@.size,
    {
        self.size
    }

    /// Total quantity held, or `None` when it exceeds `u32::MAX`.
    pub fn checked_total_quantity(&self) -> (r: Option<u32>)
        ensures
            r == (if self@.total() <= u32::MAX {
                Some(self@.total() as u32)
            } else {
                None::<u32>
            }),
            r matches Some(t) ==> t == self@.total(),
    {
        item_map_checked_total(&self.items)
    }

    /// Total quantity held.
    pub fn total_quantity(&self) -> (r: u32)
        requires
            self@.total() <= u32::MAX,
        ensures
            r == self@.total(),
    {
        item_map_total(&self.items)
    }
}

} // verus!
