//! Properties that hold across the library's operations.

use vstd::prelude::*;

use crate::data::{ItemId, RecipeId, all_item_ids, lemma_all_item_ids, lemma_recipe_table, recipe_view};
use crate::items::inventory::{
    CanCraftView, InventoryView, add_all, adds_fit, can_craft_view, craft_fits, craft_view, has_inputs,
    holds_all, lemma_remove_all, missing_inputs, no_zero_entries, remove_all, transfer_amount,
    transfer_fits,
};
use crate::items::element::{ElementOnAstre, elements_map};
use crate::items::item_map::{
    add_qty, no_items, lemma_qty_le_total, lemma_total_add, lemma_total_remove, qty, remove_qty, total,
};
use crate::buildings::extractor::extraction;
use crate::items::recipe::RecipeView;
use crate::items::logistic::EntityId;
use crate::items::recipe::{RecipeOutputsView, distinct_ids, outputs_total, pairs_total};

verus! {

/// Transferring moves items without creating or destroying any: the quantity
/// `r` that `transfer_to` reports leaves the source and arrives at the
/// destination, other items stay put, and the two totals together are
/// unchanged.
pub proof fn law_transfer_conserves_items(from: InventoryView, to: InventoryView, id: ItemId, max_quantity: u32)
    requires
        transfer_fits(from, to, id, max_quantity),
    ensures
        ({
            let r = transfer_amount(from, to, id, max_quantity);
            let from_after = if r > 0 { remove_qty(from.items, id, r) } else { from.items };
            let to_after = if r > 0 { add_qty(to.items, id, r) } else { to.items };
            &&& qty(from_after, id) == qty(from.items, id) - r
            &&& qty(to_after, id) == qty(to.items, id) + r
            &&& forall|k: ItemId| k != id ==> qty(from_after, k) == qty(from.items, k) && qty(to_after, k) == qty(to.items, k)
            &&& total(from_after) + total(to_after) == total(from.items) + total(to.items)
        }),
{
    let r = transfer_amount(from, to, id, max_quantity);
    if r > 0 {
        assert(from.items.dom().contains(id));
        lemma_total_remove(from.items, id, r);
        if to.size != 0 {
            lemma_qty_le_total(to.items, id);
        }
        lemma_total_add(to.items, id, r);
    }
}

/// A transfer never moves more than asked, more than the source holds, or,
/// into a bounded inventory, more than the room it has left; and a bounded
/// destination that was within its size stays within it.
pub proof fn law_transfer_is_bounded(from: InventoryView, to: InventoryView, id: ItemId, max_quantity: u32)
    requires
        transfer_fits(from, to, id, max_quantity),
    ensures
        ({
            let r = transfer_amount(from, to, id, max_quantity);
            &&& r <= max_quantity
            &&& r <= qty(from.items, id)
            &&& to.size != 0 ==> r <= to.remaining_space()
            &&& (to.size != 0 && to.total() <= to.size && r > 0) ==> total(add_qty(to.items, id, r)) <= to.size
        }),
{
    let r = transfer_amount(from, to, id, max_quantity);
    if to.size != 0 && to.total() <= to.size && r > 0 {
        assert(from.items.dom().contains(id));
        lemma_qty_le_total(to.items, id);
        lemma_total_add(to.items, id, r);
    }
}

/// Asking for `quantity` more of an item and then for `quantity` less gives
/// back the same entries, unless the item had an entry of zero (which the
/// removal then drops).
pub proof fn law_add_then_remove_restores(m: Map<ItemId, u32>, id: ItemId, quantity: u32)
    requires
        qty(m, id) + quantity <= u32::MAX,
        !(m.dom().contains(id) && m[id] == 0),
    ensures
        remove_qty(add_qty(m, id, quantity), id, quantity) == m,
{
    if m.dom().contains(id) {
        assert(remove_qty(add_qty(m, id, quantity), id, quantity) =~= m);
    } else {
        assert(remove_qty(add_qty(m, id, quantity), id, quantity) =~= m);
    }
}

/// Taking `quantity` of a held item and putting it back gives back the same
/// entries.
pub proof fn law_remove_then_add_restores(m: Map<ItemId, u32>, id: ItemId, quantity: u32)
    requires
        m.dom().contains(id),
        quantity <= m[id],
    ensures
        add_qty(remove_qty(m, id, quantity), id, quantity) == m,
{
    assert(add_qty(remove_qty(m, id, quantity), id, quantity) =~= m);
}

/// Each addition in turn stays within `u32`, so the total grows by the sum of
/// what is added.
proof fn lemma_add_all_total(m: Map<ItemId, u32>, pairs: Seq<(ItemId, u32)>)
    requires
        adds_fit(m, pairs),
    ensures
        total(add_all(m, pairs)) == total(m) + pairs_total(pairs),
    decreases pairs.len(),
{
    if pairs.len() > 0 {
        lemma_add_all_total(m, pairs.drop_last());
        lemma_total_add(add_all(m, pairs.drop_last()), pairs.last().0, pairs.last().1);
    }
}

/// Crafting a recipe of the catalogue that can be crafted consumes exactly its
/// inputs and produces exactly its item outputs: the total held changes by
/// outputs minus inputs (a building output adds nothing to the inventory).
/// A recipe that cannot be crafted changes nothing.
pub proof fn law_craft_conserves(inv: InventoryView, recipe: RecipeId)
    requires
        (can_craft_view(inv, recipe_view(recipe)) is Yes && inv.size == 0) ==> (
        recipe_view(recipe).outputs matches RecipeOutputsView::Items(outputs) ==> adds_fit(
            remove_all(inv.items, recipe_view(recipe).inputs),
            outputs,
        )),
        inv.size != 0 ==> inv.total() <= u32::MAX,
    ensures
        can_craft_view(inv, recipe_view(recipe)) is Yes ==> total(craft_view(inv, recipe_view(recipe)).0)
            == inv.total() - pairs_total(recipe_view(recipe).inputs) + outputs_total(recipe_view(recipe).outputs),
        !(can_craft_view(inv, recipe_view(recipe)) is Yes) ==> craft_view(inv, recipe_view(recipe)).0 == inv.items,
{
    let r = recipe_view(recipe);
    if can_craft_view(inv, r) is Yes {
        lemma_recipe_table(recipe);
        lemma_remove_all(inv.items, r.inputs);
        let taken = remove_all(inv.items, r.inputs);
        match r.outputs {
            RecipeOutputsView::Items(outputs) => {
                if inv.size != 0 {
                    crate::items::inventory::lemma_add_all(taken, outputs);
                } else {
                    lemma_add_all_total(taken, outputs);
                }
            },
            RecipeOutputsView::Building(_) => {},
        }
    }
}

/// The missing inputs of a recipe with distinct inputs are exactly the inputs
/// held in too small a quantity, each mapped to its shortfall; none is missing
/// exactly when all inputs are held.
pub proof fn law_missing_inputs_are_shortfalls(inv: InventoryView, inputs: Seq<(ItemId, u32)>)
    requires
        distinct_ids(inputs),
    ensures
        forall|i: int| 0 <= i < inputs.len() && qty(inv.items, inputs[i].0) < inputs[i].1
            ==> #[trigger] missing_inputs(inv, inputs).dom().contains(inputs[i].0)
            && missing_inputs(inv, inputs)[inputs[i].0] == inputs[i].1 - qty(inv.items, inputs[i].0),
        forall|id: ItemId| #[trigger] missing_inputs(inv, inputs).dom().contains(id) ==> exists|i: int|
            0 <= i < inputs.len() && inputs[i].0 == id && qty(inv.items, id) < inputs[i].1,
        missing_inputs(inv, inputs).dom().finite(),
        missing_inputs(inv, inputs).dom().len() == 0 <==> has_inputs(inv, inputs),
    decreases inputs.len(),
{
    if inputs.len() > 0 {
        let rest = inputs.drop_last();
        assert(distinct_ids(rest));
        law_missing_inputs_are_shortfalls(inv, rest);
        let last = inputs.len() - 1;
        assert(inputs[last] == inputs.last());
        assert forall|i: int| 0 <= i < inputs.len() && qty(inv.items, inputs[i].0) < inputs[i].1
            implies #[trigger] missing_inputs(inv, inputs).dom().contains(inputs[i].0)
            && missing_inputs(inv, inputs)[inputs[i].0] == inputs[i].1 - qty(inv.items, inputs[i].0) by {
            if i < last {
                assert(rest[i] == inputs[i]);
                assert(inputs[i].0 != inputs[last].0);
            }
        }
        assert forall|id: ItemId| #[trigger] missing_inputs(inv, inputs).dom().contains(id) implies exists|i: int|
            0 <= i < inputs.len() && inputs[i].0 == id && qty(inv.items, id) < inputs[i].1 by {
            if missing_inputs(inv, rest).dom().contains(id) {
                let i = choose|i: int| 0 <= i < rest.len() && rest[i].0 == id && qty(inv.items, id) < rest[i].1;
                assert(inputs[i] == rest[i]);
            } else {
                assert(inputs[last].0 == id);
            }
        }
        let m = missing_inputs(inv, inputs);
        if has_inputs(inv, inputs) {
            assert(has_inputs(inv, rest)) by {
                assert forall|i: int| 0 <= i < rest.len() implies rest[i].1 <= #[trigger] qty(inv.items, rest[i].0) by {
                    assert(rest[i] == inputs[i]);
                }
            }
            assert(inputs[last].1 <= qty(inv.items, inputs[last].0));
            assert(m.dom() =~= Set::empty());
        } else {
            let i = choose|i: int| 0 <= i < inputs.len() && !(inputs[i].1 <= #[trigger] qty(inv.items, inputs[i].0));
            assert(m.dom().contains(inputs[i].0));
            vstd::set_lib::lemma_set_empty_equivalency_len(m.dom());
        }
    } else {
        assert(missing_inputs(inv, inputs).dom() =~= Set::empty());
    }
}

/// Unregistering a freight undoes its registration: a freight that a list did
/// not hold, pushed by `register` and then filtered out by `remove_freight`,
/// leaves the list as it was.
pub proof fn law_unregister_undoes_register(freights: Seq<EntityId>, freight: EntityId)
    requires
        !freights.contains(freight),
    ensures
        freights.push(freight).filter(|f: EntityId| f != freight) == freights,
{
    lemma_filter_other(freights, freight);
    reveal_with_fuel(Seq::filter, 1);
    assert(freights.push(freight).drop_last() =~= freights);
}

proof fn lemma_filter_other(freights: Seq<EntityId>, freight: EntityId)
    requires
        !freights.contains(freight),
    ensures
        freights.filter(|f: EntityId| f != freight) == freights,
    decreases freights.len(),
{
    reveal_with_fuel(Seq::filter, 1);
    if freights.len() > 0 {
        let rest = freights.drop_last();
        assert(!rest.contains(freight)) by {
            if rest.contains(freight) {
                let k = choose|k: int| 0 <= k < rest.len() && rest[k] == freight;
                assert(freights[k] == freight);
            }
        }
        lemma_filter_other(rest, freight);
        assert(freights[freights.len() - 1] != freight);
        assert(rest.push(freights.last()) =~= freights);
    } else {
        assert(freights.filter(|f: EntityId| f != freight) =~= freights);
    }
}


/// One extraction moves at most the extractor's amount per extraction, at
/// most what the astre holds, and, into a bounded extractor inventory, at
/// most the room it has left.
pub proof fn law_extraction_is_bounded(astre: InventoryView, extractor_inventory: InventoryView, id: ItemId, amount: u32)
    ensures
        extraction(astre, extractor_inventory, id, amount) <= amount,
        extraction(astre, extractor_inventory, id, amount) <= astre.quantity(id),
        extractor_inventory.size != 0 ==> extraction(astre, extractor_inventory, id, amount)
            <= extractor_inventory.remaining_space(),
{
}


/// Taking each of distinct, held inputs in turn leaves no entry at zero.
proof fn lemma_remove_all_keeps_entries_positive(m: Map<ItemId, u32>, pairs: Seq<(ItemId, u32)>)
    requires
        no_zero_entries(m),
        distinct_ids(pairs),
        holds_all(m, pairs),
    ensures
        no_zero_entries(remove_all(m, pairs)),
    decreases pairs.len(),
{
    if pairs.len() > 0 {
        let rest = pairs.drop_last();
        let (id, q) = pairs.last();
        assert(distinct_ids(rest));
        assert(holds_all(m, rest)) by {
            assert forall|i: int| 0 <= i < rest.len() implies rest[i].1 <= #[trigger] qty(m, rest[i].0) by {
                assert(rest[i] == pairs[i]);
            }
        }
        lemma_remove_all_keeps_entries_positive(m, rest);
        lemma_remove_all(m, rest);
        assert forall|i: int| 0 <= i < rest.len() implies rest[i].0 != id by {
            assert(rest[i] == pairs[i]);
        }
        assert(pairs[pairs.len() - 1].1 <= qty(m, pairs[pairs.len() - 1].0));
    }
}

/// Adding positive quantities in turn, within `u32`, leaves no entry at zero.
proof fn lemma_add_all_keeps_entries_positive(m: Map<ItemId, u32>, pairs: Seq<(ItemId, u32)>)
    requires
        no_zero_entries(m),
        adds_fit(m, pairs),
        forall|i: int| 0 <= i < pairs.len() ==> pairs[i].1 > 0,
    ensures
        no_zero_entries(add_all(m, pairs)),
    decreases pairs.len(),
{
    if pairs.len() > 0 {
        let rest = pairs.drop_last();
        assert forall|i: int| 0 <= i < rest.len() implies rest[i].1 > 0 by {
            assert(rest[i] == pairs[i]);
        }
        lemma_add_all_keeps_entries_positive(m, rest);
        assert(pairs[pairs.len() - 1].1 > 0);
    }
}

/// A new inventory holds no entry, and one built from elements of positive
/// quantities holds only positive entries (the start of
/// `law_inventories_never_store_zero`).
pub proof fn law_built_inventories_have_no_zero_entry(elements: Seq<ElementOnAstre>)
    requires
        forall|i: int| 0 <= i < elements.len() ==> (#[trigger] elements[i]).quantity > 0,
    ensures
        no_zero_entries(no_items()),
        no_zero_entries(elements_map(elements)),
    decreases elements.len(),
{
    if elements.len() > 0 {
        let rest = elements.drop_last();
        assert forall|i: int| 0 <= i < rest.len() implies (#[trigger] rest[i]).quantity > 0 by {
            assert(rest[i] == elements[i]);
        }
        law_built_inventories_have_no_zero_entry(rest);
        assert(elements[elements.len() - 1].quantity > 0);
    }
}

/// A transfer keeps every entry of both inventories positive (see
/// `law_inventories_never_store_zero`).
pub proof fn law_transfer_keeps_entries_positive(from: InventoryView, to: InventoryView, id: ItemId, max_quantity: u32)
    requires
        transfer_fits(from, to, id, max_quantity),
        no_zero_entries(from.items),
        no_zero_entries(to.items),
    ensures
        ({
            let r = transfer_amount(from, to, id, max_quantity);
            r > 0 ==> no_zero_entries(remove_qty(from.items, id, r)) && no_zero_entries(add_qty(to.items, id, r))
        }),
{
    let r = transfer_amount(from, to, id, max_quantity);
    if r > 0 {
        assert(from.items.dom().contains(id));
        if to.size != 0 {
            lemma_qty_le_total(to.items, id);
        }
        assert(qty(to.items, id) + r <= u32::MAX);
    }
}

/// A craft keeps every entry of the inventory positive (see
/// `law_inventories_never_store_zero`).
pub proof fn law_craft_keeps_entries_positive(inv: InventoryView, recipe: RecipeId)
    requires
        craft_fits(inv, recipe_view(recipe)),
        no_zero_entries(inv.items),
    ensures
        no_zero_entries(craft_view(inv, recipe_view(recipe)).0),
{
    let r = recipe_view(recipe);
    if can_craft_view(inv, r) is Yes {
        lemma_recipe_table(recipe);
        lemma_remove_all(inv.items, r.inputs);
        let taken = remove_all(inv.items, r.inputs);
        lemma_remove_all_keeps_entries_positive(inv.items, r.inputs);
        match r.outputs {
            RecipeOutputsView::Items(outputs) => {
                if inv.size != 0 {
                    crate::items::inventory::lemma_add_all(taken, outputs);
                }
                lemma_add_all_keeps_entries_positive(taken, outputs);
            },
            RecipeOutputsView::Building(_) => {},
        }
    }
}

/// How an inventory comes to be: `Inventory::new(size)`, or
/// `Inventory::from(elements)`.
pub enum InventoryOrigin {
    New(u32),
    From(Seq<ElementOnAstre>),
}

/// The inventory that an origin gives.
pub open spec fn origin_view(origin: InventoryOrigin) -> InventoryView {
    match origin {
        InventoryOrigin::New(size) => InventoryView { items: no_items(), size },
        InventoryOrigin::From(elements) => InventoryView { items: elements_map(elements), size: 0 },
    }
}

/// One call that changes an inventory: `transfer_to` from it into `to`,
/// `transfer_to` from `from` into it, or `craft` of a recipe.  A partner
/// inventory is taken as it stands at the time of the call.
pub enum InventoryStep {
    Give { to: InventoryView, id: ItemId, max_quantity: u32 },
    Receive { from: InventoryView, id: ItemId, max_quantity: u32 },
    Craft(RecipeId),
}

/// Whether the call meets its `requires` on the inventory `inv`.
pub open spec fn step_fits(inv: InventoryView, step: InventoryStep) -> bool {
    match step {
        InventoryStep::Give { to, id, max_quantity } => transfer_fits(inv, to, id, max_quantity),
        InventoryStep::Receive { from, id, max_quantity } => transfer_fits(from, inv, id, max_quantity),
        InventoryStep::Craft(recipe) => craft_fits(inv, recipe_view(recipe)),
    }
}

/// The inventory `inv` after the call, as the calls' `ensures` state it.
pub open spec fn after_step(inv: InventoryView, step: InventoryStep) -> InventoryView {
    match step {
        InventoryStep::Give { to, id, max_quantity } => {
            let r = transfer_amount(inv, to, id, max_quantity);
            if r > 0 {
                InventoryView { items: remove_qty(inv.items, id, r), size: inv.size }
            } else {
                inv
            }
        },
        InventoryStep::Receive { from, id, max_quantity } => {
            let r = transfer_amount(from, inv, id, max_quantity);
            if r > 0 {
                InventoryView { items: add_qty(inv.items, id, r), size: inv.size }
            } else {
                inv
            }
        },
        InventoryStep::Craft(recipe) => InventoryView { items: craft_view(inv, recipe_view(recipe)).0, size: inv.size },
    }
}

/// Whether every call of `steps`, made in turn from `inv`, meets its `requires`.
pub open spec fn history_fits(inv: InventoryView, steps: Seq<InventoryStep>) -> bool
    decreases steps.len(),
{
    steps.len() == 0 || (step_fits(inv, steps[0]) && history_fits(after_step(inv, steps[0]), steps.drop_first()))
}

/// The inventory `inv` after the calls of `steps`, made in turn.
pub open spec fn after_history(inv: InventoryView, steps: Seq<InventoryStep>) -> InventoryView
    decreases steps.len(),
{
    if steps.len() == 0 {
        inv
    } else {
        after_history(after_step(inv, steps[0]), steps.drop_first())
    }
}

/// One call keeps every entry of the inventory positive, whatever the partner
/// holds.
proof fn lemma_step_keeps_entries_positive(inv: InventoryView, step: InventoryStep)
    requires
        step_fits(inv, step),
        no_zero_entries(inv.items),
    ensures
        no_zero_entries(after_step(inv, step).items),
{
    match step {
        InventoryStep::Give { to, id, max_quantity } => {
            let r = transfer_amount(inv, to, id, max_quantity);
            if r > 0 {
                assert(inv.items.dom().contains(id));
            }
        },
        InventoryStep::Receive { from, id, max_quantity } => {
            let r = transfer_amount(from, inv, id, max_quantity);
            if r > 0 {
                assert(from.items.dom().contains(id));
                if inv.size != 0 {
                    lemma_qty_le_total(inv.items, id);
                }
                assert(qty(inv.items, id) + r <= u32::MAX);
            }
        },
        InventoryStep::Craft(recipe) => {
            law_craft_keeps_entries_positive(inv, recipe);
        },
    }
}

/// A run of calls that keeps to their `requires` keeps every entry positive.
proof fn lemma_history_keeps_entries_positive(inv: InventoryView, steps: Seq<InventoryStep>)
    requires
        history_fits(inv, steps),
        no_zero_entries(inv.items),
    ensures
        no_zero_entries(after_history(inv, steps).items),
    decreases steps.len(),
{
    if steps.len() > 0 {
        lemma_step_keeps_entries_positive(inv, steps[0]);
        lemma_history_keeps_entries_positive(after_step(inv, steps[0]), steps.drop_first());
    }
}

/// An inventory never stores an entry at zero: one built by `new`, or by
/// `from` with positive quantities, and then changed by any run of
/// `transfer_to` (either way) and `craft` calls that meet their `requires`,
/// holds an entry for an id exactly when it holds a positive quantity of it.
/// So `all_ids`, which lists the ids with an entry, lists exactly the ids it
/// holds.
pub proof fn law_inventories_never_store_zero(origin: InventoryOrigin, steps: Seq<InventoryStep>)
    requires
        origin matches InventoryOrigin::From(elements) ==> forall|i: int|
            0 <= i < elements.len() ==> (#[trigger] elements[i]).quantity > 0,
        history_fits(origin_view(origin), steps),
    ensures
        no_zero_entries(after_history(origin_view(origin), steps).items),
        forall|id: ItemId| #[trigger] after_history(origin_view(origin), steps).items.dom().contains(id)
            <==> after_history(origin_view(origin), steps).quantity(id) > 0,
{
    match origin {
        InventoryOrigin::New(_) => {
            law_built_inventories_have_no_zero_entry(Seq::empty());
        },
        InventoryOrigin::From(elements) => {
            law_built_inventories_have_no_zero_entry(elements);
        },
    }
    lemma_history_keeps_entries_positive(origin_view(origin), steps);
}

/// A transfer moves as much as it can: exactly the least of what the source
/// holds of the item, of `max_quantity`, and, into a bounded destination, of
/// the room left there (its size minus what it holds, or 0 when full).
pub proof fn law_transfer_moves_all_it_can(from: InventoryView, to: InventoryView, id: ItemId, max_quantity: u32)
    ensures
        ({
            let r = transfer_amount(from, to, id, max_quantity) as int;
            let held = qty(from.items, id) as int;
            let room = if to.size >= total(to.items) { to.size - total(to.items) } else { 0 };
            &&& r <= held && r <= max_quantity && (to.size != 0 ==> r <= room)
            &&& r >= held || r >= max_quantity || (to.size != 0 && r >= room)
        }),
{
}

/// An extraction moves as much as it can: exactly the least of what the astre
/// holds of the element, of the amount per extraction, and, into a bounded
/// extractor inventory, of the room left there.
pub proof fn law_extraction_takes_all_it_can(astre: InventoryView, extractor_inventory: InventoryView, id: ItemId, amount: u32)
    ensures
        ({
            let e = extraction(astre, extractor_inventory, id, amount) as int;
            let held = qty(astre.items, id) as int;
            let room = if extractor_inventory.size >= total(extractor_inventory.items) {
                extractor_inventory.size - total(extractor_inventory.items)
            } else {
                0
            };
            &&& e <= held && e <= amount && (extractor_inventory.size != 0 ==> e <= room)
            &&& e >= held || e >= amount || (extractor_inventory.size != 0 && e >= room)
        }),
{
}

/// What `can_craft` answers.  An unbounded inventory always has room for a
/// recipe's outputs; a bounded one has room when the outputs exceed the inputs
/// by no more than the room left (so a recipe that consumes at least as much
/// as it produces always has room).  Without room the answer is
/// `NotEnoughSpace`; with room it is `Yes` exactly when every input is held.
pub proof fn law_can_craft_answers(inv: InventoryView, recipe: RecipeView)
    ensures
        ({
            let room = if inv.size >= total(inv.items) { inv.size - total(inv.items) } else { 0 };
            let net = outputs_total(recipe.outputs) - pairs_total(recipe.inputs);
            let fits = inv.size == 0 || net <= room;
            &&& can_craft_view(inv, recipe) is NotEnoughSpace <==> !fits
            &&& can_craft_view(inv, recipe) is Yes <==> fits && holds_all(inv.items, recipe.inputs)
            &&& (outputs_total(recipe.outputs) <= pairs_total(recipe.inputs) && holds_all(inv.items, recipe.inputs))
                ==> can_craft_view(inv, recipe) is Yes
        }),
{
}

} // verus!
