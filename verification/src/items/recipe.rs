//! Crafting recipes: what goes in, what comes out, and how long it takes.

use vstd::prelude::*;

use crate::data::{BuildingId, ItemId};

verus! {

/// Sum of the quantities of a list of (item, quantity) pairs.
pub open spec fn pairs_total(pairs: Seq<(ItemId, u32)>) -> int
    decreases pairs.len(),
{
    if pairs.len() == 0 {
        0
    } else {
        pairs_total(pairs.drop_last()) + pairs.last().1
    }
}

/// No item id occurs twice in the list.
pub open spec fn distinct_ids(pairs: Seq<(ItemId, u32)>) -> bool {
    forall|i: int, j: int| 0 <= i < j < pairs.len() ==> pairs[i].0 != pairs[j].0
}

/// What a recipe produces: items, or a building.
#[derive(Clone, Copy, Debug)]
pub enum RecipeOutputs {
    Items(&'static [(ItemId, u32)]),
    Building(BuildingId),
}

/// The mathematical content of `RecipeOutputs`.
#[verifier::ext_equal]
pub enum RecipeOutputsView {
    Items(Seq<(ItemId, u32)>),
    Building(BuildingId),
}

impl View for RecipeOutputs {
    type V = RecipeOutputsView;

    open spec fn view(&self) -> RecipeOutputsView {
        match self {
            RecipeOutputs::Items(items) => RecipeOutputsView::Items(items@),
            RecipeOutputs::Building(id) => RecipeOutputsView::Building(*id),
        }
    }
}

/// Sum of the item quantities that an output yields (a building counts 0).
pub open spec fn outputs_total(outputs: RecipeOutputsView) -> int {
    match outputs {
        RecipeOutputsView::Items(items) => pairs_total(items),
        RecipeOutputsView::Building(_) => 0,
    }
}

/// A crafting recipe.  Its duration is kept in milliseconds.
#[derive(Clone, Copy, Debug)]
pub struct Recipe {
    inputs: &'static [(ItemId, u32)],
    outputs: RecipeOutputs,
    time_millis: u32,
}

/// The mathematical content of a `Recipe`.
#[verifier::ext_equal]
pub struct RecipeView {
    pub inputs: Seq<(ItemId, u32)>,
    pub outputs: RecipeOutputsView,
    pub time_millis: u32,
}

impl View for Recipe {
    type V = RecipeView;

    closed spec fn view(&self) -> RecipeView {
        RecipeView { inputs: self.inputs@, outputs: self.outputs@, time_millis: self.time_millis }
    }
}

impl Recipe {
    /// A recipe that turns `inputs` into the items `output`.
    pub fn new_items(inputs: &'static [(ItemId, u32)], output: &'static [(ItemId, u32)], time_millis: u32) -> (r: Self)
        ensures
            r@ == (RecipeView {
                inputs: inputs@,
                outputs: RecipeOutputsView::Items(output@),
                time_millis,
            }),
    {
        Recipe { inputs, outputs: RecipeOutputs::Items(output), time_millis }
    }

    /// A recipe that turns `inputs` into the building `output`.
    pub fn new_building(inputs: &'static [(ItemId, u32)], output: BuildingId, time_millis: u32) -> (r: Self)
        ensures
            r@ == (RecipeView {
                inputs: inputs@,
                outputs: RecipeOutputsView::Building(output),
                time_millis,
            }),
    {
        Recipe { inputs, outputs: RecipeOutputs::Building(output), time_millis }
    }

    /// Duration of one craft, in milliseconds.
    pub fn time_millis(&self) -> (r: u32)
        ensures
            r == self@.time_millis,
    {
        self.time_millis
    }

    /// The items consumed by one craft.
    pub fn inputs(&self) -> (r: &'static [(ItemId, u32)])
        ensures
            r@ == self@.inputs,
    {
        self.inputs
    }

    /// What one craft produces.
    pub fn outputs(&self) -> (r: RecipeOutputs)
        ensures
            r@ == self@.outputs,
    {
        self.outputs
    }

    /// Total quantity of items consumed by one craft.
    pub fn inputs_quantity(&self) -> (r: u32)
        requires
            pairs_total(self@.inputs) <= u32::MAX,
        ensures
            r == pairs_total(self@.inputs),
    {
        pairs_quantity(self.inputs)
    }

    /// Total quantity of items produced by one craft (0 for a building).
    pub fn outputs_quantity(&self) -> (r: u32)
        requires
            outputs_total(self@.outputs) <= u32::MAX,
        ensures
            r == outputs_total(self@.outputs),
    {
        match self.outputs {
            RecipeOutputs::Items(items) => pairs_quantity(items),
            RecipeOutputs::Building(_) => 0,
        }
    }
}

/// A prefix sum of pairs is at most the whole sum.
pub proof fn lemma_pairs_total_prefix(pairs: Seq<(ItemId, u32)>, i: int)
    requires
        0 <= i <= pairs.len(),
    ensures
        0 <= pairs_total(pairs.take(i)) <= pairs_total(pairs),
    decreases pairs.len() - i,
{
    if i < pairs.len() {
        lemma_pairs_total_prefix(pairs, i + 1);
        assert(pairs.take(i + 1).drop_last() =~= pairs.take(i));
        lemma_pairs_total_nonneg(pairs.take(i));
    } else {
        assert(pairs.take(i) =~= pairs);
        lemma_pairs_total_nonneg(pairs);
    }
}

/// Sums of pairs are never negative.
pub proof fn lemma_pairs_total_nonneg(pairs: Seq<(ItemId, u32)>)
    ensures
        pairs_total(pairs) >= 0,
    decreases pairs.len(),
{
    if pairs.len() > 0 {
        lemma_pairs_total_nonneg(pairs.drop_last());
    }
}

/// Sum of the quantities of a list of pairs.
fn pairs_quantity(pairs: &[(ItemId, u32)]) -> (r: u32)
    requires
        pairs_total(pairs@) <= u32::MAX,
    ensures
        r == pairs_total(pairs@),
{
    let mut sum: u32 = 0;
    let mut i: usize = 0;
    while i < pairs.len()
        invariant
            0 <= i <= pairs.len(),
            pairs_total(pairs@) <= u32::MAX,
            sum == pairs_total(pairs@.take(i as int)),
        decreases pairs.len() - i,
    {
        proof {
            lemma_pairs_total_prefix(pairs@, i + 1);
            assert(pairs@.take(i + 1).drop_last() =~= pairs@.take(i as int));
        }
        sum = sum + pairs[i].1;
        i = i + 1;
    }
    proof {
        assert(pairs@.take(pairs.len() as int) =~= pairs@);
    }
    sum
}

} // verus!
