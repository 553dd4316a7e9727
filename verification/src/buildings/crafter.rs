//! Crafters: buildings that turn items into items or into other buildings.
//!
//! A crafter's progress timer is kept by the caller; these functions decide
//! what the crafter asks for and what one completed craft does.

use vstd::prelude::*;

use crate::data::{BuildingId, RecipeId, recipe_view};
use crate::items::inventory::{CanCraftResult, CanCraftView, Inventory, can_craft_view, craft_fits, craft_view};
use crate::items::item_map::{ItemMap, item_map_eq, item_map_view};
use crate::items::logistic::LogisticRequest;

verus! {

/// The recipe a crafter works on, with the duration of one craft.
pub struct CrafterRecipe {
    recipe: RecipeId,
    duration_millis: u32,
}

impl CrafterRecipe {
    /// The duration is always the recipe's time.
    #[verifier::type_invariant]
    spec fn duration_matches(&self) -> bool {
        self.duration_millis == recipe_view(self.recipe).time_millis
    }

    /// A recipe to work on; one craft lasts the recipe's time.
    pub fn new(recipe: RecipeId) -> (r: Self)
        ensures
            r.recipe_id() == recipe,
            r.duration() == recipe_view(recipe).time_millis,
    {
        let duration_millis = recipe.data().time_millis();
        CrafterRecipe { recipe, duration_millis }
    }

    pub closed spec fn recipe_id(&self) -> RecipeId {
        self.recipe
    }

    pub closed spec fn duration(&self) -> u32 {
        self.duration_millis
    }

    /// The recipe worked on.
    pub fn recipe(&self) -> (r: RecipeId)
        ensures
            r == self.recipe_id(),
    {
        self.recipe
    }

    /// Duration of one craft, in milliseconds.
    pub fn duration_millis(&self) -> (r: u32)
        ensures
            r == self.duration(),
    {
        self.duration_millis
    }
}

/// A building that crafts one of its possible recipes.
pub struct Crafter {
    recipe: Option<CrafterRecipe>,
    possible_recipes: Vec<RecipeId>,
    is_construction_site: bool,
}

/// The mathematical content of a `Crafter`: the recipe chosen, the recipes it
/// may choose from, and whether it is a construction site (which disappears
/// once it has built its building).
pub struct CrafterView {
    pub recipe: Option<RecipeId>,
    pub possible_recipes: Seq<RecipeId>,
    pub is_construction_site: bool,
}

impl View for Crafter {
    type V = CrafterView;

    closed spec fn view(&self) -> CrafterView {
        CrafterView {
            recipe: match self.recipe {
                Some(r) => Some(r.recipe),
                None => None,
            },
            possible_recipes: self.possible_recipes@,
            is_construction_site: self.is_construction_site,
        }
    }
}

/// What a crafter asks the world to do in one update.
pub enum CrafterPlan {
    /// No recipe chosen: nothing to do.
    Idle,
    /// The recipe can be crafted: drop any request and let the craft progress.
    Craft,
    /// The recipe cannot fit its outputs: drop any request.
    DropRequest,
    /// Inputs are missing and the current request already asks for them.
    KeepRequest,
    /// Inputs are missing: replace the current request's items with these.
    ReplaceRequest(ItemMap),
    /// Inputs are missing and there is no request: add a planet-wide request
    /// for these.
    InsertRequest(ItemMap),
}

/// The mathematical content of a `CrafterPlan`.
pub enum CrafterPlanView {
    Idle,
    Craft,
    DropRequest,
    KeepRequest,
    ReplaceRequest(Map<crate::data::ItemId, u32>),
    InsertRequest(Map<crate::data::ItemId, u32>),
}

impl View for CrafterPlan {
    type V = CrafterPlanView;

    open spec fn view(&self) -> CrafterPlanView {
        match self {
            CrafterPlan::Idle => CrafterPlanView::Idle,
            CrafterPlan::Craft => CrafterPlanView::Craft,
            CrafterPlan::DropRequest => CrafterPlanView::DropRequest,
            CrafterPlan::KeepRequest => CrafterPlanView::KeepRequest,
            CrafterPlan::ReplaceRequest(m) => CrafterPlanView::ReplaceRequest(item_map_view(*m)),
            CrafterPlan::InsertRequest(m) => CrafterPlanView::InsertRequest(item_map_view(*m)),
        }
    }
}

impl Default for Crafter {
    /// A crafter with nothing to craft.
    fn default() -> (r: Self)
        ensures
            r@.recipe is None,
            r@.possible_recipes.len() == 0,
            !r@.is_construction_site,
    {
        Crafter { recipe: None, possible_recipes: Vec::new(), is_construction_site: false }
    }
}

impl Crafter {
    /// A crafter of the given recipes; with a single possible recipe, that
    /// recipe is chosen at once.
    fn new(possible_recipes: Vec<RecipeId>, is_construction_site: bool) -> (r: Self)
        ensures
            r@.recipe == (if possible_recipes@.len() == 1 {
                Some(possible_recipes@[0])
            } else {
                None
            }),
            r@.possible_recipes == possible_recipes@,
            r@.is_construction_site == is_construction_site,
    {
        let recipe = if possible_recipes.len() == 1 {
            Some(CrafterRecipe::new(possible_recipes[0]))
        } else {
            None
        };
        Crafter { recipe, possible_recipes, is_construction_site }
    }

    /// A construction site: it builds one of the given recipes' buildings, then
    /// disappears.
    pub fn new_construction_site(possible_recipes: Vec<RecipeId>) -> (r: Self)
        ensures
            r@.recipe == (if possible_recipes@.len() == 1 {
                Some(possible_recipes@[0])
            } else {
                None
            }),
            r@.possible_recipes == possible_recipes@,
            r@.is_construction_site,
    {
        Self::new(possible_recipes, true)
    }

    /// A crafter of the given recipes.
    pub fn new_crafter(possible_recipes: Vec<RecipeId>) -> (r: Self)
        ensures
            r@.recipe == (if possible_recipes@.len() == 1 {
                Some(possible_recipes@[0])
            } else {
                None
            }),
            r@.possible_recipes == possible_recipes@,
            !r@.is_construction_site,
    {
        Self::new(possible_recipes, false)
    }

    /// Chooses the recipe to craft, starting its progress afresh.
    pub fn set_recipe(&mut self, recipe: RecipeId)
        ensures
            final(self)@.recipe == Some(recipe),
            final(self)@.possible_recipes == old(self)@.possible_recipes,
            final(self)@.is_construction_site == old(self)@.is_construction_site,
    {
        self.recipe = Some(CrafterRecipe::new(recipe));
    }

    /// The recipes it may craft.
    pub fn possible_recipes(&self) -> (r: &Vec<RecipeId>)
        ensures
            r@ == self@.possible_recipes,
    {
        &self.possible_recipes
    }

    /// Whether it is a construction site.
    pub fn is_construction_site(&self) -> (r: bool)
        ensures
            r == self@.is_construction_site,
    {
        self.is_construction_site
    }

    /// The recipe chosen, with its duration.
    pub fn recipe(&self) -> (r: Option<&CrafterRecipe>)
        ensures
            r matches Some(cr) ==> self@.recipe == Some(cr.recipe_id())
                && cr.duration() == recipe_view(cr.recipe_id()).time_millis,
            r is None ==> self@.recipe is None,
    {
        match &self.recipe {
            Some(cr) => {
                proof {
                    use_type_invariant(cr);
                }
                Some(cr)
            },
            None => None,
        }
    }
}

impl Crafter {
    /// What the crafter asks for, given its inventory and its current request:
    /// nothing without a recipe; to craft when the recipe can be crafted; to
    /// drop any request when the outputs would not fit; and otherwise a
    /// request for the missing inputs (kept when it already asks for exactly
    /// them, replaced when it asks for something else, added when there is
    /// none).
    pub fn plan(&self, inventory: &Inventory, request: Option<&LogisticRequest>) -> (r: CrafterPlan)
        requires
            inventory@.size != 0 ==> inventory@.total() <= u32::MAX,
        ensures
            r@ == (match self@.recipe {
                None => CrafterPlanView::Idle,
                Some(recipe) => match can_craft_view(inventory@, recipe_view(recipe)) {
                    CanCraftView::Yes => CrafterPlanView::Craft,
                    CanCraftView::NotEnoughSpace => CrafterPlanView::DropRequest,
                    CanCraftView::MissingInputs(missing) => match request {
                        None => CrafterPlanView::InsertRequest(missing),
                        Some(current) => if current@.items == missing {
                            CrafterPlanView::KeepRequest
                        } else {
                            CrafterPlanView::ReplaceRequest(missing)
                        },
                    },
                },
            }),
    {
        match &self.recipe {
            None => CrafterPlan::Idle,
            Some(crafter_recipe) => match inventory.can_craft(crafter_recipe.recipe) {
                CanCraftResult::Yes => CrafterPlan::Craft,
                CanCraftResult::NotEnoughSpace => CrafterPlan::DropRequest,
                CanCraftResult::MissingInputs(missing) => match request {
                    None => CrafterPlan::InsertRequest(missing),
                    Some(current) => if item_map_eq(current.items(), &missing) {
                        CrafterPlan::KeepRequest
                    } else {
                        CrafterPlan::ReplaceRequest(missing)
                    },
                },
            },
        }
    }

    /// Completes one craft of the chosen recipe: the inventory crafts it, and
    /// a building output is returned, with whether the crafter (a construction
    /// site) must disappear.
    pub fn finish_craft(&self, inventory: &mut Inventory) -> (r: (Option<BuildingId>, bool))
        requires
            self@.recipe is Some,
            craft_fits(old(inventory)@, recipe_view(self@.recipe.unwrap())),
        ensures
            final(inventory)@.items == craft_view(old(inventory)@, recipe_view(self@.recipe.unwrap())).0,
            final(inventory)@.size == old(inventory)@.size,
            r.0 == craft_view(old(inventory)@, recipe_view(self@.recipe.unwrap())).1,
            r.1 == (r.0 is Some && self@.is_construction_site),
    {
        let recipe = match &self.recipe {
            Some(crafter_recipe) => crafter_recipe.recipe,
            None => {
                return (None, false);
            },
        };
        let building = inventory.craft(recipe);
        let despawn = match building {
            Some(_) => self.is_construction_site,
            None => false,
        };
        (building, despawn)
    }
}

} // verus!
