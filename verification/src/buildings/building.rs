//! Building descriptions and placement rules.

use vstd::prelude::*;

use crate::data::{BuildingId, RecipeId, all_recipe_ids, recipe_view};
use crate::items::recipe::{RecipeOutputs, RecipeOutputsView, pairs_total};

verus! {

/// Where around an astre a building can be placed.
#[derive(PartialEq, Eq, Structural, Clone, Copy, Debug, Default)]
pub enum PlacingLocation {
    Surface,
    Atmosphere,
    #[default]
    SurfaceOrAtmosphere,
    CloseOrbit,
}

/// Static description of a building.
#[derive(Clone, Copy, Debug)]
pub struct BuildingData {
    pub name: &'static str,
    pub sprite_name: &'static str,
    pub location: PlacingLocation,
}

impl BuildingData {
    /// Asset path of the building's sprite: `sprites/<sprite_name>.png`.
    pub fn sprite_path(&self) -> (r: String)
        ensures
            r@ == "sprites/"@ + self.sprite_name@ + ".png"@,
    {
        let mut path = String::from_str("sprites/");
        path.append(self.sprite_name);
        path.append(".png");
        path
    }
}

/// Which placing circles to draw around an astre while placing a building.
#[derive(PartialEq, Eq, Structural, Clone, Copy, Debug)]
pub struct PlacingZones {
    pub surface: bool,
    pub atmosphere: bool,
    pub close_orbit: bool,
}

/// The placing circles for a building placed at `location` around an astre
/// that has an atmosphere or not: the surface for surface buildings, the
/// atmosphere (when there is one) for atmosphere buildings, and the close
/// orbit for orbital ones.
pub fn placing_zones(location: PlacingLocation, has_atmosphere: bool) -> (r: PlacingZones)
    ensures
        r.surface == (location == PlacingLocation::Surface || location == PlacingLocation::SurfaceOrAtmosphere),
        r.atmosphere == (has_atmosphere && (location == PlacingLocation::Atmosphere
            || location == PlacingLocation::SurfaceOrAtmosphere)),
        r.close_orbit == (location == PlacingLocation::CloseOrbit),
{
    let surface = match location {
        PlacingLocation::Surface | PlacingLocation::SurfaceOrAtmosphere => true,
        _ => false,
    };
    let atmosphere = has_atmosphere && match location {
        PlacingLocation::Atmosphere | PlacingLocation::SurfaceOrAtmosphere => true,
        _ => false,
    };
    let close_orbit = match location {
        PlacingLocation::CloseOrbit => true,
        _ => false,
    };
    PlacingZones { surface, atmosphere, close_orbit }
}

/// Whether recipe `id` builds `building`.
pub open spec fn builds(id: RecipeId, building: BuildingId) -> bool {
    recipe_view(id).outputs == RecipeOutputsView::Building(building)
}

/// The recipe that a construction site of `building` crafts: the first recipe,
/// in declaration order, whose output is that building.
pub fn construction_recipe(building: BuildingId) -> (r: Option<RecipeId>)
    ensures
        r matches Some(id) ==> exists|i: int| 0 <= i < all_recipe_ids().len()
            && #[trigger] all_recipe_ids()[i] == id && builds(id, building)
            && forall|j: int| 0 <= j < i ==> !builds(#[trigger] all_recipe_ids()[j], building),
        r is None ==> forall|i: int| 0 <= i < all_recipe_ids().len() ==> !builds(#[trigger] all_recipe_ids()[i], building),
{
    let ids = RecipeId::all();
    let mut i: usize = 0;
    while i < ids.len()
        invariant
            ids@ == all_recipe_ids(),
            0 <= i <= ids.len(),
            forall|j: int| 0 <= j < i ==> !builds(#[trigger] all_recipe_ids()[j], building),
        decreases ids.len() - i,
    {
        let recipe = ids[i].data();
        let found = match recipe.outputs() {
            RecipeOutputs::Building(id) => id == building,
            _ => false,
        };
        if found {
            return Some(ids[i]);
        }
        i = i + 1;
    }
    None
}

/// Every building of the catalogue has a recipe that builds it.
pub proof fn law_every_building_has_a_recipe(building: BuildingId)
    ensures
        exists|i: int| 0 <= i < all_recipe_ids().len() && builds(#[trigger] all_recipe_ids()[i], building),
{
    match building {
        BuildingId::Quarry => assert(builds(all_recipe_ids()[3], building)),
        BuildingId::LiquidExtractor => assert(builds(all_recipe_ids()[4], building)),
        BuildingId::AtmosphereHarvester => assert(builds(all_recipe_ids()[5], building)),
        BuildingId::PlasmaCatalyser => assert(builds(all_recipe_ids()[6], building)),
        BuildingId::Warehouse => assert(builds(all_recipe_ids()[7], building)),
        BuildingId::CargoShuttle => assert(builds(all_recipe_ids()[8], building)),
        BuildingId::Spaceport => assert(builds(all_recipe_ids()[9], building)),
        BuildingId::InterplanetaryFreighter => assert(builds(all_recipe_ids()[10], building)),
        BuildingId::Foundry => assert(builds(all_recipe_ids()[11], building)),
        BuildingId::Assembler => assert(builds(all_recipe_ids()[12], building)),
        BuildingId::InterstellarGate => assert(builds(all_recipe_ids()[13], building)),
    }
}

/// The size of a construction site's inventory: the total quantity of its
/// recipe's inputs.
pub fn construction_site_size(recipe: RecipeId) -> (r: u32)
    ensures
        r == pairs_total(recipe_view(recipe).inputs),
{
    proof {
        crate::data::lemma_recipe_table(recipe);
    }
    recipe.data().inputs_quantity()
}

} // verus!
