//! The fixed catalogues of the game: items, recipes and buildings.

use vstd::prelude::*;

use crate::buildings::building::{BuildingData, PlacingLocation};
use crate::items::item::Item;
use crate::items::recipe::{Recipe, RecipeOutputsView, RecipeView, distinct_ids, outputs_total, pairs_total};

verus! {

/// Identifier of every item kind of the game.
#[derive(PartialEq, Eq, Structural, Hash, Clone, Copy, Debug, Default)]
pub enum ItemId {
    // Elements
    #[default]
    ElectroniteOre,
    QuarkCrystal,
    Astrium,
    Photonite,
    Gravitonite,
    Neutronite,
    Aer,
    Aqua,
    Terra,
    // Basic processed materials
    Electronite,
    ComputingCore,
    PlasmaFuel,
}

/// Every item id, in declaration order.
pub open spec fn all_item_ids() -> Seq<ItemId> {
    seq![
        ItemId::ElectroniteOre,
        ItemId::QuarkCrystal,
        ItemId::Astrium,
        ItemId::Photonite,
        ItemId::Gravitonite,
        ItemId::Neutronite,
        ItemId::Aer,
        ItemId::Aqua,
        ItemId::Terra,
        ItemId::Electronite,
        ItemId::ComputingCore,
        ItemId::PlasmaFuel,
    ]
}

impl ItemId {
    /// Position of the id in `all_item_ids()`.
    pub open spec fn index(self) -> int {
        match self {
            ItemId::ElectroniteOre => 0,
            ItemId::QuarkCrystal => 1,
            ItemId::Astrium => 2,
            ItemId::Photonite => 3,
            ItemId::Gravitonite => 4,
            ItemId::Neutronite => 5,
            ItemId::Aer => 6,
            ItemId::Aqua => 7,
            ItemId::Terra => 8,
            ItemId::Electronite => 9,
            ItemId::ComputingCore => 10,
            ItemId::PlasmaFuel => 11,
        }
    }

    /// All item ids, in declaration order.
    pub fn all() -> (r: Vec<ItemId>)
        ensures
            r@ == all_item_ids(),
    {
        vec![
            ItemId::ElectroniteOre,
            ItemId::QuarkCrystal,
            ItemId::Astrium,
            ItemId::Photonite,
            ItemId::Gravitonite,
            ItemId::Neutronite,
            ItemId::Aer,
            ItemId::Aqua,
            ItemId::Terra,
            ItemId::Electronite,
            ItemId::ComputingCore,
            ItemId::PlasmaFuel,
        ]
    }
}

/// Each item id sits at its own index of `all_item_ids()`, which holds no
/// duplicate.
pub proof fn lemma_all_item_ids(id: ItemId)
    ensures
        all_item_ids().len() == 12,
        0 <= id.index() < 12,
        all_item_ids()[id.index()] == id,
        all_item_ids().contains(id),
        all_item_ids().no_duplicates(),
{
    assert(all_item_ids()[id.index()] == id);
}

/// Name and description of each item.
pub open spec fn item_text(id: ItemId) -> (&'static str, &'static str) {
    match id {
        ItemId::ElectroniteOre => ("Electronite Ore", "Shiny ore that can be refined"),
        ItemId::QuarkCrystal => ("Quark Crystal", "Vibrating crystal used for computing"),
        ItemId::Astrium => ("Astrium", "Solid but light material used for megastructure construction"),
        ItemId::Photonite => ("Photonite", "Light-emitting high-energy element"),
        ItemId::Gravitonite => ("Gravitonite", "Volatile element used for propulsion"),
        ItemId::Neutronite => ("Neutronite", "Dense element used for shielding"),
        ItemId::Aer => ("Aer", "Mundane gas"),
        ItemId::Aqua => ("Aqua", "Mundane liquid"),
        ItemId::Terra => ("Terra", "Mundane solid"),
        ItemId::Electronite => ("Electronite", "Highly conductive material"),
        ItemId::ComputingCore => ("Computing Core", "Calculates very fast"),
        ItemId::PlasmaFuel => ("Plasma fuel", "High-energy spaceship fuel"),
    }
}

impl ItemId {
    /// Name and description of the item.
    pub fn data(&self) -> (r: Item)
        ensures
            (r.name, r.description) == item_text(*self),
    {
        match self {
            ItemId::ElectroniteOre => Item { name: "Electronite Ore", description: "Shiny ore that can be refined" },
            ItemId::QuarkCrystal => Item { name: "Quark Crystal", description: "Vibrating crystal used for computing" },
            ItemId::Astrium => Item { name: "Astrium", description: "Solid but light material used for megastructure construction" },
            ItemId::Photonite => Item { name: "Photonite", description: "Light-emitting high-energy element" },
            ItemId::Gravitonite => Item { name: "Gravitonite", description: "Volatile element used for propulsion" },
            ItemId::Neutronite => Item { name: "Neutronite", description: "Dense element used for shielding" },
            ItemId::Aer => Item { name: "Aer", description: "Mundane gas" },
            ItemId::Aqua => Item { name: "Aqua", description: "Mundane liquid" },
            ItemId::Terra => Item { name: "Terra", description: "Mundane solid" },
            ItemId::Electronite => Item { name: "Electronite", description: "Highly conductive material" },
            ItemId::ComputingCore => Item { name: "Computing Core", description: "Calculates very fast" },
            ItemId::PlasmaFuel => Item { name: "Plasma fuel", description: "High-energy spaceship fuel" },
        }
    }
}

/// Identifier of every crafting recipe of the game.
#[derive(PartialEq, Eq, Structural, Hash, Clone, Copy, Debug, Default)]
pub enum RecipeId {
    #[default]
    SmeltElectroniteOre,
    CraftPlasmaFuel,
    CraftComputingCore,
    Quarry,
    LiquidExtractor,
    AtmosphereHarvester,
    PlasmaCatalyser,
    Warehouse,
    CargoShuttle,
    Spaceport,
    InterplanetaryFreighter,
    Foundry,
    Assembler,
    InterstellarGate,
}

/// Every recipe id, in declaration order.
pub open spec fn all_recipe_ids() -> Seq<RecipeId> {
    seq![
        RecipeId::SmeltElectroniteOre,
        RecipeId::CraftPlasmaFuel,
        RecipeId::CraftComputingCore,
        RecipeId::Quarry,
        RecipeId::LiquidExtractor,
        RecipeId::AtmosphereHarvester,
        RecipeId::PlasmaCatalyser,
        RecipeId::Warehouse,
        RecipeId::CargoShuttle,
        RecipeId::Spaceport,
        RecipeId::InterplanetaryFreighter,
        RecipeId::Foundry,
        RecipeId::Assembler,
        RecipeId::InterstellarGate,
    ]
}

/// The content of each recipe.
pub open spec fn recipe_view(id: RecipeId) -> RecipeView {
    match id {
        RecipeId::SmeltElectroniteOre => RecipeView {
            inputs: seq![(ItemId::ElectroniteOre, 1u32)],
            outputs: RecipeOutputsView::Items(seq![(ItemId::Electronite, 1u32)]),
            time_millis: 1000,
        },
        RecipeId::CraftPlasmaFuel => RecipeView {
            inputs: seq![(ItemId::Photonite, 1u32), (ItemId::Gravitonite, 1u32)],
            outputs: RecipeOutputsView::Items(seq![(ItemId::PlasmaFuel, 1u32)]),
            time_millis: 1000,
        },
        RecipeId::CraftComputingCore => RecipeView {
            inputs: seq![(ItemId::Electronite, 1u32), (ItemId::QuarkCrystal, 1u32)],
            outputs: RecipeOutputsView::Items(seq![(ItemId::ComputingCore, 1u32)]),
            time_millis: 2000,
        },
        RecipeId::Quarry => RecipeView {
            inputs: seq![],
            outputs: RecipeOutputsView::Building(BuildingId::Quarry),
            time_millis: 1000,
        },
        RecipeId::LiquidExtractor => RecipeView {
            inputs: seq![],
            outputs: RecipeOutputsView::Building(BuildingId::LiquidExtractor),
            time_millis: 1000,
        },
        RecipeId::AtmosphereHarvester => RecipeView {
            inputs: seq![],
            outputs: RecipeOutputsView::Building(BuildingId::AtmosphereHarvester),
            time_millis: 1000,
        },
        RecipeId::PlasmaCatalyser => RecipeView {
            inputs: seq![],
            outputs: RecipeOutputsView::Building(BuildingId::PlasmaCatalyser),
            time_millis: 1000,
        },
        RecipeId::Warehouse => RecipeView {
            inputs: seq![],
            outputs: RecipeOutputsView::Building(BuildingId::Warehouse),
            time_millis: 1000,
        },
        RecipeId::CargoShuttle => RecipeView {
            inputs: seq![],
            outputs: RecipeOutputsView::Building(BuildingId::CargoShuttle),
            time_millis: 3000,
        },
        RecipeId::Spaceport => RecipeView {
            inputs: seq![],
            outputs: RecipeOutputsView::Building(BuildingId::Spaceport),
            time_millis: 1000,
        },
        RecipeId::InterplanetaryFreighter => RecipeView {
            inputs: seq![],
            outputs: RecipeOutputsView::Building(BuildingId::InterplanetaryFreighter),
            time_millis: 1000,
        },
        RecipeId::Foundry => RecipeView {
            inputs: seq![(ItemId::Astrium, 10u32)],
            outputs: RecipeOutputsView::Building(BuildingId::Foundry),
            time_millis: 3000,
        },
        RecipeId::Assembler => RecipeView {
            inputs: seq![],
            outputs: RecipeOutputsView::Building(BuildingId::Assembler),
            time_millis: 1000,
        },
        RecipeId::InterstellarGate => RecipeView {
            inputs: seq![],
            outputs: RecipeOutputsView::Building(BuildingId::InterstellarGate),
            time_millis: 1000,
        },
    }
}

impl RecipeId {
    /// All recipe ids, in declaration order.
    pub fn all() -> (r: Vec<RecipeId>)
        ensures
            r@ == all_recipe_ids(),
    {
        vec![
            RecipeId::SmeltElectroniteOre,
            RecipeId::CraftPlasmaFuel,
            RecipeId::CraftComputingCore,
            RecipeId::Quarry,
            RecipeId::LiquidExtractor,
            RecipeId::AtmosphereHarvester,
            RecipeId::PlasmaCatalyser,
            RecipeId::Warehouse,
            RecipeId::CargoShuttle,
            RecipeId::Spaceport,
            RecipeId::InterplanetaryFreighter,
            RecipeId::Foundry,
            RecipeId::Assembler,
            RecipeId::InterstellarGate,
        ]
    }

    /// The recipe itself.
    pub fn data(&self) -> (r: Recipe)
        ensures
            r@ == recipe_view(*self),
    {
        let r = match self {
            RecipeId::SmeltElectroniteOre => Recipe::new_items(
                &[(ItemId::ElectroniteOre, 1)],
                &[(ItemId::Electronite, 1)],
                1000,
            ),
            RecipeId::CraftPlasmaFuel => Recipe::new_items(
                &[(ItemId::Photonite, 1), (ItemId::Gravitonite, 1)],
                &[(ItemId::PlasmaFuel, 1)],
                1000,
            ),
            RecipeId::CraftComputingCore => Recipe::new_items(
                &[(ItemId::Electronite, 1), (ItemId::QuarkCrystal, 1)],
                &[(ItemId::ComputingCore, 1)],
                2000,
            ),
            RecipeId::Quarry => Recipe::new_building(
                &[],
                BuildingId::Quarry,
                1000,
            ),
            RecipeId::LiquidExtractor => Recipe::new_building(
                &[],
                BuildingId::LiquidExtractor,
                1000,
            ),
            RecipeId::AtmosphereHarvester => Recipe::new_building(
                &[],
                BuildingId::AtmosphereHarvester,
                1000,
            ),
            RecipeId::PlasmaCatalyser => Recipe::new_building(
                &[],
                BuildingId::PlasmaCatalyser,
                1000,
            ),
            RecipeId::Warehouse => Recipe::new_building(
                &[],
                BuildingId::Warehouse,
                1000,
            ),
            RecipeId::CargoShuttle => Recipe::new_building(
                &[],
                BuildingId::CargoShuttle,
                3000,
            ),
            RecipeId::Spaceport => Recipe::new_building(
                &[],
                BuildingId::Spaceport,
                1000,
            ),
            RecipeId::InterplanetaryFreighter => Recipe::new_building(
                &[],
                BuildingId::InterplanetaryFreighter,
                1000,
            ),
            RecipeId::Foundry => Recipe::new_building(
                &[(ItemId::Astrium, 10)],
                BuildingId::Foundry,
                3000,
            ),
            RecipeId::Assembler => Recipe::new_building(
                &[],
                BuildingId::Assembler,
                1000,
            ),
            RecipeId::InterstellarGate => Recipe::new_building(
                &[],
                BuildingId::InterstellarGate,
                1000,
            ),
        };
        assert(r@ =~~= recipe_view(*self));
        r
    }
}

/// Every recipe of the table consumes and produces distinct items, in small
/// quantities.
pub proof fn lemma_recipe_table(id: RecipeId)
    ensures
        distinct_ids(recipe_view(id).inputs),
        0 <= pairs_total(recipe_view(id).inputs) <= 10,
        0 <= outputs_total(recipe_view(id).outputs) <= 1,
        recipe_view(id).outputs matches RecipeOutputsView::Items(o) ==> distinct_ids(o),
        forall|i: int| 0 <= i < recipe_view(id).inputs.len() ==> recipe_view(id).inputs[i].1 > 0,
        recipe_view(id).outputs matches RecipeOutputsView::Items(o) ==> forall|i: int| 0 <= i < o.len() ==> o[i].1 > 0,
{
    reveal_with_fuel(pairs_total, 3);
}

/// Identifier of every building of the game.
#[derive(PartialEq, Eq, Structural, Hash, Clone, Copy, Debug, Default)]
pub enum BuildingId {
    #[default]
    Quarry,
    LiquidExtractor,
    AtmosphereHarvester,
    PlasmaCatalyser,
    Warehouse,
    CargoShuttle,
    Spaceport,
    InterplanetaryFreighter,
    Foundry,
    Assembler,
    InterstellarGate,
}

/// Every building id, in declaration order.
pub open spec fn all_building_ids() -> Seq<BuildingId> {
    seq![
        BuildingId::Quarry,
        BuildingId::LiquidExtractor,
        BuildingId::AtmosphereHarvester,
        BuildingId::PlasmaCatalyser,
        BuildingId::Warehouse,
        BuildingId::CargoShuttle,
        BuildingId::Spaceport,
        BuildingId::InterplanetaryFreighter,
        BuildingId::Foundry,
        BuildingId::Assembler,
        BuildingId::InterstellarGate,
    ]
}

/// Name and sprite name of each building.
pub open spec fn building_text(id: BuildingId) -> (&'static str, &'static str) {
    match id {
        BuildingId::Quarry => ("Quarry", "quarry"),
        BuildingId::LiquidExtractor => ("Liquid Extractor", "quarry"),
        BuildingId::AtmosphereHarvester => ("Atmosphere Harvester", "quarry"),
        BuildingId::PlasmaCatalyser => ("Plasma Catalyser", "quarry"),
        BuildingId::Warehouse => ("Warehouse", "warehouse"),
        BuildingId::CargoShuttle => ("Cargo Shuttle", "cargo_shuttle"),
        BuildingId::Spaceport => ("Spaceport", "spaceport"),
        BuildingId::InterplanetaryFreighter => ("Interplanetary Freighter", "cargo_shuttle"),
        BuildingId::Foundry => ("Foundry", "foundry"),
        BuildingId::Assembler => ("Assembler", "assembler"),
        BuildingId::InterstellarGate => ("Interstellar Gate", "interstellar_gate"),
    }
}

/// Where each building can be placed.
pub open spec fn building_location(id: BuildingId) -> PlacingLocation {
    match id {
        BuildingId::Quarry => PlacingLocation::Surface,
        BuildingId::LiquidExtractor => PlacingLocation::Surface,
        BuildingId::AtmosphereHarvester => PlacingLocation::Atmosphere,
        BuildingId::PlasmaCatalyser => PlacingLocation::SurfaceOrAtmosphere,
        BuildingId::Warehouse => PlacingLocation::Surface,
        BuildingId::CargoShuttle => PlacingLocation::SurfaceOrAtmosphere,
        BuildingId::Spaceport => PlacingLocation::CloseOrbit,
        BuildingId::InterplanetaryFreighter => PlacingLocation::CloseOrbit,
        BuildingId::Foundry => PlacingLocation::Surface,
        BuildingId::Assembler => PlacingLocation::Surface,
        BuildingId::InterstellarGate => PlacingLocation::CloseOrbit,
    }
}

impl BuildingId {
    /// All building ids, in declaration order.
    pub fn all() -> (r: Vec<BuildingId>)
        ensures
            r@ == all_building_ids(),
    {
        vec![
            BuildingId::Quarry,
            BuildingId::LiquidExtractor,
            BuildingId::AtmosphereHarvester,
            BuildingId::PlasmaCatalyser,
            BuildingId::Warehouse,
            BuildingId::CargoShuttle,
            BuildingId::Spaceport,
            BuildingId::InterplanetaryFreighter,
            BuildingId::Foundry,
            BuildingId::Assembler,
            BuildingId::InterstellarGate,
        ]
    }

    /// Name, sprite and placing location of the building.
    pub fn data(&self) -> (r: BuildingData)
        ensures
            (r.name, r.sprite_name) == building_text(*self),
            r.location == building_location(*self),
    {
        match self {
            BuildingId::Quarry => BuildingData {
                name: "Quarry",
                sprite_name: "quarry",
                location: PlacingLocation::Surface,
            },
            BuildingId::LiquidExtractor => BuildingData {
                name: "Liquid Extractor",
                sprite_name: "quarry",
                location: PlacingLocation::Surface,
            },
            BuildingId::AtmosphereHarvester => BuildingData {
                name: "Atmosphere Harvester",
                sprite_name: "quarry",
                location: PlacingLocation::Atmosphere,
            },
            BuildingId::PlasmaCatalyser => BuildingData {
                name: "Plasma Catalyser",
                sprite_name: "quarry",
                location: PlacingLocation::SurfaceOrAtmosphere,
            },
            BuildingId::Warehouse => BuildingData {
                name: "Warehouse",
                sprite_name: "warehouse",
                location: PlacingLocation::Surface,
            },
            BuildingId::CargoShuttle => BuildingData {
                name: "Cargo Shuttle",
                sprite_name: "cargo_shuttle",
                location: PlacingLocation::SurfaceOrAtmosphere,
            },
            BuildingId::Spaceport => BuildingData {
                name: "Spaceport",
                sprite_name: "spaceport",
                location: PlacingLocation::CloseOrbit,
            },
            BuildingId::InterplanetaryFreighter => BuildingData {
                name: "Interplanetary Freighter",
                sprite_name: "cargo_shuttle",
                location: PlacingLocation::CloseOrbit,
            },
            BuildingId::Foundry => BuildingData {
                name: "Foundry",
                sprite_name: "foundry",
                location: PlacingLocation::Surface,
            },
            BuildingId::Assembler => BuildingData {
                name: "Assembler",
                sprite_name: "assembler",
                location: PlacingLocation::Surface,
            },
            BuildingId::InterstellarGate => BuildingData {
                name: "Interstellar Gate",
                sprite_name: "interstellar_gate",
                location: PlacingLocation::CloseOrbit,
            },
        }
    }
}

} // verus!
