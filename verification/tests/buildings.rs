use astras::buildings::building::{construction_recipe, construction_site_size, placing_zones, PlacingLocation, PlacingZones};
use astras::buildings::crafter::{Crafter, CrafterPlan, CrafterRecipe};
use astras::buildings::extractor::{ElementExtractorBundle, Extractor};
use astras::data::{BuildingId, ItemId, RecipeId};
use astras::items::element::{ElementOnAstre, ElementState};
use astras::items::inventory::Inventory;
use astras::items::item_map::ItemMap;
use astras::items::logistic::{LogisticRequest, LogisticScope};
use astras::universe::dockable_on_astre::{DockAction, DockableOnAstre};

fn stock(entries: &[(ItemId, u32)]) -> Inventory {
    Inventory::from_elements(
        entries
            .iter()
            .map(|&(id, quantity)| ElementOnAstre { id, quantity })
            .collect(),
    )
}

fn bounded(size: u32, entries: &[(ItemId, u32)]) -> Inventory {
    let mut source = stock(entries);
    let mut target = Inventory::new(size);
    for &(id, quantity) in entries {
        source.transfer_to(&mut target, id, quantity);
    }
    target
}

#[test]
fn sprite_paths() {
    assert_eq!(BuildingId::Quarry.data().sprite_path(), "sprites/quarry.png");
    assert_eq!(BuildingId::InterstellarGate.data().sprite_path(), "sprites/interstellar_gate.png");
    assert_eq!(BuildingId::CargoShuttle.data().name, "Cargo Shuttle");
}

#[test]
fn construction_recipes() {
    assert_eq!(construction_recipe(BuildingId::Quarry), Some(RecipeId::Quarry));
    assert_eq!(construction_recipe(BuildingId::Foundry), Some(RecipeId::Foundry));
    for building in BuildingId::all() {
        assert!(construction_recipe(building).is_some());
    }
    assert_eq!(construction_site_size(RecipeId::Foundry), 10);
    assert_eq!(construction_site_size(RecipeId::Quarry), 0);
}

#[test]
fn placing_zones_by_location() {
    assert_eq!(
        placing_zones(PlacingLocation::Surface, true),
        PlacingZones { surface: true, atmosphere: false, close_orbit: false }
    );
    assert_eq!(
        placing_zones(PlacingLocation::SurfaceOrAtmosphere, true),
        PlacingZones { surface: true, atmosphere: true, close_orbit: false }
    );
    assert_eq!(
        placing_zones(PlacingLocation::Atmosphere, false),
        PlacingZones { surface: false, atmosphere: false, close_orbit: false }
    );
    assert_eq!(
        placing_zones(PlacingLocation::CloseOrbit, true),
        PlacingZones { surface: false, atmosphere: false, close_orbit: true }
    );
}

#[test]
fn crafter_with_one_recipe_chooses_it() {
    let crafter = Crafter::new_construction_site(vec![RecipeId::Foundry]);
    assert!(crafter.is_construction_site());
    assert_eq!(crafter.recipe().map(|r| r.recipe()), Some(RecipeId::Foundry));
    assert_eq!(crafter.recipe().map(|r| r.duration_millis()), Some(3000));
    let crafter = Crafter::new_crafter(vec![RecipeId::SmeltElectroniteOre, RecipeId::CraftPlasmaFuel]);
    assert!(!crafter.is_construction_site());
    assert!(crafter.recipe().is_none());
    assert_eq!(crafter.possible_recipes(), &vec![RecipeId::SmeltElectroniteOre, RecipeId::CraftPlasmaFuel]);
    assert_eq!(CrafterRecipe::new(RecipeId::CraftComputingCore).duration_millis(), 2000);
}

#[test]
fn crafter_plans() {
    let mut crafter = Crafter::new_crafter(vec![RecipeId::SmeltElectroniteOre, RecipeId::CraftPlasmaFuel]);
    let inventory = bounded(100, &[(ItemId::Photonite, 1)]);
    assert!(matches!(crafter.plan(&inventory, None), CrafterPlan::Idle));
    crafter.set_recipe(RecipeId::CraftPlasmaFuel);
    let mut missing = ItemMap::default();
    missing.insert(ItemId::Gravitonite, 1);
    match crafter.plan(&inventory, None) {
        CrafterPlan::InsertRequest(m) => assert_eq!(m, missing),
        _ => panic!("expected a new request"),
    }
    let same = LogisticRequest::new(missing.clone(), LogisticScope::Planet);
    assert!(matches!(crafter.plan(&inventory, Some(&same)), CrafterPlan::KeepRequest));
    let mut other_items = ItemMap::default();
    other_items.insert(ItemId::Aer, 1);
    let other = LogisticRequest::new(other_items, LogisticScope::Planet);
    match crafter.plan(&inventory, Some(&other)) {
        CrafterPlan::ReplaceRequest(m) => assert_eq!(m, missing),
        _ => panic!("expected a replaced request"),
    }
    let ready = bounded(100, &[(ItemId::Photonite, 1), (ItemId::Gravitonite, 1)]);
    assert!(matches!(crafter.plan(&ready, Some(&same)), CrafterPlan::Craft));
}

#[test]
fn crafter_finishes_crafts() {
    let mut crafter = Crafter::new_crafter(vec![RecipeId::CraftPlasmaFuel]);
    let mut inventory = bounded(100, &[(ItemId::Photonite, 2), (ItemId::Gravitonite, 1)]);
    assert_eq!(crafter.finish_craft(&mut inventory), (None, false));
    assert_eq!(inventory.quantity(ItemId::PlasmaFuel), 1);
    assert_eq!(inventory.quantity(ItemId::Photonite), 1);
    crafter.set_recipe(RecipeId::Quarry);
    assert_eq!(crafter.finish_craft(&mut inventory), (Some(BuildingId::Quarry), false));
    let site = Crafter::new_construction_site(vec![RecipeId::Foundry]);
    let mut site_inventory = bounded(10, &[(ItemId::Astrium, 10)]);
    assert_eq!(site.finish_craft(&mut site_inventory), (Some(BuildingId::Foundry), true));
    assert!(site_inventory.items().is_empty());
}

#[test]
fn extractor_remembers_then_extracts() {
    let mut extractor = Extractor::new_solid();
    let mut own = Inventory::new(1000);
    let mut astre = stock(&[(ItemId::Terra, 250), (ItemId::Aqua, 900)]);
    assert!(extractor.should_extract(true, &own));
    assert!(!extractor.should_extract(false, &own));
    // First extraction: the solid ids are remembered, nothing moves.
    extractor.extract(&mut own, &mut astre);
    assert!(own.items().is_empty());
    assert_eq!(astre.quantity(ItemId::Terra), 250);
    // Then Terra, the only solid, is mined 100 at a time.
    extractor.extract(&mut own, &mut astre);
    assert_eq!(own.quantity(ItemId::Terra), 100);
    assert_eq!(astre.quantity(ItemId::Terra), 150);
    extractor.extract(&mut own, &mut astre);
    extractor.extract(&mut own, &mut astre);
    assert_eq!(own.quantity(ItemId::Terra), 250);
    assert!(astre.items().get(&ItemId::Terra).is_none());
    assert_eq!(astre.quantity(ItemId::Aqua), 900);
    // Nothing left to choose: the remembered ids are forgotten, nothing moves.
    extractor.extract(&mut own, &mut astre);
    assert_eq!(own.quantity(ItemId::Terra), 250);
}

#[test]
fn extractor_with_a_full_inventory_waits() {
    let extractor = Extractor::new_liquid();
    let full = bounded(10, &[(ItemId::Aqua, 10)]);
    assert!(!extractor.should_extract(true, &full));
}

#[test]
fn extract_chosen_moves_the_chosen_element() {
    let mut extractor = Extractor::new_plasma();
    let mut own = Inventory::new(100);
    let mut astre = stock(&[(ItemId::Photonite, 25)]);
    extractor.extract_chosen(Some(ItemId::Photonite), &mut own, &mut astre);
    assert_eq!(own.quantity(ItemId::Photonite), 10);
    assert_eq!(astre.quantity(ItemId::Photonite), 15);
    extractor.extract_chosen(None, &mut own, &mut astre);
    assert_eq!(own.quantity(ItemId::Photonite), 10);
}

#[test]
fn element_extractor_bundles() {
    let bundle = ElementExtractorBundle::new_gas();
    assert_eq!(bundle.element_extractor.amount_per_tick(), 500);
    assert_eq!(bundle.element_extractor.element_state(), ElementState::Gas);
    assert_eq!(bundle.inventory.remaining_space(), 10_000);
    assert_eq!(*bundle.logistic_provider.scope(), LogisticScope::Planet);
    let mut bundle = ElementExtractorBundle::new_liquid();
    let mut astre = stock(&[(ItemId::Aqua, 4000), (ItemId::Terra, 10)]);
    bundle.element_extractor.extract(&mut bundle.inventory, &mut astre);
    assert_eq!(bundle.inventory.quantity(ItemId::Aqua), 1000);
    assert_eq!(astre.quantity(ItemId::Terra), 10);
    assert_eq!(ElementExtractorBundle::new_solid().inventory.remaining_space(), 1000);
    assert_eq!(ElementExtractorBundle::new_plasma().element_extractor.amount_per_tick(), 10);
}

#[test]
fn docking_decisions() {
    let mut dockable = DockableOnAstre::default();
    assert!(!dockable.is_docked());
    assert_eq!(dockable.dock(None), DockAction::Stay);
    assert_eq!(dockable.dock(Some(7)), DockAction::Dock(7));
    assert!(dockable.is_docked());
    assert_eq!(dockable.dock(Some(7)), DockAction::Stay);
    assert_eq!(dockable.dock(Some(8)), DockAction::Dock(8));
    assert_eq!(dockable.dock(None), DockAction::Undock);
    assert!(!dockable.is_docked());

    let mut instant = DockableOnAstre::instant_location(PlacingLocation::CloseOrbit);
    assert_eq!(instant.location(), PlacingLocation::CloseOrbit);
    assert_eq!(instant.dock(Some(3)), DockAction::DockForever(3));
    let mut lost = DockableOnAstre::instant_location(PlacingLocation::Surface);
    assert_eq!(lost.dock(None), DockAction::Despawn);
    // Asking again gives the same answer.
    assert_eq!(lost.dock(None), DockAction::Despawn);
    assert!(!lost.is_docked());
    assert_eq!(instant.dock(Some(3)), DockAction::Stay);
}

#[test]
fn extractors_report_overflowing_extractions() {
    // An unlimited extractor inventory that already holds nearly everything.
    let mut extractor = Extractor::new_solid();
    let mut own = stock(&[(ItemId::Terra, u32::MAX - 10)]);
    let mut astre = stock(&[(ItemId::Terra, 500)]);
    // Nothing remembered yet: the first extraction only looks.
    assert!(extractor.extract_fits(&own, &astre));
    extractor.extract(&mut own, &mut astre);
    assert!(!extractor.extract_fits(&own, &astre));
    let room = stock(&[(ItemId::Terra, 1)]);
    assert!(extractor.extract_fits(&room, &astre));

    let bundle = ElementExtractorBundle::new_solid();
    assert!(!bundle.element_extractor.extract_fits(&stock(&[(ItemId::Terra, u32::MAX)]), &astre));
    assert!(bundle.element_extractor.extract_fits(&bundle.inventory, &astre));
    // Elements of another state do not count.
    assert!(bundle.element_extractor.extract_fits(&stock(&[(ItemId::Aqua, u32::MAX)]), &stock(&[(ItemId::Aqua, 5)])));
}
