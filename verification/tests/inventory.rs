use astras::data::{BuildingId, ItemId, RecipeId};
use astras::items::element::ElementOnAstre;
use astras::items::inventory::{CanCraftResult, Inventory};

fn inventory_of(size: u32, entries: &[(ItemId, u32)]) -> Inventory {
    // Start unbounded, then move everything into an inventory of the wanted size.
    let elements: Vec<ElementOnAstre> = entries
        .iter()
        .map(|&(id, quantity)| ElementOnAstre { id, quantity })
        .collect();
    let mut source = Inventory::from_elements(elements);
    let mut target = Inventory::new(size);
    for &(id, quantity) in entries {
        assert_eq!(source.transfer_to(&mut target, id, quantity), quantity);
    }
    target
}

#[test]
fn new_inventory_is_empty() {
    let inventory = Inventory::new(100);
    assert!(inventory.items().is_empty());
    assert_eq!(inventory.remaining_space(), 100);
    assert_eq!(inventory.total_quantity(), 0);
    assert_eq!(inventory.quantity(ItemId::Aer), 0);
}

#[test]
fn from_elements_keeps_the_last_of_an_id() {
    let inventory = Inventory::from_elements(vec![
        ElementOnAstre { id: ItemId::Aer, quantity: 5 },
        ElementOnAstre { id: ItemId::Terra, quantity: 7 },
        ElementOnAstre { id: ItemId::Aer, quantity: 9 },
    ]);
    assert_eq!(inventory.quantity(ItemId::Aer), 9);
    assert_eq!(inventory.quantity(ItemId::Terra), 7);
    assert_eq!(inventory.total_quantity(), 16);
    // Unlimited: no space limit.
    assert_eq!(inventory.remaining_space(), 0);
    let mut ids = inventory.all_ids();
    ids.sort_by_key(|id| *id as u8);
    assert_eq!(ids, vec![ItemId::Aer, ItemId::Terra]);
}

#[test]
fn inventory_from_elements_vec() {
    let inventory: Inventory = vec![
        ElementOnAstre { id: ItemId::Photonite, quantity: 3 },
        ElementOnAstre { id: ItemId::Aqua, quantity: 4 },
    ]
    .into();
    assert_eq!(inventory.quantity(ItemId::Photonite), 3);
    assert_eq!(inventory.quantity(ItemId::Aqua), 4);
    assert_eq!(inventory.quantity(ItemId::Aer), 0);
    assert_eq!(inventory.total_quantity(), 7);
}

#[test]
fn remaining_space_saturates() {
    let mut source = Inventory::from_elements(vec![ElementOnAstre { id: ItemId::Aqua, quantity: 50 }]);
    let mut small = Inventory::new(30);
    assert_eq!(source.transfer_to(&mut small, ItemId::Aqua, 100), 30);
    assert_eq!(small.remaining_space(), 0);
    assert_eq!(source.quantity(ItemId::Aqua), 20);
}

#[test]
fn transfer_moves_at_most_max_quantity() {
    let mut from = inventory_of(0, &[(ItemId::Terra, 40)]);
    let mut to = Inventory::new(0);
    assert_eq!(from.transfer_to(&mut to, ItemId::Terra, 15), 15);
    assert_eq!(from.quantity(ItemId::Terra), 25);
    assert_eq!(to.quantity(ItemId::Terra), 15);
}

#[test]
fn transfer_moves_at_most_what_is_held() {
    let mut from = inventory_of(0, &[(ItemId::Terra, 4)]);
    let mut to = Inventory::new(0);
    assert_eq!(from.transfer_to(&mut to, ItemId::Terra, 15), 4);
    // The emptied entry is dropped.
    assert!(from.items().get(&ItemId::Terra).is_none());
    assert_eq!(to.quantity(ItemId::Terra), 4);
}

#[test]
fn transfer_of_an_absent_item_moves_nothing() {
    let mut from = inventory_of(0, &[(ItemId::Terra, 4)]);
    let mut to = Inventory::new(10);
    assert_eq!(from.transfer_to(&mut to, ItemId::Aer, 15), 0);
    assert_eq!(from.quantity(ItemId::Terra), 4);
    assert!(to.items().is_empty());
}

#[test]
fn transfer_into_a_full_inventory_moves_nothing() {
    let mut from = inventory_of(0, &[(ItemId::Terra, 4)]);
    let mut to = inventory_of(3, &[(ItemId::Aqua, 3)]);
    assert_eq!(from.transfer_to(&mut to, ItemId::Terra, 4), 0);
    assert_eq!(from.quantity(ItemId::Terra), 4);
    assert_eq!(to.quantity(ItemId::Terra), 0);
}

#[test]
fn transfer_conserves_the_total() {
    let mut from = inventory_of(0, &[(ItemId::Terra, 40), (ItemId::Aqua, 8)]);
    let mut to = inventory_of(50, &[(ItemId::Terra, 5), (ItemId::Aer, 20)]);
    let before = from.total_quantity() + to.total_quantity();
    let moved = from.transfer_to(&mut to, ItemId::Terra, 100);
    assert_eq!(moved, 25);
    assert_eq!(from.total_quantity() + to.total_quantity(), before);
    assert_eq!(to.total_quantity(), 50);
    assert_eq!(to.quantity(ItemId::Terra), 30);
}

#[test]
fn can_craft_reports_missing_inputs() {
    let inventory = inventory_of(100, &[(ItemId::Photonite, 1)]);
    match inventory.can_craft(RecipeId::CraftPlasmaFuel) {
        CanCraftResult::MissingInputs(missing) => {
            assert_eq!(missing.len(), 1);
            assert_eq!(missing.get(&ItemId::Gravitonite), Some(&1));
        }
        _ => panic!("inputs should be missing"),
    }
}

#[test]
fn can_craft_reports_shortfalls() {
    let inventory = inventory_of(100, &[(ItemId::Astrium, 4)]);
    match inventory.can_craft(RecipeId::Foundry) {
        CanCraftResult::MissingInputs(missing) => {
            assert_eq!(missing.len(), 1);
            assert_eq!(missing.get(&ItemId::Astrium), Some(&6));
        }
        _ => panic!("inputs should be missing"),
    }
}

#[test]
fn can_craft_checks_space_first() {
    // Full inventory, and the recipe outputs as much as it consumes: fits.
    let inventory = inventory_of(1, &[(ItemId::ElectroniteOre, 1)]);
    assert!(inventory.can_craft(RecipeId::SmeltElectroniteOre).yes());
    // A full inventory without the inputs: the space check passes, the
    // inputs are missing.
    let full = inventory_of(1, &[(ItemId::Aer, 1)]);
    assert!(matches!(full.can_craft(RecipeId::SmeltElectroniteOre), CanCraftResult::MissingInputs(_)));
    // Building recipes output nothing into the inventory.
    assert!(full.can_craft(RecipeId::Quarry).yes());
}

#[test]
fn craft_items_consumes_inputs_and_adds_outputs() {
    let mut inventory = inventory_of(100, &[(ItemId::Electronite, 2), (ItemId::QuarkCrystal, 1)]);
    assert_eq!(inventory.craft(RecipeId::CraftComputingCore), None);
    assert_eq!(inventory.quantity(ItemId::Electronite), 1);
    assert_eq!(inventory.quantity(ItemId::QuarkCrystal), 0);
    assert!(inventory.items().get(&ItemId::QuarkCrystal).is_none());
    assert_eq!(inventory.quantity(ItemId::ComputingCore), 1);
}

#[test]
fn craft_building_returns_it() {
    let mut inventory = inventory_of(10, &[(ItemId::Astrium, 10)]);
    assert_eq!(inventory.craft(RecipeId::Foundry), Some(BuildingId::Foundry));
    assert!(inventory.items().is_empty());
}

#[test]
fn craft_without_inputs_does_nothing() {
    let mut inventory = inventory_of(10, &[(ItemId::Astrium, 9)]);
    assert_eq!(inventory.craft(RecipeId::Foundry), None);
    assert_eq!(inventory.quantity(ItemId::Astrium), 9);
}

#[test]
fn default_inventory_is_unlimited_and_empty() {
    let inventory = Inventory::default();
    assert!(inventory.items().is_empty());
    assert_eq!(inventory.remaining_space(), 0);
}

#[test]
fn size_and_checked_total() {
    let bounded = inventory_of(50, &[(ItemId::Aer, 10), (ItemId::Aqua, 5)]);
    assert_eq!(bounded.size(), 50);
    assert_eq!(bounded.checked_total_quantity(), Some(15));
    let huge = Inventory::from_elements(vec![
        ElementOnAstre { id: ItemId::Aer, quantity: u32::MAX },
        ElementOnAstre { id: ItemId::Aqua, quantity: 1 },
    ]);
    assert_eq!(huge.size(), 0);
    assert_eq!(huge.checked_total_quantity(), None);
}

#[test]
fn transfer_fits_detects_overflow() {
    let source = Inventory::from_elements(vec![ElementOnAstre { id: ItemId::Aer, quantity: 10 }]);
    let full = Inventory::from_elements(vec![ElementOnAstre { id: ItemId::Aer, quantity: u32::MAX - 5 }]);
    assert!(!source.transfer_fits_u32(&full, ItemId::Aer, 10));
    assert!(source.transfer_fits_u32(&full, ItemId::Aer, 5));
    // Nothing held: nothing moves, nothing overflows.
    assert!(source.transfer_fits_u32(&full, ItemId::Aqua, 10));
    // A bounded target only needs a total that fits.
    let bounded = inventory_of(100, &[(ItemId::Aer, 1)]);
    assert!(source.transfer_fits_u32(&bounded, ItemId::Aer, 10));
}

#[test]
fn craft_fits_detects_overflow() {
    let overflowing = Inventory::from_elements(vec![
        ElementOnAstre { id: ItemId::ElectroniteOre, quantity: 1 },
        ElementOnAstre { id: ItemId::Electronite, quantity: u32::MAX },
    ]);
    assert!(!overflowing.craft_fits_u32(RecipeId::SmeltElectroniteOre));
    let fine = Inventory::from_elements(vec![
        ElementOnAstre { id: ItemId::ElectroniteOre, quantity: 1 },
        ElementOnAstre { id: ItemId::Electronite, quantity: 7 },
    ]);
    assert!(fine.craft_fits_u32(RecipeId::SmeltElectroniteOre));
    // Without the inputs nothing is crafted, so nothing overflows.
    assert!(overflowing.craft_fits_u32(RecipeId::CraftPlasmaFuel));
    // A building output adds no item.
    assert!(overflowing.craft_fits_u32(RecipeId::Quarry));
}

#[test]
fn emptied_items_leave_all_ids() {
    let mut source = Inventory::from_elements(vec![
        ElementOnAstre { id: ItemId::ElectroniteOre, quantity: 1 },
        ElementOnAstre { id: ItemId::Aer, quantity: 3 },
    ]);
    let mut target = Inventory::new(100);
    assert_eq!(source.transfer_to(&mut target, ItemId::Aer, 3), 3);
    assert_eq!(source.all_ids(), vec![ItemId::ElectroniteOre]);
    assert_eq!(target.all_ids(), vec![ItemId::Aer]);
    // Crafting uses up the ore: its entry goes, the product's comes.
    assert_eq!(source.craft(RecipeId::SmeltElectroniteOre), None);
    assert_eq!(source.all_ids(), vec![ItemId::Electronite]);
    for id in source.all_ids() {
        assert!(source.quantity(id) > 0);
    }
}
