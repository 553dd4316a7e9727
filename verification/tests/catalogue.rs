use astras::data::{BuildingId, ItemId, RecipeId};
use astras::items::element::{element_state, icon_name, ElementOnAstre, ElementState};
use astras::items::recipe::RecipeOutputs;
use astras::save_load::{save_asset_path, save_file_path, universe_name_of_file};
use rand::rngs::StdRng;
use rand::SeedableRng;

#[test]
fn catalogue_sizes() {
    assert_eq!(ItemId::all().len(), 12);
    assert_eq!(RecipeId::all().len(), 14);
    assert_eq!(BuildingId::all().len(), 11);
    assert_eq!(ItemId::QuarkCrystal.data().name, "Quark Crystal");
    assert_eq!(ItemId::Aer.data().description, "Mundane gas");
}

#[test]
fn recipe_quantities() {
    let recipe = RecipeId::CraftComputingCore.data();
    assert_eq!(recipe.inputs_quantity(), 2);
    assert_eq!(recipe.outputs_quantity(), 1);
    assert_eq!(recipe.time_millis(), 2000);
    assert_eq!(recipe.inputs(), &vec![(ItemId::Electronite, 1), (ItemId::QuarkCrystal, 1)]);
    let foundry = RecipeId::Foundry.data();
    assert_eq!(foundry.inputs_quantity(), 10);
    assert_eq!(foundry.outputs_quantity(), 0);
    assert!(matches!(foundry.outputs(), RecipeOutputs::Building(BuildingId::Foundry)));
}

#[test]
fn element_states_and_icons() {
    assert_eq!(element_state(ItemId::Aer), Some(ElementState::Gas));
    assert_eq!(element_state(ItemId::Aqua), Some(ElementState::Liquid));
    assert_eq!(element_state(ItemId::Gravitonite), Some(ElementState::Plasma));
    assert_eq!(element_state(ItemId::PlasmaFuel), None);
    assert_eq!(icon_name(ItemId::Terra), "solid");
    assert_eq!(icon_name(ItemId::Aer), "gas");
    assert_eq!(icon_name(ItemId::ComputingCore), "item");
}

#[test]
fn random_elements_takes_distinct_elements_of_the_states() {
    let mut rng = StdRng::seed_from_u64(7);
    let elements = ElementOnAstre::random_elements(&mut rng, 2, 50, &vec![ElementState::Solid]);
    assert_eq!(elements.len(), 2);
    assert_ne!(elements[0].id, elements[1].id);
    for e in &elements {
        assert_eq!(element_state(e.id), Some(ElementState::Solid));
        assert!(1 <= e.quantity && e.quantity <= 50);
    }
    // Asking for more than there are gives them all, in item order.
    let all = ElementOnAstre::random_elements(&mut rng, 10, 1, &vec![ElementState::Plasma]);
    let ids: Vec<ItemId> = all.iter().map(|e| e.id).collect();
    assert_eq!(ids, vec![ItemId::Photonite, ItemId::Gravitonite, ItemId::Neutronite]);
    assert!(all.iter().all(|e| e.quantity == 1));
    // No state, no element.
    assert!(ElementOnAstre::random_elements(&mut rng, 3, 0, &[]).is_empty());
}

#[test]
fn save_paths() {
    assert_eq!(save_file_path("universe_1"), "assets/saves/universe_1.scn.ron");
    assert_eq!(save_asset_path("universe_1"), "saves/universe_1.scn.ron");
}

#[test]
fn universe_names_of_files() {
    assert_eq!(universe_name_of_file("universe_1.scn.ron"), Some("universe_1".to_string()));
    assert_eq!(universe_name_of_file("a.scn.ron.scn.ron"), Some("a.scn.ron".to_string()));
    assert_eq!(universe_name_of_file("scn.ron"), Some("scn.ron".to_string()));
    assert_eq!(universe_name_of_file("notes.txt"), None);
    assert_eq!(universe_name_of_file(""), None);
}

#[test]
fn color_slots_follow_increasing_quantity() {
    let elements = vec![
        ElementOnAstre { id: ItemId::Aer, quantity: 5 },
        ElementOnAstre { id: ItemId::Terra, quantity: 2 },
        ElementOnAstre { id: ItemId::Aqua, quantity: 5 },
    ];
    // Terra has the least; Aer comes before Aqua among equal quantities.
    assert_eq!(ElementOnAstre::color_slot_ids(&elements, 3), vec![ItemId::Terra, ItemId::Aer, ItemId::Aqua]);
    // Slots past the last element repeat it.
    assert_eq!(
        ElementOnAstre::color_slot_ids(&elements, 5),
        vec![ItemId::Terra, ItemId::Aer, ItemId::Aqua, ItemId::Aqua, ItemId::Aqua]
    );
    let single = vec![ElementOnAstre { id: ItemId::Aer, quantity: 3 }];
    assert_eq!(ElementOnAstre::color_slot_ids(&single, 3), vec![ItemId::Aer, ItemId::Aer, ItemId::Aer]);
    assert!(ElementOnAstre::color_slot_ids(&elements, 0).is_empty());
}

#[test]
fn saved_universe_is_listed_under_its_name() {
    for name in ["universe_1700000000000", "a.scn", "my.scn.world"] {
        let path = save_file_path(name);
        let file_name = path.strip_prefix("assets/saves/").unwrap();
        assert_eq!(universe_name_of_file(file_name), Some(name.to_string()));
        assert_eq!(format!("assets/{}", save_asset_path(name)), path);
    }
}
