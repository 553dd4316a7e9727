use astras::buildings::logistic_freight::{
    FreightCommand, FreightPlace, LogisticFreight, ProviderCandidate, RequesterCandidate,
    transfer_first,
};
use astras::data::ItemId;
use astras::items::element::ElementOnAstre;
use astras::items::inventory::Inventory;
use astras::items::item_map::ItemMap;
use astras::items::logistic::{LogisticProvider, LogisticRequest, LogisticScope};

fn items(entries: &[(ItemId, u32)]) -> ItemMap {
    let mut m = ItemMap::default();
    for &(id, q) in entries {
        m.insert(id, q);
    }
    m
}

fn stock(entries: &[(ItemId, u32)]) -> Inventory {
    Inventory::from_elements(
        entries
            .iter()
            .map(|&(id, quantity)| ElementOnAstre { id, quantity })
            .collect(),
    )
}

#[test]
fn opposite_scope() {
    assert_eq!(LogisticScope::Planet.opposite(), LogisticScope::SolarSystem);
    assert_eq!(LogisticScope::SolarSystem.opposite(), LogisticScope::Planet);
    assert_eq!(LogisticScope::Planet.opposite().opposite(), LogisticScope::Planet);
    assert_eq!(LogisticScope::Planet.label(), "Planet");
    assert_eq!(LogisticScope::SolarSystem.label(), "Solar System");
}

#[test]
fn new_request_has_a_v4_id() {
    let request = LogisticRequest::new(items(&[(ItemId::Aer, 3)]), LogisticScope::Planet);
    let id = request.id();
    assert_eq!((id >> 76) & 0xF, 4);
    assert_eq!((id >> 62) & 0x3, 2);
    assert!(request.freights.is_empty());
    assert_eq!(request.items().get(&ItemId::Aer), Some(&3));
}

#[test]
fn set_items_changes_the_id() {
    let mut request = LogisticRequest::new(items(&[(ItemId::Aer, 3)]), LogisticScope::Planet);
    let before = request.id();
    request.set_items(items(&[(ItemId::Aqua, 1)]));
    assert_ne!(request.id(), before);
    assert_eq!(request.items().get(&ItemId::Aqua), Some(&1));
    assert!(request.items().get(&ItemId::Aer).is_none());
}

#[test]
fn add_and_remove_item() {
    let mut request = LogisticRequest::new(items(&[]), LogisticScope::SolarSystem);
    request.add_item(ItemId::Terra, 2);
    request.add_item(ItemId::Terra, 3);
    assert_eq!(request.items().get(&ItemId::Terra), Some(&5));
    request.remove_item(ItemId::Terra, 2);
    assert_eq!(request.items().get(&ItemId::Terra), Some(&3));
    request.remove_item(ItemId::Terra, 3);
    assert!(request.items().is_empty());
    // Removing an absent item does nothing.
    request.remove_item(ItemId::Aqua, 3);
    assert!(request.items().is_empty());
    assert_eq!(*request.scope(), LogisticScope::SolarSystem);
}

#[test]
fn add_then_remove_restores_the_request() {
    let mut request = LogisticRequest::new(items(&[(ItemId::Aer, 4)]), LogisticScope::Planet);
    request.add_item(ItemId::Aer, 6);
    request.remove_item(ItemId::Aer, 6);
    assert_eq!(request.items(), &items(&[(ItemId::Aer, 4)]));
    request.add_item(ItemId::Aqua, 2);
    request.remove_item(ItemId::Aqua, 2);
    assert_eq!(request.items(), &items(&[(ItemId::Aer, 4)]));
}

#[test]
fn remove_then_add_restores_the_request() {
    let mut request = LogisticRequest::new(items(&[(ItemId::Aer, 4), (ItemId::Aqua, 1)]), LogisticScope::Planet);
    request.remove_item(ItemId::Aer, 3);
    request.add_item(ItemId::Aer, 3);
    assert_eq!(request.items(), &items(&[(ItemId::Aer, 4), (ItemId::Aqua, 1)]));
    // Taking everything drops the entry; putting it back restores it.
    request.remove_item(ItemId::Aqua, 1);
    request.add_item(ItemId::Aqua, 1);
    assert_eq!(request.items(), &items(&[(ItemId::Aer, 4), (ItemId::Aqua, 1)]));
}

#[test]
fn edit_item_and_single() {
    let mut request = LogisticRequest::single(ItemId::Aqua, LogisticScope::SolarSystem);
    assert_eq!(request.items(), &items(&[(ItemId::Aqua, 1)]));
    assert_eq!(*request.scope(), LogisticScope::SolarSystem);
    request.edit_item(ItemId::Aqua, false);
    assert_eq!(request.items(), &items(&[(ItemId::Aqua, 2)]));
    request.edit_item(ItemId::Aqua, true);
    request.edit_item(ItemId::Aqua, true);
    assert!(request.items().is_empty());
}

#[test]
fn fulfillment_is_a_percentage() {
    let request = LogisticRequest::new(items(&[(ItemId::Aer, 4), (ItemId::Aqua, 2)]), LogisticScope::Planet);
    assert_eq!(request.compute_fulfillment_percentage(&stock(&[(ItemId::Aer, 10), (ItemId::Aqua, 2)])), 100);
    // 5 of the 6 requested items are covered: 500 / 6, rounded down.
    assert_eq!(request.compute_fulfillment_percentage(&stock(&[(ItemId::Aer, 10), (ItemId::Aqua, 1)])), 83);
    assert_eq!(request.compute_fulfillment_percentage(&stock(&[])), 0);
}

#[test]
fn half_a_request_is_fifty_percent() {
    let request = LogisticRequest::new(items(&[(ItemId::Terra, 10)]), LogisticScope::Planet);
    let provider = Inventory::from(vec![ElementOnAstre { id: ItemId::Terra, quantity: 5 }]);
    assert_eq!(request.compute_fulfillment_percentage(&provider), 50);
}

#[test]
fn less_than_a_hundredth_rounds_down_to_zero() {
    let request = LogisticRequest::new(items(&[(ItemId::Aer, 1000)]), LogisticScope::Planet);
    assert_eq!(request.compute_fulfillment_percentage(&stock(&[(ItemId::Aer, 9)])), 0);
    assert_eq!(request.compute_fulfillment_percentage(&stock(&[(ItemId::Aer, 10)])), 1);
    // Items that are not requested do not count.
    assert_eq!(request.compute_fulfillment_percentage(&stock(&[(ItemId::Aqua, 1000)])), 0);
}

#[test]
fn remove_freight_keeps_the_others_in_order() {
    let mut request = LogisticRequest::new(items(&[(ItemId::Aer, 1)]), LogisticScope::Planet);
    request.freights = vec![3, 7, 3, 9];
    request.remove_freight(3);
    assert_eq!(request.freights, vec![7, 9]);
    let mut provider = LogisticProvider::new(LogisticScope::SolarSystem);
    provider.freights = vec![1, 2];
    provider.remove_freight(2);
    assert_eq!(provider.freights, vec![1]);
    assert_eq!(*provider.scope(), LogisticScope::SolarSystem);
}

#[test]
fn register_then_unregister() {
    let mut freight = LogisticFreight::new_planet();
    let mut request = LogisticRequest::new(items(&[(ItemId::Aer, 1)]), LogisticScope::Planet);
    request.freights = vec![5];
    let mut provider = LogisticProvider::new(LogisticScope::Planet);
    freight.register(42, 10, &mut request, 20, &mut provider);
    assert_eq!(request.freights, vec![5, 42]);
    assert_eq!(provider.freights, vec![42]);
    let journey = freight.logistic_journey().unwrap();
    assert_eq!(journey.request_id(), request.id());
    assert_eq!(journey.provider(), 20);
    assert_eq!(journey.requester(), 10);
    assert_eq!(freight.move_target(), None);

    let taken = freight.take_journey().unwrap();
    assert_eq!(taken.provider(), 20);
    assert!(freight.logistic_journey().is_none());
    request.remove_freight(42);
    provider.remove_freight(42);
    assert_eq!(request.freights, vec![5]);
    assert!(provider.freights.is_empty());
}

fn place(parent: u64, ancestors: &[u64]) -> FreightPlace {
    FreightPlace { parent, ancestors: ancestors.to_vec() }
}

#[test]
fn find_journey_on_a_planet() {
    let freight = LogisticFreight::new_planet();
    let request = LogisticRequest::new(items(&[(ItemId::Aer, 4)]), LogisticScope::Planet);
    let provider = LogisticProvider::new(LogisticScope::Planet);
    let full = stock(&[(ItemId::Aer, 10)]);
    let partial = stock(&[(ItemId::Aer, 2)]);
    let requesters = vec![RequesterCandidate { entity: 1, request: &request, parent: 100, ancestors: vec![100, 1000] }];
    let providers = vec![
        ProviderCandidate { entity: 2, provider: &provider, inventory: &partial, parent: 100, ancestors: vec![100, 1000] },
        ProviderCandidate { entity: 3, provider: &provider, inventory: &full, parent: 200, ancestors: vec![200, 1000] },
        ProviderCandidate { entity: 4, provider: &provider, inventory: &full, parent: 100, ancestors: vec![100, 1000] },
    ];
    assert_eq!(freight.find_journey(&place(100, &[100, 1000]), &requesters, &providers), Some((1, 4)));
    // On another planet there is no requester within reach.
    assert_eq!(freight.find_journey(&place(300, &[300, 1000]), &requesters, &providers), None);
}

#[test]
fn find_journey_prefers_requesters_with_fewer_freights() {
    let freight = LogisticFreight::new_solar_system();
    let mut busy = LogisticRequest::new(items(&[(ItemId::Aer, 1)]), LogisticScope::SolarSystem);
    busy.freights = vec![77];
    let idle = LogisticRequest::new(items(&[(ItemId::Aqua, 1)]), LogisticScope::SolarSystem);
    let provider = LogisticProvider::new(LogisticScope::SolarSystem);
    let both = stock(&[(ItemId::Aer, 1), (ItemId::Aqua, 1)]);
    let requesters = vec![
        RequesterCandidate { entity: 1, request: &busy, parent: 100, ancestors: vec![100, 1000] },
        RequesterCandidate { entity: 2, request: &idle, parent: 200, ancestors: vec![200, 1000] },
    ];
    let providers = vec![ProviderCandidate { entity: 3, provider: &provider, inventory: &both, parent: 300, ancestors: vec![300, 1000] }];
    assert_eq!(freight.find_journey(&place(400, &[400, 1000]), &requesters, &providers), Some((2, 3)));
    // A freight of another solar system reaches nobody.
    assert_eq!(freight.find_journey(&place(400, &[400, 2000]), &requesters, &providers), None);
}

#[test]
fn find_journey_prefers_providers_with_fewer_freights() {
    let freight = LogisticFreight::new_planet();
    let request = LogisticRequest::new(items(&[(ItemId::Aer, 1)]), LogisticScope::Planet);
    let mut busy = LogisticProvider::new(LogisticScope::Planet);
    busy.freights = vec![8, 9];
    let mut less_busy = LogisticProvider::new(LogisticScope::Planet);
    less_busy.freights = vec![8];
    let full = stock(&[(ItemId::Aer, 1)]);
    let idle = LogisticProvider::new(LogisticScope::Planet);
    let requesters = vec![RequesterCandidate { entity: 1, request: &request, parent: 100, ancestors: vec![100] }];
    let providers = vec![
        ProviderCandidate { entity: 2, provider: &busy, inventory: &full, parent: 100, ancestors: vec![100] },
        ProviderCandidate { entity: 3, provider: &less_busy, inventory: &full, parent: 100, ancestors: vec![100] },
        ProviderCandidate { entity: 4, provider: &less_busy, inventory: &full, parent: 100, ancestors: vec![100] },
        // The requester never provides to itself.
        ProviderCandidate { entity: 1, provider: &idle, inventory: &full, parent: 100, ancestors: vec![100] },
    ];
    assert_eq!(freight.find_journey(&place(100, &[100]), &requesters, &providers), Some((1, 3)));
}

#[test]
fn find_journey_ignores_other_scopes() {
    let freight = LogisticFreight::new_planet();
    let request = LogisticRequest::new(items(&[(ItemId::Aer, 1)]), LogisticScope::SolarSystem);
    let provider = LogisticProvider::new(LogisticScope::Planet);
    let full = stock(&[(ItemId::Aer, 1)]);
    let requesters = vec![RequesterCandidate { entity: 1, request: &request, parent: 100, ancestors: vec![100] }];
    let providers = vec![ProviderCandidate { entity: 2, provider: &provider, inventory: &full, parent: 100, ancestors: vec![100] }];
    assert_eq!(freight.find_journey(&place(100, &[100]), &requesters, &providers), None);
}

fn registered(request: &mut LogisticRequest) -> LogisticFreight {
    let mut freight = LogisticFreight::new_planet();
    let mut provider = LogisticProvider::new(LogisticScope::Planet);
    freight.register(42, 10, request, 20, &mut provider);
    freight
}

#[test]
fn follow_journey_fetches_from_the_provider() {
    let mut request = LogisticRequest::new(items(&[(ItemId::Aer, 4)]), LogisticScope::Planet);
    let mut freight = registered(&mut request);
    let empty = Inventory::new(100);
    assert!(matches!(freight.follow_journey(&empty, Some(&request), true, false, false), FreightCommand::Wait));
    assert_eq!(freight.move_target(), Some(20));
    match freight.follow_journey(&empty, Some(&request), true, false, true) {
        FreightCommand::Transfer { items: moved, partner, from_provider } => {
            assert_eq!(moved, items(&[(ItemId::Aer, 4)]));
            assert_eq!(partner, 20);
            assert!(from_provider);
        }
        _ => panic!("expected a transfer"),
    }
    assert_eq!(freight.move_target(), None);
}

#[test]
fn follow_journey_delivers_to_the_requester() {
    let mut request = LogisticRequest::new(items(&[(ItemId::Aer, 4)]), LogisticScope::Planet);
    let mut freight = registered(&mut request);
    let loaded = stock(&[(ItemId::Aer, 4)]);
    assert!(matches!(freight.follow_journey(&loaded, Some(&request), true, false, false), FreightCommand::Wait));
    assert_eq!(freight.move_target(), Some(10));
    match freight.follow_journey(&loaded, Some(&request), false, true, false) {
        FreightCommand::Transfer { partner, from_provider, .. } => {
            assert_eq!(partner, 10);
            assert!(!from_provider);
        }
        _ => panic!("expected a transfer"),
    }
}

#[test]
fn follow_journey_drops_or_unregisters() {
    let mut request = LogisticRequest::new(items(&[(ItemId::Aer, 4)]), LogisticScope::Planet);
    let mut freight = registered(&mut request);
    let empty = Inventory::new(100);
    // The provider is gone while items must be fetched: the journey is dropped.
    assert!(matches!(freight.follow_journey(&empty, Some(&request), false, false, false), FreightCommand::Wait));
    assert!(freight.logistic_journey().is_none());

    let mut freight = registered(&mut request);
    // The request changed: unregister.
    request.set_items(items(&[(ItemId::Aqua, 1)]));
    assert!(matches!(freight.follow_journey(&empty, Some(&request), true, true, true), FreightCommand::Unregister));
    assert!(freight.logistic_journey().is_some());

    // The requester is gone: the journey is dropped.
    assert!(matches!(freight.follow_journey(&empty, None, true, true, true), FreightCommand::Wait));
    assert!(freight.logistic_journey().is_none());
}

#[test]
fn transfer_items_moves_one_entry() {
    let freight = LogisticFreight::new_planet();
    let mut from = stock(&[(ItemId::Aer, 500), (ItemId::Aqua, 3)]);
    let mut to = Inventory::new(1000);
    let order = items(&[(ItemId::Aer, 300), (ItemId::Aqua, 3)]);
    let moved = freight.transfer_items(&order, &mut from, &mut to).unwrap();
    match moved {
        (ItemId::Aer, q) => {
            // Capped at 100 per transfer.
            assert_eq!(q, 100);
            assert_eq!(from.quantity(ItemId::Aer), 400);
            assert_eq!(to.quantity(ItemId::Aqua), 0);
        }
        (ItemId::Aqua, q) => {
            assert_eq!(q, 3);
            assert_eq!(from.quantity(ItemId::Aer), 500);
        }
        _ => panic!("unexpected item"),
    }
    assert_eq!(to.total_quantity(), moved.1);
    // Nothing to move: None.
    let mut empty = Inventory::new(0);
    assert_eq!(freight.transfer_items(&order, &mut empty, &mut to), None);
}

#[test]
fn transfer_first_takes_the_first_movable_entry() {
    let mut from = stock(&[(ItemId::Aqua, 3)]);
    let mut to = Inventory::new(0);
    let entries = vec![(ItemId::Aer, 5), (ItemId::Aqua, 2), (ItemId::Aqua, 1)];
    assert_eq!(transfer_first(&entries, 100, &mut from, &mut to), Some((ItemId::Aqua, 2)));
    assert_eq!(from.quantity(ItemId::Aqua), 1);
    assert_eq!(transfer_first(&entries, 0, &mut from, &mut to), None);
}

#[test]
fn freight_constructors() {
    let planet = LogisticFreight::new_planet();
    assert_eq!(*planet.scope(), LogisticScope::Planet);
    assert_eq!(planet.max_amount_per_transfer(), 100);
    assert!(planet.logistic_journey().is_none());
    let system = LogisticFreight::new_solar_system();
    assert_eq!(*system.scope(), LogisticScope::SolarSystem);
    assert_eq!(LogisticFreight::default().max_amount_per_transfer(), 0);
}

#[test]
fn fulfillment_is_computable_for_measurable_requests() {
    let empty = Inventory::new(0);
    assert!(LogisticRequest::new(items(&[(ItemId::Aer, 4)]), LogisticScope::Planet).fulfillment_computable(&empty));
    assert!(!LogisticRequest::new(items(&[]), LogisticScope::Planet).fulfillment_computable(&empty));
    let big = u32::MAX / 100 + 1;
    let request = LogisticRequest::new(items(&[(ItemId::Aer, big)]), LogisticScope::Planet);
    // Nothing covered: 0 times 100 fits.
    assert!(request.fulfillment_computable(&empty));
    // All covered: the covered quantity times 100 overflows.
    assert!(!request.fulfillment_computable(&stock(&[(ItemId::Aer, big)])));
    let request = LogisticRequest::new(items(&[(ItemId::Aer, big - 1)]), LogisticScope::Planet);
    assert!(request.fulfillment_computable(&stock(&[(ItemId::Aer, big - 1)])));
    // The requested total itself overflows.
    let huge = LogisticRequest::new(items(&[(ItemId::Aer, u32::MAX), (ItemId::Aqua, 1)]), LogisticScope::Planet);
    assert!(!huge.fulfillment_computable(&empty));
}

#[test]
fn find_journey_prefers_the_best_fulfillment() {
    let freight = LogisticFreight::new_planet();
    let request = LogisticRequest::new(items(&[(ItemId::Aer, 4)]), LogisticScope::Planet);
    let idle = LogisticProvider::new(LogisticScope::Planet);
    let mut busy = LogisticProvider::new(LogisticScope::Planet);
    busy.add_freight(50);
    let full = stock(&[(ItemId::Aer, 4)]);
    let quarter = stock(&[(ItemId::Aer, 1)]);
    let requesters = vec![RequesterCandidate { entity: 1, request: &request, parent: 100, ancestors: vec![100] }];
    // A busier provider with everything beats an idle one with a quarter.
    let providers = vec![
        ProviderCandidate { entity: 2, provider: &idle, inventory: &quarter, parent: 100, ancestors: vec![100] },
        ProviderCandidate { entity: 3, provider: &busy, inventory: &full, parent: 100, ancestors: vec![100] },
    ];
    assert_eq!(freight.find_journey(&place(100, &[100]), &requesters, &providers), Some((1, 3)));
    // A provider that covers part of the request is taken when nothing better is there.
    let providers = vec![ProviderCandidate { entity: 2, provider: &idle, inventory: &quarter, parent: 100, ancestors: vec![100] }];
    assert_eq!(freight.find_journey(&place(100, &[100]), &requesters, &providers), Some((1, 2)));
    // A provider that covers nothing is never taken.
    let nothing = stock(&[(ItemId::Aqua, 4)]);
    let providers = vec![ProviderCandidate { entity: 2, provider: &idle, inventory: &nothing, parent: 100, ancestors: vec![100] }];
    assert_eq!(freight.find_journey(&place(100, &[100]), &requesters, &providers), None);
}

#[test]
fn follow_journey_delivers_a_partial_load() {
    let mut request = LogisticRequest::new(items(&[(ItemId::Aer, 4)]), LogisticScope::Planet);
    let mut freight = registered(&mut request);
    let partial = stock(&[(ItemId::Aer, 1)]);
    // A quarter of the request is on board: the freight heads to the requester.
    assert!(matches!(freight.follow_journey(&partial, Some(&request), true, false, false), FreightCommand::Wait));
    assert_eq!(freight.move_target(), Some(10));
}

#[test]
fn checked_journey_search_reports_empty_requests() {
    let freight = LogisticFreight::new_planet();
    let empty = LogisticRequest::new(items(&[]), LogisticScope::Planet);
    let wanting = LogisticRequest::new(items(&[(ItemId::Aer, 1)]), LogisticScope::Planet);
    let provider = LogisticProvider::new(LogisticScope::Planet);
    let full = stock(&[(ItemId::Aer, 1)]);
    let providers = vec![ProviderCandidate { entity: 3, provider: &provider, inventory: &full, parent: 100, ancestors: vec![100] }];
    // The empty request is looked at first and has a provider: the search cannot score it.
    let requesters = vec![
        RequesterCandidate { entity: 1, request: &empty, parent: 100, ancestors: vec![100] },
        RequesterCandidate { entity: 2, request: &wanting, parent: 100, ancestors: vec![100] },
    ];
    assert_eq!(freight.find_journey_checked(&place(100, &[100]), &requesters, &providers), None);
    // Out of reach, the empty request is never scored.
    let requesters = vec![
        RequesterCandidate { entity: 1, request: &empty, parent: 200, ancestors: vec![200] },
        RequesterCandidate { entity: 2, request: &wanting, parent: 100, ancestors: vec![100] },
    ];
    assert_eq!(freight.find_journey_checked(&place(100, &[100]), &requesters, &providers), Some(Some((2, 3))));
}

#[test]
fn transfer_items_fit_detects_overflow() {
    let freight = LogisticFreight::new_planet();
    let from = stock(&[(ItemId::Aer, 500)]);
    let nearly_full = stock(&[(ItemId::Aer, u32::MAX - 50)]);
    // At most 100 move per transfer, which does not fit.
    assert!(!freight.transfer_items_fit(&items(&[(ItemId::Aer, 400)]), &from, &nearly_full));
    assert!(freight.transfer_items_fit(&items(&[(ItemId::Aer, 40)]), &from, &nearly_full));
    assert!(freight.transfer_items_fit(&items(&[(ItemId::Aqua, 400)]), &from, &nearly_full));
}
