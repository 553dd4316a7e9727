# astras

The rules of a space-factory game, verified with Verus: inventories and
crafting, element extraction on planets, the logistic network of requests,
providers and freights, docking on astres, and the naming of saved universes.

## Layout

- `src/` — the verified library.
  - `data.rs` — the catalogue: items, recipes and buildings.
  - `items/` — item maps (`item_map.rs`), inventories and crafting
    (`inventory.rs`), recipes, elements, and logistic requests and providers
    (`logistic.rs`).
  - `buildings/` — building data and placement, crafters, extractors, and the
    logistic freights that choose and follow journeys (`logistic_freight.rs`).
  - `universe/dockable_on_astre.rs` — docking decisions.
  - `order.rs` — the stable ordering used to rank requesters and color slots.
  - `save_load.rs` — save file names and paths.
  - `random.rs` — the random choices, made by `rand` and `uuid`.
  - `laws.rs` — properties that span several operations.
- `tests/` — tests of the library on concrete values.
- `app/` — the bevy game around the library: the world, timers, geometry,
  rendering, input and files.

Functions whose `requires` exclude overflowing inputs come with a checking
function (`transfer_fits_u32`, `craft_fits_u32`, `extract_fits`,
`transfer_items_fit`, `fulfillment_computable`, `find_journey_checked`) that
callers use to test the condition first.
