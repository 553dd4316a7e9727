//! Game logic of Astras: item inventories, crafting recipes, extractors and the
//! logistic network that moves items between buildings.

pub mod data;
pub mod items;
pub mod laws;
pub mod order;
pub mod buildings;
pub mod random;
pub mod save_load;
pub mod universe;
