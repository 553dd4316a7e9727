//! Items, the inventories that hold them, recipes and the logistic network.

pub mod item;
pub mod element;
pub mod inventory;
pub mod item_map;
pub mod logistic;
pub mod recipe;
