//! Buildings: placement, crafters, extractors and logistic freights.

pub mod building;
pub mod crafter;
pub mod extractor;
pub mod logistic_freight;
