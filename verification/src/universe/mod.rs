//! Objects of the solar system.

pub mod dockable_on_astre;
