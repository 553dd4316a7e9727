//! Static description of an item kind.

use vstd::prelude::*;

verus! {

/// Name and description of an item kind.
pub struct Item {
    pub name: &'static str,
    pub description: &'static str,
}

} // verus!
