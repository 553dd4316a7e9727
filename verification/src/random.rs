//! Random choices, made by the `rand` and `uuid` crates.

use vstd::prelude::*;

use crate::data::ItemId;
use rand::rngs::{StdRng, ThreadRng};
use rand::seq::{IndexedRandom, IteratorRandom};
use rand::Rng;

verus! {

#[verifier::external_type_specification]
#[verifier::external_body]
pub struct ExStdRng(StdRng);

#[verifier::external_type_specification]
#[verifier::external_body]
pub struct ExThreadRng(ThreadRng);

/// `rand::rng`: the thread-local generator.  Nothing is promised of it.
#[verifier::external_body]
pub(crate) fn thread_rng() -> ThreadRng {
    rand::rng()
}

/// `Rng::random_range` on `low..=high`: a number between the two bounds.
#[verifier::external_body]
pub(crate) fn random_range_inclusive(rng: &mut StdRng, low: u32, high: u32) -> (r: u32)
    requires
        low <= high,
    ensures
        low <= r <= high,
{
    rng.random_range(low..=high)
}

/// `IteratorRandom::choose_multiple`: `amount` of the candidates (all of them,
/// in order, when there are no more than `amount`), each candidate taken at
/// most once.
#[verifier::external_body]
pub(crate) fn choose_multiple_ids(rng: &mut StdRng, candidates: Vec<ItemId>, amount: usize) -> (r: Vec<ItemId>)
    ensures
        r@.len() == (if amount <= candidates@.len() {
            amount as int
        } else {
            candidates@.len() as int
        }),
        forall|i: int| 0 <= i < r@.len() ==> candidates@.contains(#[trigger] r@[i]),
        candidates@.no_duplicates() ==> r@.no_duplicates(),
        amount >= candidates@.len() ==> r@ == candidates@,
{
    candidates.into_iter().choose_multiple(rng, amount)
}

/// Sum of the weights of weighted candidates.
pub open spec fn weights_total(candidates: Seq<(ItemId, u32)>) -> int
    decreases candidates.len(),
{
    if candidates.len() == 0 {
        0
    } else {
        weights_total(candidates.drop_last()) + candidates.last().1
    }
}

/// `IndexedRandom::choose_weighted`, weighted by the second field: a candidate
/// of positive weight, or nothing when there is no candidate, when every weight
/// is zero, or when the sum of the weights overflows `u32`.
#[verifier::external_body]
pub(crate) fn choose_weighted_id(rng: &mut ThreadRng, candidates: &Vec<(ItemId, u32)>) -> (r: Option<ItemId>)
    ensures
        r is None <==> (candidates@.len() == 0 || weights_total(candidates@) == 0
            || weights_total(candidates@) > u32::MAX),
        r matches Some(id) ==> exists|i: int|
            0 <= i < candidates@.len() && #[trigger] candidates@[i].0 == id && candidates@[i].1 > 0,
{
    candidates.choose_weighted(rng, |candidate| candidate.1).ok().map(|candidate| candidate.0)
}

/// `Uuid::new_v4`, as its 128-bit value: random, with the version bits set to 4
/// and the variant bits to RFC 4122.
#[verifier::external_body]
pub(crate) fn new_v4_id() -> (r: u128)
    ensures
        r & 0xF000_C000_0000_0000_0000u128 == 0x4000_8000_0000_0000_0000u128,
{
    uuid::Uuid::new_v4().as_u128()
}

} // verus!
