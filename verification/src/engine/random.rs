//! Random choices, drawn from the generator of the `rand` crate.

use crate::engine::types::Coordinate;
use rand::Rng;
use rand::seq::SliceRandom;
use vstd::prelude::*;

verus! {

/// Calls `SliceRandom::shuffle` on the coordinates, with the generator
/// that `rand::rng` hands out. The order that comes out is random; it holds
/// the same coordinates, each as often as before.
#[verifier::external_body]
pub(crate) fn shuffle_coords(coords: &mut Vec<Coordinate>)
    ensures
        final(coords)@.to_multiset() == old(coords)@.to_multiset(),
{
    coords.shuffle(&mut rand::rng());
}

/// Calls `Rng::random_range` on `low..high`, with the generator that
/// `rand::rng` hands out: some number from `low` up to, not including,
/// `high`. An empty range makes the call panic, so `low` is below `high`.
#[verifier::external_body]
pub(crate) fn random_between(low: usize, high: usize) -> (r: usize)
    requires
        low < high,
    ensures
        low <= r < high,
{
    rand::rng().random_range(low..high)
}

} // verus!
