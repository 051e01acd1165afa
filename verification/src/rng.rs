//! The single random source shared by reproduction, selection and
//! migration, together with the trusted boundary to the `rand` crate.

use vstd::prelude::*;
use rand::Rng;
use rand::SeedableRng;
use rand::seq::SliceRandom;
use rand::rngs::StdRng;

verus! {

#[verifier::external_type_specification]
#[verifier::external_body]
pub struct ExStdRng(StdRng);

/// Relies on rand's `StdRng::seed_from_u64`: builds a generator whose
/// stream is determined by the seed alone.
#[verifier::external_body]
pub(crate) fn seed_rng(seed: u64) -> StdRng {
    StdRng::seed_from_u64(seed)
}

/// Relies on rand's `StdRng::from_rng` and `rand::rng`: builds a generator
/// seeded from the thread-local entropy source.
#[verifier::external_body]
pub(crate) fn entropy_rng() -> StdRng {
    StdRng::from_rng(&mut rand::rng())
}

/// Relies on rand's `Rng::random`: one draw from the full `u8` range;
/// nothing can be promised of the value.
#[verifier::external_body]
pub(crate) fn next_u8(rng: &mut StdRng) -> u8 {
    rng.random::<u8>()
}

/// Relies on rand's `Rng::random_range`: a draw from `0..bound`, which is
/// non-empty by the precondition, so the result is below the bound.
#[verifier::external_body]
pub(crate) fn next_index(rng: &mut StdRng, bound: usize) -> (r: usize)
    requires
        bound > 0,
    ensures
        r < bound,
{
    rng.random_range(0..bound)
}

/// Relies on rand's `SliceRandom::shuffle`: permutes the elements in
/// place, so the multiset of elements is unchanged.
#[verifier::external_body]
pub(crate) fn shuffle_indices(rng: &mut StdRng, items: &mut Vec<usize>)
    ensures
        final(items)@.to_multiset() == old(items)@.to_multiset(),
        final(items)@.len() == old(items)@.len(),
{
    items.shuffle(rng)
}

} // verus!
