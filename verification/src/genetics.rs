use vstd::prelude::*;
use rand::rngs::StdRng;

verus! {

/// The representation capability supplied by the integrator: what an
/// individual's genetic material is and how it is created, mutated and
/// recombined. The core never interprets the returned handles beyond
/// equality and copying, so nothing further is demanded of these methods.
pub trait Genetics {
    /// Produces a random individual of up to `max_points` code items.
    fn random_individual(&self, rng: &mut StdRng, max_points: usize) -> u64;

    /// Mutates the given individual by replacing `points` code items with
    /// new random code.
    fn mutate(&self, rng: &mut StdRng, individual: u64, points: usize) -> u64;

    /// Combines the code of two individuals by swapping `points` code
    /// items between them.
    fn crossover(
        &self,
        rng: &mut StdRng,
        individual_a: u64,
        individual_b: u64,
        points: usize,
    ) -> u64;
}

} // verus!
