use vstd::prelude::*;
use rand::rngs::StdRng;
use crate::error::GeneticError;
use crate::genetics::Genetics;
use crate::genetic_engine_builder::GeneticEngineBuilder;
use crate::rng::{entropy_rng, next_u8, seed_rng};

verus! {

/// The stochastic reproduction engine: owns the single random source and
/// the operator rates, and produces new individuals by delegating
/// representation-specific work to the genetics capability.
pub struct GeneticEngine<G: Genetics> {
    rng: StdRng,
    mutation_rate: u8,
    crossover_rate: u8,
    max_mutation_points: u8,
    max_crossover_points: u8,
    max_individual_points: usize,
    genetics: G,
}

impl<G: Genetics> GeneticEngine<G> {
    pub closed spec fn mutation_rate_spec(&self) -> u8 {
        self.mutation_rate
    }

    pub closed spec fn crossover_rate_spec(&self) -> u8 {
        self.crossover_rate
    }

    pub closed spec fn max_mutation_points_spec(&self) -> u8 {
        self.max_mutation_points
    }

    pub closed spec fn max_crossover_points_spec(&self) -> u8 {
        self.max_crossover_points
    }

    pub closed spec fn max_individual_points_spec(&self) -> usize {
        self.max_individual_points
    }

    /// The rates and point bounds that build-time validation establishes
    /// and that every draw relies on: the draw range `[0, mutation_rate +
    /// crossover_rate)` is non-empty and fits in a byte, each operator
    /// that can be drawn has at least one point to apply, and individuals
    /// have a positive size bound.
    pub open spec fn wf(&self) -> bool {
        &&& 1 <= self.mutation_rate_spec() + self.crossover_rate_spec() <= 255
        &&& (self.mutation_rate_spec() > 0 ==> self.max_mutation_points_spec() >= 1)
        &&& (self.crossover_rate_spec() > 0 ==> self.max_crossover_points_spec() >= 1)
        &&& self.max_individual_points_spec() > 0
    }

    /// The configuration half of the engine, rates and bounds but not the
    /// random source, is unchanged from `other`.
    pub open spec fn same_config(&self, other: &Self) -> bool {
        &&& self.mutation_rate_spec() == other.mutation_rate_spec()
        &&& self.crossover_rate_spec() == other.crossover_rate_spec()
        &&& self.max_mutation_points_spec() == other.max_mutation_points_spec()
        &&& self.max_crossover_points_spec() == other.max_crossover_points_spec()
        &&& self.max_individual_points_spec() == other.max_individual_points_spec()
    }

    pub(crate) fn new(builder: GeneticEngineBuilder<G>) -> (r: Self)
        requires
            builder.genetics is Some,
            1 <= builder.mutation_rate + builder.crossover_rate <= 255,
            builder.mutation_rate > 0 ==> builder.max_mutation_points >= 1,
            builder.crossover_rate > 0 ==> builder.max_crossover_points >= 1,
            builder.max_individual_points > 0,
        ensures
            r.wf(),
            r.mutation_rate_spec() == builder.mutation_rate,
            r.crossover_rate_spec() == builder.crossover_rate,
            r.max_mutation_points_spec() == builder.max_mutation_points,
            r.max_crossover_points_spec() == builder.max_crossover_points,
            r.max_individual_points_spec() == builder.max_individual_points,
    {
        let rng = match builder.seed {
            Some(seed) => seed_rng(seed),
            None => entropy_rng(),
        };
        GeneticEngine {
            rng,
            mutation_rate: builder.mutation_rate,
            crossover_rate: builder.crossover_rate,
            max_mutation_points: builder.max_mutation_points,
            max_crossover_points: builder.max_crossover_points,
            max_individual_points: builder.max_individual_points,
            genetics: builder.genetics.unwrap(),
        }
    }

    /// Grants crate-internal access to the shared random source, so that
    /// selection and migration draw from the same reproducible stream.
    pub(crate) fn rng(&mut self) -> (r: &mut StdRng)
        ensures
            final(self).same_config(old(self)),
            old(self).wf() ==> final(self).wf(),
    {
        &mut self.rng
    }

    /// One draw from `[0, n)`; `n` must be positive.
    fn random_zero_to_n(&mut self, n: u8) -> (r: u8)
        requires
            n > 0,
        ensures
            r < n,
            final(self).same_config(old(self)),
            old(self).wf() ==> final(self).wf(),
    {
        next_u8(&mut self.rng) % n
    }

    /// Produces a random individual of up to `max_individual_points` code
    /// items.
    pub fn rand_individual(&mut self) -> (r: u64)
        ensures
            final(self).same_config(old(self)),
            old(self).wf() ==> final(self).wf(),
    {
        self.genetics.random_individual(&mut self.rng, self.max_individual_points)
    }

    /// Produces a random child of the two individuals: a draw from the
    /// combined rate range picks either mutation of `left`, with a point
    /// count in `[1, max_mutation_points]`, or crossover of both, with a
    /// point count in `[1, max_crossover_points]`. Build-time validation
    /// has already excluded the empty draw range, so the result is always
    /// a child.
    pub fn rand_child(&mut self, left: u64, right: u64) -> (r: Result<u64, GeneticError>)
        requires
            old(self).wf(),
        ensures
            final(self).wf(),
            final(self).same_config(old(self)),
            r is Ok,
    {
        let pick = self.random_zero_to_n(self.mutation_rate + self.crossover_rate);

        if pick < self.mutation_rate {
            let points = self.random_zero_to_n(self.max_mutation_points) + 1;
            Ok(self.genetics.mutate(&mut self.rng, left, points as usize))
        } else {
            let points = self.random_zero_to_n(self.max_crossover_points) + 1;
            Ok(self.genetics.crossover(&mut self.rng, left, right, points as usize))
        }
    }
}

} // verus!
