use vstd::prelude::*;
use crate::error::GeneticError;
use crate::genetic_engine::GeneticEngine;
use crate::genetics::Genetics;

verus! {

/// Builds a [`GeneticEngine`], validating the operator rates and point
/// bounds once; the engine's configuration never changes afterwards.
pub struct GeneticEngineBuilder<G: Genetics> {
    pub seed: Option<u64>,
    pub mutation_rate: u8,
    pub crossover_rate: u8,
    pub max_mutation_points: u8,
    pub max_crossover_points: u8,
    pub max_individual_points: usize,
    pub genetics: Option<G>,
}

impl<G: Genetics> Default for GeneticEngineBuilder<G> {
    fn default() -> (r: Self)
        ensures
            r.seed is None,
            r.mutation_rate == 1,
            r.crossover_rate == 9,
            r.max_mutation_points == 3,
            r.max_crossover_points == 10,
            r.max_individual_points == 100,
            r.genetics is None,
    {
        GeneticEngineBuilder {
            seed: None,
            mutation_rate: 1,
            crossover_rate: 9,
            max_mutation_points: 3,
            max_crossover_points: 10,
            max_individual_points: 100,
            genetics: None,
        }
    }
}

impl<G: Genetics> GeneticEngineBuilder<G> {
    /// The configuration an engine can be built from: a genetics
    /// capability is present, the combined rate range is non-empty and
    /// fits a byte, each operator that can be drawn has at least one
    /// point, and individuals have a positive size bound.
    pub open spec fn valid(&self) -> bool {
        &&& self.genetics is Some
        &&& (self.mutation_rate > 0 ==> self.max_mutation_points >= 1)
        &&& (self.crossover_rate > 0 ==> self.max_crossover_points >= 1)
        &&& self.max_individual_points > 0
        &&& 1 <= self.mutation_rate + self.crossover_rate <= 255
    }

    /// The first invariant that `build` finds violated, in the order the
    /// checks run.
    pub open spec fn first_build_error(&self) -> GeneticError {
        if self.genetics is None {
            GeneticError::MissingGenetics
        } else if self.max_mutation_points < 1 && self.mutation_rate > 0 {
            GeneticError::InvalidMutationPoints
        } else if self.max_crossover_points < 1 && self.crossover_rate > 0 {
            GeneticError::InvalidCrossoverPoints
        } else if self.max_individual_points == 0 {
            GeneticError::InvalidIndividualPoints
        } else if self.mutation_rate == 0 && self.crossover_rate == 0 {
            GeneticError::InvalidMutationRate(0)
        } else {
            GeneticError::InvalidCrossoverRate(self.crossover_rate)
        }
    }

    /// Sets the random seed; a seeded engine is fully reproducible.
    pub fn seed(self, seed: u64) -> (r: Self)
        ensures
            r == (GeneticEngineBuilder { seed: Some(seed), ..self }),
    {
        GeneticEngineBuilder { seed: Some(seed), ..self }
    }

    /// Sets the mutation rate. The mutation and crossover rates are
    /// summed and a draw from that combined range picks the operator, so
    /// the final probability depends on both values. Zero disables
    /// mutation entirely; the two rates may not both be zero, and their
    /// sum must fit in a byte.
    pub fn mutation_rate(self, rate: u8) -> (r: Self)
        ensures
            r == (GeneticEngineBuilder { mutation_rate: rate, ..self }),
    {
        GeneticEngineBuilder { mutation_rate: rate, ..self }
    }

    /// Sets the crossover rate. The mutation and crossover rates are
    /// summed and a draw from that combined range picks the operator, so
    /// the final probability depends on both values. Zero disables
    /// crossover entirely; the two rates may not both be zero, and their
    /// sum must fit in a byte.
    pub fn crossover_rate(self, rate: u8) -> (r: Self)
        ensures
            r == (GeneticEngineBuilder { crossover_rate: rate, ..self }),
    {
        GeneticEngineBuilder { crossover_rate: rate, ..self }
    }

    /// Sets the maximum number of points mutated when the mutation
    /// operator is chosen; the actual count is drawn from one up to this
    /// number, so it must be at least one if mutation is used at all.
    pub fn max_mutation_points(self, points: u8) -> (r: Self)
        ensures
            r == (GeneticEngineBuilder { max_mutation_points: points, ..self }),
    {
        GeneticEngineBuilder { max_mutation_points: points, ..self }
    }

    /// Sets the maximum number of points swapped when the crossover
    /// operator is chosen; the actual count is drawn from one up to this
    /// number, so it must be at least one if crossover is used at all.
    pub fn max_crossover_points(self, points: u8) -> (r: Self)
        ensures
            r == (GeneticEngineBuilder { max_crossover_points: points, ..self }),
    {
        GeneticEngineBuilder { max_crossover_points: points, ..self }
    }

    /// Sets the maximum number of points an individual can have.
    pub fn max_individual_points(self, points: usize) -> (r: Self)
        ensures
            r == (GeneticEngineBuilder { max_individual_points: points, ..self }),
    {
        GeneticEngineBuilder { max_individual_points: points, ..self }
    }

    /// Sets the genetics capability, which owns the representation of
    /// individuals; required before `build`.
    pub fn genetics(self, genetics: G) -> (r: Self)
        ensures
            r == (GeneticEngineBuilder { genetics: Some(genetics), ..self }),
    {
        GeneticEngineBuilder { genetics: Some(genetics), ..self }
    }

    /// Consumes the builder and returns a new engine, or the first
    /// violated invariant: missing genetics, a point bound of zero for an
    /// operator whose rate is positive, a zero individual size bound, or
    /// a combined rate range that is empty or does not fit a byte.
    pub fn build(self) -> (r: Result<GeneticEngine<G>, GeneticError>)
        ensures
            r is Ok <==> self.valid(),
            r matches Ok(engine) ==> {
                &&& engine.wf()
                &&& engine.mutation_rate_spec() == self.mutation_rate
                &&& engine.crossover_rate_spec() == self.crossover_rate
                &&& engine.max_mutation_points_spec() == self.max_mutation_points
                &&& engine.max_crossover_points_spec() == self.max_crossover_points
                &&& engine.max_individual_points_spec() == self.max_individual_points
            },
            r matches Err(e) ==> e == self.first_build_error(),
    {
        if self.genetics.is_none() {
            return Err(GeneticError::MissingGenetics);
        }
        if self.max_mutation_points < 1 && self.mutation_rate > 0 {
            return Err(GeneticError::InvalidMutationPoints);
        }
        if self.max_crossover_points < 1 && self.crossover_rate > 0 {
            return Err(GeneticError::InvalidCrossoverPoints);
        }
        if self.max_individual_points == 0 {
            return Err(GeneticError::InvalidIndividualPoints);
        }
        if self.mutation_rate == 0 && self.crossover_rate == 0 {
            return Err(GeneticError::InvalidMutationRate(0));
        }
        if self.mutation_rate as u16 + self.crossover_rate as u16 > 255 {
            return Err(GeneticError::InvalidCrossoverRate(self.crossover_rate));
        }
        Ok(GeneticEngine::new(self))
    }
}

} // verus!
