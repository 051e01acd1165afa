use vstd::prelude::*;

verus! {

/// The closed set of configuration-validation failures. Every failure is
/// reported synchronously at build time; once a world is built, the only
/// fallible operation is child generation, whose failure condition is
/// already excluded by build-time validation.
#[derive(Clone, Copy, Debug, PartialEq, Eq, Structural)]
pub enum GeneticError {
    /// A genetics capability is required but was not supplied.
    MissingGenetics,
    /// The mutation rate is out of range.
    InvalidMutationRate(u8),
    /// The crossover rate is out of range.
    InvalidCrossoverRate(u8),
    /// A point count is out of range.
    InvalidPoints(usize),
    /// `max_mutation_points` must be at least 1 when the mutation rate is
    /// greater than 0.
    InvalidMutationPoints,
    /// `max_crossover_points` must be at least 1 when the crossover rate is
    /// greater than 0.
    InvalidCrossoverPoints,
    /// `individuals_per_island` must be greater than 0.
    InvalidIndividualsPerIsland,
    /// `elite_individuals_per_generation` must be less than
    /// `individuals_per_island`.
    InvalidEliteCount,
    /// `max_individual_points` must be greater than 0.
    InvalidIndividualPoints,
    /// `number_of_individuals_migrating` must not exceed
    /// `individuals_per_island`.
    InvalidMigrationCount,
    /// At least one island is required.
    InvalidIslandCount,
    /// A genetic engine is required but was not supplied.
    MissingGeneticEngine,
}

} // verus!
