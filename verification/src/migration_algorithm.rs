use vstd::prelude::*;

verus! {

/// The topology by which individuals are redistributed between islands
/// during a migration pass. `Incremental` is stateful: its stored distance
/// advances after every pass; the other variants are stateless.
#[derive(Clone, Copy, Debug, PartialEq, Eq, Structural)]
pub enum MigrationAlgorithm {
    /// Every island sends its migrants to the island one position ahead,
    /// wrapping at the end.
    Circular,
    /// Every island sends its migrants to the island the given distance
    /// ahead, wrapping at the end.
    Cyclical(usize),
    /// As `Cyclical`, but the stored distance advances by one after each
    /// pass, wrapping over the island count and skipping zero.
    Incremental(usize),
    /// One random permutation of the islands pairs every island with
    /// exactly one source and exactly one destination.
    RandomCircular,
    /// Each migrant is sent to an independently drawn random island that
    /// differs from its source; there is no global pairing guarantee.
    CompletelyRandom,
}

} // verus!
