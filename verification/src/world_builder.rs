use vstd::prelude::*;
use crate::error::GeneticError;
use crate::genetic_engine::GeneticEngine;
use crate::genetics::Genetics;
use crate::island::Island;
use crate::island_engine::IslandEngine;
use crate::migration_algorithm::MigrationAlgorithm;
use crate::selection_curve::SelectionCurve;
use crate::threading_model::ThreadingModel;
use crate::world::World;

verus! {

/// Builds a [`World`], validating the population, elitism and migration
/// configuration once; the world's configuration never changes after
/// construction.
pub struct WorldBuilder<G: Genetics, E: IslandEngine> {
    /// The number of individuals on each island. Before running a
    /// generation, the island is filled with the children of genetic
    /// selection if there was a previous generation, or new random
    /// individuals if there was none.
    pub individuals_per_island: usize,
    /// The number of individuals whose code is copied as-is to the next
    /// generation, which can help preserve highly fit code. Zero
    /// disables elitism.
    pub elite_individuals_per_generation: usize,
    /// After this many generations across all islands, some individuals
    /// migrate to new islands. Zero disables automatic migrations.
    pub generations_between_migrations: usize,
    /// The number of individuals that migrate from one island to
    /// another.
    pub number_of_individuals_migrating: usize,
    /// When it is time for a migration, the destination island for each
    /// individual is selected according to this algorithm.
    pub migration_algorithm: MigrationAlgorithm,
    /// If false, individuals selected for migration are removed from
    /// their home island; if true, a copy of the handle migrates and the
    /// original stays.
    pub clone_migrated_individuals: bool,
    /// The curve used when choosing which individual migrates.
    pub select_for_migration: SelectionCurve,
    /// The curve used when choosing a fit parent for genetic operations.
    pub select_as_parent: SelectionCurve,
    /// The curve used when choosing an elite individual to preserve for
    /// the next generation.
    pub select_as_elite: SelectionCurve,
    /// How the world's generation work is scheduled; the concrete
    /// dispatch policy of a concurrent model is the host's concern.
    pub threading_model: ThreadingModel,
    /// The engine that performs all genetic operations.
    pub genetic_engine: Option<GeneticEngine<G>>,
    /// The islands of the world. At least one is required.
    pub islands: Vec<Island<E>>,
}

impl<G: Genetics, E: IslandEngine> Default for WorldBuilder<G, E> {
    fn default() -> (r: Self)
        ensures
            r.individuals_per_island == 100,
            r.elite_individuals_per_generation == 2,
            r.generations_between_migrations == 10,
            r.number_of_individuals_migrating == 10,
            r.migration_algorithm == MigrationAlgorithm::Circular,
            r.clone_migrated_individuals == true,
            r.select_for_migration == SelectionCurve::PreferenceForFit,
            r.select_as_parent == SelectionCurve::PreferenceForFit,
            r.select_as_elite == SelectionCurve::StrongPreferenceForFit,
            r.threading_model == ThreadingModel::Synchronous,
            r.genetic_engine is None,
            r.islands@ == Seq::<Island<E>>::empty(),
    {
        WorldBuilder {
            individuals_per_island: 100,
            elite_individuals_per_generation: 2,
            generations_between_migrations: 10,
            number_of_individuals_migrating: 10,
            migration_algorithm: MigrationAlgorithm::Circular,
            clone_migrated_individuals: true,
            select_for_migration: SelectionCurve::PreferenceForFit,
            select_as_parent: SelectionCurve::PreferenceForFit,
            select_as_elite: SelectionCurve::StrongPreferenceForFit,
            threading_model: ThreadingModel::Synchronous,
            genetic_engine: None,
            islands: Vec::new(),
        }
    }
}

impl<G: Genetics, E: IslandEngine> WorldBuilder<G, E> {
    /// The configuration a world can be built from: a positive island
    /// population, fewer elites than the population, no more migrants
    /// than the population, an engine, and at least one island.
    pub open spec fn valid(&self) -> bool {
        &&& self.individuals_per_island > 0
        &&& self.elite_individuals_per_generation < self.individuals_per_island
        &&& self.number_of_individuals_migrating <= self.individuals_per_island
        &&& self.genetic_engine is Some
        &&& self.islands@.len() >= 1
    }

    /// The first invariant that `build` finds violated, in the order the
    /// checks run.
    pub open spec fn first_build_error(&self) -> GeneticError {
        if self.individuals_per_island == 0 {
            GeneticError::InvalidIndividualsPerIsland
        } else if self.elite_individuals_per_generation >= self.individuals_per_island {
            GeneticError::InvalidEliteCount
        } else if self.number_of_individuals_migrating > self.individuals_per_island {
            GeneticError::InvalidMigrationCount
        } else if self.genetic_engine is None {
            GeneticError::MissingGeneticEngine
        } else {
            GeneticError::InvalidIslandCount
        }
    }

    pub fn new() -> (r: Self)
        ensures
            r.individuals_per_island == 100,
            r.elite_individuals_per_generation == 2,
            r.generations_between_migrations == 10,
            r.number_of_individuals_migrating == 10,
            r.migration_algorithm == MigrationAlgorithm::Circular,
            r.clone_migrated_individuals == true,
            r.select_for_migration == SelectionCurve::PreferenceForFit,
            r.select_as_parent == SelectionCurve::PreferenceForFit,
            r.select_as_elite == SelectionCurve::StrongPreferenceForFit,
            r.threading_model == ThreadingModel::Synchronous,
            r.genetic_engine is None,
            r.islands@ == Seq::<Island<E>>::empty(),
    {
        Self::default()
    }

    pub fn with_individuals_per_island(self, count: usize) -> (r: Self)
        ensures
            r == (WorldBuilder { individuals_per_island: count, ..self }),
    {
        WorldBuilder { individuals_per_island: count, ..self }
    }

    pub fn with_elite_individuals(self, count: usize) -> (r: Self)
        ensures
            r == (WorldBuilder { elite_individuals_per_generation: count, ..self }),
    {
        WorldBuilder { elite_individuals_per_generation: count, ..self }
    }

    pub fn with_generations_between_migrations(self, generations: usize) -> (r: Self)
        ensures
            r == (WorldBuilder { generations_between_migrations: generations, ..self }),
    {
        WorldBuilder { generations_between_migrations: generations, ..self }
    }

    pub fn with_migrating_individuals(self, count: usize) -> (r: Self)
        ensures
            r == (WorldBuilder { number_of_individuals_migrating: count, ..self }),
    {
        WorldBuilder { number_of_individuals_migrating: count, ..self }
    }

    pub fn with_migration_algorithm(self, algorithm: MigrationAlgorithm) -> (r: Self)
        ensures
            r == (WorldBuilder { migration_algorithm: algorithm, ..self }),
    {
        WorldBuilder { migration_algorithm: algorithm, ..self }
    }

    pub fn with_clone_migrated_individuals(self, clone: bool) -> (r: Self)
        ensures
            r == (WorldBuilder { clone_migrated_individuals: clone, ..self }),
    {
        WorldBuilder { clone_migrated_individuals: clone, ..self }
    }

    pub fn with_select_for_migration(self, curve: SelectionCurve) -> (r: Self)
        ensures
            r == (WorldBuilder { select_for_migration: curve, ..self }),
    {
        WorldBuilder { select_for_migration: curve, ..self }
    }

    pub fn with_select_as_parent(self, curve: SelectionCurve) -> (r: Self)
        ensures
            r == (WorldBuilder { select_as_parent: curve, ..self }),
    {
        WorldBuilder { select_as_parent: curve, ..self }
    }

    pub fn with_select_as_elite(self, curve: SelectionCurve) -> (r: Self)
        ensures
            r == (WorldBuilder { select_as_elite: curve, ..self }),
    {
        WorldBuilder { select_as_elite: curve, ..self }
    }

    pub fn with_threading_model(self, model: ThreadingModel) -> (r: Self)
        ensures
            r == (WorldBuilder { threading_model: model, ..self }),
    {
        WorldBuilder { threading_model: model, ..self }
    }

    /// Sets the genetic engine that performs all genetic operations;
    /// required before `build`. Engines built by
    /// [`crate::GeneticEngineBuilder`] always meet the precondition.
    pub fn with_genetic_engine(self, engine: GeneticEngine<G>) -> (r: Self)
        requires
            engine.wf(),
        ensures
            r == (WorldBuilder { genetic_engine: Some(engine), ..self }),
    {
        WorldBuilder { genetic_engine: Some(engine), ..self }
    }

    /// Adds an island with the given name and evaluation capability.
    pub fn add_island(&mut self, name: String, engine: E) -> (r: &mut Self)
        ensures
            r.islands@.len() == old(self).islands@.len() + 1,
            forall|i: int|
                0 <= i < old(self).islands@.len() ==> r.islands@[i] == old(self).islands@[i],
            r.islands@.last().name_spec() == name@,
            r.islands@.last().eng() == engine,
            r.islands@.last().current() == Seq::<u64>::empty(),
            r.islands@.last().future_gen() == Seq::<u64>::empty(),
            !r.islands@.last().sorted_flag(),
            r.islands@.last().wf(),
            r.individuals_per_island == old(self).individuals_per_island,
            r.elite_individuals_per_generation == old(self).elite_individuals_per_generation,
            r.generations_between_migrations == old(self).generations_between_migrations,
            r.number_of_individuals_migrating == old(self).number_of_individuals_migrating,
            r.migration_algorithm == old(self).migration_algorithm,
            r.clone_migrated_individuals == old(self).clone_migrated_individuals,
            r.select_for_migration == old(self).select_for_migration,
            r.select_as_parent == old(self).select_as_parent,
            r.select_as_elite == old(self).select_as_elite,
            r.threading_model == old(self).threading_model,
            r.genetic_engine == old(self).genetic_engine,
            *final(self) == *final(r),
    {
        self.islands.push(Island::new(name, engine));
        self
    }

    /// Consumes the builder and returns a new world, or the first
    /// violated invariant: a zero island population, at least as many
    /// elites as the population, more migrants than the population, a
    /// missing engine, or no islands. Engines and islands made through
    /// this builder's own methods always meet the preconditions.
    pub fn build(self) -> (r: Result<World<G, E>, GeneticError>)
        requires
            self.genetic_engine matches Some(engine) ==> engine.wf(),
            forall|i: int| 0 <= i < self.islands@.len() ==> (#[trigger] self.islands@[i]).wf(),
        ensures
            r is Ok <==> self.valid(),
            r matches Ok(world) ==> {
                &&& world.wf()
                &&& world.islands() == self.islands@
                &&& world.individuals_per_island_spec() == self.individuals_per_island
                &&& world.elite_individuals_spec() == self.elite_individuals_per_generation
                &&& world.gens_between_migrations_spec() == self.generations_between_migrations
                &&& world.migrating_count_spec() == self.number_of_individuals_migrating
                &&& world.algorithm_spec() == self.migration_algorithm
                &&& world.clone_flag() == self.clone_migrated_individuals
                &&& world.select_for_migration_spec() == self.select_for_migration
                &&& world.select_as_parent_spec() == self.select_as_parent
                &&& world.select_as_elite_spec() == self.select_as_elite
                &&& world.threading_model_spec() == self.threading_model
                &&& world.generation_count_spec() == 0
                &&& world.gens_remaining_spec() == self.generations_between_migrations
            },
            r matches Err(e) ==> e == self.first_build_error(),
    {
        if self.individuals_per_island == 0 {
            return Err(GeneticError::InvalidIndividualsPerIsland);
        }
        if self.elite_individuals_per_generation >= self.individuals_per_island {
            return Err(GeneticError::InvalidEliteCount);
        }
        if self.number_of_individuals_migrating > self.individuals_per_island {
            return Err(GeneticError::InvalidMigrationCount);
        }
        if self.genetic_engine.is_none() {
            return Err(GeneticError::MissingGeneticEngine);
        }
        if self.islands.len() == 0 {
            return Err(GeneticError::InvalidIslandCount);
        }
        Ok(World::new(self))
    }
}

} // verus!
