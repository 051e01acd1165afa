use vstd::prelude::*;
use vstd::arithmetic::div_mod::{
    lemma_add_mod_noop, lemma_add_mod_noop_right, lemma_mod_multiples_vanish, lemma_small_mod,
};
use crate::error::GeneticError;
use crate::genetic_engine::GeneticEngine;
use crate::genetics::Genetics;
use crate::island::Island;
use crate::island_engine::IslandEngine;
use crate::migration_algorithm::MigrationAlgorithm;
use crate::rng::next_index;
use crate::rng::shuffle_indices;
use crate::selection_curve::SelectionCurve;
use crate::threading_model::ThreadingModel;
use crate::topology::{
    all_handles, lemma_all_handles_pointwise, lemma_all_handles_update,
    is_index_permutation, lemma_index_permutation_facts, lemma_total_individuals_update,
    previous_position, total_individuals,
};
use crate::world_builder::WorldBuilder;

verus! {

/// The island a source migrates to under a circular topology: the one
/// the given distance ahead, wrapping past the end.
pub open spec fn circular_destination(source: int, distance: int, len: int) -> int {
    (source + distance) % len
}

/// The unique source that reaches island `j` under a circular pass at
/// distance `n` over `len` islands.
pub open spec fn circular_source(j: int, n: int, len: int) -> int {
    (j + len - n % len) % len
}

/// Some island other than `j` holds `x` in its current generation: a
/// migrant that lands on island `j` under a topology that never
/// self-migrates came from such an island.
pub open spec fn held_by_another<E: IslandEngine>(islands: Seq<Island<E>>, j: int, x: u64) -> bool {
    exists|sidx: int|
        0 <= sidx < islands.len() && sidx != j && islands[sidx].current().contains(x)
}

/// The circular-destination map over `0..len` is a bijection: island
/// `j` is the destination of source `s` exactly when `s` is the
/// circular source of `j`.
proof fn lemma_circular_destination_inverse(s: int, j: int, n: int, len: int)
    requires
        0 <= s < len,
        0 <= j < len,
        0 <= n,
    ensures
        (j == circular_destination(s, n, len)) <==> (s == circular_source(j, n, len)),
{
    let nm = n % len;
    lemma_add_mod_noop_right(s, n, len);
    let cd = circular_destination(s, n, len);
    assert(cd == if s + nm < len {
        s + nm
    } else {
        s + nm - len
    }) by {
        if s + nm < len {
            lemma_small_mod((s + nm) as nat, len as nat);
        } else {
            lemma_mod_multiples_vanish(1, s + nm - len, len);
            lemma_small_mod((s + nm - len) as nat, len as nat);
        }
    }
    assert(circular_source(j, n, len) == if j >= nm {
        j - nm
    } else {
        j + len - nm
    }) by {
        if j >= nm {
            lemma_mod_multiples_vanish(1, j - nm, len);
            lemma_small_mod((j - nm) as nat, len as nat);
        } else {
            lemma_small_mod((j + len - nm) as nat, len as nat);
        }
    }
}

/// The distance an `Incremental` algorithm stores after a pass over
/// `len` islands: one more than before, wrapped over the island count,
/// and never zero.
pub open spec fn incremental_next(n: int, len: int) -> int {
    if (n + 1) % len == 0 {
        1
    } else {
        (n + 1) % len
    }
}

/// The size of an island's current generation right after a fill that
/// began with `start` staged individuals: a fill tops the future
/// generation up to the configured population, and never discards
/// individuals already staged.
pub open spec fn filled_population(individuals_per_island: int, start: int) -> int {
    if start >= individuals_per_island {
        start
    } else {
        individuals_per_island
    }
}

/// One past the last filled slot that elitism copies verbatim from the
/// prior generation: of the slots a fill adds, the first
/// `elite_individuals` many.
pub open spec fn elite_window_end(individuals_per_island: int, start: int, elite: int) -> int {
    if start >= individuals_per_island {
        start
    } else if elite <= individuals_per_island - start {
        start + elite
    } else {
        individuals_per_island
    }
}

/// The world: the set of islands, the reproduction engine, the migration
/// and elitism configuration, and the generation counters. Island order
/// never changes after construction; the topology algorithms are defined
/// over positional index.
pub struct World<G: Genetics, E: IslandEngine> {
    individuals_per_island: usize,
    elite_individuals_per_generation: usize,
    generations_between_migrations: usize,
    number_of_individuals_migrating: usize,
    migration_algorithm: MigrationAlgorithm,
    clone_migrated_individuals: bool,
    select_for_migration: SelectionCurve,
    select_as_parent: SelectionCurve,
    select_as_elite: SelectionCurve,
    threading_model: ThreadingModel,
    genetic_engine: GeneticEngine<G>,
    islands: Vec<Island<E>>,
    generation_count: usize,
    generations_remaining_before_migration: usize,
}

impl<G: Genetics, E: IslandEngine> World<G, E> {
    pub closed spec fn islands(&self) -> Seq<Island<E>> {
        self.islands@
    }

    pub closed spec fn individuals_per_island_spec(&self) -> usize {
        self.individuals_per_island
    }

    pub closed spec fn elite_individuals_spec(&self) -> usize {
        self.elite_individuals_per_generation
    }

    pub closed spec fn gens_between_migrations_spec(&self) -> usize {
        self.generations_between_migrations
    }

    pub closed spec fn migrating_count_spec(&self) -> usize {
        self.number_of_individuals_migrating
    }

    pub closed spec fn algorithm_spec(&self) -> MigrationAlgorithm {
        self.migration_algorithm
    }

    pub closed spec fn clone_flag(&self) -> bool {
        self.clone_migrated_individuals
    }

    pub closed spec fn select_for_migration_spec(&self) -> SelectionCurve {
        self.select_for_migration
    }

    pub closed spec fn select_as_parent_spec(&self) -> SelectionCurve {
        self.select_as_parent
    }

    pub closed spec fn select_as_elite_spec(&self) -> SelectionCurve {
        self.select_as_elite
    }

    pub closed spec fn threading_model_spec(&self) -> ThreadingModel {
        self.threading_model
    }

    pub closed spec fn engine_spec(&self) -> GeneticEngine<G> {
        self.genetic_engine
    }

    pub closed spec fn generation_count_spec(&self) -> usize {
        self.generation_count
    }

    pub closed spec fn gens_remaining_spec(&self) -> usize {
        self.generations_remaining_before_migration
    }

    /// What construction establishes and every operation preserves: a
    /// validated engine, at least one island, the numeric relations the
    /// builder checked, a live migration countdown, and well-formed
    /// islands.
    pub open spec fn wf(&self) -> bool {
        &&& self.engine_spec().wf()
        &&& self.islands().len() >= 1
        &&& self.individuals_per_island_spec() > 0
        &&& self.elite_individuals_spec() < self.individuals_per_island_spec()
        &&& self.migrating_count_spec() <= self.individuals_per_island_spec()
        &&& (self.gens_between_migrations_spec() > 0 ==> 1 <= self.gens_remaining_spec()
            <= self.gens_between_migrations_spec())
        &&& (forall|i: int| 0 <= i < self.islands().len() ==> (#[trigger] self.islands()[i]).wf())
    }

    /// The configuration of `self` agrees with that of `other`; only the
    /// random source, the islands, the stored migration distance and the
    /// counters may differ.
    pub open spec fn same_setup(&self, other: &Self) -> bool {
        &&& self.individuals_per_island_spec() == other.individuals_per_island_spec()
        &&& self.elite_individuals_spec() == other.elite_individuals_spec()
        &&& self.gens_between_migrations_spec() == other.gens_between_migrations_spec()
        &&& self.migrating_count_spec() == other.migrating_count_spec()
        &&& self.clone_flag() == other.clone_flag()
        &&& self.select_for_migration_spec() == other.select_for_migration_spec()
        &&& self.select_as_parent_spec() == other.select_as_parent_spec()
        &&& self.select_as_elite_spec() == other.select_as_elite_spec()
        &&& self.threading_model_spec() == other.threading_model_spec()
        &&& self.engine_spec().same_config(&other.engine_spec())
    }

    /// Every island holds enough individuals for a migration pass; a run
    /// establishes the sortedness that `migration_ready` asks for on top
    /// of this.
    pub open spec fn migration_feasible(&self) -> bool {
        (self.islands().len() > 1 && self.migrating_count_spec() > 0) ==> forall|i: int|
            0 <= i < self.islands().len() ==> (if self.clone_flag() {
                (#[trigger] self.islands()[i]).current().len() >= 1
            } else {
                self.islands()[i].current().len() >= self.migrating_count_spec()
            })
    }

    /// A migration pass can be performed without running out of
    /// individuals: when there is anything to migrate, every island is
    /// sorted and holds enough individuals for its turn as a source.
    pub open spec fn migration_ready(&self) -> bool {
        (self.islands().len() > 1 && self.migrating_count_spec() > 0) ==> forall|i: int|
            0 <= i < self.islands().len() ==> {
                &&& (#[trigger] self.islands()[i]).sorted_flag()
                &&& (if self.clone_flag() {
                    self.islands()[i].current().len() >= 1
                } else {
                    self.islands()[i].current().len() >= self.migrating_count_spec()
                })
            }
    }

    pub(crate) fn new(builder: WorldBuilder<G, E>) -> (r: Self)
        requires
            builder.genetic_engine matches Some(engine) && engine.wf(),
            builder.islands@.len() >= 1,
            builder.individuals_per_island > 0,
            builder.elite_individuals_per_generation < builder.individuals_per_island,
            builder.number_of_individuals_migrating <= builder.individuals_per_island,
            forall|i: int|
                0 <= i < builder.islands@.len() ==> (#[trigger] builder.islands@[i]).wf(),
        ensures
            r.wf(),
            r.islands() == builder.islands@,
            r.individuals_per_island_spec() == builder.individuals_per_island,
            r.elite_individuals_spec() == builder.elite_individuals_per_generation,
            r.gens_between_migrations_spec() == builder.generations_between_migrations,
            r.migrating_count_spec() == builder.number_of_individuals_migrating,
            r.algorithm_spec() == builder.migration_algorithm,
            r.clone_flag() == builder.clone_migrated_individuals,
            r.select_for_migration_spec() == builder.select_for_migration,
            r.select_as_parent_spec() == builder.select_as_parent,
            r.select_as_elite_spec() == builder.select_as_elite,
            r.threading_model_spec() == builder.threading_model,
            r.engine_spec() == builder.genetic_engine->0,
            r.generation_count_spec() == 0,
            r.gens_remaining_spec() == builder.generations_between_migrations,
    {
        World {
            individuals_per_island: builder.individuals_per_island,
            elite_individuals_per_generation: builder.elite_individuals_per_generation,
            generations_between_migrations: builder.generations_between_migrations,
            number_of_individuals_migrating: builder.number_of_individuals_migrating,
            migration_algorithm: builder.migration_algorithm,
            clone_migrated_individuals: builder.clone_migrated_individuals,
            select_for_migration: builder.select_for_migration,
            select_as_parent: builder.select_as_parent,
            select_as_elite: builder.select_as_elite,
            threading_model: builder.threading_model,
            genetic_engine: builder.genetic_engine.unwrap(),
            islands: builder.islands,
            generation_count: 0,
            generations_remaining_before_migration: builder.generations_between_migrations,
        }
    }

    /// Returns the total number of islands.
    pub fn get_number_of_islands(&self) -> (r: usize)
        ensures
            r == self.islands().len(),
    {
        self.islands.len()
    }

    /// Borrows an island by index.
    pub fn get_island(&self, index: usize) -> (r: Option<&Island<E>>)
        ensures
            r is Some <==> index < self.islands().len(),
            r matches Some(island) ==> *island == self.islands()[index as int],
    {
        if index < self.islands.len() {
            Some(&self.islands[index])
        } else {
            None
        }
    }

    /// Mutably borrows an island by index.
    pub fn get_island_mut(&mut self, index: usize) -> (r: Option<&mut Island<E>>)
        ensures
            r is Some <==> index < old(self).islands().len(),
            r matches Some(island) ==> {
                &&& *island == old(self).islands()[index as int]
                &&& final(self).islands() == old(self).islands().update(
                    index as int,
                    *final(island),
                )
                &&& final(self).same_setup(old(self))
                &&& final(self).engine_spec() == old(self).engine_spec()
                &&& final(self).algorithm_spec() == old(self).algorithm_spec()
                &&& final(self).generation_count_spec() == old(self).generation_count_spec()
                &&& final(self).gens_remaining_spec() == old(self).gens_remaining_spec()
            },
            r is None ==> *final(self) == *old(self),
    {
        if index < self.islands.len() {
            Some(&mut self.islands[index])
        } else {
            None
        }
    }

    /// Borrows an island by name.
    pub fn get_island_by_name(&self, name: &str) -> (r: Option<&Island<E>>)
        ensures
            r is Some <==> exists|i: int|
                0 <= i < self.islands().len() && (#[trigger] self.islands()[i]).name_spec()
                    == name@,
            r matches Some(island) ==> exists|i: int|
                {
                    &&& 0 <= i < self.islands().len()
                    &&& *island == #[trigger] self.islands()[i]
                    &&& island.name_spec() == name@
                    &&& forall|k: int|
                        0 <= k < i ==> (#[trigger] self.islands()[k]).name_spec() != name@
                },
    {
        let wanted: String = name.to_owned();
        let mut i: usize = 0;
        while i < self.islands.len()
            invariant
                i <= self.islands().len(),
                wanted@ == name@,
                forall|k: int|
                    0 <= k < i ==> (#[trigger] self.islands()[k]).name_spec() != name@,
            decreases self.islands().len() - i,
        {
            if self.islands[i].has_name(&wanted) {
                return Some(&self.islands[i]);
            }
            i = i + 1;
        }
        None
    }

    /// Removes all individuals from all islands.
    #[verifier::loop_isolation(false)]
    pub fn reset_all_islands(&mut self)
        requires
            old(self).wf(),
        ensures
            final(self).wf(),
            final(self).same_setup(old(self)),
            final(self).islands().len() == old(self).islands().len(),
            forall|i: int|
                0 <= i < final(self).islands().len() ==> {
                    &&& (#[trigger] final(self).islands()[i]).current() == Seq::<u64>::empty()
                    &&& final(self).islands()[i].future_gen() == Seq::<u64>::empty()
                    &&& !final(self).islands()[i].sorted_flag()
                    &&& final(self).islands()[i].name_spec() == old(self).islands()[i].name_spec()
                    &&& final(self).islands()[i].eng() == old(self).islands()[i].eng()
                },
            final(self).algorithm_spec() == old(self).algorithm_spec(),
            final(self).generation_count_spec() == old(self).generation_count_spec(),
            final(self).gens_remaining_spec() == old(self).gens_remaining_spec(),
    {
        let ghost w0 = *old(self);
        let mut i: usize = 0;
        while i < self.islands.len()
            invariant
                i <= self.islands@.len(),
                self.islands@.len() == w0.islands().len(),
                forall|k: int|
                    0 <= k < i ==> {
                        &&& (#[trigger] self.islands@[k]).current() == Seq::<u64>::empty()
                        &&& self.islands@[k].future_gen() == Seq::<u64>::empty()
                        &&& !self.islands@[k].sorted_flag()
                        &&& self.islands@[k].name_spec() == w0.islands()[k].name_spec()
                        &&& self.islands@[k].eng() == w0.islands()[k].eng()
                        &&& self.islands@[k].wf()
                    },
                forall|k: int|
                    i <= k < self.islands@.len() ==> #[trigger] self.islands@[k] == w0.islands()[k],
                self.individuals_per_island == w0.individuals_per_island_spec(),
                self.elite_individuals_per_generation == w0.elite_individuals_spec(),
                self.generations_between_migrations == w0.gens_between_migrations_spec(),
                self.number_of_individuals_migrating == w0.migrating_count_spec(),
                self.migration_algorithm == w0.algorithm_spec(),
                self.clone_migrated_individuals == w0.clone_flag(),
                self.select_for_migration == w0.select_for_migration_spec(),
                self.select_as_parent == w0.select_as_parent_spec(),
                self.select_as_elite == w0.select_as_elite_spec(),
                self.threading_model == w0.threading_model_spec(),
                self.genetic_engine == w0.engine_spec(),
                self.generation_count == w0.generation_count_spec(),
                self.generations_remaining_before_migration == w0.gens_remaining_spec(),
            decreases self.islands@.len() - i,
        {
            let island = &mut self.islands[i];
            island.clear();
            i = i + 1;
        }
    }

    pub fn generation_count(&self) -> (r: usize)
        ensures
            r == self.generation_count_spec(),
    {
        self.generation_count
    }

    fn len_island_future_generation(&self, index: usize) -> (r: usize)
        requires
            index < self.islands().len(),
        ensures
            r == self.islands()[index as int].future_gen().len(),
    {
        self.islands[index].len_future_generation()
    }

    fn add_individual_to_island_future_generation(&mut self, index: usize, id: u64)
        requires
            index < old(self).islands().len(),
        ensures
            final(self).islands().len() == old(self).islands().len(),
            final(self).islands()[index as int].future_gen() == old(self).islands()[index as int].future_gen().push(id),
            final(self).islands()[index as int].current() == old(self).islands()[index as int].current(),
            final(self).islands()[index as int].sorted_flag() == old(self).islands()[index as int].sorted_flag(),
            final(self).islands()[index as int].name_spec() == old(self).islands()[index as int].name_spec(),
            final(self).islands()[index as int].eng() == old(self).islands()[index as int].eng(),
            old(self).islands()[index as int].wf() ==> final(self).islands()[index as int].wf(),
            forall|i: int|
                0 <= i < old(self).islands().len() && i != index as int ==> final(self).islands()[i] == old(self).islands()[i],
            final(self).same_setup(old(self)),
            final(self).engine_spec() == old(self).engine_spec(),
            final(self).algorithm_spec() == old(self).algorithm_spec(),
            final(self).generation_count_spec() == old(self).generation_count_spec(),
            final(self).gens_remaining_spec() == old(self).gens_remaining_spec(),
    {
        let island = &mut self.islands[index];
        island.add_individual_to_future_generation(id);
    }

    fn advance_island_generation(&mut self, index: usize)
        requires
            index < old(self).islands().len(),
        ensures
            final(self).islands().len() == old(self).islands().len(),
            final(self).islands()[index as int].current() == old(self).islands()[index as int].future_gen(),
            final(self).islands()[index as int].future_gen() == Seq::<u64>::empty(),
            !final(self).islands()[index as int].sorted_flag(),
            final(self).islands()[index as int].name_spec() == old(self).islands()[index as int].name_spec(),
            final(self).islands()[index as int].eng() == old(self).islands()[index as int].eng(),
            final(self).islands()[index as int].wf(),
            forall|i: int|
                0 <= i < old(self).islands().len() && i != index as int ==> final(self).islands()[i] == old(self).islands()[i],
            final(self).same_setup(old(self)),
            final(self).engine_spec() == old(self).engine_spec(),
            final(self).algorithm_spec() == old(self).algorithm_spec(),
            final(self).generation_count_spec() == old(self).generation_count_spec(),
            final(self).gens_remaining_spec() == old(self).gens_remaining_spec(),
    {
        let island = &mut self.islands[index];
        island.advance_generation();
    }

    /// Fills every island's future generation up to the configured
    /// population and advances it: a brand-new random individual for
    /// every slot of an island with no prior generation; otherwise, for
    /// the first `elite_individuals_per_generation` slots, a verbatim
    /// copy of an individual chosen by the elite curve, and for every
    /// remaining slot a child of two parents chosen by the parent curve.
    #[verifier::loop_isolation(false)]
    pub fn fill_all_islands(&mut self) -> (r: Result<(), GeneticError>)
        requires
            old(self).wf(),
            forall|i: int|
                0 <= i < old(self).islands().len() ==> ((#[trigger] old(self).islands()[i]).current().len() > 0 ==> old(self).islands()[i].sorted_flag()),
        ensures
            final(self).wf(),
            final(self).same_setup(old(self)),
            final(self).islands().len() == old(self).islands().len(),
            final(self).algorithm_spec() == old(self).algorithm_spec(),
            final(self).generation_count_spec() == old(self).generation_count_spec(),
            final(self).gens_remaining_spec() == old(self).gens_remaining_spec(),
            r is Ok,
            forall|i: int|
                0 <= i < old(self).islands().len() ==> {
                    &&& (#[trigger] final(self).islands()[i]).future_gen() == Seq::<u64>::empty()
                    &&& !final(self).islands()[i].sorted_flag()
                    &&& final(self).islands()[i].name_spec() == old(self).islands()[i].name_spec()
                    &&& final(self).islands()[i].eng() == old(self).islands()[i].eng()
                    &&& final(self).islands()[i].current().len() == filled_population(
                        old(self).individuals_per_island_spec() as int,
                        old(self).islands()[i].future_gen().len() as int,
                    )
                    &&& (forall|j: int|
                        0 <= j < old(self).islands()[i].future_gen().len() ==> final(self).islands()[i].current()[j] == old(self).islands()[i].future_gen()[j])
                    &&& (old(self).islands()[i].current().len() > 0 ==> forall|j: int|
                        old(self).islands()[i].future_gen().len() <= j < elite_window_end(
                            old(self).individuals_per_island_spec() as int,
                            old(self).islands()[i].future_gen().len() as int,
                            old(self).elite_individuals_spec() as int,
                        ) ==> old(self).islands()[i].current().contains(
                            #[trigger] final(self).islands()[i].current()[j],
                        ))
                },
    {
        let ghost w0 = *self;
        let mut id: usize = 0;
        while id < self.islands.len()
            invariant
                id <= w0.islands().len(),
                self.islands@.len() == w0.islands().len(),
                forall|i: int|
                    0 <= i < id ==> {
                        &&& (#[trigger] self.islands@[i]).future_gen() == Seq::<u64>::empty()
                        &&& !self.islands@[i].sorted_flag()
                        &&& self.islands@[i].name_spec() == w0.islands()[i].name_spec()
                        &&& self.islands@[i].eng() == w0.islands()[i].eng()
                        &&& self.islands@[i].wf()
                        &&& self.islands@[i].current().len() == filled_population(
                            w0.individuals_per_island_spec() as int,
                            w0.islands()[i].future_gen().len() as int,
                        )
                        &&& (forall|j: int|
                            0 <= j < w0.islands()[i].future_gen().len() ==> self.islands@[
                            i].current()[j] == w0.islands()[i].future_gen()[j])
                        &&& (w0.islands()[i].current().len() > 0 ==> forall|j: int|
                            w0.islands()[i].future_gen().len() <= j < elite_window_end(
                                w0.individuals_per_island_spec() as int,
                                w0.islands()[i].future_gen().len() as int,
                                w0.elite_individuals_spec() as int,
                            ) ==> w0.islands()[i].current().contains(
                                #[trigger] self.islands@[i].current()[j],
                            ))
                    },
                forall|i: int|
                    id <= i < w0.islands().len() ==> #[trigger] self.islands@[i] == w0.islands()[i],
                self.same_setup(&w0),
                self.genetic_engine.wf(),
                self.migration_algorithm == w0.algorithm_spec(),
                self.generation_count == w0.generation_count_spec(),
                self.generations_remaining_before_migration == w0.gens_remaining_spec(),
            decreases w0.islands().len() - id,
        {
            let mut elite_remaining = self.elite_individuals_per_generation;
            let ghost islands_at = self.islands@;
            let ghost island0 = self.islands@[id as int];
            let ghost start = island0.future_gen().len() as int;
            while self.len_island_future_generation(id) < self.individuals_per_island
                invariant
                    id < w0.islands().len(),
                    self.islands@.len() == w0.islands().len(),
                    island0 == w0.islands()[id as int],
                    start == island0.future_gen().len() as int,
                    self.islands@[id as int].current() == island0.current(),
                    self.islands@[id as int].sorted_flag() == island0.sorted_flag(),
                    self.islands@[id as int].name_spec() == island0.name_spec(),
                    self.islands@[id as int].eng() == island0.eng(),
                    self.islands@[id as int].wf(),
                    start <= self.islands@[id as int].future_gen().len() <= filled_population(
                        self.individuals_per_island as int,
                        start,
                    ),
                    forall|j: int|
                        0 <= j < start ==> #[trigger] self.islands@[id as int].future_gen()[j]
                            == island0.future_gen()[j],
                    elite_remaining as int == (if self.islands@[id as int].future_gen().len()
                        - start <= self.elite_individuals_per_generation as int {
                        self.elite_individuals_per_generation as int - (self.islands@[
                        id as int].future_gen().len() - start)
                    } else {
                        0int
                    }),
                    island0.current().len() > 0 ==> forall|j: int|
                        start <= j < self.islands@[id as int].future_gen().len() && j - start
                            < self.elite_individuals_per_generation as int
                            ==> island0.current().contains(
                            #[trigger] self.islands@[id as int].future_gen()[j],
                        ),
                    forall|i: int|
                        0 <= i < w0.islands().len() && i != id as int ==> #[trigger] self.islands@[
                        i] == islands_at[i],
                    self.same_setup(&w0),
                    self.genetic_engine.wf(),
                    self.migration_algorithm == w0.algorithm_spec(),
                    self.generation_count == w0.generation_count_spec(),
                    self.generations_remaining_before_migration == w0.gens_remaining_spec(),
                decreases self.individuals_per_island as int - self.islands@[
                    id as int].future_gen().len(),
            {
                let island_len = self.islands[id].len();
                let pick_elite = if elite_remaining > 0 {
                    elite_remaining = elite_remaining - 1;
                    true
                } else {
                    false
                };
                let next: u64;
                if island_len == 0 {
                    next = self.genetic_engine.rand_individual();
                } else if pick_elite {
                    let chosen = self.islands[id].select_one_individual(
                        self.select_as_elite,
                        self.genetic_engine.rng(),
                    );
                    next = chosen.unwrap();
                } else {
                    let left = self.islands[id].select_one_individual(
                        self.select_as_parent,
                        self.genetic_engine.rng(),
                    ).unwrap();
                    let right = self.islands[id].select_one_individual(
                        self.select_as_parent,
                        self.genetic_engine.rng(),
                    ).unwrap();
                    match self.genetic_engine.rand_child(left, right) {
                        Ok(child) => {
                            next = child;
                        },
                        Err(e) => {
                            return Err(e);
                        },
                    }
                }
                self.add_individual_to_island_future_generation(id, next);
            }
            self.advance_island_generation(id);
            id = id + 1;
        }
        Ok(())
    }

    /// Runs every island's generation in index order, then counts down
    /// to the next migration: when the countdown reaches zero a
    /// migration pass runs and the countdown resets. The generation
    /// counter advances by one.
    #[verifier::loop_isolation(false)]
    pub fn run_one_generation(&mut self)
        requires
            old(self).wf(),
            old(self).generation_count_spec() < usize::MAX,
            (old(self).gens_between_migrations_spec() > 0 && old(self).gens_remaining_spec() == 1)
                ==> old(self).migration_feasible(),
        ensures
            final(self).wf(),
            final(self).same_setup(old(self)),
            final(self).islands().len() == old(self).islands().len(),
            final(self).generation_count_spec() == old(self).generation_count_spec() + 1,
            forall|i: int|
                0 <= i < final(self).islands().len() ==> {
                    &&& (#[trigger] final(self).islands()[i]).sorted_flag()
                    &&& final(self).islands()[i].name_spec() == old(self).islands()[i].name_spec()
                },
            old(self).gens_between_migrations_spec() == 0 ==> final(self).gens_remaining_spec()
                == old(self).gens_remaining_spec(),
            (old(self).gens_between_migrations_spec() > 0 && old(self).gens_remaining_spec() > 1)
                ==> final(self).gens_remaining_spec() == old(self).gens_remaining_spec() - 1,
            (old(self).gens_between_migrations_spec() > 0 && old(self).gens_remaining_spec() == 1)
                ==> final(self).gens_remaining_spec() == old(self).gens_between_migrations_spec(),
            (old(self).gens_between_migrations_spec() == 0 || old(self).gens_remaining_spec() > 1
                || old(self).islands().len() <= 1) ==> forall|i: int|
                0 <= i < old(self).islands().len() ==> {
                    &&& (#[trigger] final(self).islands()[i]).current().to_multiset() == old(self).islands()[i].current().to_multiset()
                    &&& final(self).islands()[i].future_gen() == old(self).islands()[i].future_gen()
                },
            (old(self).gens_between_migrations_spec() == 0 || old(self).gens_remaining_spec() > 1)
                ==> final(self).algorithm_spec() == old(self).algorithm_spec(),
            (old(self).gens_between_migrations_spec() > 0 && old(self).gens_remaining_spec() == 1
                && old(self).islands().len() > 1) ==> total_individuals(final(self).islands())
                == total_individuals(old(self).islands()) + (
            if old(self).clone_flag() {
                old(self).islands().len() * old(self).migrating_count_spec()
            } else {
                0int
            }),
            (old(self).gens_between_migrations_spec() > 0 && old(self).gens_remaining_spec() == 1
                && old(self).islands().len() > 1 && !old(self).clone_flag()) ==> all_handles(
                final(self).islands(),
            ) == all_handles(old(self).islands()),
            (old(self).gens_between_migrations_spec() > 0 && old(self).gens_remaining_spec() == 1
                && old(self).islands().len() > 1 && !old(self).clone_flag()) ==> forall|i: int|
                0 <= i < old(self).islands().len() ==> (#[trigger] final(
                self).islands()[i]).current().len() == old(self).islands()[i].current().len()
                - old(self).migrating_count_spec(),
            (old(self).gens_between_migrations_spec() > 0 && old(self).gens_remaining_spec() == 1
                && old(self).islands().len() > 1 && old(self).clone_flag()) ==> forall|i: int|
                0 <= i < old(self).islands().len() ==> (#[trigger] final(
                self).islands()[i]).current().to_multiset() == old(
                self).islands()[i].current().to_multiset(),
    {
        let ghost w0 = *self;
        let mut i: usize = 0;
        while i < self.islands.len()
            invariant
                i <= w0.islands().len(),
                self.islands@.len() == w0.islands().len(),
                forall|k: int|
                    0 <= k < i ==> {
                        &&& (#[trigger] self.islands@[k]).sorted_flag()
                        &&& self.islands@[k].wf()
                        &&& self.islands@[k].current().to_multiset() == w0.islands()[
                        k].current().to_multiset()
                        &&& self.islands@[k].current().len() == w0.islands()[k].current().len()
                        &&& self.islands@[k].future_gen() == w0.islands()[k].future_gen()
                        &&& self.islands@[k].name_spec() == w0.islands()[k].name_spec()
                    },
                forall|k: int|
                    i <= k < w0.islands().len() ==> #[trigger] self.islands@[k] == w0.islands()[k],
                self.genetic_engine == w0.engine_spec(),
                self.individuals_per_island == w0.individuals_per_island_spec(),
                self.elite_individuals_per_generation == w0.elite_individuals_spec(),
                self.generations_between_migrations == w0.gens_between_migrations_spec(),
                self.number_of_individuals_migrating == w0.migrating_count_spec(),
                self.migration_algorithm == w0.algorithm_spec(),
                self.clone_migrated_individuals == w0.clone_flag(),
                self.select_for_migration == w0.select_for_migration_spec(),
                self.select_as_parent == w0.select_as_parent_spec(),
                self.select_as_elite == w0.select_as_elite_spec(),
                self.threading_model == w0.threading_model_spec(),
                self.generation_count == w0.generation_count_spec(),
                self.generations_remaining_before_migration == w0.gens_remaining_spec(),
            decreases w0.islands().len() - i,
        {
            let island = &mut self.islands[i];
            island.run_one_generation();
            i = i + 1;
        }

        proof {
            crate::topology::lemma_total_individuals_pointwise(self.islands@, w0.islands());
            lemma_all_handles_pointwise(self.islands@, w0.islands());
        }

        // See if it is time for a migration.
        if self.generations_between_migrations > 0 {
            if self.generations_remaining_before_migration == 1 {
                self.generations_remaining_before_migration = self.generations_between_migrations;
                let ghost w1 = *self;
                self.migrate_individuals_between_islands();
                proof {
                    if w1.islands().len() > 1 {
                        crate::topology::lemma_total_individuals_pointwise(
                            w1.islands(),
                            w0.islands(),
                        );
                        lemma_all_handles_pointwise(w1.islands(), w0.islands());
                    }
                }
            } else {
                self.generations_remaining_before_migration = self.generations_remaining_before_migration
                    - 1;
            }
        }
        self.generation_count = self.generation_count + 1;
    }

    /// Runs fill-and-run cycles until the predicate, given a read-only
    /// view of the world, returns false; at least one generation runs
    /// before the first check. The loop also stops in the event that the
    /// generation counter reaches its maximum.
    #[verifier::loop_isolation(false)]
    pub fn run_generations_while<F: Fn(&World<G, E>) -> bool>(&mut self, while_fn: F) -> (r:
        Result<(), GeneticError>)
        requires
            old(self).wf(),
            forall|w: &World<G, E>| #[trigger] while_fn.requires((w,)),
            forall|i: int|
                0 <= i < old(self).islands().len() ==> ((#[trigger] old(self).islands()[i]).current().len() > 0 ==> old(self).islands()[i].sorted_flag()),
        ensures
            final(self).wf(),
            final(self).same_setup(old(self)),
            final(self).islands().len() == old(self).islands().len(),
            r is Ok,
            final(self).generation_count_spec() >= old(self).generation_count_spec(),
            old(self).generation_count_spec() < usize::MAX ==> final(self).generation_count_spec()
                > old(self).generation_count_spec(),
            old(self).generation_count_spec() < usize::MAX ==> forall|i: int|
                0 <= i < final(self).islands().len() ==> {
                    &&& (#[trigger] final(self).islands()[i]).sorted_flag()
                    &&& final(self).islands()[i].current().len() + old(
                        self).migrating_count_spec() >= old(self).individuals_per_island_spec()
                },
    {
        // Always run at least one generation.
        let mut running = true;
        let ghost mut started = false;
        while running
            invariant
                self.wf(),
                self.same_setup(old(self)),
                self.islands@.len() == old(self).islands().len(),
                forall|i: int|
                    0 <= i < self.islands@.len() ==> ((#[trigger] self.islands@[i]).current().len()
                        > 0 ==> self.islands@[i].sorted_flag()),
                !started ==> running && *self == *old(self),
                started ==> self.generation_count_spec() > old(self).generation_count_spec(),
                started ==> forall|i: int|
                    0 <= i < self.islands@.len() ==> {
                        &&& (#[trigger] self.islands@[i]).sorted_flag()
                        &&& self.islands@[i].current().len()
                            + self.number_of_individuals_migrating
                            >= self.individuals_per_island
                    },
                self.generation_count_spec() >= old(self).generation_count_spec(),
            decreases usize::MAX - self.generation_count,
        {
            if self.generation_count == usize::MAX {
                return Ok(());
            }
            let filled = self.fill_all_islands();
            if let Err(e) = filled {
                return Err(e);
            }
            let ghost mid = *self;
            self.run_one_generation();
            proof {
                started = true;
                broadcast use vstd::seq_lib::group_to_multiset_ensures;

                assert forall|i: int|
                    0 <= i < self.islands@.len() implies ((#[trigger] self.islands@[
                i]).sorted_flag() && self.islands@[i].current().len()
                    + self.number_of_individuals_migrating >= self.individuals_per_island) by {
                    assert(mid.islands()[i].future_gen() == Seq::<u64>::empty());
                    assert(self.islands@[i].current().to_multiset().len() == self.islands@[
                    i].current().len());
                    assert(mid.islands()[i].current().to_multiset().len() == mid.islands()[
                    i].current().len());
                }
            }
            running = while_fn(&*self);
        }
        Ok(())
    }

    /// The index of the island at the given distance ahead of the
    /// source, wrapping past the end of the island list.
    fn island_at_distance(&self, source_id: usize, distance: usize) -> (r: usize)
        requires
            self.islands().len() > 0,
            source_id < self.islands().len(),
        ensures
            r < self.islands().len(),
            r as int == circular_destination(
                source_id as int,
                distance as int,
                self.islands().len() as int,
            ),
    {
        let len = self.islands.len();
        let d = distance % len;
        let r = if source_id >= len - d {
            source_id - (len - d)
        } else {
            source_id + d
        };
        proof {
            let li = len as int;
            let s = source_id as int;
            let dist = distance as int;
            let di = d as int;
            lemma_add_mod_noop(s, dist, li);
            lemma_small_mod(source_id as nat, len as nat);
            if s + di < li {
                lemma_small_mod((s + di) as nat, len as nat);
            } else {
                lemma_mod_multiples_vanish(1, s + di - li, li);
                lemma_small_mod((s + di - li) as nat, len as nat);
            }
        }
        r
    }

    /// Moves one individual: selects it from the source island with the
    /// migration curve, removes it from the source unless cloning is
    /// enabled, and appends it to the destination island's future
    /// generation, so it only becomes active at the next generation
    /// boundary.
    #[verifier::loop_isolation(false)]
    fn migrate_one_individual_from_island_to_island(
        &mut self,
        source_island_id: usize,
        destination_island_id: usize,
    )
        requires
            old(self).islands().len() >= 1,
            source_island_id < old(self).islands().len(),
            destination_island_id < old(self).islands().len(),
            forall|i: int|
                0 <= i < old(self).islands().len() ==> (#[trigger] old(self).islands()[i]).wf(),
            old(self).islands()[source_island_id as int].sorted_flag(),
            old(self).islands()[source_island_id as int].current().len() >= 1,
        ensures
            final(self).islands().len() == old(self).islands().len(),
            total_individuals(final(self).islands()) == total_individuals(old(self).islands()) + (
            if old(self).clone_flag() {
                1int
            } else {
                0int
            }),
            forall|i: int|
                0 <= i < old(self).islands().len() && i != source_island_id as int && i
                    != destination_island_id as int ==> final(self).islands()[i] == old(self).islands()[i],
            forall|i: int|
                0 <= i < old(self).islands().len() ==> {
                    &&& (#[trigger] final(self).islands()[i]).sorted_flag() == old(self).islands()[i].sorted_flag()
                    &&& final(self).islands()[i].name_spec() == old(self).islands()[i].name_spec()
                    &&& final(self).islands()[i].eng() == old(self).islands()[i].eng()
                    &&& final(self).islands()[i].wf()
                },
            old(self).clone_flag() ==> forall|i: int|
                0 <= i < old(self).islands().len() ==> (#[trigger] final(self).islands()[i]).current() == old(self).islands()[i].current(),
            !old(self).clone_flag() ==> {
                &&& final(self).islands()[source_island_id as int].current().len() == old(self).islands()[source_island_id as int].current().len() - 1
                &&& forall|i: int|
                    0 <= i < old(self).islands().len() && i != source_island_id as int ==> (
                    #[trigger] final(self).islands()[i]).current() == old(self).islands()[i].current()
            },
            final(self).islands()[destination_island_id as int].future_gen().len() == old(self).islands()[destination_island_id as int].future_gen().len() + 1,
            forall|i: int|
                0 <= i < old(self).islands().len() && i != destination_island_id as int ==> (
                #[trigger] final(self).islands()[i]).future_gen() == old(self).islands()[i].future_gen(),
            old(self).clone_flag() ==> exists|m: u64|
                old(self).islands()[source_island_id as int].current().contains(m) && final(self).islands()[destination_island_id as int].future_gen() == old(self).islands()[destination_island_id as int].future_gen().push(m),
            !old(self).clone_flag() ==> exists|idx: int|
                {
                    &&& 0 <= idx < old(self).islands()[source_island_id as int].current().len()
                    &&& final(self).islands()[source_island_id as int].current() == old(
                        self).islands()[source_island_id as int].current().remove(idx)
                    &&& final(self).islands()[destination_island_id as int].future_gen() == old(
                        self).islands()[destination_island_id as int].future_gen().push(
                        old(self).islands()[source_island_id as int].current()[idx],
                    )
                },
            !old(self).clone_flag() ==> all_handles(final(self).islands()) == all_handles(
                old(self).islands(),
            ),
            !old(self).clone_flag() ==> forall|x: u64|
                final(self).islands()[source_island_id as int].current().contains(x) ==> old(
                    self).islands()[source_island_id as int].current().contains(x),
            final(self).same_setup(old(self)),
            old(self).engine_spec().wf() ==> final(self).engine_spec().wf(),
            final(self).algorithm_spec() == old(self).algorithm_spec(),
            final(self).generation_count_spec() == old(self).generation_count_spec(),
            final(self).gens_remaining_spec() == old(self).gens_remaining_spec(),
    {
        let curve = self.select_for_migration;
        let ghost islands0 = self.islands@;

        let migrating: u64;
        if self.clone_migrated_individuals {
            let chosen = self.islands[source_island_id].select_one_individual(
                curve,
                self.genetic_engine.rng(),
            );
            migrating = chosen.unwrap();
        } else {
            let source_island = &mut self.islands[source_island_id];
            let chosen = source_island.select_and_remove_one_individual(
                curve,
                self.genetic_engine.rng(),
            );
            migrating = chosen.unwrap();
            proof {
                lemma_total_individuals_update(
                    islands0,
                    source_island_id as int,
                    self.islands@[source_island_id as int],
                );
            }
        }

        let ghost islands1 = self.islands@;
        let destination_island = &mut self.islands[destination_island_id];
        destination_island.add_individual_to_future_generation(migrating);
        proof {
            lemma_total_individuals_update(
                islands1,
                destination_island_id as int,
                self.islands@[destination_island_id as int],
            );
            if !self.clone_migrated_individuals {
                broadcast use vstd::seq_lib::group_to_multiset_ensures;
                broadcast use vstd::multiset::group_multiset_axioms;

                let src = source_island_id as int;
                let dst = destination_island_id as int;
                let chosen_at = choose|i: int|
                    0 <= i < islands0[src].current().len() && islands0[src].current()[i]
                        == migrating && islands1[src].current() == islands0[src].current().remove(
                        i,
                    );
                assert(self.islands@[src].current() == islands0[src].current().remove(chosen_at));
                assert(self.islands@[dst].future_gen() == islands0[dst].future_gen().push(
                    islands0[src].current()[chosen_at],
                ));
                assert(islands1 =~= islands0.update(src, islands1[src]));
                assert(self.islands@ =~= islands1.update(dst, self.islands@[dst]));
                lemma_all_handles_update(islands0, src, islands1[src]);
                lemma_all_handles_update(islands1, dst, self.islands@[dst]);
                assert(islands0[src].current().to_multiset().count(migrating) > 0) by {
                    assert(islands0[src].current().contains(migrating)) by {
                        assert(islands0[src].current()[chosen_at] == migrating);
                    }
                }
                assert forall|x: u64|
                    all_handles(self.islands@).count(x) == all_handles(islands0).count(x) by {
                    assert(islands1[src].current().to_multiset() == islands0[
                    src].current().to_multiset().remove(migrating));
                    assert(self.islands@[dst].future_gen().to_multiset() =~= islands1[
                    dst].future_gen().to_multiset().insert(migrating));
                }
                assert(all_handles(self.islands@) =~= all_handles(islands0));
                assert forall|x: u64|
                    self.islands@[src].current().contains(x) implies islands0[
                src].current().contains(x) by {
                    let at = choose|t: int|
                        0 <= t < self.islands@[src].current().len() && self.islands@[
                        src].current()[t] == x;
                    assert(self.islands@[src].current()[at] == if at < chosen_at {
                        islands0[src].current()[at]
                    } else {
                        islands0[src].current()[at + 1]
                    });
                }
            }
        }
    }

    /// Migrates the configured number of individuals from one island to
    /// the island the given distance ahead.
    #[verifier::loop_isolation(false)]
    fn migrate_one_island_circular_n(&mut self, source_island_id: usize, n: usize)
        requires
            old(self).islands().len() >= 1,
            source_island_id < old(self).islands().len(),
            forall|i: int|
                0 <= i < old(self).islands().len() ==> (#[trigger] old(self).islands()[i]).wf(),
            old(self).migrating_count_spec() > 0 ==> old(self).islands()[
                source_island_id as int].sorted_flag(),
            old(self).clone_flag() ==> (old(self).migrating_count_spec() > 0 ==> old(self).islands()[source_island_id as int].current().len() >= 1),
            !old(self).clone_flag() ==> old(self).islands()[source_island_id as int].current().len()
                >= old(self).migrating_count_spec(),
        ensures
            final(self).islands().len() == old(self).islands().len(),
            total_individuals(final(self).islands()) == total_individuals(old(self).islands()) + (
            if old(self).clone_flag() {
                old(self).migrating_count_spec() as int
            } else {
                0int
            }),
            !old(self).clone_flag() ==> all_handles(final(self).islands()) == all_handles(
                old(self).islands(),
            ),
            forall|i: int|
                0 <= i < old(self).islands().len() && i != source_island_id as int && i
                    != circular_destination(
                    source_island_id as int,
                    n as int,
                    old(self).islands().len() as int,
                ) ==> final(self).islands()[i] == old(self).islands()[i],
            forall|i: int|
                0 <= i < old(self).islands().len() ==> {
                    &&& (#[trigger] final(self).islands()[i]).sorted_flag() == old(self).islands()[i].sorted_flag()
                    &&& final(self).islands()[i].name_spec() == old(self).islands()[i].name_spec()
                    &&& final(self).islands()[i].eng() == old(self).islands()[i].eng()
                    &&& final(self).islands()[i].wf()
                },
            old(self).clone_flag() ==> forall|i: int|
                0 <= i < old(self).islands().len() ==> (#[trigger] final(self).islands()[i]).current() == old(self).islands()[i].current(),
            !old(self).clone_flag() ==> {
                &&& final(self).islands()[source_island_id as int].current().len() == old(self).islands()[source_island_id as int].current().len() - old(self).migrating_count_spec()
                &&& forall|i: int|
                    0 <= i < old(self).islands().len() && i != source_island_id as int ==> (
                    #[trigger] final(self).islands()[i]).current() == old(self).islands()[i].current()
            },
            final(self).islands()[circular_destination(
                source_island_id as int,
                n as int,
                old(self).islands().len() as int,
            )].future_gen().len() == old(self).islands()[circular_destination(
                source_island_id as int,
                n as int,
                old(self).islands().len() as int,
            )].future_gen().len() + old(self).migrating_count_spec(),
            forall|i: int|
                0 <= i < old(self).islands().len() && i != circular_destination(
                    source_island_id as int,
                    n as int,
                    old(self).islands().len() as int,
                ) ==> (#[trigger] final(self).islands()[i]).future_gen() == old(self).islands()[i].future_gen(),
            forall|t: int|
                0 <= t < old(self).islands()[circular_destination(
                    source_island_id as int,
                    n as int,
                    old(self).islands().len() as int,
                )].future_gen().len() ==> #[trigger] final(self).islands()[circular_destination(
                    source_island_id as int,
                    n as int,
                    old(self).islands().len() as int,
                )].future_gen()[t] == old(self).islands()[circular_destination(
                    source_island_id as int,
                    n as int,
                    old(self).islands().len() as int,
                )].future_gen()[t],
            forall|t: int|
                old(self).islands()[circular_destination(
                    source_island_id as int,
                    n as int,
                    old(self).islands().len() as int,
                )].future_gen().len() <= t < final(self).islands()[circular_destination(
                    source_island_id as int,
                    n as int,
                    old(self).islands().len() as int,
                )].future_gen().len() ==> old(
                    self).islands()[source_island_id as int].current().contains(
                    #[trigger] final(self).islands()[circular_destination(
                        source_island_id as int,
                        n as int,
                        old(self).islands().len() as int,
                    )].future_gen()[t],
                ),
            !old(self).clone_flag() ==> forall|x: u64|
                final(self).islands()[source_island_id as int].current().contains(x) ==> old(
                    self).islands()[source_island_id as int].current().contains(x),
            final(self).same_setup(old(self)),
            old(self).engine_spec().wf() ==> final(self).engine_spec().wf(),
            final(self).algorithm_spec() == old(self).algorithm_spec(),
            final(self).generation_count_spec() == old(self).generation_count_spec(),
            final(self).gens_remaining_spec() == old(self).gens_remaining_spec(),
    {
        let destination_island_id = self.island_at_distance(source_island_id, n);
        let count = self.number_of_individuals_migrating;
        let ghost w0 = *self;
        let ghost dst = destination_island_id as int;
        let ghost src = source_island_id as int;
        let mut j: usize = 0;
        while j < count
            invariant
                j <= count,
                count == w0.migrating_count_spec(),
                source_island_id < w0.islands().len(),
                destination_island_id < w0.islands().len(),
                src == source_island_id as int,
                dst == destination_island_id as int,
                self.islands@.len() == w0.islands().len(),
                total_individuals(self.islands@) == total_individuals(w0.islands()) + (
                if w0.clone_flag() {
                    j as int
                } else {
                    0int
                }),
                forall|i: int|
                    0 <= i < w0.islands().len() && i != src && i != dst ==> self.islands@[i]
                        == w0.islands()[i],
                forall|i: int|
                    0 <= i < w0.islands().len() ==> {
                        &&& (#[trigger] self.islands@[i]).sorted_flag() == w0.islands()[
                        i].sorted_flag()
                        &&& self.islands@[i].name_spec() == w0.islands()[i].name_spec()
                        &&& self.islands@[i].eng() == w0.islands()[i].eng()
                        &&& self.islands@[i].wf()
                    },
                w0.clone_flag() ==> forall|i: int|
                    0 <= i < w0.islands().len() ==> (#[trigger] self.islands@[i]).current()
                        == w0.islands()[i].current(),
                !w0.clone_flag() ==> {
                    &&& self.islands@[src].current().len() == w0.islands()[src].current().len()
                        - j
                    &&& forall|i: int|
                        0 <= i < w0.islands().len() && i != src ==> (#[trigger] self.islands@[
                        i]).current() == w0.islands()[i].current()
                },
                self.islands@[dst].future_gen().len() == w0.islands()[dst].future_gen().len() + j,
                forall|t: int|
                    0 <= t < w0.islands()[dst].future_gen().len() ==> #[trigger] self.islands@[
                    dst].future_gen()[t] == w0.islands()[dst].future_gen()[t],
                forall|t: int|
                    w0.islands()[dst].future_gen().len() <= t < self.islands@[
                    dst].future_gen().len() ==> w0.islands()[src].current().contains(
                        #[trigger] self.islands@[dst].future_gen()[t],
                    ),
                !w0.clone_flag() ==> forall|x: u64|
                    self.islands@[src].current().contains(x) ==> w0.islands()[
                    src].current().contains(x),
                forall|i: int|
                    0 <= i < w0.islands().len() && i != dst ==> (#[trigger] self.islands@[
                    i]).future_gen() == w0.islands()[i].future_gen(),
                self.same_setup(&w0),
                w0.engine_spec().wf() ==> self.engine_spec().wf(),
                self.migration_algorithm == w0.algorithm_spec(),
                self.generation_count == w0.generation_count_spec(),
                self.generations_remaining_before_migration == w0.gens_remaining_spec(),
                self.number_of_individuals_migrating == w0.migrating_count_spec(),
                self.clone_migrated_individuals == w0.clone_flag(),
                !w0.clone_flag() ==> all_handles(self.islands@) == all_handles(w0.islands()),
                w0.clone_flag() && count > 0 ==> self.islands@[src].current().len() >= 1,
                !w0.clone_flag() ==> self.islands@[src].current().len() >= count - j,
            decreases count - j,
        {
            self.migrate_one_individual_from_island_to_island(
                source_island_id,
                destination_island_id,
            );
            j = j + 1;
        }
    }

    /// Runs one circular pass: every island sends its migrants to the
    /// island the given distance ahead.
    #[verifier::loop_isolation(false)]
    fn migrate_all_islands_circular_n(&mut self, n: usize)
        requires
            old(self).islands().len() >= 1,
            forall|i: int|
                0 <= i < old(self).islands().len() ==> (#[trigger] old(self).islands()[i]).wf(),
            old(self).migrating_count_spec() > 0 ==> forall|i: int|
                0 <= i < old(self).islands().len() ==> (#[trigger] old(self).islands()[i]).sorted_flag(),
            old(self).clone_flag() ==> (old(self).migrating_count_spec() > 0 ==> forall|i: int|
                0 <= i < old(self).islands().len() ==> (#[trigger] old(self).islands()[i]).current().len() >= 1),
            !old(self).clone_flag() ==> forall|i: int|
                0 <= i < old(self).islands().len() ==> (#[trigger] old(self).islands()[i]).current().len() >= old(self).migrating_count_spec(),
        ensures
            final(self).islands().len() == old(self).islands().len(),
            total_individuals(final(self).islands()) == total_individuals(old(self).islands()) + (
            if old(self).clone_flag() {
                old(self).islands().len() * old(self).migrating_count_spec()
            } else {
                0int
            }),
            !old(self).clone_flag() ==> all_handles(final(self).islands()) == all_handles(
                old(self).islands(),
            ),
            forall|i: int|
                0 <= i < old(self).islands().len() ==> {
                    &&& (#[trigger] final(self).islands()[i]).sorted_flag() == old(self).islands()[i].sorted_flag()
                    &&& final(self).islands()[i].name_spec() == old(self).islands()[i].name_spec()
                    &&& final(self).islands()[i].eng() == old(self).islands()[i].eng()
                    &&& final(self).islands()[i].wf()
                },
            old(self).clone_flag() ==> forall|i: int|
                0 <= i < old(self).islands().len() ==> (#[trigger] final(self).islands()[i]).current() == old(self).islands()[i].current(),
            !old(self).clone_flag() ==> forall|i: int|
                0 <= i < old(self).islands().len() ==> (#[trigger] final(self).islands()[i]).current().len() == old(self).islands()[i].current().len() - old(self).migrating_count_spec(),
            forall|i: int|
                0 <= i < old(self).islands().len() ==> (#[trigger] final(
                self).islands()[i]).future_gen().len() == old(self).islands()[i].future_gen().len()
                + old(self).migrating_count_spec(),
            forall|j: int, t: int|
                0 <= j < old(self).islands().len() && 0 <= t < old(
                    self).islands()[j].future_gen().len() ==> #[trigger] final(
                self).islands()[j].future_gen()[t] == old(self).islands()[j].future_gen()[t],
            forall|j: int, t: int|
                0 <= j < old(self).islands().len() && old(self).islands()[j].future_gen().len()
                    <= t < final(self).islands()[j].future_gen().len() ==> old(
                    self).islands()[circular_source(
                    j,
                    n as int,
                    old(self).islands().len() as int,
                )].current().contains(#[trigger] final(self).islands()[j].future_gen()[t]),
            !old(self).clone_flag() ==> forall|i: int, x: u64|
                0 <= i < old(self).islands().len() && (#[trigger] final(
                self).islands()[i].current().contains(x)) ==> old(
                    self).islands()[i].current().contains(x),
            final(self).same_setup(old(self)),
            old(self).engine_spec().wf() ==> final(self).engine_spec().wf(),
            final(self).algorithm_spec() == old(self).algorithm_spec(),
            final(self).generation_count_spec() == old(self).generation_count_spec(),
            final(self).gens_remaining_spec() == old(self).gens_remaining_spec(),
    {
        let len = self.islands.len();
        let ghost w0 = *self;
        let ghost li = len as int;
        let ghost nn = n as int;
        let mut s: usize = 0;
        while s < len
            invariant
                s <= len,
                len == w0.islands().len(),
                self.islands@.len() == w0.islands().len(),
                total_individuals(self.islands@) == total_individuals(w0.islands()) + (
                if w0.clone_flag() {
                    s as int * w0.migrating_count_spec() as int
                } else {
                    0int
                }),
                forall|i: int|
                    0 <= i < w0.islands().len() ==> {
                        &&& (#[trigger] self.islands@[i]).sorted_flag() == w0.islands()[
                        i].sorted_flag()
                        &&& self.islands@[i].name_spec() == w0.islands()[i].name_spec()
                        &&& self.islands@[i].eng() == w0.islands()[i].eng()
                        &&& self.islands@[i].wf()
                    },
                w0.clone_flag() ==> forall|i: int|
                    0 <= i < w0.islands().len() ==> (#[trigger] self.islands@[i]).current()
                        == w0.islands()[i].current(),
                !w0.clone_flag() ==> forall|i: int|
                    0 <= i < w0.islands().len() ==> (#[trigger] self.islands@[i]).current().len()
                        == w0.islands()[i].current().len() - (if i < s as int {
                        w0.migrating_count_spec() as int
                    } else {
                        0int
                    }),
                !w0.clone_flag() ==> forall|i: int|
                    s as int <= i < w0.islands().len() ==> (#[trigger] self.islands@[i]).current()
                        == w0.islands()[i].current(),
                self.same_setup(&w0),
                w0.engine_spec().wf() ==> self.engine_spec().wf(),
                self.migration_algorithm == w0.algorithm_spec(),
                self.generation_count == w0.generation_count_spec(),
                self.generations_remaining_before_migration == w0.gens_remaining_spec(),
                self.number_of_individuals_migrating == w0.migrating_count_spec(),
                self.clone_migrated_individuals == w0.clone_flag(),
                !w0.clone_flag() ==> all_handles(self.islands@) == all_handles(w0.islands()),
                forall|j: int|
                    0 <= j < li ==> (#[trigger] self.islands@[j]).future_gen().len()
                        == w0.islands()[j].future_gen().len() + (
                    if circular_source(j, nn, li) < s as int {
                        w0.migrating_count_spec() as int
                    } else {
                        0int
                    }),
                forall|j: int|
                    0 <= j < li && circular_source(j, nn, li) >= s as int ==> (
                    #[trigger] self.islands@[j]).future_gen() == w0.islands()[j].future_gen(),
                forall|j: int, t: int|
                    0 <= j < li && 0 <= t < w0.islands()[j].future_gen().len()
                        ==> #[trigger] self.islands@[j].future_gen()[t] == w0.islands()[
                    j].future_gen()[t],
                forall|j: int, t: int|
                    0 <= j < li && w0.islands()[j].future_gen().len() <= t < self.islands@[
                    j].future_gen().len() ==> w0.islands()[circular_source(
                        j,
                        nn,
                        li,
                    )].current().contains(#[trigger] self.islands@[j].future_gen()[t]),
                !w0.clone_flag() ==> forall|i: int, x: u64|
                    0 <= i < li && (#[trigger] self.islands@[i].current().contains(x))
                        ==> w0.islands()[i].current().contains(x),
            decreases len - s,
        {
            self.migrate_one_island_circular_n(s, n);
            proof {
                assert((s as int + 1) * w0.migrating_count_spec() as int == s as int
                    * w0.migrating_count_spec() as int + w0.migrating_count_spec() as int) by (nonlinear_arith);
                assert forall|j: int| 0 <= j < li implies (circular_source(j, nn, li) == s as int)
                    <==> (j == circular_destination(s as int, nn, li)) by {
                    lemma_circular_destination_inverse(s as int, j, nn, li);
                }
            }
            s = s + 1;
        }
        proof {
            assert forall|j: int| 0 <= j < li implies circular_source(j, nn, li) < li by {
                lemma_circular_destination_inverse(0, j, nn, li);
            }
        }
    }

    /// A random order of the island indices: every index exactly once.
    #[verifier::loop_isolation(false)]
    fn random_island_order(&mut self) -> (r: Vec<usize>)
        ensures
            is_index_permutation(r@, old(self).islands().len() as int),
            r@.len() == old(self).islands().len(),
            final(self).islands() == old(self).islands(),
            final(self).same_setup(old(self)),
            old(self).engine_spec().wf() ==> final(self).engine_spec().wf(),
            final(self).algorithm_spec() == old(self).algorithm_spec(),
            final(self).generation_count_spec() == old(self).generation_count_spec(),
            final(self).gens_remaining_spec() == old(self).gens_remaining_spec(),
            final(self).migrating_count_spec() == old(self).migrating_count_spec(),
    {
        let len = self.islands.len();
        let mut island_ids: Vec<usize> = Vec::new();
        let mut i: usize = 0;
        while i < len
            invariant
                i <= len,
                island_ids@.len() == i,
                forall|k: int| 0 <= k < i ==> (#[trigger] island_ids@[k]) == k,
            decreases len - i,
        {
            island_ids.push(i);
            i = i + 1;
        }
        proof {
            assert(island_ids@ =~= crate::topology::identity_order(len as int));
        }
        shuffle_indices(self.genetic_engine.rng(), &mut island_ids);
        island_ids
    }

    /// For every entry of the order, the wrapping distance back to the
    /// entry before it; migrating each entry by its distance sends its
    /// individuals to the island listed at the previous position.
    #[verifier::loop_isolation(false)]
    fn distances_to_next_island(island_id: &Vec<usize>) -> (r: Vec<usize>)
        requires
            island_id@.len() >= 2,
            island_id@.no_duplicates(),
            forall|i: int|
                0 <= i < island_id@.len() ==> (#[trigger] island_id@[i]) < island_id@.len(),
        ensures
            r@.len() == island_id@.len(),
            forall|i: int|
                0 <= i < island_id@.len() ==> 1 <= (#[trigger] r@[i]) <= island_id@.len() - 1,
            forall|i: int|
                0 <= i < island_id@.len() ==> circular_destination(
                    island_id@[i] as int,
                    (#[trigger] r@[i]) as int,
                    island_id@.len() as int,
                ) == island_id@[previous_position(i, island_id@.len() as int)],
    {
        let len = island_id.len();
        let mut distances: Vec<usize> = Vec::new();
        let mut previous_source_id: usize = island_id[len - 1];
        let mut i: usize = 0;
        while i < len
            invariant
                i <= len,
                len == island_id@.len(),
                len >= 1,
                forall|k: int|
                    0 <= k < island_id@.len() ==> (#[trigger] island_id@[k]) < island_id@.len(),
                distances@.len() == i,
                previous_source_id == island_id@[previous_position(i as int, len as int)],
                forall|k: int| 0 <= k < i ==> 1 <= (#[trigger] distances@[k]) <= len - 1,
                forall|k: int|
                    0 <= k < i ==> circular_destination(
                        island_id@[k] as int,
                        (#[trigger] distances@[k]) as int,
                        len as int,
                    ) == island_id@[previous_position(k, len as int)],
            decreases len - i,
        {
            let current = island_id[i];
            let distance = if previous_source_id >= current {
                previous_source_id - current
            } else {
                previous_source_id + (len - current)
            };
            proof {
                let li = len as int;
                let c = current as int;
                let d = distance as int;
                assert(previous_source_id != current) by {
                    assert(previous_position(i as int, li) != i as int);
                }
                if previous_source_id >= current {
                    lemma_small_mod((c + d) as nat, len as nat);
                } else {
                    lemma_mod_multiples_vanish(1, previous_source_id as int, li);
                    lemma_small_mod(previous_source_id as nat, len as nat);
                }
            }
            distances.push(distance);
            previous_source_id = current;
            i = i + 1;
        }
        distances
    }

    /// Performs one migration pass according to the configured topology.
    /// With fewer than two islands the pass does nothing. Otherwise,
    /// unless cloning is enabled, the total population over all islands
    /// is conserved; with cloning it grows by one migrant count per
    /// island. An `Incremental` algorithm advances its stored distance
    /// and never stores zero.
    #[verifier::loop_isolation(false)]
    #[verifier::rlimit(100)]
    pub fn migrate_individuals_between_islands(&mut self)
        requires
            old(self).wf(),
            old(self).migration_ready(),
        ensures
            final(self).wf(),
            final(self).same_setup(old(self)),
            final(self).islands().len() == old(self).islands().len(),
            final(self).generation_count_spec() == old(self).generation_count_spec(),
            final(self).gens_remaining_spec() == old(self).gens_remaining_spec(),
            forall|i: int|
                0 <= i < old(self).islands().len() ==> {
                    &&& (#[trigger] final(self).islands()[i]).sorted_flag() == old(self).islands()[i].sorted_flag()
                    &&& final(self).islands()[i].name_spec() == old(self).islands()[i].name_spec()
                    &&& final(self).islands()[i].eng() == old(self).islands()[i].eng()
                },
            old(self).islands().len() <= 1 ==> final(self).islands() == old(self).islands()
                && final(self).algorithm_spec() == old(self).algorithm_spec(),
            old(self).islands().len() > 1 && !(old(self).algorithm_spec() is CompletelyRandom)
                ==> forall|i: int|
                0 <= i < old(self).islands().len() ==> (#[trigger] final(
                self).islands()[i]).future_gen().len() == old(self).islands()[i].future_gen().len()
                + old(self).migrating_count_spec(),
            old(self).islands().len() > 1 ==> forall|j: int, t: int|
                0 <= j < old(self).islands().len() && 0 <= t < old(
                    self).islands()[j].future_gen().len() ==> #[trigger] final(
                self).islands()[j].future_gen()[t] == old(self).islands()[j].future_gen()[t],
            old(self).islands().len() > 1 && old(self).algorithm_spec()
                == MigrationAlgorithm::Circular ==> forall|j: int, t: int|
                0 <= j < old(self).islands().len() && old(self).islands()[j].future_gen().len()
                    <= t < final(self).islands()[j].future_gen().len() ==> old(
                    self).islands()[circular_source(
                    j,
                    1,
                    old(self).islands().len() as int,
                )].current().contains(#[trigger] final(self).islands()[j].future_gen()[t]),
            old(self).islands().len() > 1 && old(self).algorithm_spec() is Cyclical ==> forall|
                j: int,
                t: int,
            |
                0 <= j < old(self).islands().len() && old(self).islands()[j].future_gen().len()
                    <= t < final(self).islands()[j].future_gen().len() ==> old(
                    self).islands()[circular_source(
                    j,
                    old(self).algorithm_spec()->Cyclical_0 as int,
                    old(self).islands().len() as int,
                )].current().contains(#[trigger] final(self).islands()[j].future_gen()[t]),
            old(self).islands().len() > 1 && old(self).algorithm_spec() is Incremental ==> forall|
                j: int,
                t: int,
            |
                0 <= j < old(self).islands().len() && old(self).islands()[j].future_gen().len()
                    <= t < final(self).islands()[j].future_gen().len() ==> old(
                    self).islands()[circular_source(
                    j,
                    old(self).algorithm_spec()->Incremental_0 as int,
                    old(self).islands().len() as int,
                )].current().contains(#[trigger] final(self).islands()[j].future_gen()[t]),
            old(self).islands().len() > 1 && old(self).algorithm_spec()
                == MigrationAlgorithm::RandomCircular ==> forall|j: int, t: int|
                0 <= j < old(self).islands().len() && old(self).islands()[j].future_gen().len()
                    <= t < final(self).islands()[j].future_gen().len() ==> held_by_another(
                    old(self).islands(),
                    j,
                    #[trigger] final(self).islands()[j].future_gen()[t],
                ),
            old(self).islands().len() > 1 && old(self).algorithm_spec()
                == MigrationAlgorithm::CompletelyRandom ==> forall|j: int, t: int|
                0 <= j < old(self).islands().len() && old(self).islands()[j].future_gen().len()
                    <= t < final(self).islands()[j].future_gen().len() ==> held_by_another(
                    old(self).islands(),
                    j,
                    #[trigger] final(self).islands()[j].future_gen()[t],
                ),
            old(self).islands().len() > 1 && !old(self).clone_flag() ==> all_handles(
                final(self).islands(),
            ) == all_handles(old(self).islands()),
            old(self).islands().len() > 1 && !old(self).clone_flag() ==> forall|i: int|
                0 <= i < old(self).islands().len() ==> (#[trigger] final(
                self).islands()[i]).current().len() == old(self).islands()[i].current().len()
                - old(self).migrating_count_spec(),
            old(self).islands().len() > 1 && old(self).clone_flag() ==> forall|i: int|
                0 <= i < old(self).islands().len() ==> (#[trigger] final(
                self).islands()[i]).current() == old(self).islands()[i].current(),
            old(self).islands().len() > 1 ==> total_individuals(final(self).islands())
                == total_individuals(old(self).islands()) + (
            if old(self).clone_flag() {
                old(self).islands().len() * old(self).migrating_count_spec()
            } else {
                0int
            }),
            old(self).islands().len() > 1 && (old(self).algorithm_spec() matches
                MigrationAlgorithm::Incremental(n)) ==> final(self).algorithm_spec()
                == MigrationAlgorithm::Incremental(
                incremental_next(
                    old(self).algorithm_spec()->Incremental_0 as int,
                    old(self).islands().len() as int,
                ) as usize,
            ) && incremental_next(
                old(self).algorithm_spec()->Incremental_0 as int,
                old(self).islands().len() as int,
            ) != 0,
            !(old(self).algorithm_spec() is Incremental) ==> final(self).algorithm_spec() == old(self).algorithm_spec(),
    {
        let island_len = self.islands.len();

        if island_len > 1 {
            match self.migration_algorithm {
                MigrationAlgorithm::Circular => self.migrate_all_islands_circular_n(1),
                MigrationAlgorithm::Cyclical(n) => self.migrate_all_islands_circular_n(n),
                MigrationAlgorithm::Incremental(n) => {
                    self.migrate_all_islands_circular_n(n);

                    // Advance the stored distance; a distance of zero
                    // would make every island migrate to itself, so it
                    // becomes one instead.
                    let d = n % island_len;
                    let mut next_n = if d + 1 == island_len {
                        0
                    } else {
                        d + 1
                    };
                    proof {
                        let li = island_len as int;
                        lemma_add_mod_noop(n as int, 1int, li);
                        lemma_small_mod(1nat, island_len as nat);
                        if d + 1 == island_len {
                            lemma_mod_multiples_vanish(1, 0, li);
                            lemma_small_mod(0nat, island_len as nat);
                        } else {
                            lemma_small_mod((d + 1) as nat, island_len as nat);
                        }
                    }
                    if next_n == 0 {
                        next_n = 1;
                    }
                    self.migration_algorithm = MigrationAlgorithm::Incremental(next_n);
                },
                MigrationAlgorithm::RandomCircular => {
                    // A fresh random order of the islands; each entry
                    // migrates to the island listed before it, so every
                    // island is a source exactly once and a destination
                    // exactly once, with randomized pairing.
                    let island_order = self.random_island_order();
                    proof {
                        lemma_index_permutation_facts(island_order@, island_len as int);
                    }
                    let distances = Self::distances_to_next_island(&island_order);
                    let ghost w1 = *self;
                    let ghost order = island_order@;
                    let ghost rot = crate::topology::rotate_to_previous(order);
                    proof {
                        crate::topology::lemma_random_circular_pairing(order, island_len as int);
                        lemma_index_permutation_facts(rot, island_len as int);
                    }
                    let mut k: usize = 0;
                    while k < island_order.len()
                        invariant
                            k <= order.len(),
                            order.len() == island_len,
                            island_len == w1.islands().len(),
                            island_len > 1,
                            island_order@ == order,
                            distances@.len() == order.len(),
                            forall|i: int| 0 <= i < order.len() ==> (#[trigger] order[i]) < island_len,
                            order.no_duplicates(),
                            rot == crate::topology::rotate_to_previous(order),
                            rot.len() == island_len,
                            rot.no_duplicates(),
                            self.islands@.len() == w1.islands().len(),
                            total_individuals(self.islands@) == total_individuals(w1.islands()) + (
                            if w1.clone_flag() {
                                k as int * w1.migrating_count_spec() as int
                            } else {
                                0int
                            }),
                            forall|i: int|
                                0 <= i < w1.islands().len() ==> {
                                    &&& (#[trigger] self.islands@[i]).sorted_flag() == w1.islands()[
                                    i].sorted_flag()
                                    &&& self.islands@[i].name_spec() == w1.islands()[i].name_spec()
                                    &&& self.islands@[i].eng() == w1.islands()[i].eng()
                                    &&& self.islands@[i].wf()
                                },
                            w1.clone_flag() ==> forall|i: int|
                                0 <= i < w1.islands().len() ==> (#[trigger] self.islands@[
                                i]).current() == w1.islands()[i].current(),
                            !w1.clone_flag() ==> forall|i: int|
                                0 <= i < w1.islands().len() ==> (#[trigger] self.islands@[
                                i]).current().len() == w1.islands()[i].current().len() - (
                                if order.take(k as int).contains(i as usize) {
                                    w1.migrating_count_spec() as int
                                } else {
                                    0int
                                }),
                            !w1.clone_flag() ==> forall|i: int|
                                0 <= i < w1.islands().len() && !order.take(k as int).contains(
                                    i as usize,
                                ) ==> (#[trigger] self.islands@[i]).current() == w1.islands()[
                                i].current(),
                            self.same_setup(&w1),
                            w1.engine_spec().wf() ==> self.engine_spec().wf(),
                            self.migration_algorithm == w1.algorithm_spec(),
                            self.generation_count == w1.generation_count_spec(),
                            self.generations_remaining_before_migration == w1.gens_remaining_spec(),
                            self.number_of_individuals_migrating == w1.migrating_count_spec(),
                            self.clone_migrated_individuals == w1.clone_flag(),
                            !w1.clone_flag() ==> all_handles(self.islands@) == all_handles(
                                w1.islands(),
                            ),
                            forall|j: int|
                                0 <= j < island_len ==> (#[trigger] self.islands@[
                                j]).future_gen().len() == w1.islands()[j].future_gen().len() + (
                                if rot.take(k as int).contains(j as usize) {
                                    w1.migrating_count_spec() as int
                                } else {
                                    0int
                                }),
                            forall|j: int|
                                0 <= j < island_len && !rot.take(k as int).contains(j as usize)
                                    ==> (#[trigger] self.islands@[j]).future_gen() == w1.islands()[
                                j].future_gen(),
                            forall|j: int|
                                0 <= j < island_len ==> (#[trigger] self.islands@[
                                j]).future_gen().len() >= w1.islands()[j].future_gen().len(),
                            forall|j: int, t: int|
                                0 <= j < island_len && 0 <= t < w1.islands()[
                                j].future_gen().len() ==> #[trigger] self.islands@[
                                j].future_gen()[t] == w1.islands()[j].future_gen()[t],
                            forall|j: int, t: int|
                                0 <= j < island_len && w1.islands()[j].future_gen().len() <= t
                                    < self.islands@[j].future_gen().len() ==> held_by_another(
                                    w1.islands(),
                                    j,
                                    #[trigger] self.islands@[j].future_gen()[t],
                                ),
                            !w1.clone_flag() ==> forall|i: int, x: u64|
                                0 <= i < island_len && (#[trigger] self.islands@[
                                i].current().contains(x)) ==> w1.islands()[i].current().contains(
                                    x,
                                ),
                        decreases order.len() - k,
                    {
                        let source = island_order[k];
                        proof {
                            assert(!order.take(k as int).contains(order[k as int]));
                            assert(order.take(k as int + 1) =~= order.take(k as int).push(
                                order[k as int],
                            ));
                            assert(!rot.take(k as int).contains(rot[k as int]));
                            assert(rot.take(k as int + 1) =~= rot.take(k as int).push(
                                rot[k as int],
                            ));
                        }
                        self.migrate_one_island_circular_n(source, distances[k]);
                        proof {
                            assert((k as int + 1) * w1.migrating_count_spec() as int == k as int
                                * w1.migrating_count_spec() as int
                                + w1.migrating_count_spec() as int) by (nonlinear_arith);
                            assert(order.take(k as int + 1).contains(order[k as int])) by {
                                assert(order.take(k as int + 1)[k as int] == order[k as int]);
                            }
                            assert forall|i: int|
                                0 <= i < w1.islands().len() && !order.take(k as int + 1).contains(
                                    #[trigger] (i as usize),
                                ) implies !order.take(k as int).contains(i as usize) && i
                                != order[k as int] by {
                                if order.take(k as int).contains(i as usize) {
                                    let idx = choose|t: int|
                                        0 <= t < k as int && order.take(k as int)[t] == i as usize;
                                    assert(order.take(k as int + 1)[idx] == i as usize);
                                }
                            }
                            assert(rot.take(k as int + 1).contains(rot[k as int])) by {
                                assert(rot.take(k as int + 1)[k as int] == rot[k as int]);
                            }
                            assert(circular_destination(
                                order[k as int] as int,
                                distances@[k as int] as int,
                                island_len as int,
                            ) == rot[k as int] as int);
                            assert(rot[k as int] != order[k as int]) by {
                                assert(rot[k as int] == order[previous_position(
                                    k as int,
                                    island_len as int,
                                )]);
                                assert(previous_position(k as int, island_len as int) != k as int);
                            }
                            assert forall|j: int|
                                0 <= j < w1.islands().len() && !rot.take(k as int + 1).contains(
                                    #[trigger] (j as usize),
                                ) implies !rot.take(k as int).contains(j as usize) && j != rot[
                            k as int] by {
                                if rot.take(k as int).contains(j as usize) {
                                    let idx = choose|t: int|
                                        0 <= t < k as int && rot.take(k as int)[t] == j as usize;
                                    assert(rot.take(k as int + 1)[idx] == j as usize);
                                }
                            }
                        }
                        k = k + 1;
                    }
                    proof {
                        if !w1.clone_flag() {
                            assert forall|i: int|
                                0 <= i < w1.islands().len() implies order.take(
                                order.len() as int,
                            ).contains(#[trigger] (i as usize)) by {
                                assert(order.take(order.len() as int) =~= order);
                                assert(order.to_multiset().count(i as usize) == 1);
                                broadcast use vstd::seq_lib::group_to_multiset_ensures;

                            }
                        }
                        assert forall|j: int|
                            0 <= j < w1.islands().len() implies rot.take(rot.len() as int).contains(
                            #[trigger] (j as usize)) by {
                            assert(rot.take(rot.len() as int) =~= rot);
                            assert(rot.to_multiset().count(j as usize) == 1);
                            broadcast use vstd::seq_lib::group_to_multiset_ensures;

                        }
                        assert(w1.islands() == old(self).islands());
                        assert forall|j: int, t: int|
                            0 <= j < old(self).islands().len() && old(
                                self).islands()[j].future_gen().len() <= t < self.islands@[
                            j].future_gen().len() implies held_by_another(
                            old(self).islands(),
                            j,
                            #[trigger] self.islands@[j].future_gen()[t],
                        ) by {
                            let elem = self.islands@[j].future_gen()[t];
                            assert(w1.islands()[j].future_gen().len() <= t < self.islands@[
                            j].future_gen().len());
                            assert(held_by_another(w1.islands(), j, elem));
                        }
                    }
                },
                MigrationAlgorithm::CompletelyRandom => {
                    // Each migrant is sent to an independently drawn
                    // random island other than its source; the draw over
                    // the remaining islands avoids the source directly.
                    let count = self.number_of_individuals_migrating;
                    let ghost w1 = *self;
                    let mut source: usize = 0;
                    while source < island_len
                        invariant
                            w1 == *old(self),
                            source <= island_len,
                            island_len == w1.islands().len(),
                            island_len > 1,
                            count == w1.migrating_count_spec(),
                            self.islands@.len() == w1.islands().len(),
                            total_individuals(self.islands@) == total_individuals(w1.islands()) + (
                            if w1.clone_flag() {
                                source as int * w1.migrating_count_spec() as int
                            } else {
                                0int
                            }),
                            forall|i: int|
                                0 <= i < w1.islands().len() ==> {
                                    &&& (#[trigger] self.islands@[i]).sorted_flag() == w1.islands()[
                                    i].sorted_flag()
                                    &&& self.islands@[i].name_spec() == w1.islands()[i].name_spec()
                                    &&& self.islands@[i].eng() == w1.islands()[i].eng()
                                    &&& self.islands@[i].wf()
                                },
                            w1.clone_flag() ==> forall|i: int|
                                0 <= i < w1.islands().len() ==> (#[trigger] self.islands@[
                                i]).current() == w1.islands()[i].current(),
                            !w1.clone_flag() ==> forall|i: int|
                                0 <= i < w1.islands().len() ==> (#[trigger] self.islands@[
                                i]).current().len() == w1.islands()[i].current().len() - (
                                if i < source as int {
                                    w1.migrating_count_spec() as int
                                } else {
                                    0int
                                }),
                            !w1.clone_flag() ==> forall|i: int|
                                source as int <= i < w1.islands().len() ==> (
                                #[trigger] self.islands@[i]).current() == w1.islands()[i].current(),
                            self.same_setup(&w1),
                            w1.engine_spec().wf() ==> self.engine_spec().wf(),
                            self.migration_algorithm == w1.algorithm_spec(),
                            self.generation_count == w1.generation_count_spec(),
                            self.generations_remaining_before_migration == w1.gens_remaining_spec(),
                            self.number_of_individuals_migrating == w1.migrating_count_spec(),
                            self.clone_migrated_individuals == w1.clone_flag(),
                            !w1.clone_flag() ==> all_handles(self.islands@) == all_handles(
                                w1.islands(),
                            ),
                            forall|j: int|
                                0 <= j < island_len ==> (#[trigger] self.islands@[
                                j]).future_gen().len() >= w1.islands()[j].future_gen().len(),
                            forall|j: int, t: int|
                                0 <= j < island_len && 0 <= t < w1.islands()[
                                j].future_gen().len() ==> #[trigger] self.islands@[
                                j].future_gen()[t] == w1.islands()[j].future_gen()[t],
                            forall|j: int, t: int|
                                0 <= j < island_len && w1.islands()[j].future_gen().len() <= t
                                    < self.islands@[j].future_gen().len() ==> held_by_another(
                                    w1.islands(),
                                    j,
                                    #[trigger] self.islands@[j].future_gen()[t],
                                ),
                            !w1.clone_flag() ==> forall|i: int, x: u64|
                                0 <= i < island_len && (#[trigger] self.islands@[
                                i].current().contains(x)) ==> w1.islands()[i].current().contains(
                                    x,
                                ),
                        decreases island_len - source,
                    {
                        let ghost w2 = *self;
                        let mut j: usize = 0;
                        while j < count
                            invariant
                                j <= count,
                                source < island_len,
                                island_len == w2.islands().len(),
                                island_len > 1,
                                count == w2.migrating_count_spec(),
                                self.islands@.len() == w2.islands().len(),
                                total_individuals(self.islands@) == total_individuals(
                                    w2.islands(),
                                ) + (
                                if w2.clone_flag() {
                                    j as int
                                } else {
                                    0int
                                }),
                                forall|i: int|
                                    0 <= i < w2.islands().len() ==> {
                                        &&& (#[trigger] self.islands@[i]).sorted_flag()
                                            == w2.islands()[i].sorted_flag()
                                        &&& self.islands@[i].name_spec() == w2.islands()[
                                        i].name_spec()
                                        &&& self.islands@[i].eng() == w2.islands()[i].eng()
                                        &&& self.islands@[i].wf()
                                    },
                                w2.clone_flag() ==> forall|i: int|
                                    0 <= i < w2.islands().len() ==> (#[trigger] self.islands@[
                                    i]).current() == w2.islands()[i].current(),
                                !w2.clone_flag() ==> {
                                    &&& self.islands@[source as int].current().len()
                                        == w2.islands()[source as int].current().len() - j
                                    &&& forall|i: int|
                                        0 <= i < w2.islands().len() && i != source as int ==> (
                                        #[trigger] self.islands@[i]).current() == w2.islands()[
                                        i].current()
                                },
                                w2.clone_flag() && count > 0 ==> self.islands@[
                                source as int].current().len() >= 1,
                                !w2.clone_flag() ==> self.islands@[source as int].current().len()
                                    >= count - j,
                                self.same_setup(&w2),
                                w2.engine_spec().wf() ==> self.engine_spec().wf(),
                                self.migration_algorithm == w2.algorithm_spec(),
                                self.generation_count == w2.generation_count_spec(),
                                self.generations_remaining_before_migration
                                    == w2.gens_remaining_spec(),
                                self.number_of_individuals_migrating == w2.migrating_count_spec(),
                                self.clone_migrated_individuals == w2.clone_flag(),
                                !w2.clone_flag() ==> all_handles(self.islands@) == all_handles(
                                    w2.islands(),
                                ),
                                forall|p: int|
                                    0 <= p < island_len ==> (#[trigger] self.islands@[
                                    p]).future_gen().len() >= w2.islands()[p].future_gen().len(),
                                forall|p: int, t: int|
                                    0 <= p < island_len && 0 <= t < w2.islands()[
                                    p].future_gen().len() ==> #[trigger] self.islands@[
                                    p].future_gen()[t] == w2.islands()[p].future_gen()[t],
                                forall|p: int, t: int|
                                    0 <= p < island_len && w2.islands()[p].future_gen().len() <= t
                                        < self.islands@[p].future_gen().len() ==> held_by_another(
                                        w2.islands(),
                                        p,
                                        #[trigger] self.islands@[p].future_gen()[t],
                                    ),
                                !w2.clone_flag() ==> forall|i: int, x: u64|
                                    0 <= i < island_len && (#[trigger] self.islands@[
                                    i].current().contains(x)) ==> w2.islands()[
                                    i].current().contains(x),
                            decreases count - j,
                        {
                            let draw = next_index(self.genetic_engine.rng(), island_len - 1);
                            let destination_island_id = if draw >= source {
                                draw + 1
                            } else {
                                draw
                            };
                            let ghost pre = *self;
                            self.migrate_one_individual_from_island_to_island(
                                source,
                                destination_island_id,
                            );
                            proof {
                                let dsti = destination_island_id as int;
                                let srci = source as int;
                                if pre.clone_flag() {
                                    let m = choose|m: u64|
                                        pre.islands()[srci].current().contains(m) && self.islands@[
                                        dsti].future_gen() == pre.islands()[
                                        dsti].future_gen().push(m);
                                    assert(self.islands@[dsti].future_gen() == pre.islands()[
                                    dsti].future_gen().push(m));
                                    assert(pre.islands()[srci].current().contains(m));
                                } else {
                                    let idx = choose|idx: int|
                                        {
                                            &&& 0 <= idx < pre.islands()[srci].current().len()
                                            &&& self.islands@[srci].current() == pre.islands()[
                                                srci].current().remove(idx)
                                            &&& self.islands@[dsti].future_gen() == pre.islands()[
                                                dsti].future_gen().push(
                                                pre.islands()[srci].current()[idx],
                                            )
                                        };
                                    assert(self.islands@[dsti].future_gen() == pre.islands()[
                                    dsti].future_gen().push(pre.islands()[srci].current()[idx]));
                                    assert(pre.islands()[srci].current().contains(
                                        pre.islands()[srci].current()[idx],
                                    ));
                                }
                                assert forall|p: int, t: int|
                                    0 <= p < island_len && 0 <= t < w2.islands()[
                                    p].future_gen().len() implies self.islands@[
                                p].future_gen()[t] == w2.islands()[p].future_gen()[t] by {
                                    if p != dsti {
                                        assert(self.islands@[p].future_gen() == pre.islands()[
                                        p].future_gen());
                                    }
                                }
                                assert forall|p: int, t: int|
                                    0 <= p < island_len && w2.islands()[p].future_gen().len() <= t
                                        < self.islands@[p].future_gen().len() implies held_by_another(
                                    w2.islands(),
                                    p,
                                    #[trigger] self.islands@[p].future_gen()[t],
                                ) by {
                                    let elem = self.islands@[p].future_gen()[t];
                                    if p == dsti && t == self.islands@[p].future_gen().len() - 1 {
                                        assert(w2.islands()[srci].current().contains(elem));
                                        assert(srci != dsti);
                                    } else {
                                        assert(elem == pre.islands()[p].future_gen()[t]);
                                        assert(held_by_another(w2.islands(), p, elem));
                                    }
                                }
                            }
                            j = j + 1;
                        }
                        proof {
                            assert((source as int + 1) * w1.migrating_count_spec() as int
                                == source as int * w1.migrating_count_spec() as int
                                + w1.migrating_count_spec() as int) by (nonlinear_arith);
                            assert forall|p: int, t: int|
                                0 <= p < island_len && 0 <= t < w1.islands()[
                                p].future_gen().len() implies self.islands@[p].future_gen()[t]
                                == w1.islands()[p].future_gen()[t] by {
                                assert(self.islands@[p].future_gen()[t] == w2.islands()[
                                p].future_gen()[t]);
                            }
                            assert forall|p: int, t: int|
                                0 <= p < island_len && w1.islands()[p].future_gen().len() <= t
                                    < self.islands@[p].future_gen().len() implies held_by_another(
                                w1.islands(),
                                p,
                                #[trigger] self.islands@[p].future_gen()[t],
                            ) by {
                                let elem = self.islands@[p].future_gen()[t];
                                if t < w2.islands()[p].future_gen().len() {
                                    assert(elem == w2.islands()[p].future_gen()[t]);
                                } else {
                                    assert(held_by_another(w2.islands(), p, elem));
                                    let sidx = choose|sidx: int|
                                        0 <= sidx < island_len && sidx != p && w2.islands()[
                                        sidx].current().contains(elem);
                                    assert(w1.islands()[sidx].current().contains(elem));
                                    assert(held_by_another(w1.islands(), p, elem));
                                }
                            }
                        }
                        source = source + 1;
                    }
                    proof {
                        assert(w1.islands() == old(self).islands());
                        assert forall|j: int, t: int|
                            0 <= j < old(self).islands().len() && old(
                                self).islands()[j].future_gen().len() <= t < self.islands@[
                            j].future_gen().len() implies held_by_another(
                            old(self).islands(),
                            j,
                            #[trigger] self.islands@[j].future_gen()[t],
                        ) by {
                            let elem = self.islands@[j].future_gen()[t];
                            assert(w1.islands()[j].future_gen().len() <= t < self.islands@[
                            j].future_gen().len());
                            assert(held_by_another(w1.islands(), j, elem));
                        }
                    }
                },
            }
        }
    }
}

} // verus!
