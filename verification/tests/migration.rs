//! Migration topologies: conservation, pairing, and the incremental
//! distance.

use std::cell::Cell;
use rand::rngs::StdRng;
use genetic_islands::{
    GeneticEngineBuilder, Genetics, IslandEngine, MigrationAlgorithm, World, WorldBuilder,
};

struct CounterGenetics {
    counter: Cell<u64>,
}

impl CounterGenetics {
    fn new() -> CounterGenetics {
        CounterGenetics { counter: Cell::new(0) }
    }
}

impl Genetics for CounterGenetics {
    fn random_individual(&self, _rng: &mut StdRng, _max_points: usize) -> u64 {
        self.counter.set(self.counter.get() + 1);
        self.counter.get()
    }

    fn mutate(&self, _rng: &mut StdRng, _individual: u64, _points: usize) -> u64 {
        self.counter.set(self.counter.get() + 1);
        self.counter.get()
    }

    fn crossover(&self, _rng: &mut StdRng, _a: u64, _b: u64, _points: usize) -> u64 {
        self.counter.set(self.counter.get() + 1);
        self.counter.get()
    }
}

struct FlatScore;

impl IslandEngine for FlatScore {
    fn score_spec(&self, _id: u64) -> u64 {
        0
    }

    fn run_individual(&mut self, _id: u64) {}

    fn score_individual(&self, _id: u64) -> u64 {
        0
    }
}

fn world_with(
    islands: usize,
    individuals: usize,
    migrating: usize,
    algorithm: MigrationAlgorithm,
    clone: bool,
    seed: u64,
) -> World<CounterGenetics, FlatScore> {
    let engine = GeneticEngineBuilder::default()
        .genetics(CounterGenetics::new())
        .seed(seed)
        .build()
        .unwrap();
    let mut builder: WorldBuilder<CounterGenetics, FlatScore> = WorldBuilder::new()
        .with_individuals_per_island(individuals)
        .with_elite_individuals(0)
        .with_migrating_individuals(migrating)
        .with_generations_between_migrations(0)
        .with_migration_algorithm(algorithm)
        .with_clone_migrated_individuals(clone)
        .with_genetic_engine(engine);
    for i in 0..islands {
        builder.add_island(format!("island-{}", i), FlatScore);
    }
    builder.build().unwrap()
}

fn total_population(world: &World<CounterGenetics, FlatScore>) -> usize {
    let mut total = 0;
    for i in 0..world.get_number_of_islands() {
        let island = world.get_island(i).unwrap();
        total += island.len() + island.len_future_generation();
    }
    total
}

fn conservation_for(algorithm: MigrationAlgorithm, clone: bool, expected_growth: usize) {
    let islands = 4;
    let individuals = 6;
    let migrating = 2;
    let mut world = world_with(islands, individuals, migrating, algorithm, clone, 13);
    world.fill_all_islands().unwrap();
    world.run_one_generation();
    assert_eq!(total_population(&world), islands * individuals);
    world.migrate_individuals_between_islands();
    assert_eq!(total_population(&world), islands * individuals + expected_growth);
}

#[test]
fn circular_conserves_without_cloning() {
    conservation_for(MigrationAlgorithm::Circular, false, 0);
}

#[test]
fn circular_grows_by_migrants_when_cloning() {
    conservation_for(MigrationAlgorithm::Circular, true, 4 * 2);
}

#[test]
fn cyclical_conserves_without_cloning() {
    conservation_for(MigrationAlgorithm::Cyclical(3), false, 0);
}

#[test]
fn cyclical_grows_by_migrants_when_cloning() {
    conservation_for(MigrationAlgorithm::Cyclical(3), true, 4 * 2);
}

#[test]
fn incremental_conserves_without_cloning() {
    conservation_for(MigrationAlgorithm::Incremental(1), false, 0);
}

#[test]
fn incremental_grows_by_migrants_when_cloning() {
    conservation_for(MigrationAlgorithm::Incremental(2), true, 4 * 2);
}

#[test]
fn random_circular_conserves_without_cloning() {
    conservation_for(MigrationAlgorithm::RandomCircular, false, 0);
}

#[test]
fn random_circular_grows_by_migrants_when_cloning() {
    conservation_for(MigrationAlgorithm::RandomCircular, true, 4 * 2);
}

#[test]
fn random_circular_every_island_sources_and_receives_once() {
    let islands = 5;
    let individuals = 4;
    let mut world = world_with(
        islands,
        individuals,
        1,
        MigrationAlgorithm::RandomCircular,
        false,
        21,
    );
    world.fill_all_islands().unwrap();
    world.run_one_generation();
    world.migrate_individuals_between_islands();
    for i in 0..islands {
        let island = world.get_island(i).unwrap();
        // A source exactly once: one individual left the current
        // generation. A destination exactly once: one arrived in the
        // future generation.
        assert_eq!(island.len(), individuals - 1);
        assert_eq!(island.len_future_generation(), 1);
    }
}

#[test]
fn incremental_distance_advances_between_passes() {
    // Three islands with sequential handles: island 0 holds 1..=3,
    // island 1 holds 4..=6, island 2 holds 7..=9.
    let islands = 3;
    let individuals = 3;
    let mut world = world_with(
        islands,
        individuals,
        1,
        MigrationAlgorithm::Incremental(1),
        false,
        8,
    );
    world.fill_all_islands().unwrap();
    world.run_one_generation();

    // First pass at distance 1: island 0 sends to island 1.
    world.migrate_individuals_between_islands();
    // Second pass at distance 2: island 0 sends to island 2.
    world.migrate_individuals_between_islands();

    // Island 2's future generation received one handle from island 1
    // (first pass, 1 -> 2) and one from island 0 (second pass, 0 -> 2).
    let island = world.get_island_mut(2).unwrap();
    assert_eq!(island.len_future_generation(), 2);
    island.advance_generation();
    let mut from_island_0 = 0;
    let mut from_island_1 = 0;
    for j in 0..island.len() {
        let id = island.get_one_individual(j).unwrap();
        if (1..=3).contains(&id) {
            from_island_0 += 1;
        }
        if (4..=6).contains(&id) {
            from_island_1 += 1;
        }
    }
    assert_eq!(from_island_0, 1);
    assert_eq!(from_island_1, 1);
}

#[test]
fn completely_random_conserves_without_cloning() {
    conservation_for(MigrationAlgorithm::CompletelyRandom, false, 0);
}

#[test]
fn cyclical_distance_zero_migrates_islands_to_themselves() {
    // Distance zero sends every island's migrants to its own future
    // generation; the population is still conserved.
    conservation_for(MigrationAlgorithm::Cyclical(0), false, 0);
}

#[test]
fn cyclical_distance_wraps_past_the_island_count() {
    // Distance 7 over 4 islands behaves as distance 3.
    conservation_for(MigrationAlgorithm::Cyclical(7), false, 0);
}

#[test]
fn incremental_distance_wraps_to_one_never_zero() {
    // Two islands, starting distance 1: the advanced distance wraps to
    // zero and is replaced by one, so every pass keeps sending island
    // 0's individuals to island 1 and never to island 0 itself.
    let islands = 2;
    let individuals = 4;
    let mut world = world_with(
        islands,
        individuals,
        1,
        MigrationAlgorithm::Incremental(1),
        false,
        30,
    );
    world.fill_all_islands().unwrap();
    world.run_one_generation();
    world.migrate_individuals_between_islands();
    world.migrate_individuals_between_islands();

    // Island 1 received one migrant per pass, both from island 0's
    // original handle range 1..=4.
    let island = world.get_island_mut(1).unwrap();
    assert_eq!(island.len_future_generation(), 2);
    island.advance_generation();
    for j in 0..island.len() {
        let id = island.get_one_individual(j).unwrap();
        assert!((1..=4).contains(&id));
    }
}

#[test]
fn single_island_worlds_skip_migration() {
    let mut world = world_with(1, 4, 2, MigrationAlgorithm::Circular, false, 2);
    world.fill_all_islands().unwrap();
    world.run_one_generation();
    world.migrate_individuals_between_islands();
    assert_eq!(total_population(&world), 4);
    assert_eq!(world.get_island(0).unwrap().len_future_generation(), 0);
}
