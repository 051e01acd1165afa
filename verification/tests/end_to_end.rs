//! Whole-run scenarios: seed reproducibility and a full two-generation
//! migration story.

use std::cell::Cell;
use rand::Rng;
use rand::rngs::StdRng;
use genetic_islands::{
    GeneticEngineBuilder, Genetics, IslandEngine, MigrationAlgorithm, World, WorldBuilder,
};

struct CounterGenetics {
    counter: Cell<u64>,
}

impl CounterGenetics {
    fn new() -> CounterGenetics {
        CounterGenetics { counter: Cell::new(0) }
    }
}

impl Genetics for CounterGenetics {
    fn random_individual(&self, _rng: &mut StdRng, _max_points: usize) -> u64 {
        self.counter.set(self.counter.get() + 1);
        self.counter.get()
    }

    fn mutate(&self, _rng: &mut StdRng, _individual: u64, _points: usize) -> u64 {
        self.counter.set(self.counter.get() + 1);
        self.counter.get()
    }

    fn crossover(&self, _rng: &mut StdRng, _a: u64, _b: u64, _points: usize) -> u64 {
        self.counter.set(self.counter.get() + 1);
        self.counter.get()
    }
}

/// Every handle comes from the shared random stream, so whole runs are
/// reproducible exactly when their seeds agree.
struct RandomGenetics;

impl Genetics for RandomGenetics {
    fn random_individual(&self, rng: &mut StdRng, _max_points: usize) -> u64 {
        rng.random()
    }

    fn mutate(&self, rng: &mut StdRng, _individual: u64, _points: usize) -> u64 {
        rng.random()
    }

    fn crossover(&self, rng: &mut StdRng, _a: u64, _b: u64, _points: usize) -> u64 {
        rng.random()
    }
}

struct FlatScore;

impl IslandEngine for FlatScore {
    fn score_spec(&self, _id: u64) -> u64 {
        0
    }

    fn run_individual(&mut self, _id: u64) {}

    fn score_individual(&self, _id: u64) -> u64 {
        0
    }
}

fn scenario_world<G: Genetics>(genetics: G, seed: u64) -> World<G, FlatScore> {
    let engine = GeneticEngineBuilder::default()
        .genetics(genetics)
        .seed(seed)
        .mutation_rate(0)
        .crossover_rate(1)
        .build()
        .unwrap();
    let mut builder: WorldBuilder<G, FlatScore> = WorldBuilder::new()
        .with_individuals_per_island(5)
        .with_elite_individuals(0)
        .with_migrating_individuals(1)
        .with_generations_between_migrations(1)
        .with_migration_algorithm(MigrationAlgorithm::Circular)
        .with_clone_migrated_individuals(false)
        .with_genetic_engine(engine);
    builder.add_island("a".to_string(), FlatScore);
    builder.add_island("b".to_string(), FlatScore);
    builder.add_island("c".to_string(), FlatScore);
    builder.build().unwrap()
}

fn population_snapshot<G: Genetics>(world: &World<G, FlatScore>) -> Vec<Vec<u64>> {
    let mut snapshot = Vec::new();
    for i in 0..world.get_number_of_islands() {
        let island = world.get_island(i).unwrap();
        let mut members = Vec::new();
        for j in 0..island.len() {
            members.push(island.get_one_individual(j).unwrap());
        }
        snapshot.push(members);
    }
    snapshot
}

#[test]
fn two_generations_conserve_population_and_wrap_a_migrant() {
    // 3 islands of 5, no elitism, crossover only, seed 42, circular
    // migration of one individual every generation, migrants moved not
    // cloned. Island 0 holds handles 1..=5 initially, island 1 holds
    // 6..=10, island 2 holds 11..=15.
    let mut world = scenario_world(CounterGenetics::new(), 42);

    // First generation: fill, run, migrate. The circular distance +1
    // wraps island 2's migrant around to island 0.
    world.fill_all_islands().unwrap();
    world.run_one_generation();
    assert_eq!(world.generation_count(), 1);

    // Second fill promotes the migrant into island 0's current
    // generation: exactly one of island 2's original handles lives
    // there now.
    world.fill_all_islands().unwrap();
    let from_island_2 = population_snapshot(&world)[0]
        .iter()
        .filter(|&&id| (11..=15).contains(&id))
        .count();
    assert_eq!(from_island_2, 1);

    // Second generation completes; the totals stay at 15.
    world.run_one_generation();
    assert_eq!(world.generation_count(), 2);
    let mut total = 0;
    for i in 0..world.get_number_of_islands() {
        let island = world.get_island(i).unwrap();
        total += island.len() + island.len_future_generation();
    }
    assert_eq!(total, 15);
}

#[test]
fn equal_seeds_reproduce_identical_generations() {
    let mut first = scenario_world(RandomGenetics, 4242);
    let mut second = scenario_world(RandomGenetics, 4242);
    for _ in 0..3 {
        first.fill_all_islands().unwrap();
        first.run_one_generation();
        second.fill_all_islands().unwrap();
        second.run_one_generation();
    }
    assert_eq!(population_snapshot(&first), population_snapshot(&second));
}

#[test]
fn different_seeds_diverge() {
    let mut first = scenario_world(RandomGenetics, 1);
    let mut second = scenario_world(RandomGenetics, 2);
    first.fill_all_islands().unwrap();
    second.fill_all_islands().unwrap();
    first.run_one_generation();
    second.run_one_generation();
    assert_ne!(population_snapshot(&first), population_snapshot(&second));
}
