//! Filling islands: exact population sizes and the elitism window.

use std::cell::Cell;
use rand::rngs::StdRng;
use genetic_islands::{
    GeneticEngineBuilder, Genetics, IslandEngine, World, WorldBuilder,
};

struct CounterGenetics {
    counter: Cell<u64>,
}

impl CounterGenetics {
    fn new() -> CounterGenetics {
        CounterGenetics { counter: Cell::new(0) }
    }
}

impl Genetics for CounterGenetics {
    fn random_individual(&self, _rng: &mut StdRng, _max_points: usize) -> u64 {
        self.counter.set(self.counter.get() + 1);
        self.counter.get()
    }

    fn mutate(&self, _rng: &mut StdRng, _individual: u64, _points: usize) -> u64 {
        self.counter.set(self.counter.get() + 1);
        self.counter.get()
    }

    fn crossover(&self, _rng: &mut StdRng, _a: u64, _b: u64, _points: usize) -> u64 {
        self.counter.set(self.counter.get() + 1);
        self.counter.get()
    }
}

struct ScoreByHandle;

impl IslandEngine for ScoreByHandle {
    fn score_spec(&self, id: u64) -> u64 {
        id
    }

    fn run_individual(&mut self, _id: u64) {}

    fn score_individual(&self, id: u64) -> u64 {
        id
    }
}

fn world_with(
    islands: usize,
    individuals: usize,
    elite: usize,
) -> World<CounterGenetics, ScoreByHandle> {
    let engine = GeneticEngineBuilder::default()
        .genetics(CounterGenetics::new())
        .seed(42)
        .build()
        .unwrap();
    let mut builder: WorldBuilder<CounterGenetics, ScoreByHandle> = WorldBuilder::new()
        .with_individuals_per_island(individuals)
        .with_elite_individuals(elite)
        .with_migrating_individuals(0)
        .with_generations_between_migrations(0)
        .with_genetic_engine(engine);
    for i in 0..islands {
        builder.add_island(format!("island-{}", i), ScoreByHandle);
    }
    builder.build().unwrap()
}

#[test]
fn fill_reaches_exact_population_on_every_island() {
    // 7 is divided evenly neither by the elite count nor by two parents
    // per child.
    let mut world = world_with(3, 7, 3);
    world.fill_all_islands().unwrap();
    for i in 0..world.get_number_of_islands() {
        let island = world.get_island(i).unwrap();
        assert_eq!(island.len(), 7);
        assert_eq!(island.len_future_generation(), 0);
    }
    world.run_one_generation();
    world.fill_all_islands().unwrap();
    for i in 0..world.get_number_of_islands() {
        let island = world.get_island(i).unwrap();
        assert_eq!(island.len(), 7);
        assert_eq!(island.len_future_generation(), 0);
    }
}

#[test]
fn elites_are_verbatim_members_of_the_prior_generation() {
    let elite = 3;
    let individuals = 7;
    let mut world = world_with(2, individuals, elite);
    world.fill_all_islands().unwrap();
    world.run_one_generation();

    let mut prior: Vec<Vec<u64>> = Vec::new();
    for i in 0..world.get_number_of_islands() {
        let island = world.get_island(i).unwrap();
        let mut members = Vec::new();
        for j in 0..island.len() {
            members.push(island.get_one_individual(j).unwrap());
        }
        prior.push(members);
    }

    world.fill_all_islands().unwrap();
    for i in 0..world.get_number_of_islands() {
        let island = world.get_island(i).unwrap();
        // The first `elite` slots are verbatim copies of previously
        // selected individuals; the rest are fresh children.
        let mut copies = 0;
        for j in 0..elite {
            let id = island.get_one_individual(j).unwrap();
            assert!(prior[i].contains(&id));
            copies += 1;
        }
        assert_eq!(copies, elite);
        for j in elite..island.len() {
            let id = island.get_one_individual(j).unwrap();
            // Children come from the counter after the prior generation.
            assert!(!prior[i].contains(&id));
        }
    }
}

#[test]
fn generation_counter_advances_per_run() {
    let mut world = world_with(1, 3, 0);
    assert_eq!(world.generation_count(), 0);
    world.fill_all_islands().unwrap();
    world.run_one_generation();
    assert_eq!(world.generation_count(), 1);
    world.fill_all_islands().unwrap();
    world.run_one_generation();
    assert_eq!(world.generation_count(), 2);
}

#[test]
fn run_generations_while_runs_at_least_once_and_obeys_the_predicate() {
    let mut world = world_with(2, 4, 1);
    world.run_generations_while(|_w| false).unwrap();
    assert_eq!(world.generation_count(), 1);
    world.run_generations_while(|w| w.generation_count() < 5).unwrap();
    assert_eq!(world.generation_count(), 5);
}
