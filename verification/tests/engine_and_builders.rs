//! Build-time validation and reproduction-engine behavior.

use std::cell::Cell;
use rand::rngs::StdRng;
use genetic_islands::{
    GeneticEngineBuilder, GeneticError, Genetics, IslandEngine, WorldBuilder,
};

struct CounterGenetics {
    counter: Cell<u64>,
}

impl CounterGenetics {
    fn new() -> CounterGenetics {
        CounterGenetics { counter: Cell::new(0) }
    }
}

impl Genetics for CounterGenetics {
    fn random_individual(&self, _rng: &mut StdRng, _max_points: usize) -> u64 {
        self.counter.set(self.counter.get() + 1);
        self.counter.get()
    }

    fn mutate(&self, _rng: &mut StdRng, _individual: u64, _points: usize) -> u64 {
        self.counter.set(self.counter.get() + 1);
        self.counter.get()
    }

    fn crossover(&self, _rng: &mut StdRng, _a: u64, _b: u64, _points: usize) -> u64 {
        self.counter.set(self.counter.get() + 1);
        self.counter.get()
    }
}

struct FlatScore;

impl IslandEngine for FlatScore {
    fn score_spec(&self, _id: u64) -> u64 {
        0
    }

    fn run_individual(&mut self, _id: u64) {}

    fn score_individual(&self, _id: u64) -> u64 {
        0
    }
}

#[test]
fn engine_builds_with_defaults_and_genetics() {
    let engine = GeneticEngineBuilder::default().genetics(CounterGenetics::new()).build();
    assert!(engine.is_ok());
}

#[test]
fn engine_missing_genetics_rejected() {
    let engine = GeneticEngineBuilder::<CounterGenetics>::default().build();
    assert!(matches!(engine, Err(GeneticError::MissingGenetics)));
}

#[test]
fn engine_zero_mutation_points_with_mutation_rejected() {
    let engine = GeneticEngineBuilder::default()
        .genetics(CounterGenetics::new())
        .mutation_rate(1)
        .max_mutation_points(0)
        .build();
    assert!(matches!(engine, Err(GeneticError::InvalidMutationPoints)));
}

#[test]
fn engine_zero_crossover_points_with_crossover_rejected() {
    let engine = GeneticEngineBuilder::default()
        .genetics(CounterGenetics::new())
        .crossover_rate(9)
        .max_crossover_points(0)
        .build();
    assert!(matches!(engine, Err(GeneticError::InvalidCrossoverPoints)));
}

#[test]
fn engine_zero_individual_points_rejected() {
    let engine = GeneticEngineBuilder::default()
        .genetics(CounterGenetics::new())
        .max_individual_points(0)
        .build();
    assert!(matches!(engine, Err(GeneticError::InvalidIndividualPoints)));
}

#[test]
fn engine_both_rates_zero_rejected() {
    let engine = GeneticEngineBuilder::default()
        .genetics(CounterGenetics::new())
        .mutation_rate(0)
        .crossover_rate(0)
        .build();
    assert!(matches!(engine, Err(GeneticError::InvalidMutationRate(0))));
}

#[test]
fn engine_rate_sum_over_a_byte_rejected() {
    let engine = GeneticEngineBuilder::default()
        .genetics(CounterGenetics::new())
        .mutation_rate(200)
        .crossover_rate(100)
        .build();
    assert!(matches!(engine, Err(GeneticError::InvalidCrossoverRate(100))));
}

#[test]
fn engine_produces_individuals_and_children() {
    let mut engine = GeneticEngineBuilder::default()
        .genetics(CounterGenetics::new())
        .seed(7)
        .build()
        .unwrap();
    let a = engine.rand_individual();
    let b = engine.rand_individual();
    assert_ne!(a, b);
    let child = engine.rand_child(a, b);
    assert!(child.is_ok());
    assert_ne!(child.unwrap(), a);
}

fn engine_for_world() -> genetic_islands::GeneticEngine<CounterGenetics> {
    GeneticEngineBuilder::default().genetics(CounterGenetics::new()).seed(3).build().unwrap()
}

#[test]
fn world_elite_equal_to_population_rejected() {
    let mut builder: WorldBuilder<CounterGenetics, FlatScore> = WorldBuilder::new()
        .with_individuals_per_island(5)
        .with_elite_individuals(5)
        .with_genetic_engine(engine_for_world());
    builder.add_island("one".to_string(), FlatScore);
    assert!(matches!(builder.build(), Err(GeneticError::InvalidEliteCount)));
}

#[test]
fn world_migrants_over_population_rejected() {
    let mut builder: WorldBuilder<CounterGenetics, FlatScore> = WorldBuilder::new()
        .with_individuals_per_island(5)
        .with_elite_individuals(0)
        .with_migrating_individuals(6)
        .with_genetic_engine(engine_for_world());
    builder.add_island("one".to_string(), FlatScore);
    assert!(matches!(builder.build(), Err(GeneticError::InvalidMigrationCount)));
}

#[test]
fn world_without_islands_rejected() {
    let builder: WorldBuilder<CounterGenetics, FlatScore> = WorldBuilder::new()
        .with_individuals_per_island(5)
        .with_migrating_individuals(1)
        .with_genetic_engine(engine_for_world());
    assert!(matches!(builder.build(), Err(GeneticError::InvalidIslandCount)));
}

#[test]
fn world_zero_population_rejected() {
    let mut builder: WorldBuilder<CounterGenetics, FlatScore> = WorldBuilder::new()
        .with_individuals_per_island(0);
    builder.add_island("one".to_string(), FlatScore);
    assert!(matches!(builder.build(), Err(GeneticError::InvalidIndividualsPerIsland)));
}

#[test]
fn world_missing_engine_rejected() {
    let mut builder: WorldBuilder<CounterGenetics, FlatScore> = WorldBuilder::new()
        .with_individuals_per_island(5)
        .with_elite_individuals(0)
        .with_migrating_individuals(0);
    builder.add_island("one".to_string(), FlatScore);
    assert!(matches!(builder.build(), Err(GeneticError::MissingGeneticEngine)));
}

#[test]
fn world_reports_island_count_and_names() {
    let mut builder: WorldBuilder<CounterGenetics, FlatScore> = WorldBuilder::new()
        .with_individuals_per_island(4)
        .with_elite_individuals(0)
        .with_migrating_individuals(1)
        .with_genetic_engine(engine_for_world());
    builder.add_island("red".to_string(), FlatScore);
    builder.add_island("blue".to_string(), FlatScore);
    let world = builder.build().unwrap();
    assert_eq!(world.get_number_of_islands(), 2);
    assert_eq!(world.get_island(0).unwrap().name(), "red");
    assert_eq!(world.get_island(1).unwrap().name(), "blue");
    assert!(world.get_island(2).is_none());
    assert_eq!(world.get_island_by_name("blue").unwrap().name(), "blue");
    assert!(world.get_island_by_name("green").is_none());
}
