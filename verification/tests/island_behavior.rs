//! Per-island behavior: sorting, selection, fitness extremes.

use std::cell::Cell;
use rand::SeedableRng;
use rand::rngs::StdRng;
use genetic_islands::{
    GeneticEngineBuilder, Genetics, IslandEngine, SelectionCurve, World, WorldBuilder,
};

struct CounterGenetics {
    counter: Cell<u64>,
}

impl CounterGenetics {
    fn new() -> CounterGenetics {
        CounterGenetics { counter: Cell::new(0) }
    }
}

impl Genetics for CounterGenetics {
    fn random_individual(&self, _rng: &mut StdRng, _max_points: usize) -> u64 {
        self.counter.set(self.counter.get() + 1);
        self.counter.get()
    }

    fn mutate(&self, _rng: &mut StdRng, _individual: u64, _points: usize) -> u64 {
        self.counter.set(self.counter.get() + 1);
        self.counter.get()
    }

    fn crossover(&self, _rng: &mut StdRng, _a: u64, _b: u64, _points: usize) -> u64 {
        self.counter.set(self.counter.get() + 1);
        self.counter.get()
    }
}

struct ScoreByHandle;

impl IslandEngine for ScoreByHandle {
    fn score_spec(&self, id: u64) -> u64 {
        id
    }

    fn run_individual(&mut self, _id: u64) {}

    fn score_individual(&self, id: u64) -> u64 {
        id
    }
}

fn one_island_world() -> World<CounterGenetics, ScoreByHandle> {
    let engine = GeneticEngineBuilder::default()
        .genetics(CounterGenetics::new())
        .seed(11)
        .build()
        .unwrap();
    let mut builder: WorldBuilder<CounterGenetics, ScoreByHandle> = WorldBuilder::new()
        .with_individuals_per_island(5)
        .with_elite_individuals(0)
        .with_migrating_individuals(0)
        .with_generations_between_migrations(0)
        .with_genetic_engine(engine);
    builder.add_island("solo".to_string(), ScoreByHandle);
    builder.build().unwrap()
}

#[test]
fn fitness_extremes_empty_island_are_none() {
    let world = one_island_world();
    let island = world.get_island(0).unwrap();
    assert_eq!(island.len(), 0);
    assert!(island.most_fit_individual().is_none());
    assert!(island.least_fit_individual().is_none());
}

#[test]
fn fitness_extremes_unsorted_island_are_none() {
    let mut world = one_island_world();
    world.fill_all_islands().unwrap();
    let island = world.get_island(0).unwrap();
    assert_eq!(island.len(), 5);
    // Filled but never run: the population has not been sorted.
    assert!(island.most_fit_individual().is_none());
    assert!(island.least_fit_individual().is_none());
    assert!(island.get_one_individual(0).is_some());
}

#[test]
fn fitness_extremes_after_sort_are_min_and_max() {
    let mut world = one_island_world();
    world.fill_all_islands().unwrap();
    world.run_one_generation();
    let island = world.get_island(0).unwrap();
    let most = island.most_fit_individual().unwrap();
    let least = island.least_fit_individual().unwrap();
    for i in 0..island.len() {
        let id = island.get_one_individual(i).unwrap();
        assert!(least <= id && id <= most);
        if i > 0 {
            let before = island.get_one_individual(i - 1).unwrap();
            assert!(before <= id);
        }
    }
    assert_eq!(island.get_one_individual(0).unwrap(), least);
    assert_eq!(island.get_one_individual(island.len() - 1).unwrap(), most);
}

#[test]
fn scores_follow_the_engine() {
    let mut world = one_island_world();
    world.fill_all_islands().unwrap();
    world.run_one_generation();
    let island = world.get_island(0).unwrap();
    for i in 0..island.len() {
        let id = island.get_one_individual(i).unwrap();
        assert_eq!(island.score_for_individual(i).unwrap(), id);
    }
    assert!(island.score_for_individual(island.len()).is_none());
}

#[test]
fn selection_returns_members_and_removal_shrinks() {
    let mut world = one_island_world();
    world.fill_all_islands().unwrap();
    world.run_one_generation();

    let island = world.get_island_mut(0).unwrap();
    let mut members = Vec::new();
    for i in 0..island.len() {
        members.push(island.get_one_individual(i).unwrap());
    }
    let mut rng = rand::rngs::StdRng::seed_from_u64(99);
    let picked = island.select_one_individual(SelectionCurve::Fair, &mut rng).unwrap();
    assert!(members.contains(&picked));
    assert_eq!(island.len(), members.len());

    let removed = island
        .select_and_remove_one_individual(SelectionCurve::StrongPreferenceForFit, &mut rng)
        .unwrap();
    assert!(members.contains(&removed));
    assert_eq!(island.len(), members.len() - 1);
    // Still sorted after removal: extremes remain available.
    assert!(island.most_fit_individual().is_some());
}

#[test]
fn clearing_and_advancing_generations() {
    let mut world = one_island_world();
    world.fill_all_islands().unwrap();
    world.run_one_generation();
    {
        let island = world.get_island_mut(0).unwrap();
        island.add_individual_to_future_generation(1000);
        island.add_individual_to_future_generation(2000);
        assert_eq!(island.len_future_generation(), 2);
        island.advance_generation();
        assert_eq!(island.len(), 2);
        assert_eq!(island.len_future_generation(), 0);
        assert!(island.most_fit_individual().is_none());
        island.sort_individuals();
        assert_eq!(island.most_fit_individual().unwrap(), 2000);
        assert_eq!(island.least_fit_individual().unwrap(), 1000);
    }
    world.reset_all_islands();
    let island = world.get_island(0).unwrap();
    assert_eq!(island.len(), 0);
    assert_eq!(island.len_future_generation(), 0);
}
