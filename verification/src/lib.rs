//! An island-model evolutionary-computation orchestration engine.
//!
//! Populations of opaque individuals (64-bit handles) live on isolated
//! islands, advance through generational cycles of reproduction, execution
//! and fitness sorting, and periodically migrate between islands according
//! to a configurable topology. The representation of an individual and the
//! way it is evaluated are supplied by the caller through the [`Genetics`]
//! and [`IslandEngine`] capability traits.

pub mod error;
pub mod genetic_engine;
pub mod genetic_engine_builder;
pub mod genetics;
pub mod island;
pub mod island_engine;
pub mod migration_algorithm;
pub mod rng;
pub mod selection_curve;
pub mod threading_model;
pub mod topology;
pub mod world;
pub mod world_builder;

pub use error::GeneticError;
pub use genetic_engine::GeneticEngine;
pub use genetic_engine_builder::GeneticEngineBuilder;
pub use genetics::Genetics;
pub use island::Island;
pub use island_engine::IslandEngine;
pub use migration_algorithm::MigrationAlgorithm;
pub use selection_curve::SelectionCurve;
pub use threading_model::ThreadingModel;
pub use world::World;
pub use world_builder::WorldBuilder;
