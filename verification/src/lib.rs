//! A deterministic, turn-based simulation of a robot swarm that explores a
//! grid world, harvests resources and brings them back to a station under an
//! energy budget.

pub mod astar;
pub mod behavior;
pub mod engine;
pub mod executor;
pub mod pathfinding;
pub mod record;
pub mod rng;
pub mod robot;
pub mod search;
pub mod station;
pub mod terrain;
pub mod types;
pub mod world;
