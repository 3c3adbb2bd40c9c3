//! Simulation core of a two-player paddle-and-ball arena: arena geometry,
//! an entity store, the fixed-step paddle movement and the tick scheduler.
//!
//! All positions and extents are whole world units.

pub mod config;
pub mod geometry;
pub mod world;
pub mod store;
pub mod movement;
pub mod schedule;
pub mod game;
