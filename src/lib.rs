//! Gameplay rules of a vertical platformer, as integer state machines.
//!
//! Units: time is counted in microseconds (`i64`), lengths in thousandths
//! of a tile ("milli-tiles", `i64`) and speeds in milli-tiles per second.
//! Physics, rendering and the entity store live outside this crate: callers
//! hand in what those reported this tick and apply what comes back.
pub mod bullet;
pub mod enemy;
pub mod game;
pub mod level;
pub mod physics_layers;
pub mod player;
pub mod rng;
pub mod spike_roller;
pub mod tile;
