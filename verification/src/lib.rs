//! Gameplay rules of a brick-breaking arcade game: projectile reflection,
//! collision resolution and the counters that decide when a session ends.

pub mod angle;
pub mod game;
pub mod label;
pub mod laws;
pub mod model;
pub mod timer;
