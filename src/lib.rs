//! Simulation core of a brick-breaker game: volley emission, ball movement,
//! ball/brick and ball/wall collisions, and the round state machine.
//!
//! All geometry is integer: positions are measured in sub-pixels
//! (`geometry::UNIT` per pixel) and directions are vectors scaled so that a
//! unit vector has length `geometry::UNIT`.

pub mod builder;
pub mod components;
pub mod constants;
pub mod entity;
pub mod geometry;
pub mod resource;
pub mod system;
pub mod theorems;
