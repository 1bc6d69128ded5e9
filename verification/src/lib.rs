//! Core simulation of a multiplayer fishing world: fixed-point 2D kinematics,
//! flocking creatures with home zones, a fishing state machine, boundary
//! geometry extracted from a terrain grid, and client-side Hermite
//! interpolation of authoritative snapshots.
//!
//! All world quantities are fixed-point integers in milli-units: a coordinate
//! of `1000` is one world unit, an angle of `3142` is (approximately) pi
//! radians, and times are in milliseconds.
use vstd::prelude::*;

pub mod assets;
pub mod fx;
pub mod fish;
pub mod client;
pub mod fishing;
pub mod geometry;
pub mod model;
pub mod terrain;
pub mod interpolation;
pub mod motion;
pub mod player;
pub mod vec2;

pub use fx::normalize_angle;

verus! {

/// One tick of the authoritative simulation, in milliseconds (10 Hz).
pub const TICK_MS: i64 = 100;

} // verus!
