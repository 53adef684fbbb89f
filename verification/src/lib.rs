//! Verified core of a tick-driven space-combat simulation.
//!
//! The library owns the gameplay logic: restartable timers, procedural
//! spawning over an explicit entity arena, steering and autonomous flight
//! decisions, collision classification, score accounting, and distance
//! culling.  A host layer supplies the clock, the input state and the
//! physics integration, and reads back poses, forces and events.

pub mod timer;
pub mod arena;
pub mod combat;
pub mod culling;
pub mod flight;
pub mod norm;
pub mod rng;
pub mod score;
pub mod sim;
pub mod spawner;
pub mod steer;
pub mod vec3;

use vstd::prelude::*;

verus! {

/// Fixed-point scale of direction vectors: a unit vector has norm `FP_UNIT`.
pub const FP_UNIT: i64 = 1000;

} // verus!
