//! A small 2D pursuit simulation: one player-controlled body and a growing
//! set of pursuer agents on a plane, advanced in fixed time steps.
//!
//! All coordinates, velocities and accelerations are fixed-point integers:
//! one world unit is `SCALE` (10_000) coordinate steps, and time is counted
//! in milliseconds. Each tick applies friction to the stored impulse, clamps
//! velocity axis-wise, and moves each body by constant-acceleration
//! kinematics; pursuers steer toward the player and are pushed apart
//! pairwise when their circles overlap. Window, input and drawing live in a
//! separate unverified front end that converts to and from these units.

use vstd::prelude::*;

pub mod enemy;
pub mod game;
pub mod geom;
pub mod intmath;
pub mod keysystem;
pub mod player;

verus! {

/// Fixed-point scale: the number of coordinate steps in one world unit.
pub const SCALE: i64 = 10_000;

/// Axis-wise velocity bound, 0.3 world units per millisecond.
pub const MAX_SPEED: i64 = 3_000;

/// An impulse is stored scaled down by this gain divisor.
pub const ACC_DIVISOR: i64 = 10;

/// Friction: one tenth of the velocity is subtracted from the stored
/// acceleration every tick.
pub const FRICTION_DIVISOR: i64 = 10;

/// Squared snap threshold: a velocity of magnitude under 0.001 world units
/// per millisecond (10 steps) is snapped to zero.
pub const SNAP_EPS_SQ: i64 = 100;

/// Squared steering dead-zone, 500 square world units: a pursuer closer than
/// this to its target leaves heading and impulse alone.
pub const DEADZONE_SQ: i64 = 500 * SCALE * SCALE;

/// Collision radius of every agent, 20 world units.
pub const RADIUS: i64 = 20 * SCALE;

/// Steering gain of a pursuer, 0.3 world units.
pub const ENEMY_SPEED: i64 = 3_000;

/// The world is a finite square: coordinates are clamped into
/// `[-WORLD_LIMIT, WORLD_LIMIT]` (100_000 world units). Keeping the world
/// finite is a deliberate hardening; it also keeps every intermediate
/// product inside `i64`.
pub const WORLD_LIMIT: i64 = 1_000_000_000;

/// Largest impulse a caller may hand to a body in one tick.
pub const IMPULSE_LIMIT: i64 = 1_000_000;

/// Stored acceleration is clamped into `[-ACC_LIMIT, ACC_LIMIT]` by the
/// friction step, another overflow hardening far outside the values the
/// simulation produces.
pub const ACC_LIMIT: i64 = 1_000_000;

/// Largest tick length, in milliseconds.
pub const DT_LIMIT: i64 = 1_000_000;

/// The fixed tick length the simulation is driven at: a sixtieth of a
/// second, truncated to a whole millisecond count.
pub const FRAME_MILLIS: i64 = 16;

} // verus!
