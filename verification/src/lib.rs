//! Verified core of a small 2D arcade game: a player avatar evades enemies
//! and collects stars on a bounded playfield, accumulating a score, under a
//! menu / pause / game-over state machine.
//!
//! The library models the playfield with integer coordinates (whole pixels)
//! and direction vectors in fixed-point thousandths of a unit, so that every
//! rule of the simulation — boundary confinement, movement integration,
//! bounce, collision detection, spawning, scoring and state transitions — is
//! stated and proved exactly. Rendering, audio, input and windowing are the
//! caller's concern: each tick takes plain key states and the window extent,
//! and returns the side-effect events (sounds, game over, quit) for the
//! caller to perform.

use vstd::prelude::*;

pub mod events;
pub mod geom;
pub mod registry;
pub mod rng;
pub mod score;
pub mod seqs;
pub mod session;
pub mod timer;

verus! {

/// Pixels the player moves per second at full speed.
pub const PLAYER_SPEED: i64 = 500;

/// Side of the square player sprite, in pixels; its radius is half of this.
pub const PLAYER_SIZE: i64 = 64;

/// Pixels an enemy moves per second.
pub const ENEMY_SPEED: i64 = 200;

/// Side of the square enemy sprite, in pixels.
pub const ENEMY_SIZE: i64 = 64;

/// Side of the square star sprite, in pixels.
pub const STAR_SIZE: i64 = 30;

/// Enemies created when a game starts.
pub const NUM_OF_ENEMIES: usize = 4;

/// Stars created when a game starts.
pub const NUM_OF_STARS: usize = 10;

/// Period of the repeating enemy spawn timer, in milliseconds.
pub const ENEMY_SPAWN_PERIOD_MS: i64 = 5000;

/// Period of the repeating star spawn timer, in milliseconds.
pub const STAR_SPAWN_PERIOD_MS: i64 = 1000;

/// Scale of direction vectors: a component of `DIR_SCALE` stands for 1.0.
pub const DIR_SCALE: i64 = 1000;

/// Largest window extent, per axis, that a tick accepts.
pub const MAX_EXTENT: i64 = 1_000_000;

/// Largest frame time, in milliseconds, that a tick accepts.
pub const MAX_TICK_MS: i64 = 60_000;

/// Candidate positions tried before an enemy spawn is skipped.
pub const SPAWN_ATTEMPTS: u32 = 100;

/// A player-enemy contact closer than the combined radii — half the player
/// size plus half the enemy size, 64 pixels — is fatal; this is the square
/// of that threshold.
pub const FATAL_DIST_SQ: i64 = 64 * 64;

/// A player-star contact closer than the combined radii — half the player
/// size plus half the star size, 47 pixels — collects the star; this is the
/// square of that threshold.
pub const COLLECT_DIST_SQ: i64 = 47 * 47;

/// An enemy may not spawn closer to the player than twice the enemy size,
/// 128 pixels; this is the square of that distance.
pub const ENEMY_AVOID_DIST_SQ: i64 = 128 * 128;

/// Every stored position component stays within this magnitude; movement
/// and confinement keep well below it, and all distance arithmetic is
/// overflow-free under it.
pub const POS_LIMIT: i64 = 2_000_000;

} // verus!
