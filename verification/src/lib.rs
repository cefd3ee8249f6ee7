//! Core logic of a grid Snake game.
//!
//! The library models the whole game as a state machine over plain values:
//! a snake (a head-first sequence of grid cells plus a heading),
//! a set of live food items with countdown lifespans, a live-food counter,
//! interval timers counted in milliseconds, and an append-only event bus with
//! per-reader cursors. An outside driver advances the machine once per tick in
//! a fixed order; rendering, windowing and input polling live outside the
//! library and hand it nothing but elapsed milliseconds and an optional
//! requested direction.

use vstd::prelude::*;

pub mod direction;
pub mod events;
pub mod food;
pub mod game;
pub mod position;
pub mod rng;
pub mod snake;
pub mod timer;

verus! {

/// Number of grid columns of the arena.
pub const ARENA_WIDTH: i32 = 15;

/// Number of grid rows of the arena.
pub const ARENA_HEIGHT: i32 = 15;

/// Period of the food spawner's timer, in milliseconds.
pub const FOOD_SPAWN_RATE_MS: u64 = 2000;

/// Lifespan of a freshly spawned food item, in milliseconds.
pub const FOOD_LIFE_SPAN_MS: u64 = 5000;

/// Ceiling on the number of live food items the spawner will allow.
pub const FOOD_CEILING: u32 = 10;

/// Interval between automatic snake moves right after a (re)spawn,
/// in milliseconds.
pub const MOVE_INTERVAL_BASE_MS: u64 = 350;

/// How much the move interval shrinks on a growth event, in milliseconds.
pub const MOVE_INTERVAL_STEP_MS: u64 = 10;

/// Floor below which the move interval never shrinks, in milliseconds.
pub const MOVE_INTERVAL_MIN_MS: u64 = 10;

} // verus!
