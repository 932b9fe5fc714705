//! A bunnymark-style stress-test core: a population of sprites ("bunnies")
//! that grows toward a target, moves inside a window with edge reflection,
//! and a background tile grid recomputed on resize.
//!
//! All geometry is held in fixed-point milli-pixels (thousandths of a pixel),
//! so every rule is stated and proved over plain integers. A host front end
//! converts to and from its own units at the boundary.

use vstd::prelude::*;

pub mod count;
pub mod geom;
pub mod label;
pub mod mover;
mod rng;
pub mod spawner;
pub mod tiler;

verus! {

/// Fixed-point scale: positions, directions and speed factors are held in
/// thousandths (a position of 1500 milli-pixels is 1.5 pixels).
pub const SCALE: i64 = 1000;

/// Width of the bunny sprite, in milli-pixels (26 pixels).
pub const BUNNY_WIDTH: i64 = 26000;

/// Height of the bunny sprite, in milli-pixels (37 pixels).
pub const BUNNY_HEIGHT: i64 = 37000;

/// Base speed of every bunny, in pixels per second.
pub const BASE_SPEED: i64 = 200;

/// Smallest per-bunny speed factor, in thousandths (1.0).
pub const SPEED_FACTOR_MIN: i64 = 1000;

/// Exclusive upper bound of the per-bunny speed factor, in thousandths (4.0).
pub const SPEED_FACTOR_MAX: i64 = 4000;

/// Edge length of one background tile, in pixels.
pub const TILE_SIZE: u32 = 32;

/// Bunnies requested at startup.
pub const DEFAULT_BUNNIES: u64 = 128;

} // verus!
