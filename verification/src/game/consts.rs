//! Configuration constants. Lengths and coordinates are in ticks, one
//! hundredth of a field unit; times are in milliseconds.

use vstd::prelude::*;

verus! {

/// Length of a freshly created segment: the smallest length there is.
pub const EPSILON: i64 = 1;

/// No coordinate of a valid point lies further than this from the origin.
pub const COORD_LIMIT: i64 = 0x100_0000_0000;

/// Thickness of the snake.
pub const SNAKE_WIDTH: i64 = 2000;

/// Half the thickness of the snake.
pub const SNAKE_HALF_WIDTH: i64 = 1000;

/// Width of the play field.
pub const SCREEN_WIDTH: i64 = 80_000;

/// Height of the play field.
pub const SCREEN_HEIGHT: i64 = 60_000;

/// Side of the food's box, and the length the snake gains by eating it.
pub const FOOD_SIZE: i64 = 2000;

/// Half the side of the food's box.
pub const FOOD_HALF_SIZE: i64 = 1000;

/// Distance travelled per millisecond.
pub const SPEED: i64 = 20;

/// Shortest time between two turns, in milliseconds; long enough for the
/// snake to travel its own width, so that a U-turn leaves room between the
/// two parallel runs.
pub const MILLIS_PER_INPUT_UPDATE: u64 = 100;

} // verus!
