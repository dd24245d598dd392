//! Movement, growth and collision core of a snake game on a fixed-point grid.
//!
//! Every length and coordinate is a whole number of ticks, a tick being one
//! hundredth of a field unit, so that all bookkeeping is exact.

pub mod game;
