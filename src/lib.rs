//! A bounded 2D arena: a player clamped to its walls and enemies that bounce
//! off them, on fixed-point integer coordinates.
//!
//! Lengths are measured in subpixels (`SUBPIXELS_PER_PIXEL` to a pixel),
//! a direction is an integer vector whose unit length is `DIRECTION_SCALE`,
//! speeds are in pixels per second and elapsed time in microseconds.

pub mod geometry;
pub mod laws;
pub mod monsters;
pub mod motion;
pub mod spawn;
pub mod world;
