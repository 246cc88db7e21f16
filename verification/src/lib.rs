//! Core of an interactive Mandelbrot viewer.
//!
//! The library computes an escape-time fractal image into an RGBA pixel
//! buffer, derives zoomed-in coordinate grids from a clicked pixel, and keeps
//! a bounded ring of previously visited grids for back/forward navigation.
//! Window creation, input polling and file export are left to the surrounding
//! binary; the library only consumes plain values (click coordinates,
//! commands) and produces plain values (pixel bytes, actions).
//!
//! Coordinates in the complex plane are held as fixed-point numbers: an `i64`
//! value `v` stands for the real number `v / SCALE`. This keeps the whole
//! coordinate and escape-time arithmetic in integers, at the price of a
//! bounded zoom depth (one step of the axis grid cannot go below `1 / SCALE`).

use vstd::prelude::*;

pub mod escape;
pub mod fixed;
pub mod grid;
pub mod history;
pub mod palette;
pub mod render;
pub mod session;

verus! {

/// Logical render width in pixels; window resizing only rescales the surface.
pub const SCREEN_WIDTH: usize = 1920;

/// Logical render height in pixels.
pub const SCREEN_HEIGHT: usize = 1080;

/// Fixed-point unit: the `i64` coordinate `SCALE` stands for the real 1.0.
pub const SCALE: i64 = 1_000_000_000;

/// Iteration cap of the escape-time loop.
pub const MAX_ITERATION: u32 = 1000;

/// Number of entries in the color table; escape counts select mod this.
pub const NUM_COLORS: usize = 10;

/// Number of grids the history ring can hold.
pub const HISTORY_SLOTS: usize = 10;

} // verus!
