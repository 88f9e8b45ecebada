//! An interactive explorer for the Mandelbrot escape-time fractal.
//!
//! The numeric core works on exact fixed-point arithmetic: a real number `x`
//! is represented by the integer `x * FIX_ONE`, truncated toward zero.  On top
//! of that scalar type the crate builds complex arithmetic, the escape-time
//! evaluator, the iteration-count-to-color mapping, the pixel-to-plane
//! projection, the row renderer, and the viewport state machine driven by
//! discrete input events.  A thin display front end owns the window and the
//! event source; everything it calls into here is verified.

pub mod color;
pub mod complex;
pub mod escape;
pub mod fixed;
pub mod project;
pub mod render;
pub mod viewport;
