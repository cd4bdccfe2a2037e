//! Interactive Mandelbrot-set explorer, modelled over fixed-point plane
//! coordinates.
//!
//! A point of the complex plane is represented by two `i64` values counting
//! ticks of `fixed::SCALE` per unit, so every computation in this crate is
//! exact integer arithmetic with an explicit rounding rule. The crate
//! provides the escape-time evaluator with its interior shortcuts, palette
//! generation, the viewport transform and navigation model, the per-pixel
//! frame renderer, and the zoom-animation export pipeline. Window handling,
//! event polling and file output live outside the library.

pub mod color;
pub mod control;
pub mod escape;
pub mod export;
pub mod fixed;
pub mod render;
pub mod viewport;
