//! A particle-life simulation engine in fixed-point arithmetic.
//!
//! Lengths are integers in micro-units (one world unit is `1_000_000`),
//! times are microseconds and attraction coefficients are per-mille.
//!
//! - [`matrix`]: the color-pair coefficient table and its re-randomization.
//! - [`circle`], [`world`]: particles and the store that owns them.
//! - [`physics`]: the response curve and the snapshot-based tick.
//! - [`camera`]: pan, zoom and the presentation transform.
//! - [`scheduler`]: pause, commands and the per-frame sequence.
//! - [`palette`]: display colors of the color classes.
//! - [`config`]: the engine's parameters and their validation.

pub mod fixed;
pub mod matrix;
mod random;
pub mod config;
pub mod circle;
pub mod physics;
pub mod world;
pub mod camera;
pub mod palette;
pub mod scheduler;
