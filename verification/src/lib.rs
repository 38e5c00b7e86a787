//! A Monte Carlo path tracer's verifiable core: the deterministic per-row
//! random generator, the scanline scheduler's row-status state machine, the
//! shared image buffer with its row-merge discipline, the estimator's
//! depth-policy thresholds, and the plain-text pixel-map encoder.
//!
//! The floating-point parts of the renderer (vector algebra, sphere
//! intersection, the recursive radiance estimator) live outside this library
//! and drive it through the integer-valued interfaces defined here.
pub mod config;
pub mod estimator;
pub mod image;
pub mod material;
pub mod ppm;
pub mod random;
pub mod scheduler;
