//! Arcade flight-dynamics core.
//!
//! All physical quantities are fixed-point numbers: an `i64` counting
//! millionths of a unit (meters, seconds, radians).  The library owns the
//! aircraft state, the per-frame integrator, the input-to-axis mapping and
//! the camera framing; windowing, key sampling and rendering live outside.

pub mod fixed;
pub mod vec3;
pub mod quat;
pub mod plane;
pub mod camera;
pub mod laws;
