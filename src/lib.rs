//! Integer core of an escape-time fractal renderer.
//!
//! The floating-point recurrence itself is evaluated by the caller; this
//! library owns everything around it that can be stated exactly: the
//! viewport and its pixel-to-plane coordinate mapping, the escape counter
//! that turns per-step divergence sentinels into an intensity byte, the
//! row plan that exploits conjugate symmetry, and the assembly of rows into
//! a row-major raster.

pub mod escape;
pub mod viewport;
pub mod raster;
