//! Decision logic of a small sphere ray tracer, verified with Verus.
//!
//! Distances along a ray are handled as ordered integer keys (see `distance`),
//! so that root selection, closest-hit search, bounce control, pixel order and
//! the text image format are all proved on plain integers.

pub mod distance;
pub mod sphere;
pub mod scene;
pub mod integrator;
pub mod image;
