//! A Monte-Carlo path tracer over a saturating two's-complement fixed-point
//! scalar model (one unit = `fixed::ONE` raw steps).
//!
//! The library covers the spatial-intersection engine (spheres, moving
//! spheres, an axis-aligned-bounding-box hierarchy), the material scattering
//! model, the camera ray generation, the recursive color integration and the
//! deterministic pixel-buffer driver.  All scalar arithmetic is specified
//! exactly, so every rendering result is pinned to a mathematical function of
//! the scene, the camera and the sampling seed.

pub mod fixed;
pub mod rng;
pub mod decimal;
pub mod math;
pub mod geometry;
pub mod material;
pub mod textures;
pub mod io;
pub mod render;
