//! Scalar-model mathematics: vectors, rays, the camera, light formulas and
//! small utilities.

pub mod vec3;
pub mod ray;
pub mod light;
pub mod camera;
pub mod vector_utils;
pub mod time_utils;
