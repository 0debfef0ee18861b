//! Surface textures: a sampling capability and its solid-color instance.

use vstd::prelude::*;
use crate::math::vec3::Vec3;

pub mod constant_texture;

verus! {

/// Anything a surface color can be sampled from.
pub trait Texture {
    /// The color this texture shows at the given surface coordinates and
    /// point.
    spec fn color_at(&self, u: i64, v: i64, p: Vec3) -> Vec3;

    /// Sample the texture.
    fn sample_color(&self, u: i64, v: i64, p: &Vec3) -> (c: Vec3)
        ensures
            c == self.color_at(u, v, *p),
    ;
}

} // verus!
