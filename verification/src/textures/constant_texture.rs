//! The solid-color texture.

use vstd::prelude::*;
use crate::math::vec3::Vec3;
use crate::textures::Texture;

verus! {

/// A texture that shows one color everywhere.
#[derive(Clone, Copy, PartialEq, Eq, Structural, Debug)]
pub struct ConstantTexture {
    pub color: Vec3,
}

impl ConstantTexture {
    /// The black constant texture.
    pub fn default() -> (r: ConstantTexture)
        ensures
            r == (ConstantTexture { color: Vec3 { x: 0i64, y: 0i64, z: 0i64 } }),
    {
        ConstantTexture { color: Vec3::zero() }
    }

    pub fn new(c: &Vec3) -> (r: ConstantTexture)
        ensures
            r == (ConstantTexture { color: *c }),
    {
        ConstantTexture { color: *c }
    }
}

impl Texture for ConstantTexture {
    open spec fn color_at(&self, u: i64, v: i64, p: Vec3) -> Vec3 {
        self.color
    }

    fn sample_color(&self, _u: i64, _v: i64, _p: &Vec3) -> (c: Vec3) {
        self.color
    }
}

} // verus!
