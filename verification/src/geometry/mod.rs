//! Hittable geometry: bounding boxes, primitives, the flat scene list and
//! the bounding-volume hierarchy.

use vstd::prelude::*;
use crate::math::vec3::Vec3;

pub mod aabb;
pub mod sphere;
pub mod movable_sphere;
pub mod hittable;
pub mod scene;
pub mod bvh_node;

verus! {

/// The result of a ray-primitive intersection.
///
/// `material` names which entry of the scene's material arena handles the
/// shading; the record never owns that material.  `usize::MAX` marks the
/// unresolvable reference of a freshly made record.
#[derive(Clone, Copy, PartialEq, Eq, Structural, Debug)]
pub struct HitRecord {
    pub t: i64,
    pub position: Vec3,
    pub normal: Vec3,
    pub material: usize,
}

impl HitRecord {
    /// A record with no hit information and an unresolvable material.
    pub fn default() -> (r: HitRecord)
        ensures
            r == (HitRecord {
                t: 0i64,
                position: Vec3 { x: 0i64, y: 0i64, z: 0i64 },
                normal: Vec3 { x: 0i64, y: 0i64, z: 0i64 },
                material: usize::MAX,
            }),
    {
        HitRecord {
            t: 0,
            position: Vec3::zero(),
            normal: Vec3::zero(),
            material: usize::MAX,
        }
    }

    /// Overwrite this record with another one.
    pub fn update(&mut self, other: HitRecord)
        ensures
            *final(self) == other,
    {
        self.material = other.material;
        self.position = other.position;
        self.normal = other.normal;
        self.t = other.t;
    }
}

} // verus!
