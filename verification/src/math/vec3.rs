//! Three-component vectors over the saturating fixed-point scalar.

use vstd::prelude::*;
use crate::fixed::{FX_MAX, ONE, cl, fm, fd, fsq, tzd, fx_mul, fx_add, fx_sub, fx_div, fx_sqrt,
    clip128, udiv_trunc, lemma_clipped_product};

verus! {

/// A point, direction or color; each component is a fixed-point scalar.
#[derive(Clone, Copy, PartialEq, Eq, Structural, Debug)]
pub struct Vec3 {
    pub x: i64,
    pub y: i64,
    pub z: i64,
}

/// All components lie in the saturated scalar range.  Every vector built by
/// the library's own operations satisfies this.
pub open spec fn ok3(v: Vec3) -> bool {
    &&& -FX_MAX <= v.x <= FX_MAX
    &&& -FX_MAX <= v.y <= FX_MAX
    &&& -FX_MAX <= v.z <= FX_MAX
}

/// Construction clips each component into the scalar range.
pub open spec fn v_new(x: i64, y: i64, z: i64) -> Vec3 {
    Vec3 { x: cl(x as int), y: cl(y as int), z: cl(z as int) }
}

pub open spec fn v_add(a: Vec3, b: Vec3) -> Vec3 {
    Vec3 { x: cl(a.x + b.x), y: cl(a.y + b.y), z: cl(a.z + b.z) }
}

pub open spec fn v_sub(a: Vec3, b: Vec3) -> Vec3 {
    Vec3 { x: cl(a.x - b.x), y: cl(a.y - b.y), z: cl(a.z - b.z) }
}

pub open spec fn v_neg(a: Vec3) -> Vec3 {
    Vec3 { x: cl(-a.x), y: cl(-a.y), z: cl(-a.z) }
}

/// Multiplication by a scalar, component by component.
pub open spec fn v_scale(a: Vec3, s: i64) -> Vec3 {
    Vec3 { x: fm(a.x, s), y: fm(a.y, s), z: fm(a.z, s) }
}

/// The component-wise product, used for color attenuation.
pub open spec fn v_cmul(a: Vec3, b: Vec3) -> Vec3 {
    Vec3 { x: fm(a.x, b.x), y: fm(a.y, b.y), z: fm(a.z, b.z) }
}

/// Division by a scalar, component by component.
pub open spec fn v_divs(a: Vec3, s: i64) -> Vec3 {
    Vec3 { x: fd(a.x, s), y: fd(a.y, s), z: fd(a.z, s) }
}

/// The dot product: one truncation of the exact sum of products.
pub open spec fn v_dot(a: Vec3, b: Vec3) -> i64 {
    cl(tzd(a.x * b.x + a.y * b.y + a.z * b.z, ONE as int))
}

pub open spec fn v_cross(a: Vec3, b: Vec3) -> Vec3 {
    Vec3 {
        x: cl(fm(a.y, b.z) - fm(a.z, b.y)),
        y: cl(fm(a.z, b.x) - fm(a.x, b.z)),
        z: cl(fm(a.x, b.y) - fm(a.y, b.x)),
    }
}

pub open spec fn v_length(a: Vec3) -> i64 {
    fsq(v_dot(a, a))
}

/// Normalization divides by the length; a zero length saturates.
pub open spec fn v_norm(a: Vec3) -> Vec3 {
    let l = v_length(a);
    Vec3 { x: fd(a.x, l), y: fd(a.y, l), z: fd(a.z, l) }
}

/// Mirror `v` about the plane with normal `n`.
pub open spec fn v_reflect(v: Vec3, n: Vec3) -> Vec3 {
    v_sub(v, v_scale(n, cl(2 * v_dot(v, n))))
}

/// The square-root tone curve applied to each component.
pub open spec fn v_gamma(v: Vec3) -> Vec3 {
    Vec3 { x: fsq(v.x), y: fsq(v.y), z: fsq(v.z) }
}

/// Component `k` (0, 1 or 2) of the vector.
pub open spec fn v_axis(a: Vec3, k: int) -> i64 {
    if k == 0 {
        a.x
    } else if k == 1 {
        a.y
    } else {
        a.z
    }
}

impl Vec3 {
    /// Build a vector, clipping each component into the scalar range.
    pub fn new(x: i64, y: i64, z: i64) -> (r: Vec3)
        ensures
            r == v_new(x, y, z),
            ok3(r),
    {
        Vec3 { x: clip128(x as i128), y: clip128(y as i128), z: clip128(z as i128) }
    }

    pub fn zero() -> (r: Vec3)
        ensures
            r == (Vec3 { x: 0i64, y: 0i64, z: 0i64 }),
            ok3(r),
    {
        Vec3 { x: 0, y: 0, z: 0 }
    }

    pub fn one() -> (r: Vec3)
        ensures
            r == (Vec3 { x: ONE, y: ONE, z: ONE }),
            ok3(r),
    {
        Vec3 { x: ONE, y: ONE, z: ONE }
    }

    pub fn up() -> (r: Vec3)
        ensures
            r == (Vec3 { x: 0i64, y: ONE, z: 0i64 }),
            ok3(r),
    {
        Vec3 { x: 0, y: ONE, z: 0 }
    }

    pub fn add(&self, o: &Vec3) -> (r: Vec3)
        ensures
            r == v_add(*self, *o),
            ok3(r),
    {
        Vec3 { x: fx_add(self.x, o.x), y: fx_add(self.y, o.y), z: fx_add(self.z, o.z) }
    }

    pub fn sub(&self, o: &Vec3) -> (r: Vec3)
        ensures
            r == v_sub(*self, *o),
            ok3(r),
    {
        Vec3 { x: fx_sub(self.x, o.x), y: fx_sub(self.y, o.y), z: fx_sub(self.z, o.z) }
    }

    pub fn neg(&self) -> (r: Vec3)
        ensures
            r == v_neg(*self),
            ok3(r),
    {
        Vec3 { x: fx_sub(0, self.x), y: fx_sub(0, self.y), z: fx_sub(0, self.z) }
    }

    pub fn scale(&self, s: i64) -> (r: Vec3)
        ensures
            r == v_scale(*self, s),
            ok3(r),
    {
        Vec3 { x: fx_mul(self.x, s), y: fx_mul(self.y, s), z: fx_mul(self.z, s) }
    }

    pub fn comp_mul(&self, o: &Vec3) -> (r: Vec3)
        ensures
            r == v_cmul(*self, *o),
            ok3(r),
    {
        Vec3 { x: fx_mul(self.x, o.x), y: fx_mul(self.y, o.y), z: fx_mul(self.z, o.z) }
    }

    /// Divide each component by the scalar `s`.
    pub fn div_scalar(&self, s: i64) -> (r: Vec3)
        ensures
            r == v_divs(*self, s),
            ok3(r),
    {
        Vec3 { x: fx_div(self.x, s), y: fx_div(self.y, s), z: fx_div(self.z, s) }
    }

    pub fn dot(&self, o: &Vec3) -> (r: i64)
        requires
            ok3(*self),
            ok3(*o),
        ensures
            r == v_dot(*self, *o),
    {
        proof {
            lemma_clipped_product(self.x as int, o.x as int);
            lemma_clipped_product(self.y as int, o.y as int);
            lemma_clipped_product(self.z as int, o.z as int);
        }
        let px: i128 = (self.x as i128) * (o.x as i128);
        let py: i128 = (self.y as i128) * (o.y as i128);
        let pz: i128 = (self.z as i128) * (o.z as i128);
        let q: i128 = udiv_trunc(px + py + pz, 65536);
        clip128(q)
    }

    pub fn cross(&self, o: &Vec3) -> (r: Vec3)
        ensures
            r == v_cross(*self, *o),
            ok3(r),
    {
        Vec3 {
            x: fx_sub(fx_mul(self.y, o.z), fx_mul(self.z, o.y)),
            y: fx_sub(fx_mul(self.z, o.x), fx_mul(self.x, o.z)),
            z: fx_sub(fx_mul(self.x, o.y), fx_mul(self.y, o.x)),
        }
    }

    pub fn length_squared(&self) -> (r: i64)
        requires
            ok3(*self),
        ensures
            r == v_dot(*self, *self),
    {
        self.dot(self)
    }

    pub fn length(&self) -> (r: i64)
        requires
            ok3(*self),
        ensures
            r == v_length(*self),
    {
        fx_sqrt(self.dot(self))
    }

    pub fn normalized(&self) -> (r: Vec3)
        requires
            ok3(*self),
        ensures
            r == v_norm(*self),
            ok3(r),
    {
        let l = self.length();
        Vec3 { x: fx_div(self.x, l), y: fx_div(self.y, l), z: fx_div(self.z, l) }
    }

    /// Mirror this vector about the plane with normal `n`.
    pub fn reflect(&self, n: &Vec3) -> (r: Vec3)
        requires
            ok3(*self),
            ok3(*n),
        ensures
            r == v_reflect(*self, *n),
            ok3(r),
    {
        let d = self.dot(n);
        let d2 = fx_add(d, d);
        self.sub(&n.scale(d2))
    }

    /// Component `k` (0, 1 or 2) of the vector.
    pub fn axis(&self, k: usize) -> (r: i64)
        requires
            k < 3,
        ensures
            r == v_axis(*self, k as int),
    {
        if k == 0 {
            self.x
        } else if k == 1 {
            self.y
        } else {
            self.z
        }
    }
}

} // verus!
