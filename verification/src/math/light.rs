//! Light formulas: the Schlick reflectance approximation.

use vstd::prelude::*;
use crate::fixed::{ONE, cl, fm, fd, fx_mul, fx_div, fx_add, fx_sub};

verus! {

/// The fifth power, computed as `((x^2)^2) * x`.
pub open spec fn pow5(x: i64) -> i64 {
    let p2 = fm(x, x);
    let p4 = fm(p2, p2);
    fm(p4, x)
}

/// The Schlick approximation of Fresnel reflectance:
/// `r0 + (1 - r0) * (1 - cosine)^5` with `r0 = ((1 - n) / (1 + n))^2`.
pub open spec fn schlick_spec(cosine: i64, ref_idx: i64) -> i64 {
    let r0_sqrt = fd(cl(ONE - ref_idx), cl(ONE + ref_idx));
    let r0 = fm(r0_sqrt, r0_sqrt);
    cl(r0 + fm(cl(ONE - r0), pow5(cl(ONE - cosine))))
}

/// The Schlick approximation of Fresnel reflectance.
pub fn schlick(cosine: i64, ref_idx: i64) -> (r: i64)
    ensures
        r == schlick_spec(cosine, ref_idx),
{
    let r0_sqrt = fx_div(fx_sub(ONE, ref_idx), fx_add(ONE, ref_idx));
    let r0 = fx_mul(r0_sqrt, r0_sqrt);
    let base = fx_sub(ONE, cosine);
    let p2 = fx_mul(base, base);
    let p4 = fx_mul(p2, p2);
    let p5 = fx_mul(p4, base);
    fx_add(r0, fx_mul(fx_sub(ONE, r0), p5))
}

} // verus!
