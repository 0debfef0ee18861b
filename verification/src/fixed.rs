//! Saturating fixed-point scalar arithmetic.
//!
//! A scalar is an `i64` counting steps of `1/ONE`; the value one is `ONE`
//! raw steps.  Products and quotients are truncated toward zero, and every
//! result saturates at `±FX_MAX`, so all operations are total.  Each
//! executable operation is pinned to a spec-level function of the raw
//! integer values.

use vstd::prelude::*;
use vstd::arithmetic::div_mod::{lemma_div_is_ordered, lemma_div_pos_is_pos, lemma_div_nonincreasing, lemma_div_multiples_vanish};

verus! {

/// The raw representation of the scalar one.
pub const ONE: i64 = 65536;

/// The raw representation of the scalar one half.
pub const HALF: i64 = 32768;

/// Largest raw magnitude a scalar may take; arithmetic saturates here.
pub const FX_MAX: i64 = 0x8000_0000_0000;

/// Saturate an unbounded integer into the representable scalar range.
pub open spec fn fclip(x: int) -> int {
    if x > FX_MAX as int {
        FX_MAX as int
    } else if x < -(FX_MAX as int) {
        -(FX_MAX as int)
    } else {
        x
    }
}

/// Division truncated toward zero, for a positive divisor.
pub open spec fn tzd(a: int, k: int) -> int {
    if a >= 0 {
        a / k
    } else {
        -((-a) / k)
    }
}

/// Division truncated toward zero, for a divisor of either sign (not zero).
pub open spec fn tz(a: int, b: int) -> int {
    if b > 0 {
        tzd(a, b)
    } else {
        tzd(-a, -b)
    }
}

/// The scalar product: truncate `a * b / ONE` toward zero, then saturate.
pub open spec fn fmul(a: int, b: int) -> int {
    fclip(tzd(a * b, ONE as int))
}

/// The scalar quotient: truncate `a * ONE / b` toward zero, then saturate.
/// A zero divisor saturates to the signed extreme, the model's stand-in for
/// the infinities a floating-point division by zero would produce.
pub open spec fn fdiv(a: int, b: int) -> int {
    if b == 0 {
        if a > 0 {
            FX_MAX as int
        } else if a < 0 {
            -(FX_MAX as int)
        } else {
            0
        }
    } else {
        fclip(tz(a * (ONE as int), b))
    }
}

/// `r` is the integer square root of `n` rounded down.
pub open spec fn is_sqrt(n: int, r: int) -> bool {
    0 <= r && r * r <= n && n < (r + 1) * (r + 1)
}

/// The integer square root of `n`, rounded down.
pub open spec fn sqrt_floor(n: int) -> int {
    choose|r: int| is_sqrt(n, r)
}

/// The scalar square root: nonpositive inputs give zero.
pub open spec fn fsqrt(a: int) -> int {
    if a <= 0 {
        0
    } else {
        sqrt_floor(a * (ONE as int))
    }
}

/// Two distinct integers cannot both be the rounded-down square root of `n`.
pub proof fn lemma_sqrt_unique(n: int, r1: int, r2: int)
    requires
        is_sqrt(n, r1),
        is_sqrt(n, r2),
    ensures
        r1 == r2,
{
    assert(r1 == r2) by (nonlinear_arith)
        requires
            is_sqrt(n, r1),
            is_sqrt(n, r2),
    ;
}

/// Every nonnegative integer has a rounded-down square root, so the spec
/// value `sqrt_floor(n)` satisfies its defining property.
pub proof fn lemma_sqrt_exists(n: int)
    requires
        n >= 0,
    ensures
        is_sqrt(n, sqrt_floor(n)),
    decreases n,
{
    if n == 0 {
        assert(is_sqrt(0, 0));
    } else {
        lemma_sqrt_exists(n - 1);
        let r = sqrt_floor(n - 1);
        if (r + 1) * (r + 1) <= n {
            assert(is_sqrt(n, r + 1)) by (nonlinear_arith)
                requires
                    is_sqrt(n - 1, r),
                    (r + 1) * (r + 1) <= n,
            ;
        } else {
            assert(is_sqrt(n, r));
        }
    }
}

/// Truncation toward zero by a positive divisor is monotone.
pub proof fn lemma_tzd_mono(a1: int, a2: int, k: int)
    requires
        a1 <= a2,
        k > 0,
    ensures
        tzd(a1, k) <= tzd(a2, k),
{
    if a1 >= 0 {
        lemma_div_is_ordered(a1, a2, k);
    } else if a2 < 0 {
        lemma_div_is_ordered(-a2, -a1, k);
    } else {
        lemma_div_pos_is_pos(-a1, k);
        lemma_div_pos_is_pos(a2, k);
    }
}

/// Multiplying a representable scalar by one gives the scalar back.
pub proof fn lemma_fmul_one(a: int)
    requires
        -(FX_MAX as int) <= a <= FX_MAX as int,
    ensures
        fmul(a, ONE as int) == a,
{
    if a >= 0 {
        lemma_div_multiples_vanish(a, ONE as int);
    } else {
        lemma_div_multiples_vanish(-a, ONE as int);
        assert(-(a * (ONE as int)) == (-a) * (ONE as int)) by (nonlinear_arith);
    }
}

/// Saturation at the representation type.
pub open spec fn cl(v: int) -> i64 {
    fclip(v) as i64
}

/// The scalar product at the representation type.
pub open spec fn fm(a: i64, b: i64) -> i64 {
    fmul(a as int, b as int) as i64
}

/// The scalar quotient at the representation type.
pub open spec fn fd(a: i64, b: i64) -> i64 {
    fdiv(a as int, b as int) as i64
}

/// The scalar square root at the representation type.
pub open spec fn fsq(a: i64) -> i64 {
    fsqrt(a as int) as i64
}

/// The scalar product is monotone in its first factor, with the direction
/// set by the sign of the second.
pub proof fn lemma_fm_mono(a1: i64, a2: i64, c: i64)
    requires
        a1 <= a2,
    ensures
        c >= 0 ==> fm(a1, c) <= fm(a2, c),
        c < 0 ==> fm(a2, c) <= fm(a1, c),
{
    if c >= 0 {
        assert((a1 as int) * (c as int) <= (a2 as int) * (c as int)) by (nonlinear_arith)
            requires
                a1 <= a2,
                c >= 0,
        ;
        lemma_tzd_mono((a1 as int) * (c as int), (a2 as int) * (c as int), ONE as int);
    } else {
        assert((a2 as int) * (c as int) <= (a1 as int) * (c as int)) by (nonlinear_arith)
            requires
                a1 <= a2,
                c < 0,
        ;
        lemma_tzd_mono((a2 as int) * (c as int), (a1 as int) * (c as int), ONE as int);
    }
}

/// The unit interval is closed under the scalar product.
pub proof fn lemma_fm_unit_closure(a: i64, b: i64)
    requires
        0 <= a <= ONE,
        0 <= b <= ONE,
    ensures
        0 <= fm(a, b) <= ONE,
{
    assert(0 <= (a as int) * (b as int) <= 0x1_0000_0000) by (nonlinear_arith)
        requires
            0 <= a <= 65536,
            0 <= b <= 65536,
    ;
    lemma_div_pos_is_pos((a as int) * (b as int), ONE as int);
    lemma_div_is_ordered((a as int) * (b as int), 0x1_0000_0000, ONE as int);
}

/// The unit interval is closed under the scalar square root.
pub proof fn lemma_fsq_unit(a: i64)
    requires
        a <= ONE,
    ensures
        0 <= fsq(a) <= ONE,
{
    if a > 0 {
        assert(0 < (a as int) * (ONE as int) && (a as int) * (ONE as int) <= 0x1_0000_0000)
            by (nonlinear_arith)
            requires
                0 < a <= 65536,
        ;
        let n = (a as int) * (ONE as int);
        lemma_sqrt_exists(n);
        assert(sqrt_floor(n) <= 65536) by (nonlinear_arith)
            requires
                is_sqrt(n, sqrt_floor(n)),
                n <= 0x1_0000_0000,
        ;
    }
}

/// The scalar quotient is monotone in its numerator for a nonnegative
/// divisor (a zero divisor steps by the numerator's sign).
pub proof fn lemma_fd_mono_num(x: i64, y: i64, b: i64)
    requires
        x <= y,
        b >= 0,
    ensures
        fd(x, b) <= fd(y, b),
{
    if b > 0 {
        lemma_tzd_mono((x as int) * (ONE as int), (y as int) * (ONE as int), b as int);
    }
}

/// The scalar square root is nonnegative.
pub proof fn lemma_fsq_nonneg(a: i64)
    ensures
        fsq(a) >= 0,
        fsqrt(a as int) < 0x100_0000_0000,
{
    if a > 0 {
        assert(0 < (a as int) * (ONE as int) && (a as int) * (ONE as int)
            < 0x1_0000_0000_0000_0000_0000) by (nonlinear_arith)
            requires
                0 < (a as int) && (a as int) < 0x8000_0000_0000_0000,
        ;
        let n = (a as int) * (ONE as int);
        lemma_sqrt_exists(n);
        assert(sqrt_floor(n) < 0x100_0000_0000) by (nonlinear_arith)
            requires
                is_sqrt(n, sqrt_floor(n)),
                n < 0x1_0000_0000_0000_0000_0000,
        ;
    }
}

/// Saturate a wide intermediate result back into the scalar range.
pub(crate) fn clip128(q: i128) -> (r: i64)
    ensures
        r as int == fclip(q as int),
{
    if q > FX_MAX as i128 {
        FX_MAX
    } else if q < -(FX_MAX as i128) {
        -FX_MAX
    } else {
        q as i64
    }
}

pub(crate) proof fn lemma_i64_product_fits(a: int, b: int)
    requires
        -0x8000_0000_0000_0000 <= a < 0x8000_0000_0000_0000,
        -0x8000_0000_0000_0000 <= b < 0x8000_0000_0000_0000,
    ensures
        -0x4000_0000_0000_0000_0000_0000_0000_0000 <= a * b,
        a * b <= 0x4000_0000_0000_0000_0000_0000_0000_0000,
{
    assert(-0x4000_0000_0000_0000_0000_0000_0000_0000 <= a * b
        && a * b <= 0x4000_0000_0000_0000_0000_0000_0000_0000) by (nonlinear_arith)
        requires
            -0x8000_0000_0000_0000 <= a < 0x8000_0000_0000_0000,
            -0x8000_0000_0000_0000 <= b < 0x8000_0000_0000_0000,
    ;
}

/// The product of two scalars in the saturated range stays far inside the
/// wide intermediate type.
pub proof fn lemma_clipped_product(a: int, b: int)
    requires
        -(FX_MAX as int) <= a <= FX_MAX as int,
        -(FX_MAX as int) <= b <= FX_MAX as int,
    ensures
        -0x4000_0000_0000_0000_0000_0000 <= a * b,
        a * b <= 0x4000_0000_0000_0000_0000_0000,
{
    assert(-0x4000_0000_0000_0000_0000_0000 <= a * b
        && a * b <= 0x4000_0000_0000_0000_0000_0000) by (nonlinear_arith)
        requires
            -0x8000_0000_0000 <= a <= 0x8000_0000_0000,
            -0x8000_0000_0000 <= b <= 0x8000_0000_0000,
    ;
}

/// Truncated division of a wide nonnegative numerator by a positive divisor.
pub(crate) fn udiv_trunc(p: i128, den: u128) -> (q: i128)
    requires
        den > 0,
        -0x4000_0000_0000_0000_0000_0000_0000_0000 <= p as int,
        p as int <= 0x4000_0000_0000_0000_0000_0000_0000_0000,
    ensures
        q as int == tzd(p as int, den as int),
{
    if p >= 0 {
        let n: u128 = p as u128;
        let q0: u128 = n / den;
        proof {
            lemma_div_nonincreasing(n as int, den as int);
            lemma_div_pos_is_pos(n as int, den as int);
        }
        q0 as i128
    } else {
        let n: u128 = (-p) as u128;
        let q0: u128 = n / den;
        proof {
            lemma_div_nonincreasing(n as int, den as int);
            lemma_div_pos_is_pos(n as int, den as int);
        }
        -(q0 as i128)
    }
}

/// The scalar product, saturating and truncated toward zero.
pub fn fx_mul(a: i64, b: i64) -> (r: i64)
    ensures
        r as int == fmul(a as int, b as int),
{
    proof {
        lemma_i64_product_fits(a as int, b as int);
    }
    let p: i128 = (a as i128) * (b as i128);
    let q: i128 = udiv_trunc(p, ONE as u128);
    clip128(q)
}

/// The scalar quotient, saturating; a zero divisor saturates to the signed
/// extreme.
pub fn fx_div(a: i64, b: i64) -> (r: i64)
    ensures
        r as int == fdiv(a as int, b as int),
{
    if b == 0 {
        if a > 0 {
            FX_MAX
        } else if a < 0 {
            -FX_MAX
        } else {
            0
        }
    } else {
        proof {
            lemma_i64_product_fits(a as int, ONE as int);
        }
        let p: i128 = (a as i128) * (ONE as i128);
        if b > 0 {
            let q: i128 = udiv_trunc(p, b as u128);
            clip128(q)
        } else {
            let nb: i128 = -(b as i128);
            let q: i128 = udiv_trunc(-p, nb as u128);
            clip128(q)
        }
    }
}

fn isqrt_wide(n: u128) -> (r: u128)
    requires
        n < 0x1_0000_0000_0000_0000_0000,
    ensures
        is_sqrt(n as int, r as int),
{
    let mut lo: u128 = 0;
    let mut hi: u128 = 0x100_0000_0000;
    assert((0x100_0000_0000 as int) * (0x100_0000_0000 as int) == 0x1_0000_0000_0000_0000_0000)
        by (nonlinear_arith);
    while hi - lo > 1
        invariant
            lo < hi,
            hi <= 0x100_0000_0000,
            (lo as int) * (lo as int) <= n as int,
            (n as int) < (hi as int) * (hi as int),
        decreases hi - lo,
    {
        let mid: u128 = lo + (hi - lo) / 2;
        assert(lo < mid < hi);
        assert((mid as int) * (mid as int) < 0x1_0000_0000_0000_0000_0000_0000) by (nonlinear_arith)
            requires
                0 <= mid as int,
                mid as int <= 0x100_0000_0000,
        ;
        if mid * mid <= n {
            lo = mid;
        } else {
            hi = mid;
        }
    }
    lo
}

/// The scalar square root, rounded down; nonpositive inputs give zero.
pub fn fx_sqrt(a: i64) -> (r: i64)
    ensures
        r as int == fsqrt(a as int),
{
    if a <= 0 {
        0
    } else {
        proof {
            assert((a as int) * (ONE as int) < 0x1_0000_0000_0000_0000_0000) by (nonlinear_arith)
                requires
                    0 < (a as int) && (a as int) < 0x8000_0000_0000_0000,
            ;
        }
        let n: u128 = (a as u128) * (ONE as u128);
        let r: u128 = isqrt_wide(n);
        proof {
            lemma_sqrt_exists(n as int);
            lemma_sqrt_unique(n as int, r as int, sqrt_floor(n as int));
            assert((r as int) < 0x100_0000_0000) by (nonlinear_arith)
                requires
                    is_sqrt(n as int, r as int),
                    (n as int) < 0x1_0000_0000_0000_0000_0000,
            ;
        }
        r as i64
    }
}

/// Saturating scalar addition.
pub fn fx_add(a: i64, b: i64) -> (r: i64)
    ensures
        r as int == fclip(a as int + b as int),
{
    let s: i128 = (a as i128) + (b as i128);
    clip128(s)
}

/// Saturating scalar subtraction.
pub fn fx_sub(a: i64, b: i64) -> (r: i64)
    ensures
        r as int == fclip(a as int - b as int),
{
    let s: i128 = (a as i128) - (b as i128);
    clip128(s)
}

} // verus!
