//! A deterministic xorshift pseudo-random generator.
//!
//! Every stochastic draw of the renderer flows through [`Rng64`], so a
//! render is a mathematical function of the scene, the camera and the seed.
//! Each worker derives an independent stream from one master seed; a fresh
//! master seed can be taken from the operating system through `rand`.

use vstd::prelude::*;

verus! {

/// A 64-bit xorshift generator.  The state is never zero.
pub struct Rng64 {
    pub state: u64,
}

/// The xorshift state transition (13/7/17 triple).
pub open spec fn rng_next(s: u64) -> u64 {
    let a = s ^ (s << 13);
    let b = a ^ (a >> 7);
    b ^ (b << 17)
}

/// A zero seed is replaced, since zero is a fixed point of the transition.
pub open spec fn seed_fix(seed: u64) -> u64 {
    if seed == 0 {
        0x9E37_79B9_7F4A_7C15u64
    } else {
        seed
    }
}

/// The seed of worker stream `k` under master seed `seed`.
pub open spec fn stream_seed(seed: u64, k: u64) -> u64 {
    seed_fix(seed ^ (k << 32) ^ (k << 1) ^ 1)
}

/// A draw mapped onto `[0, ONE)`: a scalar in the unit interval.
pub open spec fn unit_of(x: u64) -> int {
    (x as int) % (crate::fixed::ONE as int)
}

/// A draw mapped onto `[-ONE, ONE]`: a symmetric scalar.
pub open spec fn sym_of(x: u64) -> int {
    (x as int) % (2 * (crate::fixed::ONE as int) + 1) - (crate::fixed::ONE as int)
}

/// A draw mapped onto `{0, 1, 2}`: a coordinate axis.
pub open spec fn axis_of(x: u64) -> int {
    (x as int) % 3
}

impl Rng64 {
    /// A generator at the start of the stream named by `seed`.
    pub fn seeded(seed: u64) -> (r: Rng64)
        ensures
            r.state == seed_fix(seed),
    {
        if seed == 0 {
            Rng64 { state: 0x9E37_79B9_7F4A_7C15u64 }
        } else {
            Rng64 { state: seed }
        }
    }

    /// A generator at the start of worker stream `k` under `seed`.
    pub fn stream(seed: u64, k: u64) -> (r: Rng64)
        ensures
            r.state == stream_seed(seed, k),
    {
        Rng64::seeded(seed ^ (k << 32) ^ (k << 1) ^ 1)
    }

    /// Advance the state once and hand it out raw.
    pub fn next_u64(&mut self) -> (r: u64)
        ensures
            final(self).state == rng_next(old(self).state),
            r == final(self).state,
    {
        let s = self.state;
        let a: u64 = s ^ (s << 13);
        let b: u64 = a ^ (a >> 7);
        let c: u64 = b ^ (b << 17);
        self.state = c;
        c
    }

    /// A scalar drawn from `[0, ONE)`.
    pub fn next_unit(&mut self) -> (r: i64)
        ensures
            final(self).state == rng_next(old(self).state),
            r as int == unit_of(final(self).state),
            0 <= (r as int) && (r as int) < (crate::fixed::ONE as int),
    {
        let x = self.next_u64();
        (x % 65536) as i64
    }

    /// A scalar drawn from `[-ONE, ONE]`.
    pub fn next_sym(&mut self) -> (r: i64)
        ensures
            final(self).state == rng_next(old(self).state),
            r as int == sym_of(final(self).state),
            -(crate::fixed::ONE as int) <= r as int,
            r as int <= crate::fixed::ONE as int,
    {
        let x = self.next_u64();
        let m: u64 = x % 131073;
        (m as i64) - 65536
    }

    /// An axis drawn from `{0, 1, 2}`.
    pub fn next_axis(&mut self) -> (r: usize)
        ensures
            final(self).state == rng_next(old(self).state),
            r as int == axis_of(final(self).state),
            r < 3,
    {
        let x = self.next_u64();
        (x % 3) as usize
    }
}

/// Relies on `rand::random` for an operating-system-seeded draw; nothing is
/// assumed of the outcome.
pub assume_specification<T>[ rand::random::<T> ]() -> (r: T)
    where
        rand::distr::StandardUniform: rand::distr::Distribution<T>,
;

/// A master seed taken from the operating system.  Renders that must be
/// reproducible pass their own seed instead.  Like any use of the
/// process-wide generator, this relies on the operating system's random
/// source being available.
pub fn entropy_seed() -> u64 {
    rand::random::<u64>()
}

} // verus!
