//! Deterministic exploration-noise source.
//!
//! Exploration jitter comes from an engine-owned linear congruential
//! generator with a fixed default seed, so two runs with identical logical
//! inputs are bit-reproducible.

use vstd::prelude::*;
use crate::fx::fx_div_spec;
use crate::fx::fx_mul_spec;

verus! {

/// Multiplier of the linear congruential step.
pub const NOISE_MUL: u64 = 6364136223846793005;

/// Increment of the linear congruential step.
pub const NOISE_INC: u64 = 1442695040888963407;

/// Default seed of a freshly constructed engine.
pub const NOISE_DEFAULT_SEED: u64 = 0x5deece66d;

/// One linear congruential step, modulo 2^64.
pub open spec fn noise_next_spec(s: u64) -> u64 {
    (((s * NOISE_MUL) + NOISE_INC) % 0x10000000000000000) as u64
}

/// Deterministic pseudo-random generator owned by the wave substrate.
pub struct NoiseSource {
    pub state: u64,
}

impl NoiseSource {
    pub fn new(seed: u64) -> (r: NoiseSource)
        ensures
            r.state == seed,
    {
        NoiseSource { state: seed }
    }

    /// Advance the generator and return the new raw state.
    pub fn next_raw(&mut self) -> (r: u64)
        ensures
            final(self).state == noise_next_spec(old(self).state),
            r == final(self).state,
    {
        proof {
            assert(((self.state as int) * (NOISE_MUL as int) + (NOISE_INC as int))
                < 0x100000000000000000000000000000000int) by (nonlinear_arith)
                requires
                    self.state <= 0xffffffffffffffffu64,
            ;
        }
        let wide: u128 = (self.state as u128) * (NOISE_MUL as u128) + (NOISE_INC as u128);
        let next: u64 = (wide % 0x10000000000000000) as u64;
        self.state = next;
        next
    }
}

/// The jitter drawn from a raw generator state: a Q16.16 value spread
/// uniformly over [-scale/2, scale/2].
pub open spec fn noise_jitter_spec(raw: u64, scale: i64) -> i64 {
    let centered = ((raw % 1001) as i64 - 500) as i64;
    fx_mul_spec(scale, fx_div_spec(centered, 1000))
}

impl NoiseSource {
    /// Draw a jitter value in [-scale/2, scale/2].
    pub fn jitter(&mut self, scale: i64) -> (r: i64)
        ensures
            final(self).state == noise_next_spec(old(self).state),
            r == noise_jitter_spec(final(self).state, scale),
    {
        let raw = self.next_raw();
        let centered: i64 = (raw % 1001) as i64 - 500;
        crate::fx::fx_mul(scale, crate::fx::fx_div(centered, 1000))
    }
}

} // verus!
