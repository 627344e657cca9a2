//! Deterministic random source.
//!
//! A 64-bit xorshift generator drives every stochastic choice of the
//! tracer.  Its step function is a pure spec-level function, so a render
//! seeded with a fixed value is reproducible bit for bit.  The library
//! is seeded-only: a caller that wants fresh entropy draws a seed at the
//! program edge and passes it in.

use vstd::prelude::*;
use crate::fixed::SCALE;

verus! {

/// Replacement state for a zero seed, which the xorshift step would fix
/// forever.
pub const SEED_FALLBACK: u64 = 0x9E37_79B9_7F4A_7C15;

/// One xorshift step: every non-zero state has a non-zero successor.
pub open spec fn next_state(s: u64) -> u64 {
    let a = s ^ (s << 13u64);
    let b = a ^ (a >> 7u64);
    b ^ (b << 17u64)
}

/// The fixed-point sample in `[0, SCALE)` that a state yields.
pub open spec fn unit_of(s: u64) -> int {
    (next_state(s) as int) % (SCALE as int)
}

/// Pseudo-random number generator with an explicit, seedable state.
#[derive(Clone, Copy, Debug, PartialEq, Eq, Structural)]
pub struct Rng {
    pub state: u64,
}

impl Rng {
    /// Generator seeded with `seed`; a zero seed is replaced, since the
    /// xorshift step fixes zero.
    pub fn seeded(seed: u64) -> (r: Rng)
        ensures
            r.state == if seed == 0 {
                SEED_FALLBACK
            } else {
                seed
            },
            r.state != 0,
    {
        if seed == 0 {
            Rng { state: SEED_FALLBACK }
        } else {
            Rng { state: seed }
        }
    }

    /// Generator for one pixel of a render: the base seed scrambled by
    /// the pixel index, so pixels can be drawn independently in any
    /// order.
    pub fn for_pixel(seed: u64, pixel_index: u64) -> (r: Rng)
        ensures
            r.state == if seed ^ pixel_index.wrapping_mul(SEED_FALLBACK) == 0 {
                SEED_FALLBACK
            } else {
                seed ^ pixel_index.wrapping_mul(SEED_FALLBACK)
            },
            r.state != 0,
    {
        Rng::seeded(seed ^ pixel_index.wrapping_mul(SEED_FALLBACK))
    }

    /// Advance the state once and return it.
    pub fn next_u64(&mut self) -> (r: u64)
        ensures
            final(self).state == next_state(old(self).state),
            r == next_state(old(self).state),
    {
        let s0 = self.state;
        let a = s0 ^ (s0 << 13u64);
        let b = a ^ (a >> 7u64);
        let c = b ^ (b << 17u64);
        self.state = c;
        c
    }

    /// Uniform fixed-point sample in `[0, 1)`, that is `[0, SCALE)`.
    pub fn next_unit(&mut self) -> (r: i64)
        ensures
            final(self).state == next_state(old(self).state),
            r as int == unit_of(old(self).state),
            0 <= r < SCALE,
    {
        let w = self.next_u64();
        (w % (SCALE as u64)) as i64
    }
}

} // verus!
