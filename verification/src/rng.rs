//! A small injectable pseudo-random source for the explore/exploit draw.
//!
//! The agent must not depend on an ambient generator: tests need to force
//! exploration or exploitation deterministically, so the source is seeded at
//! construction and every draw is a pure function of the stored state. The
//! recurrence is the classic Lehmer generator over the Mersenne prime
//! 2^31 - 1 with multiplier 48271; a draw of zero is nudged to one so the
//! stream can never collapse, whatever the seed.

use vstd::prelude::*;

verus! {

/// Modulus of the generator, the Mersenne prime 2^31 - 1.
pub const LCG_M: u64 = 2_147_483_647;

/// Multiplier of the generator.
pub const LCG_A: u64 = 48_271;

/// The state a seed is normalised to.
pub open spec fn lcg_seed_spec(seed: u32) -> u32 {
    if seed as int % (LCG_M as int) == 0 {
        1u32
    } else {
        (seed as int % (LCG_M as int)) as u32
    }
}

/// The state one draw advances to.
pub open spec fn lcg_next_spec(s: u32) -> u32 {
    let t = (s as int * LCG_A as int) % (LCG_M as int);
    if t == 0 {
        1u32
    } else {
        t as u32
    }
}

/// Seedable deterministic generator owned by an agent.
#[derive(Clone, Copy, Debug, PartialEq, Eq, Structural)]
pub struct Lcg {
    /// Current state; the next draw is a pure function of it.
    pub state: u32,
}

impl Lcg {
    /// Generator normalised from an arbitrary seed.
    pub fn seeded(seed: u32) -> (r: Lcg)
        ensures
            r.state == lcg_seed_spec(seed),
            0 < r.state < LCG_M,
    {
        let s: u32 = (seed as u64 % LCG_M) as u32;
        if s == 0 {
            Lcg { state: 1 }
        } else {
            Lcg { state: s }
        }
    }

    /// Advance one step and hand the new state out as the draw.
    pub fn next_draw(&mut self) -> (r: u32)
        ensures
            final(self).state == lcg_next_spec(old(self).state),
            r == final(self).state,
            0 < r < LCG_M,
    {
        let t: u32 = ((self.state as u64 * LCG_A) % LCG_M) as u32;
        if t == 0 {
            self.state = 1;
        } else {
            self.state = t;
        }
        self.state
    }
}

} // verus!
