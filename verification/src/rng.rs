//! The session's random source: a seedable linear congruential generator.
//!
//! Spawn placement and the bounce-sound coin flip need randomness, but the
//! simulation itself must stay replayable: the session therefore owns a small
//! deterministic generator, and tests fix its seed. A fresh seed is drawn
//! from the machine's entropy only at the caller's request.

use vstd::prelude::*;

verus! {

/// Multiplier of the linear congruential step.
pub const RNG_MUL: u64 = 6364136223846793005;

/// Increment of the linear congruential step.
pub const RNG_INC: u64 = 1442695040888963407;

/// A seedable pseudo-random source. One step advances the 64-bit state by a
/// linear congruence; draws discard the weak low bits.
pub struct SpawnRng {
    state: u64,
}

/// The generator state after one linear congruential step.
#[verifier::opaque]
pub open spec fn spec_rng_step(s: u64) -> u64 {
    vstd::wrapping::u64_specs::wrapping_add(
        vstd::wrapping::u64_specs::wrapping_mul(s, RNG_MUL),
        RNG_INC,
    )
}

/// The value a draw yields from a generator state: its upper 48 bits.
#[verifier::opaque]
pub open spec fn spec_rng_out(s: u64) -> u64 {
    s >> 16
}

/// The generator state after `n` linear congruential steps.
pub open spec fn spec_rng_step_n(s: u64, n: nat) -> u64
    decreases n,
{
    if n == 0 {
        s
    } else {
        spec_rng_step(spec_rng_step_n(s, (n - 1) as nat))
    }
}

/// Relies on rand::random: one fresh machine-entropy value, used only to
/// seed a session when the caller does not supply a seed of its own.
#[verifier::external_body]
fn entropy_seed() -> u64 {
    rand::random::<u64>()
}

impl SpawnRng {
    /// The state the next draw will step from.
    pub closed spec fn spec_state(self) -> u64 {
        self.state
    }

    /// A generator starting from the given seed.
    pub fn new(seed: u64) -> (r: SpawnRng)
        ensures
            r.spec_state() == seed,
    {
        SpawnRng { state: seed }
    }

    /// A generator seeded from machine entropy.
    pub fn from_entropy() -> SpawnRng {
        SpawnRng { state: entropy_seed() }
    }

    /// Advances the state one step and yields the draw for the new state.
    pub fn next_value(&mut self) -> (r: u64)
        ensures
            final(self).spec_state() == spec_rng_step(old(self).spec_state()),
            r == spec_rng_out(final(self).spec_state()),
    {
        proof {
            reveal(spec_rng_step);
            reveal(spec_rng_out);
        }
        self.state = self.state.wrapping_mul(RNG_MUL).wrapping_add(RNG_INC);
        self.state >> 16u64
    }

    /// Draws a value below `bound`.
    pub fn next_below(&mut self, bound: u64) -> (r: u64)
        requires
            bound >= 1,
        ensures
            final(self).spec_state() == spec_rng_step(old(self).spec_state()),
            r == spec_rng_out(final(self).spec_state()) % bound,
            r < bound,
    {
        let v = self.next_value();
        v % bound
    }
}

} // verus!
