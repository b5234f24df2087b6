//! The multiplicative congruential generator that drives the game simulation.

use vstd::prelude::*;

verus! {

/// Multiplier of the recurrence.
pub const MULTIPLIER: u64 = 48271;

/// Modulus of the recurrence, the Mersenne prime `2^31 - 1`.
pub const MODULUS: u64 = 2147483647;

/// The state that follows `seed`: `seed * 48271 mod (2^31 - 1)`.
pub open spec fn next_state(seed: u32) -> u32 {
    ((seed as int * 48271) % 2147483647) as u32
}

/// The value of `min..max` that a freshly drawn `value` stands for.
pub open spec fn scale_to_range(value: u32, min: u16, max: u16) -> u16 {
    (min + value as int % (max - min)) as u16
}

#[derive(Debug, Clone, Default)]
pub struct Random {
    seed: u32,
}

impl Random {
    /// The current state of the generator.
    pub closed spec fn state(&self) -> u32 {
        self.seed
    }

    pub fn new(seed: u32) -> (random: Random)
        ensures
            random.state() == seed,
    {
        Random { seed }
    }

    /// Advances the generator and returns the new state.
    pub fn next_u32(&mut self) -> (value: u32)
        ensures
            value == next_state(old(self).state()),
            final(self).state() == value,
    {
        let seed: u32 = self.seed;
        let seed_u64: u64 = seed as u64;
        let value: u64 = (seed_u64 * MULTIPLIER) % MODULUS;
        self.seed = value as u32;
        self.seed
    }

    /// Draws a value and maps it into `min..max`.
    ///
    /// The range must not be empty: there is no value to return otherwise.
    pub fn range_u16(&mut self, min: u16, max: u16) -> (value: u16)
        requires
            min < max,
        ensures
            final(self).state() == next_state(old(self).state()),
            value == scale_to_range(final(self).state(), min, max),
            min <= value < max,
    {
        let min: u32 = min as u32;
        let max: u32 = max as u32;
        let range: u32 = max - min;
        let value: u32 = self.next_u32();
        let value_in_range: u32 = (value % range) + min;
        (value_in_range % (u16::MAX as u32)) as u16
    }
}

} // verus!
