//! The random source owned by one simulation.
//!
//! The engine draws only raw 64-bit values from the outside generator;
//! everything built on them — uniform counts, the centered bell-shaped
//! draw of the integrator — is verified arithmetic.  A source is built
//! from an explicit seed, so runs are reproducible.

use vstd::prelude::*;
use crate::fixed::SCALE;

verus! {

/// rand's standard pseudo-random generator, declared so a field can hold
/// it; the library sees nothing inside a value of it.
#[verifier::external_type_specification]
#[verifier::external_body]
pub struct ExStdRng(rand::rngs::StdRng);

/// A seedable random source, exclusively owned by one simulation.
pub struct RandomSource {
    rng: rand::rngs::StdRng,
}

impl RandomSource {
    /// Relies on rand::SeedableRng::seed_from_u64: builds a generator
    /// deterministically from the 64-bit seed.
    #[verifier::external_body]
    pub fn from_seed(seed: u64) -> (r: RandomSource) {
        RandomSource { rng: rand::SeedableRng::seed_from_u64(seed) }
    }

    /// Relies on rand::Rng::next_u64: the generator's next 64-bit value.
    /// Nothing is assumed of the value.
    #[verifier::external_body]
    fn next_raw(&mut self) -> (r: u64) {
        rand::Rng::next_u64(&mut self.rng)
    }

    /// One draw reduced below `n`.
    pub fn next_below(&mut self, n: u64) -> (r: u64)
        requires
            n > 0,
        ensures
            r < n,
    {
        self.next_raw() % n
    }

    /// One uniform probability draw: a count in `[1, SCALE]`, standing for
    /// a probability in the half-open unit interval `(0, 1]`.
    pub fn draw_unit(&mut self) -> (u: i64)
        ensures
            1 <= u <= SCALE,
    {
        let r = self.next_below(SCALE as u64);
        (r as i64) + 1
    }

    /// One draw from a centered bell-shaped distribution with mean zero and
    /// unit variance in fixed-point form: the sum of twelve uniform draws
    /// on `[0, SCALE)`, shifted by six units.
    pub fn draw_gauss(&mut self) -> (g: i64)
        ensures
            -6 * (SCALE as int) <= g <= 6 * (SCALE as int),
    {
        let mut sum: i64 = 0;
        let mut i: usize = 0;
        while i < 12
            invariant
                0 <= i <= 12,
                0 <= sum <= i * 1_000_000,
            decreases 12 - i,
        {
            let d = self.next_below(SCALE as u64);
            sum = sum + (d as i64);
            i = i + 1;
        }
        sum - 6 * SCALE
    }
}

} // verus!
