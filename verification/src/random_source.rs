//! The library's single source of randomness.
//!
//! Every operation that draws randomness takes a `&mut RandomSource`, so a
//! whole training run or game can be reproduced from one seed.

use vstd::prelude::*;

verus! {

/// Declares rand's standard generator so that a `RandomSource` can hold one.
#[verifier::external_type_specification]
#[verifier::external_body]
pub struct ExStdRng(rand::rngs::StdRng);

/// A deterministic pseudo-random generator, built from a seed.
pub struct RandomSource {
    rng: rand::rngs::StdRng,
}

impl RandomSource {
    /// Relies on rand's `StdRng::seed_from_u64` (via `SeedableRng`): builds a
    /// generator from the seed, the same one for the same seed. Nothing is
    /// promised of the values it will go on to produce.
    #[verifier::external_body]
    pub fn from_seed(seed: u64) -> RandomSource {
        RandomSource { rng: rand::SeedableRng::seed_from_u64(seed) }
    }

    /// Relies on rand's `Rng::gen_range` on the range `0..n`: it panics only
    /// on an empty range (excluded here by `n >= 1`) and returns a value
    /// drawn uniformly from the range, so strictly below `n`.
    #[verifier::external_body]
    pub(crate) fn below(&mut self, n: usize) -> (r: usize)
        requires
            n >= 1,
        ensures
            r < n,
    {
        rand::Rng::gen_range(&mut self.rng, 0..n)
    }
}

} // verus!
