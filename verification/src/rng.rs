//! The pseudo-random generator behind erosion and volcano placement.
//!
//! The generator is rand's `SmallRng`. Which numbers it yields for a seed
//! depends on the platform and on the version of rand, so nothing here says
//! which number comes out: only in what range it lies.

use rand::rngs::SmallRng;
use rand::{Rng, SeedableRng};
use vstd::prelude::*;

verus! {

/// rand's `SmallRng`. Its state is opaque here.
#[verifier::external_type_specification]
#[verifier::external_body]
pub struct ExSmallRng(SmallRng);

/// Calls `SmallRng::seed_from_u64`. Trusted: the call returns for every
/// seed. Nothing is claimed of the generator that it returns.
#[verifier::external_body]
pub(crate) fn seeded(seed: u64) -> (rng: SmallRng) {
    SmallRng::seed_from_u64(seed)
}

/// Calls `Rng::gen_range` on the half-open range from `low` to `high`,
/// which panics on an empty range. Trusted: the number returned lies in the
/// range.
#[verifier::external_body]
pub(crate) fn pick_between(rng: &mut SmallRng, low: usize, high: usize) -> (picked: usize)
    requires
        low < high,
    ensures
        low <= picked < high,
{
    rng.gen_range(low..high)
}

} // verus!
