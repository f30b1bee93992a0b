//! The source of randomness for the piece generator: a seedable
//! pseudo-random generator from the `rand` crate, reached through a small
//! trusted surface.  Seeding makes piece sequences reproducible under
//! test.

use vstd::prelude::*;

verus! {

/// Declares `rand::rngs::StdRng` so that a [`crate::Field`] can hold one.
/// The value is opaque to the verifier; all draws go through
/// [`rand_below`].
#[verifier::external_type_specification]
#[verifier::external_body]
pub struct ExStdRng(rand::rngs::StdRng);

/// Relies on `rand::SeedableRng::seed_from_u64`, which builds a generator
/// from a 64-bit seed and never fails.  Nothing is assumed about the
/// stream it produces.
#[verifier::external_body]
pub(crate) fn rng_from_seed(seed: u64) -> rand::rngs::StdRng {
    <rand::rngs::StdRng as rand::SeedableRng>::seed_from_u64(seed)
}

/// Relies on `rand::Rng::gen_range` over the half-open range
/// `0..bound`, which panics only on an empty range and otherwise returns
/// a uniformly distributed value of it.  Only membership in the range is
/// assumed.
#[verifier::external_body]
pub(crate) fn rand_below(rng: &mut rand::rngs::StdRng, bound: u32) -> (r: u32)
    requires
        0 < bound,
    ensures
        r < bound,
{
    rand::Rng::gen_range(rng, 0..bound)
}

} // verus!
