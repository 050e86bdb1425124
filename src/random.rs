//! The random source: a seedable generator of the `rand` crate.
use vstd::prelude::*;
use rand::rngs::StdRng;
use rand::Rng;
use rand::SeedableRng;

verus! {

#[verifier::external_type_specification]
#[verifier::external_body]
pub struct ExStdRng(StdRng);

/// Relies on rand's `Rng::gen_range` over an `i64` range `lo..hi`: the value
/// drawn lies in that range (the call panics on an empty range).
#[verifier::external_body]
pub(crate) fn draw(rng: &mut StdRng, lo: i64, hi: i64) -> (r: i64)
    requires
        lo < hi,
    ensures
        lo <= r < hi,
{
    rng.gen_range(lo..hi)
}

/// Relies on rand's `SeedableRng::seed_from_u64`: a generator whose draws are
/// fixed by `seed`.
#[verifier::external_body]
pub(crate) fn seeded(seed: u64) -> StdRng {
    StdRng::seed_from_u64(seed)
}

/// Relies on rand's `SeedableRng::from_entropy`: a generator seeded from the
/// operating system.
#[verifier::external_body]
pub(crate) fn unseeded() -> StdRng {
    StdRng::from_entropy()
}

} // verus!
