//! The seeded pseudorandom source used once, at layout construction. The
//! generator itself comes from the `rand` crate; only the range each draw
//! falls in is relied on, never the value.

use rand::Rng;
use rand::SeedableRng;
use vstd::prelude::*;

verus! {

#[verifier::external_type_specification]
#[verifier::external_body]
pub struct ExStdRng(rand::rngs::StdRng);

/// Relies on rand's `StdRng::seed_from_u64`: builds a deterministic
/// generator from a seed. Nothing is assumed about the stream it produces.
#[verifier::external_body]
pub(crate) fn rng_from_seed(seed: u64) -> rand::rngs::StdRng {
    rand::rngs::StdRng::seed_from_u64(seed)
}

/// Relies on rand's `Rng::gen_range`, which samples uniformly from
/// `[lo, hi)` and panics only on an empty range, ruled out here.
#[verifier::external_body]
pub(crate) fn rand_range(rng: &mut rand::rngs::StdRng, lo: i64, hi: i64) -> (r: i64)
    requires
        lo < hi,
    ensures
        lo <= r < hi,
{
    rng.gen_range(lo..hi)
}

} // verus!
