//! Uniform integer sampling for the stochastic permeability fields.
//!
//! The generators of the rand crate are declared as opaque types; each
//! trusted item wraps one call, and the batch loops that fill a field
//! are verified code in the setters.

use vstd::prelude::*;
use rand::RngExt;
use rand::SeedableRng;

verus! {

#[verifier::external_type_specification]
#[verifier::external_body]
pub struct ExThreadRng(rand::rngs::ThreadRng);

#[verifier::external_type_specification]
#[verifier::external_body]
pub struct ExStdRng(rand::rngs::StdRng);

/// Relies on `rand::rng`: a handle to the thread-local generator.
#[verifier::external_body]
pub fn thread_rng_handle() -> (r: rand::rngs::ThreadRng) {
    rand::rng()
}

/// Relies on `StdRng::seed_from_u64`: a generator in the deterministic
/// state derived from the seed.
#[verifier::external_body]
pub fn rng_from_seed(seed: u64) -> (r: rand::rngs::StdRng) {
    rand::rngs::StdRng::seed_from_u64(seed)
}

/// Relies on `RngExt::random_range`: a draw from a non-empty inclusive
/// range lies inside that range.
#[verifier::external_body]
pub fn sample_range_thread(rng: &mut rand::rngs::ThreadRng, lo: i64, hi: i64) -> (r: i64)
    requires
        lo <= hi,
    ensures
        lo <= r <= hi,
{
    rng.random_range(lo..=hi)
}

/// Relies on `RngExt::random_range`: a draw from a non-empty inclusive
/// range lies inside that range.
#[verifier::external_body]
pub fn sample_range_seeded(rng: &mut rand::rngs::StdRng, lo: i64, hi: i64) -> (r: i64)
    requires
        lo <= hi,
    ensures
        lo <= r <= hi,
{
    rng.random_range(lo..=hi)
}

} // verus!
