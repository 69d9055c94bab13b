//! Trusted access to the process's source of randomness.
//!
//! Random sampling is inherently outside what can be reasoned about, so
//! these wrappers promise only what holds of every possible outcome; the
//! functions that consume the drawn values are verified for all of them.

use rand::Rng;
use vstd::prelude::*;

verus! {

/// Relies on `rand::Rng::gen_range` over the inclusive range `lo..=hi` on a
/// thread-local generator: the sampled integer lies within the bounds. The
/// call panics only on an empty range, which the precondition excludes.
#[verifier::external_body]
pub(crate) fn gen_range_i64(lo: i64, hi: i64) -> (r: i64)
    requires
        lo <= hi,
    ensures
        lo <= r <= hi,
{
    rand::thread_rng().gen_range(lo..=hi)
}

/// Relies on `rand::random::<bool>`: a fair coin flip; nothing is promised
/// of the outcome.
#[verifier::external_body]
pub(crate) fn random_bool() -> bool {
    rand::random::<bool>()
}

} // verus!
