//! The two places the game draws on chance: fresh 128-bit ids and the
//! spawn coordinates of new walls.

use vstd::prelude::*;

verus! {

/// Relies on uuid::Uuid::new_v4 (a random version-4 UUID) and
/// uuid::Uuid::as_u128: a fresh identifier for a session, bird or wall.
/// The result is random, so nothing is promised of it.
#[verifier::external_body]
pub(crate) fn fresh_id() -> u128 {
    uuid::Uuid::new_v4().as_u128()
}

/// Relies on rand::Rng::gen_range over `lo..hi`: a sample uniform in the
/// half-open range. It panics on an empty range, so the range is required
/// to be non-empty; which value comes back is chance, so only the range
/// is promised.
#[verifier::external_body]
pub(crate) fn sample_range(lo: i64, hi: i64) -> (r: i64)
    requires
        lo < hi,
    ensures
        lo <= r < hi,
{
    rand::Rng::gen_range(&mut rand::thread_rng(), lo..hi)
}

} // verus!
