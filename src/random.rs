//! Draws from the thread-local random number generator.
use vstd::prelude::*;
use rand::Rng;

verus! {

/// Relies on `rand::rng` and `Rng::random_range`: a draw from `0..n` lies in
/// that range (the call panics on an empty range, hence `n > 0`).
#[verifier::external_body]
pub(crate) fn random_below(n: u64) -> (r: u64)
    requires
        n > 0,
    ensures
        r < n,
{
    rand::rng().random_range(0..n)
}

/// A draw from `lo..hi`.
pub(crate) fn random_between(lo: i64, hi: i64) -> (r: i64)
    requires
        lo < hi,
    ensures
        lo <= r < hi,
{
    let span: u64 = (hi as i128 - lo as i128) as u64;
    let d = random_below(span);
    (lo as i128 + d as i128) as i64
}

} // verus!
