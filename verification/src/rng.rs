//! The two draws that the game takes from the thread-local generator of the
//! `rand` crate. Nothing is proved of them: their contracts restate what the
//! crate documents.

use vstd::prelude::*;
use rand::Rng;

verus! {

/// Calls `rand::Rng::gen_ratio` on `rand::thread_rng()`: a coin that shows
/// `true` with probability `numerator / denominator`. The crate documents
/// that it panics unless `0 < denominator` and `numerator <= denominator`,
/// that it always returns `true` when the two are equal and always `false`
/// when the numerator is zero. Of any other draw nothing is claimed.
#[verifier::external_body]
pub(crate) fn random_ratio(numerator: u32, denominator: u32) -> (r: bool)
    requires
        0 < denominator,
        numerator <= denominator,
    ensures
        numerator == denominator ==> r,
        numerator == 0 ==> !r,
{
    rand::thread_rng().gen_ratio(numerator, denominator)
}

/// Calls `rand::Rng::gen_range` on `rand::thread_rng()` with the half-open
/// range from zero to `n`. The crate documents that it panics on an empty
/// range and that the value it returns lies in the range.
#[verifier::external_body]
pub(crate) fn random_below(n: usize) -> (r: usize)
    requires
        0 < n,
    ensures
        r < n,
{
    rand::thread_rng().gen_range(0..n)
}

} // verus!
