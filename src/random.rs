//! The random draws the simulation makes. Nothing is promised of a draw
//! beyond the range that the random source documents.
use vstd::prelude::*;

verus! {

/// Relies on rand's `Rng::gen_ratio`: true with probability
/// `numerator / denominator`. rand's `Bernoulli::from_ratio` maps a ratio of
/// one to a distribution that always samples true, and a numerator of zero to
/// one that never does. It panics when `denominator == 0` or
/// `numerator > denominator`.
#[verifier::external_body]
pub(crate) fn chance(numerator: u32, denominator: u32) -> (r: bool)
    requires
        0 < denominator,
        numerator <= denominator,
    ensures
        numerator == denominator ==> r,
        numerator == 0 ==> !r,
{
    rand::Rng::gen_ratio(&mut rand::thread_rng(), numerator, denominator)
}

/// Relies on rand's `Rng::gen_range` on an inclusive range: a value in
/// `lo..=hi`. It panics on an empty range.
#[verifier::external_body]
pub(crate) fn between(lo: i64, hi: i64) -> (r: i64)
    requires
        lo <= hi,
    ensures
        lo <= r <= hi,
{
    rand::Rng::gen_range(&mut rand::thread_rng(), lo..=hi)
}

} // verus!
