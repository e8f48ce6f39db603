//! The bot's sources of randomness.
use rand::Rng;
use vstd::prelude::*;

verus! {

/// A fair coin: `rand::rng()` (the thread-local generator) and its
/// `Rng::random_ratio(1, 2)`, true with probability one half. Nothing is
/// promised of the outcome, which rests on chance.
#[verifier::external_body]
pub fn coinflip() -> bool {
    rand::rng().random_ratio(1, 2)
}

/// A number drawn uniformly from `low..high`: `rand::rng()` and its
/// `Rng::random_range`. The contract claims only that the draw lies in the
/// range, which is what the crate documents; `random_range` panics on an
/// empty range, which `requires` leaves out.
#[verifier::external_body]
pub(crate) fn random_range(low: u64, high: u64) -> (r: u64)
    requires
        low < high,
    ensures
        low <= r < high,
{
    rand::rng().random_range(low..high)
}

} // verus!
