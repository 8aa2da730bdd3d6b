//! The dice: the only place where chance enters the simulation.

use rand::Rng;
use vstd::prelude::*;

verus! {

/// Draws an integer from the thread's generator with `Rng::gen_range` of the
/// `rand` crate. Trusted: the draw lies in `low..high`, `high` excluded.
/// Nothing is said about which value of the range comes out. The generator
/// seeds itself from the operating system when a thread first draws, and
/// gives up if the system has no randomness to hand out.
#[verifier::external_body]
pub(crate) fn random_range(low: i64, high: i64) -> (r: i64)
    requires
        low < high,
    ensures
        low <= r < high,
{
    rand::thread_rng().gen_range(low, high)
}

/// Tosses a coin with `rand::random`, from the same generator. Trusted:
/// nothing is known of the result.
#[verifier::external_body]
pub(crate) fn random_bool() -> (b: bool) {
    rand::random()
}

} // verus!
