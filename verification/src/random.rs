//! The source of randomness: the thread-local generator of the `rand` crate.
use rand::Rng;
use vstd::prelude::*;

verus! {

/// Draws an integer from `low..high` with `rand::thread_rng().gen_range(..)`.
///
/// Trusted: `gen_range` returns a value of the half-open range it is given,
/// and panics only on an empty range, which the precondition excludes. Nothing
/// is claimed about which value of the range comes back.
#[verifier::external_body]
pub(crate) fn random_in_range(low: i32, high: i32) -> (out: i32)
    requires
        low < high,
    ensures
        low <= out < high,
{
    rand::thread_rng().gen_range(low..high)
}

/// Draws one bit.
pub fn random_bit() -> bool {
    let drawn: i32 = random_in_range(0, 2);
    drawn == 1
}

} // verus!
