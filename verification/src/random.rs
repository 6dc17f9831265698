//! Chance.

use vstd::prelude::*;

verus! {

/// Calls `rand::random` for a `u32`. Nothing is claimed of the number that comes back.
#[verifier::external_body]
pub(crate) fn random_sample() -> (sample: u32) {
    rand::random::<u32>()
}

} // verus!
