//! The one source of randomness: a single trusted call into the `rand`
//! crate.

use vstd::prelude::*;

verus! {

/// Relies on rand::random: one byte drawn from the thread-local generator.
/// Nothing can be promised of the value; the caller states what holds of
/// every byte.
#[verifier::external_body]
pub(crate) fn random_byte() -> u8 {
    rand::random::<u8>()
}

} // verus!
