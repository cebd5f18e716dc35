//! The source of chance behind the random instruction.

use vstd::prelude::*;

verus! {

/// One byte drawn by `rand::random::<u8>()`, the thread-local generator of
/// the `rand` crate.
///
/// The byte is drawn by chance, so the contract promises nothing of its
/// value. The generator panics if the operating system cannot seed it.
#[verifier::external_body]
pub(crate) fn random_byte() -> (byte: u8) {
    rand::random::<u8>()
}

} // verus!
