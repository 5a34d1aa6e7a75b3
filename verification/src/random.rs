//! Random values, from the thread's generator of the `rand` crate.

use vstd::prelude::*;

verus! {

/// `rand::random` for a byte. Nothing is claimed of the value.
#[verifier::external_body]
pub(crate) fn random_byte() -> u8 {
    rand::random()
}

/// `rand::random` for a 64-bit number. Nothing is claimed of the value.
#[verifier::external_body]
pub(crate) fn random_id() -> u64 {
    rand::random()
}

/// `rand::random` for the twelve bytes of a nonce. Nothing is claimed of the value.
#[verifier::external_body]
pub(crate) fn random_nonce() -> [u8; 12] {
    rand::random()
}

} // verus!
