//! The machine's one source of entropy.

use vstd::prelude::*;

verus! {

/// Relies on `rand::random::<u8>()`: a uniformly random byte from the
/// thread-local generator. Nothing can be promised of the value drawn; the
/// instruction semantics are stated for every byte this may return.
#[verifier::external_body]
pub(crate) fn random_byte() -> u8 {
    rand::random::<u8>()
}

} // verus!
