//! Where the random instruction gets its byte.

use vstd::prelude::*;

verus! {

/// A byte from `rand::random`, which draws it from the generator that the
/// `rand` crate keeps for each thread. Nothing is claimed of the byte: every
/// value can come back, and two calls need not agree. `rand` panics if the
/// operating system gives the generator no seed when the thread first uses it.
#[verifier::external_body]
pub(crate) fn random_byte() -> (byte: u8) {
    rand::random::<u8>()
}

} // verus!
