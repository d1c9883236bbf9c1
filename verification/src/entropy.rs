use vstd::prelude::*;

verus! {

/// A byte from `rand::random::<u8>()`, which samples the thread-local
/// generator of the `rand` crate. Nothing is claimed of the value: any byte
/// may come back, and two calls need not agree.
#[verifier::external_body]
pub(crate) fn random_byte() -> (byte: u8) {
    rand::random::<u8>()
}

} // verus!
