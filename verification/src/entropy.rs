//! The machine's source of randomness, provided by the `rand` crate.
use vstd::prelude::*;

verus! {

/// The per-thread random generator of the `rand` crate; opaque to the proofs.
#[verifier::external_type_specification]
#[verifier::external_body]
pub struct ExThreadRng(rand::rngs::ThreadRng);

/// Calls `rand::rng()`, which hands out a handle to the thread-local generator.
/// Nothing is promised of the handle: it only serves to draw random bytes.
#[verifier::external_body]
pub(crate) fn thread_rng() -> rand::rngs::ThreadRng {
    rand::rng()
}

/// Calls `rand::Rng::random::<u8>()` on the generator. The byte depends on
/// chance alone, so nothing is stated of it: every `u8` is a possible outcome.
#[verifier::external_body]
pub(crate) fn random_byte(rng: &mut rand::rngs::ThreadRng) -> u8 {
    rand::Rng::random::<u8>(rng)
}

} // verus!
