//! The source of randomness.

use vstd::prelude::*;
use rand::Rng;

verus! {

/// The thread-local generator of the `rand` crate, carried through the
/// training loop as an opaque handle.
#[verifier::external_type_specification]
#[verifier::external_body]
pub struct ExThreadRng(rand::rngs::ThreadRng);

/// The next 64 bits of the generator, by `rand::Rng::gen` at type `u64`.
///
/// Nothing is claimed of the bits: every value may come back, and two calls
/// need not agree. No argument makes the call fail; the generator gives up
/// only where the operating system refuses it entropy when it reseeds.
#[verifier::external_body]
pub(crate) fn next_bits(rng: &mut rand::rngs::ThreadRng) -> (bits: u64) {
    rng.gen()
}

} // verus!
