//! The bytes that the initiator sends.

use rand::rngs::StdRng;
use rand::{Rng, SeedableRng};
use vstd::prelude::*;

verus! {

/// `rand::rngs::StdRng`: a seedable generator of pseudo-random numbers.
#[verifier::external_type_specification]
#[verifier::external_body]
pub struct ExStdRng(StdRng);

/// The seed that every initiator draws its message from.
pub const MESSAGE_SEED: u64 = 42;

/// `SeedableRng::seed_from_u64` for `StdRng`: a generator started from `seed`. The crate does
/// not fix the stream that follows from a seed, so nothing is claimed of it.
#[verifier::external_body]
pub(crate) fn seeded_generator(seed: u64) -> (generator: StdRng) {
    StdRng::seed_from_u64(seed)
}

/// `Rng::random::<u8>`: the next byte of the generator's stream. Nothing is claimed of the
/// byte.
#[verifier::external_body]
pub(crate) fn next_byte(generator: &mut StdRng) -> (byte: u8) {
    generator.random::<u8>()
}

/// Draws a message of `len` bytes from the generator that `seed` starts.
pub fn random_message(seed: u64, len: u32) -> (message: Vec<u8>)
    ensures
        message@.len() == len,
{
    let mut generator = seeded_generator(seed);
    let mut message: Vec<u8> = Vec::new();
    let mut i: u32 = 0;
    while i < len
        invariant
            i <= len,
            message@.len() == i,
        decreases len - i,
    {
        message.push(next_byte(&mut generator));
        i += 1;
    }
    message
}

} // verus!
