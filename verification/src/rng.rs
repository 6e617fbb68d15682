//! The machine's pseudo-random source: an owned, seedable generator,
//! so runs are reproducible when seeded explicitly.

use vstd::prelude::*;

verus! {

#[verifier::external_type_specification]
#[verifier::external_body]
pub struct ExStdRng(rand::rngs::StdRng);

/// Relies on rand's `SeedableRng::from_entropy`: a `StdRng` seeded from
/// the operating system. Nothing is assumed of the generator produced.
#[verifier::external_body]
pub(crate) fn rng_from_entropy() -> rand::rngs::StdRng {
    <rand::rngs::StdRng as rand::SeedableRng>::from_entropy()
}

/// Relies on rand's `SeedableRng::seed_from_u64`: a `StdRng` determined
/// by the seed. Nothing is assumed of the generator produced.
#[verifier::external_body]
pub(crate) fn rng_from_seed(seed: u64) -> rand::rngs::StdRng {
    <rand::rngs::StdRng as rand::SeedableRng>::seed_from_u64(seed)
}

/// Relies on rand's `Rng::gen::<u8>`: a uniformly distributed byte,
/// advancing the generator. Nothing is assumed of the byte's value.
#[verifier::external_body]
pub(crate) fn next_random_byte(rng: &mut rand::rngs::StdRng) -> u8 {
    rand::Rng::gen::<u8>(rng)
}

} // verus!
