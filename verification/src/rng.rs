//! The injected random source. Randomness is the one peripheral behaviour
//! the library takes on trust: nothing is promised of a drawn byte, and the
//! instruction that consumes one is verified for every value it could have.

use random::Source;
use vstd::prelude::*;

verus! {

/// Declares the outside generator type so the machine can hold one.
#[verifier::external_type_specification]
#[verifier::external_body]
pub struct ExXorshift(random::Xorshift128Plus);

/// Relies on random::default: builds a seeded Xorshift128+ source.
#[verifier::external_body]
pub(crate) fn fresh_source(seed: u64) -> random::Xorshift128Plus {
    random::default(seed)
}

/// Relies on random::Source::read::<u8>: draws one byte, uniformly
/// distributed; no property of its value is assumed.
#[verifier::external_body]
pub(crate) fn draw_byte(source: &mut random::Xorshift128Plus) -> u8 {
    source.read::<u8>()
}

} // verus!
