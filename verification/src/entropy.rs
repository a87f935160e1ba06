//! The process-wide source of random bytes for the `CXNN` instruction.

use vstd::prelude::*;

use rand::Rng;

verus! {

/// Relies on `rand::thread_rng` and `rand::Rng::gen`: a fresh pseudorandom
/// value.  Nothing is assumed of the result; callers state what holds of
/// every outcome.
#[verifier::external_body]
pub(crate) fn random_u16() -> u16 {
    rand::thread_rng().gen::<u16>()
}

} // verus!
