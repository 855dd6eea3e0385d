//! The one point where the interpreter reaches outside: the random byte
//! consumed by the `Cxkk` instruction.
use vstd::prelude::*;

verus! {

/// Relies on rand::random: draws a byte from the thread-local generator.
/// Nothing is assumed about which byte comes back; callers state what
/// holds of every outcome.
#[verifier::external_body]
pub(crate) fn random_byte() -> u8 {
    rand::random()
}

} // verus!
