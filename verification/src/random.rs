//! The source of random bytes for CXNN.
use vstd::prelude::*;
use rand::Rng;

verus! {

/// Draws one byte with `rand::Rng::gen` from the generator `rand::thread_rng()`.
/// The byte is chance: nothing is claimed of its value, any `u8` may come back.
/// (`thread_rng` panics only when the operating system's entropy source fails
/// to seed it, which no argument here controls.)
#[verifier::external_body]
pub(crate) fn random_byte() -> u8 {
    rand::thread_rng().gen::<u8>()
}

} // verus!
