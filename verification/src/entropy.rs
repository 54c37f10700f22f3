//! Randomness drawn from the operating system's generator.
use rand::RngCore;
use vstd::prelude::*;

verus! {

/// Fills 32 bytes from the operating system (`rand::rngs::OsRng`) with
/// `RngCore::try_fill_bytes`.
///
/// `None` when the operating system's random source fails. Nothing is
/// claimed of the bytes: every value of the array is a possible outcome.
#[verifier::external_body]
pub(crate) fn random_32_bytes() -> Option<[u8; 32]> {
    let mut bytes = [0u8; 32];
    match rand::rngs::OsRng.try_fill_bytes(&mut bytes) {
        Ok(()) => Some(bytes),
        Err(_) => None,
    }
}

} // verus!
