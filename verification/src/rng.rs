//! The source of randomness behind the stochastic operators. Nothing is
//! promised of a drawn value: every caller's contract holds whatever
//! comes back.
use vstd::prelude::*;

verus! {

/// Relies on rand::random::<usize>: an arbitrary machine-word draw from
/// the thread-local generator.
#[verifier::external_body]
pub(crate) fn random_usize() -> usize {
    rand::random::<usize>()
}

/// Relies on rand::random::<u8>: an arbitrary byte draw from the
/// thread-local generator.
#[verifier::external_body]
pub(crate) fn random_u8() -> u8 {
    rand::random::<u8>()
}

/// Relies on rand::random::<u64>: an arbitrary 64-bit draw from the
/// thread-local generator.
#[verifier::external_body]
pub(crate) fn random_u64() -> u64 {
    rand::random::<u64>()
}

} // verus!
