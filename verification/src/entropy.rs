//! Trusted wrapper around the process randomness source.

use rand::RngCore;
use vstd::prelude::*;

verus! {

/// Relies on rand::rng (a cryptographically secure generator) and
/// RngCore::fill_bytes; only the length of the result is assumed.
#[verifier::external_body]
pub fn random_bytes(n: usize) -> (r: Vec<u8>)
    ensures
        r@.len() == n,
{
    let mut v = vec![0u8; n];
    rand::rng().fill_bytes(v.as_mut_slice());
    v
}

} // verus!
