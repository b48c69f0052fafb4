//! Randomness plumbing from the `rand_core` crate.
use vstd::prelude::*;

verus! {

/// Relies on `rand_core::RngCore::fill_bytes`: fills a buffer of the asked
/// length with generator output. Nothing is promised of the bytes
/// themselves: callers must hold for every possible value.
#[verifier::external_body]
pub fn fill_random_bytes<R: rand_core::CryptoRngCore>(rng: &mut R, w: usize) -> (r: Vec<u8>)
    ensures
        r@.len() == w,
{
    let mut buf = vec![0u8; w];
    rng.fill_bytes(&mut buf);
    buf
}

} // verus!
