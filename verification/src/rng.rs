//! Randomness sources, assumed cryptographically secure. Nothing is promised
//! of a drawn value beyond its range.

use vstd::prelude::*;

verus! {

/// Relies on `rand::thread_rng` with `Rng::gen`: 32 uniformly random bytes.
#[verifier::external_body]
pub(crate) fn random_bytes32() -> (r: [u8; 32]) {
    let mut rng = rand::thread_rng();
    rand::Rng::gen(&mut rng)
}

/// Relies on `rand::thread_rng` with `Rng::gen_range`: a uniform draw from
/// `[0, n)`, which panics on an empty range, so `n` must be positive.
#[verifier::external_body]
pub(crate) fn random_index(n: u32) -> (r: u32)
    requires
        n > 0,
    ensures
        r < n,
{
    let mut rng = rand::thread_rng();
    rand::Rng::gen_range(&mut rng, 0..n)
}

/// Relies on `Aes256Gcm::generate_nonce`: 12 uniformly random bytes for use
/// as an AEAD nonce.
#[verifier::external_body]
pub(crate) fn random_nonce() -> (r: [u8; 12]) {
    let n = <aes_gcm::Aes256Gcm as aes_gcm::AeadCore>::generate_nonce(&mut aes_gcm::aead::OsRng);
    n.into()
}

} // verus!
