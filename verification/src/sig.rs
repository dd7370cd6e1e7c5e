//! Ed25519 signatures over receipt material: the server signs the encoding
//! of a masked amount, alone or together with the per-transaction base.

use crate::bytes::push_bytes32;
use crate::group::GroupElt;
use vstd::prelude::*;

verus! {

/// What `SigningKey::verifying_key` returns: the verifying key a signing key
/// determines.
pub uninterp spec fn ed_vk_of(sk: Seq<u8>) -> Seq<u8>;

/// What `SigningKey::sign` returns: Ed25519 signing is deterministic in the
/// key and message.
pub uninterp spec fn ed_sig_of(sk: Seq<u8>, msg: Seq<u8>) -> Seq<u8>;

/// What `VerifyingKey::verify` decides for a verifying key, message and
/// signature.
pub uninterp spec fn ed_verifies(vk: Seq<u8>, msg: Seq<u8>, sig: Seq<u8>) -> bool;

/// Relies on `SigningKey::generate` and `SigningKey::verifying_key`: a fresh
/// random signing key and the verifying key it determines.
#[verifier::external_body]
pub(crate) fn signature_keygen() -> (r: ([u8; 32], [u8; 32]))
    ensures
        r.1@ == ed_vk_of(r.0@),
{
    let sk = ed25519_dalek::SigningKey::generate(&mut rand::rngs::OsRng);
    let vk = sk.verifying_key();
    (sk.to_bytes(), vk.to_bytes())
}

/// Relies on `SigningKey::sign`: the deterministic Ed25519 signature, which
/// verifies under the key's own verifying key.
#[verifier::external_body]
pub(crate) fn sign_bytes(sk: &[u8; 32], msg: &Vec<u8>) -> (r: [u8; 64])
    ensures
        r@ == ed_sig_of(sk@, msg@),
        ed_verifies(ed_vk_of(sk@), msg@, r@),
{
    let key = ed25519_dalek::SigningKey::from_bytes(sk);
    let sig = ed25519_dalek::Signer::sign(&key, msg.as_slice());
    sig.to_bytes()
}

/// Relies on `VerifyingKey::verify`: deterministic verification; a key that
/// does not decode verifies nothing.
#[verifier::external_body]
pub(crate) fn verify_bytes(vk: &[u8; 32], msg: &Vec<u8>, sig: &[u8; 64]) -> (r: bool)
    ensures
        r == ed_verifies(vk@, msg@, sig@),
{
    match ed25519_dalek::VerifyingKey::from_bytes(vk) {
        Ok(key) => {
            let s = ed25519_dalek::Signature::from_bytes(sig);
            ed25519_dalek::Verifier::verify(&key, msg.as_slice(), &s).is_ok()
        },
        Err(_) => false,
    }
}

/// The bytes the server signs for a transaction receipt: the masked amount's
/// encoding followed by the 32-byte base.
pub open spec fn receipt_msg(hm: GroupElt, base: Seq<u8>) -> Seq<u8> {
    hm.enc() + base
}

/// Sign a receipt: the masked amount's encoding concatenated with the base.
pub fn sign_receipt(sk: &[u8; 32], hm: &GroupElt, base: &[u8; 32]) -> (r: [u8; 64])
    ensures
        r@ == ed_sig_of(sk@, receipt_msg(*hm, base@)),
        ed_verifies(ed_vk_of(sk@), receipt_msg(*hm, base@), r@),
{
    let mut msg: Vec<u8> = Vec::new();
    push_bytes32(&mut msg, &hm.encode());
    push_bytes32(&mut msg, base);
    proof {
        assert(msg@ =~= receipt_msg(*hm, base@));
    }
    sign_bytes(sk, &msg)
}

/// Check a receipt signature against the masked amount and base it covers.
pub fn verify_receipt(vk: &[u8; 32], hm: &GroupElt, base: &[u8; 32], sig: &[u8; 64]) -> (r: bool)
    ensures
        r == ed_verifies(vk@, receipt_msg(*hm, base@), sig@),
{
    let mut msg: Vec<u8> = Vec::new();
    push_bytes32(&mut msg, &hm.encode());
    push_bytes32(&mut msg, base);
    proof {
        assert(msg@ =~= receipt_msg(*hm, base@));
    }
    verify_bytes(vk, &msg, sig)
}

} // verus!
