//! Hybrid encryption of the per-transaction secrets to the barcode owner:
//! ElGamal encryption of a random group element, whose SHA-256 digest keys
//! an AEAD over the fixed-length payload `mask || amount || base`.

use crate::bytes::{
    lemma_i32_pattern_inj, lemma_u32_be_inj, push_bytes32, take32, u32_be, u32_from_be, u32_to_be,
};
use crate::elgamal::{elgamal_dec, elgamal_enc, lemma_elgamal_round_trip, ElgamalCt};
use crate::err::ProtocolError;
use crate::group::{
    canonical_of, group_order, lemma_group_elt_wf, madd, mmul, mneg, random_point, sha256,
    sha256_of, GroupElt, Scal,
};
use crate::rng::random_nonce;
use vstd::prelude::*;

verus! {

/// What `Aes256Gcm::encrypt` returns for a key, nonce and plaintext.
pub uninterp spec fn aead_enc(key: Seq<u8>, nonce: Seq<u8>, pt: Seq<u8>) -> Seq<u8>;

/// What `Aes256Gcm::decrypt` returns for a key, nonce and ciphertext: the
/// plaintext when the ciphertext is authentic under them, nothing otherwise.
pub uninterp spec fn aead_dec(key: Seq<u8>, nonce: Seq<u8>, ct: Seq<u8>) -> Option<Seq<u8>>;

/// Relies on `Aes256Gcm::encrypt`: authenticated encryption whose output is
/// 16 bytes longer than the plaintext and decrypts back to it under the same
/// key and nonce. It fails only on a plaintext past the cipher's length cap
/// of 2^36 bytes.
#[verifier::external_body]
fn aead_encrypt(key: &[u8; 32], nonce: &[u8; 12], pt: &Vec<u8>) -> (r: Option<Vec<u8>>)
    ensures
        r matches Some(c) ==> c@ == aead_enc(key@, nonce@, pt@) && aead_dec(key@, nonce@, c@)
            == Some(pt@) && c@.len() == pt@.len() + 16,
        pt@.len() <= 0x1000000000 ==> r is Some,
{
    let k = aes_gcm::aead::generic_array::GenericArray::from_slice(key);
    let cipher = <aes_gcm::Aes256Gcm as aes_gcm::KeyInit>::new(k);
    let n = aes_gcm::aead::generic_array::GenericArray::from_slice(nonce);
    aes_gcm::aead::Aead::encrypt(&cipher, n, pt.as_slice()).ok()
}

/// Relies on `Aes256Gcm::decrypt`: it returns the plaintext of an authentic
/// ciphertext and rejects any other.
#[verifier::external_body]
fn aead_decrypt(key: &[u8; 32], nonce: &[u8; 12], ct: &Vec<u8>) -> (r: Option<Vec<u8>>)
    ensures
        r matches Some(p) ==> aead_dec(key@, nonce@, ct@) == Some(p@),
        r is None ==> aead_dec(key@, nonce@, ct@) is None,
{
    let k = aes_gcm::aead::generic_array::GenericArray::from_slice(key);
    let cipher = <aes_gcm::Aes256Gcm as aes_gcm::KeyInit>::new(k);
    let n = aes_gcm::aead::generic_array::GenericArray::from_slice(nonce);
    aes_gcm::aead::Aead::decrypt(&cipher, n, ct.as_slice()).ok()
}

/// A hybrid ciphertext: the ElGamal part, the symmetric part, and the AEAD
/// nonce.
pub struct HybridCt {
    /// ElGamal encryption of the random key-derivation element.
    pub elg: ElgamalCt,
    /// AEAD ciphertext of the payload.
    pub sym: Vec<u8>,
    /// The 96-bit AEAD nonce.
    pub nonce: [u8; 12],
}

/// The fixed-length payload shipped to the barcode owner: the 32-byte mask,
/// the amount's four big-endian bytes, and the 32-byte base.
pub open spec fn payload_of(m: Seq<u8>, x: u32, base: Seq<u8>) -> Seq<u8> {
    m + u32_be(x) + base
}

/// The mask a well-formed payload carries: its first 32 bytes.
pub open spec fn payload_mask(pt: Seq<u8>) -> Seq<u8> {
    pt.subrange(0, 32)
}

/// The base a well-formed payload carries: its last 32 bytes.
pub open spec fn payload_base(pt: Seq<u8>) -> Seq<u8> {
    pt.subrange(36, 68)
}

/// The signed amount a well-formed payload carries in its middle four
/// big-endian bytes.
pub open spec fn payload_amount(pt: Seq<u8>) -> int {
    (choose|x: i32| #[trigger] u32_be(#[verifier::truncate] (x as u32)) == pt.subrange(32, 36)) as int
}

/// Reading the amount back out of a payload yields the amount that was
/// encoded into it.
pub proof fn lemma_payload_amount(m: Seq<u8>, x: i32, b: Seq<u8>)
    requires
        m.len() == 32,
    ensures
        payload_amount(payload_of(m, #[verifier::truncate] (x as u32), b)) == x,
{
    let pt = payload_of(m, #[verifier::truncate] (x as u32), b);
    assert(pt.subrange(32, 36) =~= u32_be(#[verifier::truncate] (x as u32)));
    assert(exists|y: i32| #[trigger] u32_be(#[verifier::truncate] (y as u32)) == pt.subrange(32, 36)) by {
        assert(u32_be(#[verifier::truncate] (x as u32)) == pt.subrange(32, 36));
    }
    let w = choose|y: i32| #[trigger] u32_be(#[verifier::truncate] (y as u32)) == pt.subrange(32, 36);
    lemma_u32_be_inj(#[verifier::truncate] (w as u32), #[verifier::truncate] (x as u32));
    lemma_i32_pattern_inj(w, x);
}

/// The AEAD key a hybrid ciphertext derives under a secret key: the SHA-256
/// digest of the decrypted ElGamal element's encoding.
pub open spec fn derived_key(sk: Scal, elg: ElgamalCt) -> Seq<u8> {
    sha256_of(canonical_of(madd(elg.1.dl(), mmul(elg.0.dl(), mneg(sk.val())))))
}

/// A hybrid ciphertext whose ElGamal part encrypts the element with discrete
/// logarithm `pd` under `pk`, and whose symmetric part opens, under the key
/// that element derives, to exactly the given mask, amount and base.
pub open spec fn encrypts(pk: GroupElt, ct: HybridCt, pd: nat, m: Seq<u8>, x: u32, b: Seq<u8>) -> bool {
    &&& pd < group_order()
    &&& ct.elg.1.dl() == madd(mmul(ct.elg.0.dl(), pk.dl()), pd)
    &&& aead_dec(sha256_of(canonical_of(pd)), ct.nonce@, ct.sym@) == Some(payload_of(m, x, b))
}

/// Hybrid-encrypt the mask, the signed amount and the base to a public key.
pub fn encrypt(pk: &GroupElt, points: i32, m_bits: &[u8; 32], base: &[u8; 32]) -> (r: Result<
    HybridCt,
    ProtocolError,
>)
    ensures
        r is Ok,
        r matches Ok(ct) ==> ct.sym@.len() == 84,
        r is Ok ==> exists|pd: nat|
            #[trigger] encrypts(
                *pk,
                r.unwrap(),
                pd,
                m_bits@,
                #[verifier::truncate] (points as u32),
                base@,
            ),
{
    let p = random_point();
    let elg = elgamal_enc(pk, &p);
    proof {
        use_type_invariant(&p);
        lemma_group_elt_wf(p);
        crate::modp::lemma_mmul_assoc(elg.0.dl(), pk.dl(), 0);
    }
    let mut key_src: Vec<u8> = Vec::new();
    push_bytes32(&mut key_src, &p.encode());
    proof {
        assert(key_src@ =~= p.enc());
    }
    let key = sha256(&key_src);

    let mut pt: Vec<u8> = Vec::new();
    push_bytes32(&mut pt, m_bits);
    let xbe = u32_to_be(#[verifier::truncate] (points as u32));
    pt.extend_from_slice(xbe.as_slice());
    push_bytes32(&mut pt, base);
    proof {
        assert(pt@ =~= payload_of(m_bits@, #[verifier::truncate] (points as u32), base@));
    }

    let nonce = random_nonce();
    match aead_encrypt(&key, &nonce, &pt) {
        Some(sym) => {
            let ct = HybridCt { elg, sym, nonce };
            let r: Result<HybridCt, ProtocolError> = Ok(ct);
            proof {
                let pd = p.dl();
                assert(key@ == sha256_of(canonical_of(pd)));
                assert(encrypts(
                    *pk,
                    r.unwrap(),
                    pd,
                    m_bits@,
                    #[verifier::truncate] (points as u32),
                    base@,
                ));
            }
            r
        },
        None => {
            proof {
                assert(false);
            }
            Err(ProtocolError::InvalidCiphertext)
        },
    }
}

/// Hybrid-decrypt a ciphertext: recover the ElGamal element, re-derive the
/// AEAD key, open the payload and split it into mask, amount and base. An
/// AEAD failure or a payload of the wrong length is an invalid ciphertext.
pub fn decrypt(sk: &Scal, ct: &HybridCt) -> (r: Result<([u8; 32], i32, [u8; 32]), ProtocolError>)
    ensures
        r matches Ok((m, x, b)) ==> aead_dec(derived_key(*sk, ct.elg), ct.nonce@, ct.sym@) == Some(
            payload_of(m@, x as u32, b@),
        ),
        r is Ok <==> (aead_dec(derived_key(*sk, ct.elg), ct.nonce@, ct.sym@) matches Some(pt)
            && pt.len() == 68),
        r is Err ==> r == Err::<([u8; 32], i32, [u8; 32]), ProtocolError>(
            ProtocolError::InvalidCiphertext,
        ),
{
    let p = elgamal_dec(sk, &ct.elg);
    proof {
        use_type_invariant(&p);
        lemma_group_elt_wf(p);
    }
    let mut key_src: Vec<u8> = Vec::new();
    push_bytes32(&mut key_src, &p.encode());
    proof {
        assert(key_src@ =~= p.enc());
    }
    let key = sha256(&key_src);

    match aead_decrypt(&key, &ct.nonce, &ct.sym) {
        Some(pt) => {
            if pt.len() != 68 {
                return Err(ProtocolError::InvalidCiphertext);
            }
            let m = take32(&pt, 0);
            let xbe: [u8; 4] = [pt[32], pt[33], pt[34], pt[35]];
            let xu = u32_from_be(xbe);
            let x = xu as i32;
            let b = take32(&pt, 36);
            proof {
                assert(xu as i32 as u32 == xu) by (bit_vector);
                assert(u32_be(x as u32) =~= pt@.subrange(32, 36));
                assert(payload_of(m@, x as u32, b@) =~= pt@);
            }
            Ok((m, x, b))
        },
        None => Err(ProtocolError::InvalidCiphertext),
    }
}

/// Splitting a payload of the fixed shape is unambiguous: equal payloads
/// have equal masks, amounts and bases.
pub proof fn lemma_payload_inj(m1: Seq<u8>, x1: u32, b1: Seq<u8>, m2: Seq<u8>, x2: u32, b2: Seq<u8>)
    requires
        m1.len() == 32,
        b1.len() == 32,
        m2.len() == 32,
        b2.len() == 32,
        payload_of(m1, x1, b1) == payload_of(m2, x2, b2),
    ensures
        m1 == m2,
        x1 == x2,
        b1 == b2,
{
    let p = payload_of(m1, x1, b1);
    assert(m1 =~= p.subrange(0, 32));
    assert(m2 =~= p.subrange(0, 32));
    assert(u32_be(x1) =~= p.subrange(32, 36));
    assert(u32_be(x2) =~= p.subrange(32, 36));
    assert(b1 =~= p.subrange(36, 68));
    assert(b2 =~= p.subrange(36, 68));
    lemma_u32_be_inj(x1, x2);
}

/// The law the hybrid scheme satisfies: under a matching keypair, whatever
/// `decrypt` accepts out of a ciphertext that `encrypt` produced is exactly
/// the mask, amount and base that were encrypted. Stated over the discrete
/// logarithms `sk` of the secret key (the public key being the basepoint
/// raised to it), `c1` and `c2` of the ElGamal part, `pd` of the encrypted
/// key-derivation element, and the two payload splits.
pub proof fn lemma_hybrid_round_trip(
    sk: Scal,
    c1: nat,
    c2: nat,
    pd: nat,
    nonce: Seq<u8>,
    sym: Seq<u8>,
    m1: Seq<u8>,
    x1: u32,
    b1: Seq<u8>,
    m2: Seq<u8>,
    x2: u32,
    b2: Seq<u8>,
    elg: ElgamalCt,
)
    requires
        sk.val() < group_order(),
        pd < group_order(),
        c1 < group_order(),
        elg.0.dl() == c1,
        elg.1.dl() == c2,
        c2 == madd(mmul(c1, sk.val()), pd),
        aead_dec(sha256_of(canonical_of(pd)), nonce, sym) == Some(payload_of(m1, x1, b1)),
        aead_dec(derived_key(sk, elg), nonce, sym) == Some(payload_of(m2, x2, b2)),
        m1.len() == 32,
        b1.len() == 32,
        m2.len() == 32,
        b2.len() == 32,
    ensures
        m2 == m1,
        x2 == x1,
        b2 == b1,
{
    lemma_elgamal_round_trip(sk.val(), c1, c2, pd);
    assert(derived_key(sk, elg) == sha256_of(canonical_of(pd)));
    assert(payload_of(m1, x1, b1) == payload_of(m2, x2, b2));
    lemma_payload_inj(m1, x1, b1, m2, x2, b2);
}

/// Opening an honestly produced hybrid ciphertext under the matching secret
/// key yields exactly the encrypted payload; in particular the amount the
/// receiver recovers is the amount the sender folded into its own balance,
/// so the two sides' plaintext balance deltas cancel.
pub proof fn lemma_hybrid_opening(
    sk: Scal,
    pk: GroupElt,
    ct: &HybridCt,
    pd: nat,
    mask: Seq<u8>,
    points: i32,
    base: Seq<u8>,
)
    requires
        pk.dl() == sk.val(),
        sk.val() < group_order(),
        ct.elg.0.dl() < group_order(),
        mask.len() == 32,
        encrypts(pk, *ct, pd, mask, #[verifier::truncate] (points as u32), base),
    ensures
        aead_dec(derived_key(sk, ct.elg), ct.nonce@, ct.sym@) == Some(
            payload_of(mask, #[verifier::truncate] (points as u32), base),
        ),
        payload_amount(payload_of(mask, #[verifier::truncate] (points as u32), base)) == points,
{
    lemma_elgamal_round_trip(sk.val(), ct.elg.0.dl(), ct.elg.1.dl(), pd);
    assert(derived_key(sk, ct.elg) == sha256_of(canonical_of(pd)));
    lemma_payload_amount(mask, points, base);
}

} // verus!
