//! Additively homomorphic ElGamal over the prime-order group, in the two
//! shapes the protocol uses: encryption of a group element (used by the
//! hybrid encryption of masks) and encryption of a signed point amount in
//! the exponent (used for semi-honest balances).

use crate::group::{
    base_mul, group_order, int_to_scalar, madd, mmul, mneg, point_add, point_mul, random_scalar,
    scalar_neg, scalar_of_int, GroupElt, Scal,
};
use crate::modp::{
    lemma_madd_assoc, lemma_madd_mneg, lemma_madd_zero, lemma_mmul_assoc, lemma_mmul_distrib,
    lemma_mmul_zero,
};
use vstd::prelude::*;

verus! {

/// An ElGamal ciphertext: a pair of group elements.
pub type ElgamalCt = (GroupElt, GroupElt);

/// Generate an ElGamal keypair: a random secret scalar and the basepoint
/// raised to it.
pub fn elgamal_keygen() -> (r: (Scal, GroupElt))
    ensures
        r.1.dl() == r.0.val(),
{
    let x = random_scalar();
    let h = base_mul(&x);
    (x, h)
}

/// Encrypt a group element: the ciphertext is `(r*G, r*pk + m)` for a fresh
/// random scalar `r`.
pub fn elgamal_enc(pk: &GroupElt, m: &GroupElt) -> (ct: ElgamalCt)
    ensures
        ct.1.dl() == madd(mmul(ct.0.dl(), pk.dl()), m.dl()),
{
    let r = random_scalar();
    let c1 = base_mul(&r);
    let rpk = point_mul(pk, &r);
    let c2 = point_add(&rpk, m);
    proof {
        lemma_mmul_assoc(pk.dl(), r.val(), 0);
    }
    (c1, c2)
}

/// Decrypt an ElGamal ciphertext: `c2 - sk*c1`, which for a ciphertext made
/// under `pk = sk*G` is the encrypted element.
pub fn elgamal_dec(sk: &Scal, ct: &ElgamalCt) -> (r: GroupElt)
    ensures
        r.dl() == madd(ct.1.dl(), mmul(ct.0.dl(), mneg(sk.val()))),
{
    let neg_sk = scalar_neg(sk);
    let shared = point_mul(&ct.0, &neg_sk);
    point_add(&ct.1, &shared)
}

/// The law the two sides of ElGamal satisfy: decrypting an encryption of a
/// group element under a matching keypair yields the element back. Stated
/// over the discrete logarithms `sk` of the secret key, `c1` and `c2` of the
/// ciphertext as `elgamal_enc` pins them, and `m` of the plaintext.
pub proof fn lemma_elgamal_round_trip(sk: nat, c1: nat, c2: nat, m: nat)
    requires
        sk < group_order(),
        m < group_order(),
        c1 < group_order(),
        c2 == madd(mmul(c1, sk), m),
    ensures
        madd(c2, mmul(c1, mneg(sk))) == m,
{
    let p = mmul(c1, sk);
    let x = mmul(c1, mneg(sk));
    lemma_madd_assoc(p, m, x);
    lemma_madd_assoc(m, x, 0);
    lemma_madd_assoc(p, x, m);
    lemma_mmul_distrib(c1, sk, mneg(sk));
    lemma_madd_mneg(sk);
    lemma_mmul_zero(c1);
    lemma_madd_zero(m);
    assert(madd(c2, x) == madd(p, madd(m, x)));
    assert(madd(p, madd(x, m)) == madd(madd(p, x), m));
    assert(madd(p, x) == 0);
}

/// Add two ElGamal ciphertexts componentwise; the encrypted values add.
pub fn add_ciphertexts(ct0: &ElgamalCt, ct1: &ElgamalCt) -> (r: ElgamalCt)
    ensures
        r.0.dl() == madd(ct0.0.dl(), ct1.0.dl()),
        r.1.dl() == madd(ct0.1.dl(), ct1.1.dl()),
{
    (point_add(&ct0.0, &ct1.0), point_add(&ct0.1, &ct1.1))
}

/// Encrypt a signed point amount in the exponent: the ciphertext is
/// `(y*G, m*G + y*pk)` for a fresh random scalar `y`, which is returned
/// beside the ciphertext for use in proofs of consistency.
pub fn elgamal_enc_int(pk: &GroupElt, m: i32) -> (r: (ElgamalCt, Scal))
    ensures
        r.0.0.dl() == r.1.val(),
        r.0.1.dl() == madd(scalar_of_int(m as int), mmul(r.1.val(), pk.dl())),
{
    let y = random_scalar();
    let m_scalar = int_to_scalar(m);
    let c1 = base_mul(&y);
    let mg = base_mul(&m_scalar);
    let ypk = point_mul(pk, &y);
    let c2 = point_add(&mg, &ypk);
    proof {
        lemma_mmul_assoc(pk.dl(), y.val(), 0);
    }
    ((c1, c2), y)
}

} // verus!
