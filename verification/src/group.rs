//! Prime-order group and hashing primitives.
//!
//! Group elements of the Ristretto group are held as their canonical 32-byte
//! compressed encodings, scalars as reduced 32-byte little-endian encodings.
//! The group is cyclic of prime order; the specification model of an element
//! is its discrete logarithm with respect to the fixed basepoint, and all
//! contracts over group operations are stated as arithmetic on discrete
//! logarithms modulo the group order.

use crate::bytes::{bytes32_eq, le_val, lemma_le_val_injective};
pub use crate::modp::{group_order, madd, mmul, mneg, scalar_of_int};
use vstd::prelude::*;

verus! {

/// The canonical compressed encoding of the group element whose discrete
/// logarithm with respect to the fixed basepoint is `x`.
pub uninterp spec fn canonical_of(x: nat) -> Seq<u8>;

/// The discrete logarithm, with respect to the fixed basepoint, of the group
/// element with canonical encoding `s`.
pub uninterp spec fn point_dl(s: Seq<u8>) -> nat;

/// The discrete logarithm of the group element that hashing `msg` to the
/// group yields.
pub uninterp spec fn group_hash_dl(msg: Seq<u8>) -> nat;

/// The scalar that hashing a transcript with a 512-bit digest and reducing
/// modulo the group order yields.
pub uninterp spec fn hash_scalar_val(transcript: Seq<u8>) -> nat;

/// The 32-byte SHA-256 digest of a byte string.
pub uninterp spec fn sha256_of(msg: Seq<u8>) -> Seq<u8>;

/// A canonically encoded element of the prime-order group.
#[derive(Clone, Copy)]
pub struct GroupElt {
    bytes: [u8; 32],
}

/// A scalar of the group's scalar field, in reduced little-endian encoding.
#[derive(Clone, Copy)]
pub struct Scal {
    bytes: [u8; 32],
}

/// A canonical encoding together with a discrete logarithm below the group
/// order that it encodes.
pub open spec fn pt_wf(s: Seq<u8>) -> bool {
    point_dl(s) < group_order() && s == canonical_of(point_dl(s)) && s.len() == 32
}

impl GroupElt {
    #[verifier::type_invariant]
    pub closed spec fn inv(self) -> bool {
        pt_wf(self.bytes@)
    }

    /// The canonical 32-byte encoding of this element.
    pub closed spec fn enc(self) -> Seq<u8> {
        self.bytes@
    }

    /// The discrete logarithm of this element with respect to the fixed
    /// basepoint.
    pub closed spec fn dl(self) -> nat {
        point_dl(self.bytes@)
    }

    /// Copy out the canonical 32-byte encoding.
    pub fn encode(&self) -> (r: [u8; 32])
        ensures
            r@ == self.enc(),
    {
        self.bytes
    }
}

impl Scal {
    #[verifier::type_invariant]
    pub closed spec fn inv(self) -> bool {
        le_val(self.bytes@) < group_order()
    }

    /// The value of this scalar.
    pub closed spec fn val(self) -> nat {
        le_val(self.bytes@)
    }

    /// Copy out the reduced 32-byte little-endian encoding.
    pub fn encode(&self) -> (r: [u8; 32])
        ensures
            le_val(r@) == self.val(),
    {
        self.bytes
    }
}

/// Relies on `CompressedRistretto::decompress`: it returns a point exactly
/// when the input is the canonical encoding of a group element.
#[verifier::external_body]
pub fn decode_point(b: &[u8; 32]) -> (r: Option<GroupElt>)
    ensures
        r is Some <==> (point_dl(b@) < group_order() && canonical_of(point_dl(b@)) == b@),
        r matches Some(g) ==> g.enc() == b@,
{
    let c = curve25519_dalek::ristretto::CompressedRistretto(*b);
    match c.decompress() {
        Some(_) => Some(GroupElt { bytes: *b }),
        None => None,
    }
}

/// Relies on the windowed basepoint table `RISTRETTO_BASEPOINT_TABLE`: it
/// multiplies the fixed basepoint by the given scalar.
#[verifier::external_body]
pub fn base_mul(s: &Scal) -> (r: GroupElt)
    ensures
        r.dl() == s.val(),
{
    let sc = curve25519_dalek::scalar::Scalar::from_bytes_mod_order(s.bytes);
    let p = &sc * curve25519_dalek::constants::RISTRETTO_BASEPOINT_TABLE;
    GroupElt { bytes: p.compress().to_bytes() }
}

/// Relies on `RistrettoPoint` addition: discrete logarithms add modulo the
/// group order.
#[verifier::external_body]
pub fn point_add(a: &GroupElt, b: &GroupElt) -> (r: GroupElt)
    ensures
        r.dl() == madd(a.dl(), b.dl()),
{
    let pa = curve25519_dalek::ristretto::CompressedRistretto(a.bytes).decompress().unwrap();
    let pb = curve25519_dalek::ristretto::CompressedRistretto(b.bytes).decompress().unwrap();
    GroupElt { bytes: (pa + pb).compress().to_bytes() }
}

/// Relies on `RistrettoPoint` scalar multiplication: the discrete logarithm
/// is multiplied by the scalar modulo the group order.
#[verifier::external_body]
pub fn point_mul(p: &GroupElt, s: &Scal) -> (r: GroupElt)
    ensures
        r.dl() == mmul(p.dl(), s.val()),
{
    let pp = curve25519_dalek::ristretto::CompressedRistretto(p.bytes).decompress().unwrap();
    let sc = curve25519_dalek::scalar::Scalar::from_bytes_mod_order(s.bytes);
    GroupElt { bytes: (pp * sc).compress().to_bytes() }
}

/// Relies on `RistrettoPoint::hash_from_bytes::<Sha512>`: a deterministic
/// hash of the input to a group element, equal on every participant.
#[verifier::external_body]
pub fn hash_to_point(msg: &[u8]) -> (r: GroupElt)
    ensures
        r.dl() == group_hash_dl(msg@),
{
    let p = curve25519_dalek::ristretto::RistrettoPoint::hash_from_bytes::<sha2::Sha512>(msg);
    GroupElt { bytes: p.compress().to_bytes() }
}

/// Relies on `RistrettoPoint::random`: a uniformly random group element.
#[verifier::external_body]
pub fn random_point() -> (r: GroupElt) {
    let p = curve25519_dalek::ristretto::RistrettoPoint::random(&mut rand_core::OsRng);
    GroupElt { bytes: p.compress().to_bytes() }
}

/// Relies on `Scalar::random`: a uniformly random reduced scalar.
#[verifier::external_body]
pub fn random_scalar() -> (r: Scal) {
    let s = curve25519_dalek::scalar::Scalar::random(&mut rand_core::OsRng);
    Scal { bytes: s.to_bytes() }
}

/// Relies on `Scalar` addition: values add modulo the group order.
#[verifier::external_body]
pub fn scalar_add(a: &Scal, b: &Scal) -> (r: Scal)
    ensures
        r.val() == madd(a.val(), b.val()),
{
    let sa = curve25519_dalek::scalar::Scalar::from_bytes_mod_order(a.bytes);
    let sb = curve25519_dalek::scalar::Scalar::from_bytes_mod_order(b.bytes);
    Scal { bytes: (sa + sb).to_bytes() }
}

/// Relies on `Scalar` multiplication: values multiply modulo the group order.
#[verifier::external_body]
pub fn scalar_mul(a: &Scal, b: &Scal) -> (r: Scal)
    ensures
        r.val() == mmul(a.val(), b.val()),
{
    let sa = curve25519_dalek::scalar::Scalar::from_bytes_mod_order(a.bytes);
    let sb = curve25519_dalek::scalar::Scalar::from_bytes_mod_order(b.bytes);
    Scal { bytes: (sa * sb).to_bytes() }
}

/// Relies on `Scalar` subtraction from zero: the additive inverse modulo the
/// group order.
#[verifier::external_body]
pub fn scalar_neg(a: &Scal) -> (r: Scal)
    ensures
        r.val() == mneg(a.val()),
{
    let sa = curve25519_dalek::scalar::Scalar::from_bytes_mod_order(a.bytes);
    Scal { bytes: (curve25519_dalek::scalar::Scalar::ZERO - sa).to_bytes() }
}

/// Relies on `Scalar::from(u32)`: the scalar with that small value.
#[verifier::external_body]
pub fn scalar_from_u32(n: u32) -> (r: Scal)
    ensures
        r.val() == n,
{
    Scal { bytes: curve25519_dalek::scalar::Scalar::from(n).to_bytes() }
}

/// Relies on `Scalar::from_bytes_mod_order`: the little-endian value reduced
/// modulo the group order.
#[verifier::external_body]
pub fn scalar_from_bytes(b: &[u8; 32]) -> (r: Scal)
    ensures
        r.val() == le_val(b@) % group_order(),
{
    Scal { bytes: curve25519_dalek::scalar::Scalar::from_bytes_mod_order(*b).to_bytes() }
}

/// Relies on `Scalar::from_hash` over SHA-512: a deterministic function of
/// the hashed transcript, reduced modulo the group order.
#[verifier::external_body]
pub fn hash_to_scalar(transcript: &Vec<u8>) -> (r: Scal)
    ensures
        r.val() == hash_scalar_val(transcript@),
{
    let mut hasher = sha2::Sha512::default();
    curve25519_dalek::digest::Update::update(&mut hasher, transcript.as_slice());
    let s = curve25519_dalek::scalar::Scalar::from_hash(hasher);
    Scal { bytes: s.to_bytes() }
}

/// Relies on `sha2::Sha256`: the 32-byte SHA-256 digest of the input.
#[verifier::external_body]
pub fn sha256(msg: &Vec<u8>) -> (r: [u8; 32])
    ensures
        r@ == sha256_of(msg@),
{
    let mut hasher = <sha2::Sha256 as sha2::Digest>::new();
    sha2::Digest::update(&mut hasher, msg.as_slice());
    let out: [u8; 32] = sha2::Digest::finalize(hasher).into();
    out
}

/// What the invariant of a group element gives: its bytes are the canonical
/// encoding of its discrete logarithm, which lies below the group order.
pub proof fn lemma_group_elt_wf(g: GroupElt)
    requires
        g.inv(),
    ensures
        g.enc() == canonical_of(g.dl()),
        g.dl() < group_order(),
        g.enc().len() == 32,
        point_dl(g.enc()) == g.dl(),
{
}

/// What the invariant of a scalar gives: its value lies below the group
/// order.
pub proof fn lemma_scal_wf(s: Scal)
    requires
        s.inv(),
    ensures
        s.val() < group_order(),
{
}

/// Group elements are equal exactly when their discrete logarithms are: the
/// canonical encoding is one-to-one.
pub fn pt_eq(a: &GroupElt, b: &GroupElt) -> (r: bool)
    ensures
        r <==> a.dl() == b.dl(),
{
    proof {
        use_type_invariant(a);
        use_type_invariant(b);
    }
    let r = bytes32_eq(&a.bytes, &b.bytes);
    proof {
        if a.dl() == b.dl() {
            assert(a.bytes@ == canonical_of(a.dl()));
            assert(b.bytes@ == canonical_of(b.dl()));
            assert(a.bytes@ =~= b.bytes@);
        }
    }
    r
}

/// Scalars are equal exactly when their values are: the reduced encoding is
/// one-to-one.
pub fn scalar_eq(a: &Scal, b: &Scal) -> (r: bool)
    ensures
        r <==> a.val() == b.val(),
{
    let r = bytes32_eq(&a.bytes, &b.bytes);
    proof {
        if a.val() == b.val() {
            lemma_le_val_injective(a.bytes@, b.bytes@);
        }
    }
    r
}

/// Map a signed point amount to a scalar.
pub fn int_to_scalar(points: i32) -> (r: Scal)
    ensures
        r.val() == scalar_of_int(points as int),
{
    if points >= 0 {
        let r = scalar_from_u32(points as u32);
        proof {
            vstd::arithmetic::div_mod::lemma_small_mod(points as nat, group_order());
        }
        r
    } else {
        let mag: u32 = (-(points as i64)) as u32;
        let pos = scalar_from_u32(mag);
        let r = scalar_neg(&pos);
        proof {
            let l = group_order() as int;
            vstd::arithmetic::div_mod::lemma_mod_add_multiples_vanish(points as int, l);
            vstd::arithmetic::div_mod::lemma_small_mod((l + points) as nat, group_order());
            assert(mneg(mag as nat) == ((l - mag) % l) as nat);
            assert(l - mag == l + points);
        }
        r
    }
}

/// The additional generator used to mask transaction amounts, derived by
/// hashing a fixed domain label to the group.
pub fn h_point() -> (r: GroupElt)
    ensures
        r.dl() == group_hash_dl(h_label()),
{
    let label: [u8; 6] = [98, 97, 115, 101, 32, 104];
    proof {
        assert(label@ =~= h_label());
    }
    hash_to_point(label.as_slice())
}

/// The ASCII bytes of the domain label `"base h"`.
pub open spec fn h_label() -> Seq<u8> {
    seq![98u8, 97u8, 115u8, 101u8, 32u8, 104u8]
}

/// The additional generator used to blind the multiplication gadget, derived
/// by hashing a fixed domain label to the group.
pub fn u_point() -> (r: GroupElt)
    ensures
        r.dl() == group_hash_dl(u_label()),
{
    let label: [u8; 6] = [98, 97, 115, 101, 32, 117];
    proof {
        assert(label@ =~= u_label());
    }
    hash_to_point(label.as_slice())
}

/// The ASCII bytes of the domain label `"base u"`.
pub open spec fn u_label() -> Seq<u8> {
    seq![98u8, 97u8, 115u8, 101u8, 32u8, 117u8]
}

} // verus!
