//! The semi-honest variant's Sigma-protocols over the fixed basepoint: a
//! proof that the shopper's and the barcode owner's ciphertexts encrypt
//! opposite amounts, and a Chaum-Pedersen proof of correct ElGamal
//! decryption used at settlement.

use crate::bytes::push_bytes32;
use crate::dlog::{elgamal_dec_amount, DlogTable};
use crate::elgamal::{elgamal_enc_int, ElgamalCt};
use crate::err::ProtocolError;
use crate::group::{
    base_mul, hash_scalar_val, hash_to_scalar, int_to_scalar, madd, mmul, mneg, point_add,
    point_mul, pt_eq, random_scalar, scalar_add, scalar_mul, scalar_of_int, GroupElt, Scal,
};
use crate::modp::{
    lemma_madd4, lemma_madd_assoc, lemma_madd_mneg, lemma_madd_noop, lemma_madd_zero,
    lemma_mmul_distrib_right, lemma_mmul_mneg, lemma_mmul_zero, lemma_mneg_of_int, lemma_msmall,
    lemma_msub_inverse, lemma_sigma_affine_one, lemma_sigma_linear,
};
use vstd::prelude::*;

verus! {

/// One side's ciphertext together with the secrets needed to prove what it
/// encrypts: the encryption randomness, the encrypted amount as a scalar,
/// and the public key it was encrypted under.
pub struct CompressedTxCiphertextData {
    /// The ElGamal ciphertext.
    pub ciphertext: ElgamalCt,
    /// The encryption randomness.
    pub y: Scal,
    /// The encrypted amount, mapped to a scalar.
    pub m: Scal,
    /// The public key the ciphertext was made under.
    pub public_h: GroupElt,
}

impl CompressedTxCiphertextData {
    /// Bundle a ciphertext with its secrets; the signed amount is mapped to
    /// its scalar residue.
    pub fn new(ct: ElgamalCt, y: Scal, m: i32, h: GroupElt) -> (r: Self)
        ensures
            r.ciphertext == ct,
            r.y == y,
            r.m.val() == scalar_of_int(m as int),
            r.public_h == h,
    {
        CompressedTxCiphertextData { ciphertext: ct, y, m: int_to_scalar(m), public_h: h }
    }

    /// The ciphertext honestly encrypts the held amount under the held key
    /// with the held randomness.
    pub open spec fn honest(self) -> bool {
        &&& self.ciphertext.0.dl() == self.y.val()
        &&& self.ciphertext.1.dl() == madd(self.m.val(), mmul(self.public_h.dl(), self.y.val()))
    }
}

/// A proof that two ciphertexts under two keys encrypt opposite amounts.
pub struct CompressedCtEqProof {
    /// The shopper's ciphertext.
    pub shopper_ct: ElgamalCt,
    /// The barcode owner's ciphertext.
    pub barcode_ct: ElgamalCt,
    /// The shopper's public key.
    pub hs: GroupElt,
    /// The barcode owner's public key.
    pub hb: GroupElt,
    /// Blinded commitment for the shopper's first component.
    pub cs0_t: GroupElt,
    /// Blinded commitment for the shopper's second component.
    pub cs1_t: GroupElt,
    /// Blinded commitment for the owner's first component.
    pub cb0_t: GroupElt,
    /// Blinded commitment for the owner's second component.
    pub cb1_t: GroupElt,
    /// Commitment to the sum of the two blinded amounts.
    pub i_t: GroupElt,
    /// Response for the owner's amount.
    pub m_z: Scal,
    /// Response for the shopper's amount.
    pub mp_z: Scal,
    /// Response for the shopper's randomness.
    pub ys_z: Scal,
    /// Response for the owner's randomness.
    pub yb_z: Scal,
}

/// The challenge transcript of the equality proof: the nine points in their
/// fixed order.
pub open spec fn ct_eq_transcript(pi: CompressedCtEqProof) -> Seq<u8> {
    pi.shopper_ct.0.enc() + pi.shopper_ct.1.enc() + pi.barcode_ct.0.enc() + pi.barcode_ct.1.enc()
        + pi.cs0_t.enc() + pi.cs1_t.enc() + pi.cb0_t.enc() + pi.cb1_t.enc() + pi.i_t.enc()
}

/// The five verification equations of the equality proof.
pub open spec fn ct_eq_check(pi: CompressedCtEqProof) -> bool {
    let c = hash_scalar_val(ct_eq_transcript(pi));
    &&& pi.ys_z.val() == madd(pi.cs0_t.dl(), mmul(pi.shopper_ct.0.dl(), c))
    &&& madd(pi.mp_z.val(), mmul(pi.hs.dl(), pi.ys_z.val())) == madd(
        pi.cs1_t.dl(),
        mmul(pi.shopper_ct.1.dl(), c),
    )
    &&& pi.yb_z.val() == madd(pi.cb0_t.dl(), mmul(pi.barcode_ct.0.dl(), c))
    &&& madd(pi.m_z.val(), mmul(pi.hb.dl(), pi.yb_z.val())) == madd(
        pi.cb1_t.dl(),
        mmul(pi.barcode_ct.1.dl(), c),
    )
    &&& madd(pi.m_z.val(), pi.mp_z.val()) == pi.i_t.dl()
}

/// Assemble the equality proof's transcript bytes.
fn ct_eq_transcript_bytes(pi: &CompressedCtEqProof) -> (r: Vec<u8>)
    ensures
        r@ == ct_eq_transcript(*pi),
{
    let mut t: Vec<u8> = Vec::new();
    push_bytes32(&mut t, &pi.shopper_ct.0.encode());
    push_bytes32(&mut t, &pi.shopper_ct.1.encode());
    push_bytes32(&mut t, &pi.barcode_ct.0.encode());
    push_bytes32(&mut t, &pi.barcode_ct.1.encode());
    push_bytes32(&mut t, &pi.cs0_t.encode());
    push_bytes32(&mut t, &pi.cs1_t.encode());
    push_bytes32(&mut t, &pi.cb0_t.encode());
    push_bytes32(&mut t, &pi.cb1_t.encode());
    push_bytes32(&mut t, &pi.i_t.encode());
    proof {
        assert(t@ =~= ct_eq_transcript(*pi));
    }
    t
}

/// Prove that the shopper's and the barcode owner's honestly formed
/// ciphertexts encrypt amounts that cancel: the proof passes every
/// verification equation.
pub fn zk_ct_eq_prove(
    shopper_tx: &CompressedTxCiphertextData,
    barcode_tx: &CompressedTxCiphertextData,
) -> (r: CompressedCtEqProof)
    requires
        shopper_tx.honest(),
        barcode_tx.honest(),
        madd(shopper_tx.m.val(), barcode_tx.m.val()) == 0,
    ensures
        ct_eq_check(r),
        r.shopper_ct == shopper_tx.ciphertext,
        r.barcode_ct == barcode_tx.ciphertext,
{
    let ys = &shopper_tx.y;
    let yb = &barcode_tx.y;
    let mp = &shopper_tx.m;
    let m = &barcode_tx.m;
    let hs = &shopper_tx.public_h;
    let hb = &barcode_tx.public_h;

    // Commitment.
    let m_t = random_scalar();
    let mp_t = random_scalar();
    let ys_t = random_scalar();
    let yb_t = random_scalar();
    let cs0_t = base_mul(&ys_t);
    let cs1_t = point_add(&base_mul(&mp_t), &point_mul(hs, &ys_t));
    let cb0_t = base_mul(&yb_t);
    let cb1_t = point_add(&base_mul(&m_t), &point_mul(hb, &yb_t));
    let i_t = point_add(&base_mul(&m_t), &base_mul(&mp_t));

    let mut pi = CompressedCtEqProof {
        shopper_ct: shopper_tx.ciphertext,
        barcode_ct: barcode_tx.ciphertext,
        hs: *hs,
        hb: *hb,
        cs0_t,
        cs1_t,
        cb0_t,
        cb1_t,
        i_t,
        m_z: m_t,
        mp_z: mp_t,
        ys_z: ys_t,
        yb_z: yb_t,
    };

    // Challenge and responses.
    let transcript = ct_eq_transcript_bytes(&pi);
    let c = hash_to_scalar(&transcript);
    pi.m_z = scalar_add(&m_t, &scalar_mul(m, &c));
    pi.mp_z = scalar_add(&mp_t, &scalar_mul(mp, &c));
    pi.ys_z = scalar_add(&ys_t, &scalar_mul(ys, &c));
    pi.yb_z = scalar_add(&yb_t, &scalar_mul(yb, &c));

    proof {
        assert(ct_eq_transcript(pi) =~= transcript@);
        let cv = c.val();
        lemma_sigma_affine_one(hs.dl(), mp.val(), mp_t.val(), ys.val(), ys_t.val(), cv);
        lemma_sigma_affine_one(hb.dl(), m.val(), m_t.val(), yb.val(), yb_t.val(), cv);
        // The amount responses sum to the blinded sum commitment because the
        // amounts themselves cancel.
        lemma_madd4(m_t.val(), mmul(m.val(), cv), mp_t.val(), mmul(mp.val(), cv));
        lemma_madd4(m_t.val(), mp_t.val(), mmul(m.val(), cv), mmul(mp.val(), cv));
        lemma_mmul_distrib_right(m.val(), mp.val(), cv);
        lemma_mmul_zero(cv);
        assert(madd(mmul(m.val(), cv), mmul(mp.val(), cv)) == 0);
        lemma_madd_noop(m_t.val(), mp_t.val());
        lemma_madd_zero(madd(m_t.val(), mp_t.val()));
        assert(madd(pi.m_z.val(), pi.mp_z.val()) == pi.i_t.dl());
        assert(ct_eq_check(pi));
    }
    pi
}

/// Check the five verification equations of an equality proof; the result is
/// exactly whether all five hold.
pub fn zk_ct_eq_verify(pi: &CompressedCtEqProof) -> (r: bool)
    ensures
        r == ct_eq_check(*pi),
{
    let transcript = ct_eq_transcript_bytes(pi);
    let c = hash_to_scalar(&transcript);

    let check1 = pt_eq(
        &base_mul(&pi.ys_z),
        &point_add(&pi.cs0_t, &point_mul(&pi.shopper_ct.0, &c)),
    );
    let check2 = pt_eq(
        &point_add(&base_mul(&pi.mp_z), &point_mul(&pi.hs, &pi.ys_z)),
        &point_add(&pi.cs1_t, &point_mul(&pi.shopper_ct.1, &c)),
    );
    let check3 = pt_eq(
        &base_mul(&pi.yb_z),
        &point_add(&pi.cb0_t, &point_mul(&pi.barcode_ct.0, &c)),
    );
    let check4 = pt_eq(
        &point_add(&base_mul(&pi.m_z), &point_mul(&pi.hb, &pi.yb_z)),
        &point_add(&pi.cb1_t, &point_mul(&pi.barcode_ct.1, &c)),
    );
    let check5 = pt_eq(&point_add(&base_mul(&pi.m_z), &base_mul(&pi.mp_z)), &pi.i_t);
    check1 && check2 && check3 && check4 && check5
}

/// A Chaum-Pedersen proof that a ciphertext decrypts to a claimed amount
/// under the key pair it names.
pub struct CompressedCtDecProof {
    /// The ciphertext being opened.
    pub ct: ElgamalCt,
    /// The claimed amount, as a scalar.
    pub pt: Scal,
    /// The public key of the opener.
    pub h: GroupElt,
    /// Blinded commitment under the fixed basepoint.
    pub v_t: GroupElt,
    /// Blinded commitment under the ciphertext's first component.
    pub w_t: GroupElt,
    /// The response.
    pub x_z: Scal,
}

/// The challenge transcript of the decryption proof: the four points in
/// their fixed order.
pub open spec fn ct_dec_transcript(pi: CompressedCtDecProof) -> Seq<u8> {
    pi.ct.0.enc() + pi.ct.1.enc() + pi.v_t.enc() + pi.w_t.enc()
}

/// The two verification equations of the decryption proof: the response
/// answers for the public key under the basepoint, and for the unmasked
/// ciphertext under its first component.
pub open spec fn ct_dec_check(pi: CompressedCtDecProof) -> bool {
    let c = hash_scalar_val(ct_dec_transcript(pi));
    let w = madd(pi.ct.1.dl(), mneg(pi.pt.val()));
    &&& pi.x_z.val() == madd(pi.v_t.dl(), mmul(pi.h.dl(), c))
    &&& mmul(pi.ct.0.dl(), pi.x_z.val()) == madd(pi.w_t.dl(), mmul(w, c))
}

/// Assemble the decryption proof's transcript bytes.
fn ct_dec_transcript_bytes(pi: &CompressedCtDecProof) -> (r: Vec<u8>)
    ensures
        r@ == ct_dec_transcript(*pi),
{
    let mut t: Vec<u8> = Vec::new();
    push_bytes32(&mut t, &pi.ct.0.encode());
    push_bytes32(&mut t, &pi.ct.1.encode());
    push_bytes32(&mut t, &pi.v_t.encode());
    push_bytes32(&mut t, &pi.w_t.encode());
    proof {
        assert(t@ =~= ct_dec_transcript(*pi));
    }
    t
}

/// Prove that `ct` decrypts to `pt` under the secret key `x` whose public
/// key is `h`: the proof passes both verification equations.
pub fn zk_ct_dec_prove(ct: &ElgamalCt, pt: i32, x: &Scal, h: &GroupElt) -> (r:
    CompressedCtDecProof)
    requires
        h.dl() == x.val(),
        madd(ct.1.dl(), mneg(scalar_of_int(pt as int))) == mmul(ct.0.dl(), x.val()),
    ensures
        ct_dec_check(r),
        r.ct == *ct,
        r.pt.val() == scalar_of_int(pt as int),
{
    let pt_scalar = int_to_scalar(pt);
    let x_t = random_scalar();
    let v_t = base_mul(&x_t);
    let w_t = point_mul(&ct.0, &x_t);

    let mut pi = CompressedCtDecProof { ct: *ct, pt: pt_scalar, h: *h, v_t, w_t, x_z: x_t };
    let transcript = ct_dec_transcript_bytes(&pi);
    let c = hash_to_scalar(&transcript);
    pi.x_z = scalar_add(&x_t, &scalar_mul(x, &c));

    proof {
        assert(ct_dec_transcript(pi) =~= transcript@);
        let cv = c.val();
        lemma_sigma_linear(ct.0.dl(), x.val(), x_t.val(), cv);
        assert(ct_dec_check(pi));
    }
    pi
}

/// Check the two verification equations of a decryption proof; the result is
/// exactly whether both hold.
pub fn zk_ct_dec_verify(pi: &CompressedCtDecProof) -> (r: bool)
    ensures
        r == ct_dec_check(*pi),
{
    let transcript = ct_dec_transcript_bytes(pi);
    let c = hash_to_scalar(&transcript);

    let neg_pt = crate::group::scalar_neg(&pi.pt);
    let w = point_add(&pi.ct.1, &base_mul(&neg_pt));
    let check1 = pt_eq(&base_mul(&pi.x_z), &point_add(&pi.v_t, &point_mul(&pi.h, &c)));
    let check2 = pt_eq(
        &point_mul(&pi.ct.0, &pi.x_z),
        &point_add(&pi.w_t, &point_mul(&w, &c)),
    );
    check1 && check2
}

/// Settle a semi-honest balance: decrypt the server's ciphertext down to the
/// number of points by baby-step giant-step, and prove the decryption
/// correct with a Chaum-Pedersen argument. Fails exactly when the balance in
/// the exponent lies beyond the table's bound.
pub fn settle_balance_semi_honest(
    table: &DlogTable,
    sk: &Scal,
    pk: &GroupElt,
    ct: &ElgamalCt,
) -> (r: Result<(i32, CompressedCtDecProof), ProtocolError>)
    requires
        pk.dl() == sk.val(),
    ensures
        r matches Ok((pt, pi)) ==> {
            &&& 0 <= pt
            &&& madd(ct.1.dl(), mmul(ct.0.dl(), mneg(sk.val()))) == pt as nat
            &&& pt <= table.max()
            &&& ct_dec_check(pi)
            &&& pi.ct == *ct
            &&& pi.pt.val() == scalar_of_int(pt as int)
        },
        r is Ok <==> madd(ct.1.dl(), mmul(ct.0.dl(), mneg(sk.val()))) <= table.max(),
        r is Err ==> r == Err::<(i32, CompressedCtDecProof), ProtocolError>(
            ProtocolError::OutOfRange,
        ),
{
    let pt = match elgamal_dec_amount(table, sk, ct) {
        Ok(pt) => pt,
        Err(_) => {
            return Err(ProtocolError::OutOfRange);
        },
    };
    proof {
        use_type_invariant(&ct.1);
        crate::group::lemma_group_elt_wf(ct.1);
        use_type_invariant(sk);
        crate::group::lemma_scal_wf(*sk);
        // The decryption identity rearranges into the unmasking relation the
        // Chaum-Pedersen argument speaks of: c1 - pt*G == sk*c0.
        let c0 = ct.0.dl();
        let c1 = ct.1.dl();
        let s = sk.val();
        lemma_mmul_mneg(c0, s);
        crate::modp::lemma_mmul_noop(c0, s);
        assert(madd(c1, mneg(mmul(c0, s))) == pt as nat);
        lemma_msub_inverse(c1, mmul(c0, s));
        assert(madd(c1, mneg(pt as nat)) == mmul(c0, s));
        lemma_msmall(pt as nat);
        assert(scalar_of_int(pt as int) == pt as nat);
    }
    let pi = zk_ct_dec_prove(ct, pt, sk, pk);
    Ok((pt, pi))
}

/// Run the semi-honest transact step: encrypt the spent amount under the
/// shopper's own key and its negation under the barcode owner's, and prove
/// that the two ciphertexts encrypt amounts that cancel. The server then
/// folds each ciphertext into its side's encrypted balance, so the shopper's
/// balance gains the amount and the owner's loses it.
pub fn sh_transact(pk_s: &GroupElt, pk_b: &GroupElt, points: i32) -> (r: (
    ElgamalCt,
    ElgamalCt,
    CompressedCtEqProof,
))
    requires
        points != i32::MIN,
    ensures
        r.0.0.dl() < crate::group::group_order(),
        r.0.1.dl() == madd(scalar_of_int(points as int), mmul(r.0.0.dl(), pk_s.dl())),
        r.1.1.dl() == madd(scalar_of_int(-points as int), mmul(r.1.0.dl(), pk_b.dl())),
        ct_eq_check(r.2),
        r.2.shopper_ct == r.0,
        r.2.barcode_ct == r.1,
{
    let (ct_s, y_s) = elgamal_enc_int(pk_s, points);
    let (ct_b, y_b) = elgamal_enc_int(pk_b, -points);
    let shopper = CompressedTxCiphertextData::new(ct_s, y_s, points, *pk_s);
    let barcode = CompressedTxCiphertextData::new(ct_b, y_b, -points, *pk_b);
    proof {
        use_type_invariant(&ct_s.0);
        crate::group::lemma_group_elt_wf(ct_s.0);
        use_type_invariant(&y_s);
        crate::group::lemma_scal_wf(y_s);
        // The shopper's credit and the owner's debit cancel modulo the order.
        lemma_mneg_of_int(points as int);
        lemma_madd_mneg(scalar_of_int(points as int));
        lemma_madd_assoc(scalar_of_int(points as int), scalar_of_int(-points as int), 0);
        assert(madd(scalar_of_int(points as int), scalar_of_int(-points as int)) == 0);
        // The encryption randomness orders commute into the honesty shape.
        crate::modp::lemma_mmul_assoc(y_s.val(), pk_s.dl(), 0);
        crate::modp::lemma_mmul_assoc(y_b.val(), pk_b.dl(), 0);
    }
    let pi = zk_ct_eq_prove(&shopper, &barcode);
    (ct_s, ct_b, pi)
}

} // verus!
