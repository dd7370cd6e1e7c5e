//! The single-transaction Sigma-protocol `zk_tx`: a Fiat-Shamir argument
//! that a transaction's outputs `h^m` and `g^(m*x)` are well-formed for some
//! known mask `m` and amount `x`, with a Schnorr-style multiplication gadget
//! tying the nonlinear witness `m*x` to the rest.

use crate::bytes::push_bytes32;
use crate::group::{
    group_hash_dl, h_label, h_point, hash_scalar_val, hash_to_scalar, madd, mmul, point_add,
    point_mul, random_scalar, scalar_add, scalar_mul, u_label, u_point, GroupElt, Scal,
};
use crate::modp::{lemma_sigma_affine, lemma_sigma_linear};
use vstd::prelude::*;

verus! {

/// A transaction's public outputs together with the non-interactive proof of
/// their well-formedness.
#[derive(Clone, Copy)]
pub struct TxAndProof {
    /// The masked mask `h^m`.
    pub r2: GroupElt,
    /// The masked amount `g^(m*x)`.
    pub r3: GroupElt,
    /// Commitment to the blinding exponent `y`.
    pub v: GroupElt,
    /// Commitment to `y` and `m` under the two bases.
    pub e: GroupElt,
    /// Commitment to the product blinding `t = y*x`.
    pub vx: GroupElt,
    /// Commitment to `t` and `m*x` under the two bases.
    pub ex: GroupElt,
    /// Blinded commitment for the `r2` equation.
    pub r2_t: GroupElt,
    /// Blinded commitment for the `r3` equation.
    pub r3_t: GroupElt,
    /// Blinded commitment for the `v` equation.
    pub v_t: GroupElt,
    /// Blinded commitment for the `e` equation.
    pub e_t: GroupElt,
    /// Blinded commitment for the `vx` equation.
    pub vx_t: GroupElt,
    /// Blinded commitment for the `ex` equation.
    pub ex_t: GroupElt,
    /// Response for the mask `m`.
    pub m_z: Scal,
    /// Response for the product `a = m*x`.
    pub a_z: Scal,
    /// Response for the blinding `y`.
    pub y_z: Scal,
    /// Response for the product blinding `t`.
    pub t_z: Scal,
}

/// The challenge transcript: the twelve points' canonical encodings in their
/// fixed order.
pub open spec fn tx_transcript(pi: TxAndProof) -> Seq<u8> {
    pi.r2.enc() + pi.r3.enc() + pi.v.enc() + pi.e.enc() + pi.vx.enc() + pi.ex.enc() + pi.r2_t.enc()
        + pi.r3_t.enc() + pi.v_t.enc() + pi.e_t.enc() + pi.vx_t.enc() + pi.ex_t.enc()
}

/// The six verification equations of `zk_tx`, over the discrete logarithms
/// of the proof's points and the Fiat-Shamir challenge of its transcript.
pub open spec fn zk_tx_check(pi: TxAndProof, gd: nat) -> bool {
    let c = hash_scalar_val(tx_transcript(pi));
    let h = group_hash_dl(h_label());
    let u = group_hash_dl(u_label());
    &&& mmul(h, pi.m_z.val()) == madd(pi.r2_t.dl(), mmul(pi.r2.dl(), c))
    &&& mmul(gd, pi.a_z.val()) == madd(pi.r3_t.dl(), mmul(pi.r3.dl(), c))
    &&& mmul(gd, pi.y_z.val()) == madd(pi.v_t.dl(), mmul(pi.v.dl(), c))
    &&& madd(mmul(u, pi.y_z.val()), mmul(gd, pi.m_z.val())) == madd(
        pi.e_t.dl(),
        mmul(pi.e.dl(), c),
    )
    &&& mmul(gd, pi.t_z.val()) == madd(pi.vx_t.dl(), mmul(pi.vx.dl(), c))
    &&& madd(mmul(u, pi.t_z.val()), mmul(gd, pi.a_z.val())) == madd(
        pi.ex_t.dl(),
        mmul(pi.ex.dl(), c),
    )
}

/// Assemble the challenge transcript bytes of a proof.
fn tx_transcript_bytes(pi: &TxAndProof) -> (r: Vec<u8>)
    ensures
        r@ == tx_transcript(*pi),
{
    let mut t: Vec<u8> = Vec::new();
    push_bytes32(&mut t, &pi.r2.encode());
    push_bytes32(&mut t, &pi.r3.encode());
    push_bytes32(&mut t, &pi.v.encode());
    push_bytes32(&mut t, &pi.e.encode());
    push_bytes32(&mut t, &pi.vx.encode());
    push_bytes32(&mut t, &pi.ex.encode());
    push_bytes32(&mut t, &pi.r2_t.encode());
    push_bytes32(&mut t, &pi.r3_t.encode());
    push_bytes32(&mut t, &pi.v_t.encode());
    push_bytes32(&mut t, &pi.e_t.encode());
    push_bytes32(&mut t, &pi.vx_t.encode());
    push_bytes32(&mut t, &pi.ex_t.encode());
    proof {
        assert(t@ =~= tx_transcript(*pi));
    }
    t
}

/// Prove that `masked_m = h^m` and `masked_x = g^(m*x)` are well-formed: the
/// returned proof carries the two outputs unchanged and passes every
/// verification equation.
pub fn zk_tx_prove(masked_m: GroupElt, masked_x: GroupElt, g: GroupElt, m: Scal, x: Scal) -> (r:
    TxAndProof)
    requires
        masked_m.dl() == mmul(group_hash_dl(h_label()), m.val()),
        masked_x.dl() == mmul(g.dl(), mmul(m.val(), x.val())),
    ensures
        r.r2 == masked_m,
        r.r3 == masked_x,
        zk_tx_check(r, g.dl()),
{
    let h = h_point();
    let u = u_point();
    let a = scalar_mul(&m, &x);

    // Auxiliary commitments for the multiplication gadget.
    let y = random_scalar();
    let t = random_scalar();
    let v = point_mul(&g, &y);
    let e = point_add(&point_mul(&u, &y), &point_mul(&g, &m));
    let vx = point_mul(&g, &t);
    let ex = point_add(&point_mul(&u, &t), &point_mul(&g, &a));

    // Blinded commitments.
    let m_t = random_scalar();
    let a_t = random_scalar();
    let y_t = random_scalar();
    let t_t = random_scalar();
    let r2_t = point_mul(&h, &m_t);
    let r3_t = point_mul(&g, &a_t);
    let v_t = point_mul(&g, &y_t);
    let e_t = point_add(&point_mul(&u, &y_t), &point_mul(&g, &m_t));
    let vx_t = point_mul(&g, &t_t);
    let ex_t = point_add(&point_mul(&u, &t_t), &point_mul(&g, &a_t));

    let mut pi = TxAndProof {
        r2: masked_m,
        r3: masked_x,
        v,
        e,
        vx,
        ex,
        r2_t,
        r3_t,
        v_t,
        e_t,
        vx_t,
        ex_t,
        m_z: m_t,
        a_z: a_t,
        y_z: y_t,
        t_z: t_t,
    };

    // Challenge and responses.
    let transcript = tx_transcript_bytes(&pi);
    let c = hash_to_scalar(&transcript);
    pi.m_z = scalar_add(&m_t, &scalar_mul(&m, &c));
    pi.a_z = scalar_add(&a_t, &scalar_mul(&a, &c));
    pi.y_z = scalar_add(&y_t, &scalar_mul(&y, &c));
    pi.t_z = scalar_add(&t_t, &scalar_mul(&t, &c));

    proof {
        // The responses do not enter the transcript, so the challenge the
        // verifier recomputes is the one the responses answer.
        assert(tx_transcript(pi) =~= transcript@);
        let cv = c.val();
        let hd = group_hash_dl(h_label());
        let ud = group_hash_dl(u_label());
        let gd = g.dl();
        lemma_sigma_linear(hd, m.val(), m_t.val(), cv);
        lemma_sigma_linear(gd, a.val(), a_t.val(), cv);
        lemma_sigma_linear(gd, y.val(), y_t.val(), cv);
        lemma_sigma_affine(ud, gd, y.val(), y_t.val(), m.val(), m_t.val(), cv);
        lemma_sigma_linear(gd, t.val(), t_t.val(), cv);
        lemma_sigma_affine(ud, gd, t.val(), t_t.val(), a.val(), a_t.val(), cv);
        assert(zk_tx_check(pi, g.dl()));
    }
    pi
}

/// Check the six verification equations of a transaction proof against the
/// base `g`; the result is exactly whether all six hold.
pub fn zk_tx_verify(pi: &TxAndProof, g: &GroupElt) -> (r: bool)
    ensures
        r == zk_tx_check(*pi, g.dl()),
{
    let h = h_point();
    let u = u_point();
    let transcript = tx_transcript_bytes(pi);
    let c = hash_to_scalar(&transcript);

    let check1 = crate::group::pt_eq(
        &point_mul(&h, &pi.m_z),
        &point_add(&pi.r2_t, &point_mul(&pi.r2, &c)),
    );
    let check2 = crate::group::pt_eq(
        &point_mul(g, &pi.a_z),
        &point_add(&pi.r3_t, &point_mul(&pi.r3, &c)),
    );
    let check3 = crate::group::pt_eq(
        &point_mul(g, &pi.y_z),
        &point_add(&pi.v_t, &point_mul(&pi.v, &c)),
    );
    let check4 = crate::group::pt_eq(
        &point_add(&point_mul(&u, &pi.y_z), &point_mul(g, &pi.m_z)),
        &point_add(&pi.e_t, &point_mul(&pi.e, &c)),
    );
    let check5 = crate::group::pt_eq(
        &point_mul(g, &pi.t_z),
        &point_add(&pi.vx_t, &point_mul(&pi.vx, &c)),
    );
    let check6 = crate::group::pt_eq(
        &point_add(&point_mul(&u, &pi.t_z), &point_mul(g, &pi.a_z)),
        &point_add(&pi.ex_t, &point_mul(&pi.ex, &c)),
    );

    check1 && check2 && check3 && check4 && check5 && check6
}

} // verus!
