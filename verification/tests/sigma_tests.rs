//! Tests of the Sigma-protocols: completeness of the transaction and
//! settlement arguments, rejection of tampered proofs, and the semi-honest
//! equality and decryption arguments.

use loyalty_core::elgamal::{elgamal_enc_int, elgamal_keygen};
use loyalty_core::group::{
    base_mul, h_point, hash_to_point, int_to_scalar, point_add, point_mul, random_scalar,
    scalar_from_bytes, scalar_from_u32, scalar_mul, scalar_neg, GroupElt, Scal,
};
use loyalty_core::sigma_settle::{zk_settle_prove, zk_settle_verify, SettleProof};
use loyalty_core::dlog::create_dlog_table;
use loyalty_core::err::ProtocolError;
use loyalty_core::sigma_sh::{
    settle_balance_semi_honest, zk_ct_dec_prove, zk_ct_dec_verify, zk_ct_eq_prove, zk_ct_eq_verify,
    CompressedTxCiphertextData,
};
use loyalty_core::sigma_tx::{zk_tx_prove, zk_tx_verify, TxAndProof};

fn honest_tx_proof(points: i32, base: &[u8; 32]) -> (TxAndProof, GroupElt) {
    let m = random_scalar();
    let x = int_to_scalar(points);
    let g = hash_to_point(base.as_slice());
    let hm = point_mul(&h_point(), &m);
    let gmx = point_mul(&g, &scalar_mul(&m, &x));
    (zk_tx_prove(hm, gmx, g, m, x), g)
}

#[test]
fn zk_tx_honest_proof_verifies() {
    let base: [u8; 32] = [3; 32];
    let (pi, g) = honest_tx_proof(17, &base);
    assert!(zk_tx_verify(&pi, &g));
}

#[test]
fn zk_tx_honest_proof_verifies_negative_amount() {
    let base: [u8; 32] = [4; 32];
    let (pi, g) = honest_tx_proof(-9, &base);
    assert!(zk_tx_verify(&pi, &g));
}

fn tamper_scalar(s: &Scal) -> Scal {
    let mut b = s.encode();
    b[0] ^= 1;
    scalar_from_bytes(&b)
}

#[test]
fn zk_tx_tampered_response_rejected() {
    let base: [u8; 32] = [5; 32];
    let (pi, g) = honest_tx_proof(17, &base);
    let tampered = TxAndProof { m_z: tamper_scalar(&pi.m_z), ..pi };
    assert!(!zk_tx_verify(&tampered, &g));
    let tampered = TxAndProof { a_z: tamper_scalar(&pi.a_z), ..pi };
    assert!(!zk_tx_verify(&tampered, &g));
    let tampered = TxAndProof { y_z: tamper_scalar(&pi.y_z), ..pi };
    assert!(!zk_tx_verify(&tampered, &g));
    let tampered = TxAndProof { t_z: tamper_scalar(&pi.t_z), ..pi };
    assert!(!zk_tx_verify(&tampered, &g));
}

#[test]
fn zk_tx_tampered_point_rejected() {
    let base: [u8; 32] = [6; 32];
    let (pi, g) = honest_tx_proof(17, &base);
    // Swapping two commitment points changes the transcript and breaks the
    // equations.
    let tampered = TxAndProof { v: pi.e, e: pi.v, ..pi };
    assert!(!zk_tx_verify(&tampered, &g));
    let tampered = TxAndProof { r2: pi.r3, r3: pi.r2, ..pi };
    assert!(!zk_tx_verify(&tampered, &g));
}

#[test]
fn zk_tx_wrong_base_rejected() {
    let base: [u8; 32] = [7; 32];
    let (pi, _) = honest_tx_proof(17, &base);
    let other: [u8; 32] = [8; 32];
    let wrong_g = hash_to_point(other.as_slice());
    assert!(!zk_tx_verify(&pi, &wrong_g));
}

struct SettleFixture {
    x_claim: i32,
    bal: GroupElt,
    hms: Vec<GroupElt>,
    gs: Vec<GroupElt>,
    xs: Vec<Scal>,
    ms: Vec<Scal>,
}

fn honest_settle_inputs(amounts: &[i32]) -> SettleFixture {
    let mut x_claim: i32 = 0;
    let mut bal = base_mul(&scalar_from_u32(0));
    let mut hms = Vec::new();
    let mut gs = Vec::new();
    let mut xs = Vec::new();
    let mut ms = Vec::new();
    for (k, amount) in amounts.iter().enumerate() {
        let m = random_scalar();
        let x = int_to_scalar(*amount);
        let base: [u8; 32] = [k as u8 + 10; 32];
        let g = hash_to_point(base.as_slice());
        hms.push(point_mul(&h_point(), &m));
        bal = point_add(&bal, &point_mul(&g, &scalar_mul(&x, &m)));
        gs.push(g);
        xs.push(x);
        ms.push(m);
        x_claim += *amount;
    }
    SettleFixture { x_claim, bal, hms, gs, xs, ms }
}

#[test]
fn zk_settle_honest_proof_verifies() {
    let f = honest_settle_inputs(&[5, -3]);
    assert_eq!(f.x_claim, 2);
    let pi = zk_settle_prove(f.x_claim, &f.bal, &f.hms, &f.gs, &f.xs, &f.ms);
    assert!(zk_settle_verify(f.x_claim, &f.bal, &f.hms, &f.gs, &pi));
}

#[test]
fn zk_settle_empty_batch_verifies() {
    let f = honest_settle_inputs(&[]);
    let pi = zk_settle_prove(0, &f.bal, &f.hms, &f.gs, &f.xs, &f.ms);
    assert!(zk_settle_verify(0, &f.bal, &f.hms, &f.gs, &pi));
}

#[test]
fn zk_settle_flipped_amount_response_rejected() {
    let f = honest_settle_inputs(&[5, -3]);
    let pi = zk_settle_prove(f.x_claim, &f.bal, &f.hms, &f.gs, &f.xs, &f.ms);
    let mut blocks = pi.blocks;
    let flipped = scalar_neg(&blocks[0].x_z);
    blocks[0].x_z = flipped;
    let tampered = SettleProof { b1_t: pi.b1_t, b2_t: pi.b2_t, blocks };
    assert!(!zk_settle_verify(f.x_claim, &f.bal, &f.hms, &f.gs, &tampered));
}

#[test]
fn zk_settle_wrong_claim_rejected() {
    let f = honest_settle_inputs(&[5, -3]);
    let pi = zk_settle_prove(f.x_claim, &f.bal, &f.hms, &f.gs, &f.xs, &f.ms);
    assert!(!zk_settle_verify(f.x_claim + 1, &f.bal, &f.hms, &f.gs, &pi));
}

#[test]
fn zk_settle_cross_base_aggregation_depends_on_bases() {
    // With two distinct per-transaction bases, the cross-base aggregate is a
    // sum of group elements; evaluating it over swapped bases must fail,
    // which a scalar-collapsed aggregate could not detect.
    let f = honest_settle_inputs(&[5, -3]);
    let pi = zk_settle_prove(f.x_claim, &f.bal, &f.hms, &f.gs, &f.xs, &f.ms);
    let swapped = vec![f.gs[1], f.gs[0]];
    assert!(!zk_settle_verify(f.x_claim, &f.bal, &f.hms, &swapped, &pi));
}

#[test]
fn zk_ct_eq_honest_proof_verifies() {
    let (_, pk_s) = elgamal_keygen();
    let (_, pk_b) = elgamal_keygen();
    let (ct_s, y_s) = elgamal_enc_int(&pk_s, -5);
    let (ct_b, y_b) = elgamal_enc_int(&pk_b, 5);
    let shopper = CompressedTxCiphertextData::new(ct_s, y_s, -5, pk_s);
    let barcode = CompressedTxCiphertextData::new(ct_b, y_b, 5, pk_b);
    let pi = zk_ct_eq_prove(&shopper, &barcode);
    assert!(zk_ct_eq_verify(&pi));
}

#[test]
fn zk_ct_eq_unbalanced_amounts_rejected() {
    let (_, pk_s) = elgamal_keygen();
    let (_, pk_b) = elgamal_keygen();
    let (ct_s, y_s) = elgamal_enc_int(&pk_s, -5);
    let (ct_b, y_b) = elgamal_enc_int(&pk_b, 6);
    let shopper = CompressedTxCiphertextData::new(ct_s, y_s, -5, pk_s);
    let barcode = CompressedTxCiphertextData::new(ct_b, y_b, 6, pk_b);
    let pi = zk_ct_eq_prove(&shopper, &barcode);
    assert!(!zk_ct_eq_verify(&pi));
}

#[test]
fn zk_ct_dec_honest_proof_verifies() {
    let (sk, pk) = elgamal_keygen();
    let (ct, _) = elgamal_enc_int(&pk, 42);
    let pi = zk_ct_dec_prove(&ct, 42, &sk, &pk);
    assert!(zk_ct_dec_verify(&pi));
}

#[test]
fn zk_ct_dec_wrong_amount_rejected() {
    let (sk, pk) = elgamal_keygen();
    let (ct, _) = elgamal_enc_int(&pk, 42);
    let pi = zk_ct_dec_prove(&ct, 41, &sk, &pk);
    assert!(!zk_ct_dec_verify(&pi));
}

#[test]
fn semi_honest_settlement_opens_and_proves() {
    let table = create_dlog_table(100);
    let (sk, pk) = elgamal_keygen();
    let (ct, _) = elgamal_enc_int(&pk, 64);
    let (pt, pi) = settle_balance_semi_honest(&table, &sk, &pk, &ct).unwrap();
    assert_eq!(pt, 64);
    assert!(zk_ct_dec_verify(&pi));
}

#[test]
fn semi_honest_settlement_rejects_balance_beyond_bound() {
    let table = create_dlog_table(100);
    let (sk, pk) = elgamal_keygen();
    let (ct, _) = elgamal_enc_int(&pk, 4000);
    assert!(matches!(
        settle_balance_semi_honest(&table, &sk, &pk, &ct),
        Err(ProtocolError::OutOfRange)
    ));
}

#[test]
fn semi_honest_transaction_moves_encrypted_points() {
    let table = create_dlog_table(100);
    let (sk0, pk0) = elgamal_keygen();
    let (sk1, pk1) = elgamal_keygen();
    let (mut bal0, _) = elgamal_enc_int(&pk0, 0);
    let (mut bal1, _) = elgamal_enc_int(&pk1, 0);

    let (cts, ctb, pi) = loyalty_core::sigma_sh::sh_transact(&pk0, &pk1, 17);
    assert!(zk_ct_eq_verify(&pi));
    bal0 = loyalty_core::elgamal::add_ciphertexts(&bal0, &cts);
    bal1 = loyalty_core::elgamal::add_ciphertexts(&bal1, &ctb);

    // The shopper's encrypted balance opens to the spent points; the owner's
    // moved below zero, outside what the non-negative recovery reaches.
    assert_eq!(
        loyalty_core::dlog::elgamal_dec_amount(&table, &sk0, &bal0),
        Ok(17)
    );
    assert!(matches!(
        loyalty_core::dlog::elgamal_dec_amount(&table, &sk1, &bal1),
        Err(ProtocolError::OutOfRange)
    ));
}
