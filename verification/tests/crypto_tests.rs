//! Tests of the cryptographic primitives: ElGamal round trips and
//! homomorphism, hybrid encryption, and baby-step giant-step recovery.

use loyalty_core::dlog::{create_dlog_table, dlog_base_g, elgamal_dec_amount};
use loyalty_core::elgamal::{add_ciphertexts, elgamal_dec, elgamal_enc, elgamal_enc_int, elgamal_keygen};
use loyalty_core::err::ProtocolError;
use loyalty_core::group::{base_mul, int_to_scalar, random_point};
use loyalty_core::hybrid::{decrypt, encrypt};

#[test]
fn elgamal_round_trip() {
    let (sk, pk) = elgamal_keygen();
    let p = random_point();
    let ct = elgamal_enc(&pk, &p);
    let d = elgamal_dec(&sk, &ct);
    assert_eq!(d.encode(), p.encode());
}

#[test]
fn elgamal_round_trip_fails_under_other_key() {
    let (_, pk) = elgamal_keygen();
    let (other_sk, _) = elgamal_keygen();
    let p = random_point();
    let ct = elgamal_enc(&pk, &p);
    let d = elgamal_dec(&other_sk, &ct);
    assert_ne!(d.encode(), p.encode());
}

#[test]
fn elgamal_amounts_add_homomorphically() {
    let table = create_dlog_table(100);
    let (sk, pk) = elgamal_keygen();
    let (ct3, _) = elgamal_enc_int(&pk, 3);
    let (ct4, _) = elgamal_enc_int(&pk, 4);
    let sum = add_ciphertexts(&ct3, &ct4);
    assert_eq!(elgamal_dec_amount(&table, &sk, &sum), Ok(7));
}

#[test]
fn hybrid_round_trip() {
    let (sk, pk) = elgamal_keygen();
    let m_bits: [u8; 32] = [7; 32];
    let base: [u8; 32] = [9; 32];
    let ct = encrypt(&pk, 17, &m_bits, &base).unwrap();
    let (m_out, x_out, base_out) = decrypt(&sk, &ct).unwrap();
    assert_eq!(m_out, m_bits);
    assert_eq!(x_out, 17);
    assert_eq!(base_out, base);
}

#[test]
fn hybrid_round_trip_negative_amount() {
    let (sk, pk) = elgamal_keygen();
    let m_bits: [u8; 32] = [0xAB; 32];
    let base: [u8; 32] = [0xCD; 32];
    let ct = encrypt(&pk, -3, &m_bits, &base).unwrap();
    let (m_out, x_out, base_out) = decrypt(&sk, &ct).unwrap();
    assert_eq!(m_out, m_bits);
    assert_eq!(x_out, -3);
    assert_eq!(base_out, base);
}

#[test]
fn hybrid_rejects_wrong_key() {
    let (_, pk) = elgamal_keygen();
    let (other_sk, _) = elgamal_keygen();
    let m_bits: [u8; 32] = [1; 32];
    let base: [u8; 32] = [2; 32];
    let ct = encrypt(&pk, 5, &m_bits, &base).unwrap();
    assert_eq!(decrypt(&other_sk, &ct), Err(ProtocolError::InvalidCiphertext));
}

#[test]
fn dlog_recovers_every_point_count_up_to_the_bound() {
    let table = create_dlog_table(100);
    let mut k: u32 = 0;
    while k <= 100 {
        let gx = base_mul(&int_to_scalar(k as i32));
        assert_eq!(dlog_base_g(&table, &gx), Ok(k as i32));
        k += 1;
    }
}

#[test]
fn dlog_rejects_beyond_the_bound() {
    let table = create_dlog_table(100);
    assert_eq!(table.max_points(), 100);
    let beyond = base_mul(&int_to_scalar(101));
    assert_eq!(dlog_base_g(&table, &beyond), Err(ProtocolError::OutOfRange));
    let far_beyond = base_mul(&int_to_scalar(121));
    assert_eq!(dlog_base_g(&table, &far_beyond), Err(ProtocolError::OutOfRange));
}

#[test]
fn dlog_large_table_spot_checks() {
    let table = create_dlog_table(loyalty_core::MAX_POINTS);
    for k in [0i32, 1, 316, 317, 99999, 100000] {
        let gx = base_mul(&int_to_scalar(k));
        assert_eq!(dlog_base_g(&table, &gx), Ok(k));
    }
}
