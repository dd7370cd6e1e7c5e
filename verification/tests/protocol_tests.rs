//! End-to-end tests of the protocol state machine: the four-message
//! transaction, receipt delivery and replay rejection, commitment binding,
//! balance conservation, and settlement.

use loyalty_core::client::Client;
use loyalty_core::err::ProtocolError;
use loyalty_core::group::{base_mul, scalar_from_u32};
use loyalty_core::server::{Server, ServerReceipt};

/// Run one full transaction from `shopper` for `points`, retrying the
/// barcode swap until the drawn owner is `want_owner`. Returns nothing; the
/// effects live in the server and client state.
fn run_tx(server: &mut Server, shopper: &mut Client, shopper_uid: u32, want_owner: u32, points: i32) {
    for _ in 0..200 {
        let com = shopper.process_tx_hello().unwrap();
        let i_s = server.process_tx_hello_response(com, shopper_uid).unwrap();
        let (i_c, r) = shopper.process_tx_compute_id(i_s, com).unwrap();
        let (uid_b, barcode, pk_b, base, pi) = server.process_tx_barcode_gen(i_c, r, com).unwrap();
        if uid_b != want_owner {
            // Abandon this session and draw fresh indices.
            continue;
        }
        let (ct, tx) = shopper.process_tx(&pi, barcode, points, &pk_b, base, com).unwrap();
        let sigma = server.process_tx(ct, tx, com).unwrap();
        shopper.process_tx_coda(sigma, com).unwrap();
        return;
    }
    panic!("the barcode swap never drew the wanted owner");
}

fn two_user_system() -> (Server, Client, Client) {
    let mut server = Server::new();
    let mut c0 = Client::new(111);
    let mut c1 = Client::new(222);
    let (b0, pk0) = c0.register_with_server();
    let uid0 = server.register_user(b0, &pk0);
    let (b1, pk1) = c1.register_with_server();
    let uid1 = server.register_user(b1, &pk1);
    assert_eq!(uid0, 0);
    assert_eq!(uid1, 1);
    let (num, root, _vk) = server.share_state();
    c0.update_state(0, num, root);
    c1.update_state(1, num, root);
    (server, c0, c1)
}

#[test]
fn one_transaction_updates_both_balances() {
    let (mut server, mut c0, mut c1) = two_user_system();
    run_tx(&mut server, &mut c0, 0, 1, 17);
    assert_eq!(c0.balance(), 17);

    // Deliver the receipt to the barcode owner.
    let delivered = server.send_receipts(1);
    assert_eq!(delivered.len(), 1);
    let (rct, sigma) = &delivered[0];
    c1.process_receipt(rct, *sigma).unwrap();
    assert_eq!(c1.balance(), -17);

    // Plaintext-level conservation: the deltas cancel.
    assert_eq!(c0.balance() + c1.balance(), 0);

    // Group-element-level conservation: the stored balances cancel.
    let b0 = server.user_balance(0);
    let b1 = server.user_balance(1);
    let sum = loyalty_core::group::point_add(&b0, &b1);
    let identity = base_mul(&scalar_from_u32(0));
    assert_eq!(sum.encode(), identity.encode());
}

#[test]
fn both_sides_settle_after_two_transactions() {
    let (mut server, mut c0, mut c1) = two_user_system();
    run_tx(&mut server, &mut c0, 0, 1, 5);
    run_tx(&mut server, &mut c0, 0, 1, -3);
    assert_eq!(c0.balance(), 2);

    let delivered = server.send_receipts(1);
    assert_eq!(delivered.len(), 2);
    for (rct, sigma) in &delivered {
        c1.process_receipt(rct, *sigma).unwrap();
    }
    assert_eq!(c1.balance(), -2);

    // The shopper settles a claimed balance of 2.
    let (x0, hms0, bases0, sigmas0, pi0) = c0.settle_balance();
    assert_eq!(x0, 2);
    assert!(server.settle_balance(0, x0, &hms0, &bases0, &sigmas0, &pi0));

    // The barcode owner settles the mirrored -2.
    let (x1, hms1, bases1, sigmas1, pi1) = c1.settle_balance();
    assert_eq!(x1, -2);
    assert!(server.settle_balance(1, x1, &hms1, &bases1, &sigmas1, &pi1));

    // A padded claim is rejected.
    assert!(!server.settle_balance(0, x0 + 1, &hms0, &bases0, &sigmas0, &pi0));
}

#[test]
fn settlement_rejects_swapped_user() {
    let (mut server, mut c0, mut c1) = two_user_system();
    run_tx(&mut server, &mut c0, 0, 1, 7);
    let delivered = server.send_receipts(1);
    for (rct, sigma) in &delivered {
        c1.process_receipt(rct, *sigma).unwrap();
    }
    let (x0, hms0, bases0, sigmas0, pi0) = c0.settle_balance();
    // The proof is for user 0's balance; user 1's stored balance differs.
    assert!(!server.settle_balance(1, x0, &hms0, &bases0, &sigmas0, &pi0));
}

#[test]
fn replayed_receipt_rejected() {
    let (mut server, mut c0, mut c1) = two_user_system();
    run_tx(&mut server, &mut c0, 0, 1, 4);
    let delivered = server.send_receipts(1);
    let (rct, sigma) = &delivered[0];
    assert_eq!(c1.process_receipt(rct, *sigma), Ok(()));
    assert_eq!(c1.process_receipt(rct, *sigma), Err(ProtocolError::ReplayedMask));
    assert_eq!(c1.balance(), -4);
}

#[test]
fn receipt_for_wrong_recipient_rejected() {
    let (mut server, mut c0, mut c1) = two_user_system();
    run_tx(&mut server, &mut c0, 0, 1, 4);
    let delivered = server.send_receipts(1);
    let (rct, sigma) = &delivered[0];
    // The shopper cannot open a receipt encrypted to the owner.
    assert_eq!(c0.process_receipt(rct, *sigma), Err(ProtocolError::InvalidCiphertext));
    let _ = c1;
}

#[test]
fn send_receipts_drains_the_queue() {
    let (mut server, mut c0, _c1) = two_user_system();
    run_tx(&mut server, &mut c0, 0, 1, 4);
    assert_eq!(server.send_receipts(1).len(), 1);
    assert_eq!(server.send_receipts(1).len(), 0);
}

#[test]
fn invalid_commit_opening_rejected() {
    let mut server = Server::new();
    let mut c0 = Client::new(1);
    let (b0, pk0) = c0.register_with_server();
    server.register_user(b0, &pk0);
    let (num, root, _) = server.share_state();
    c0.update_state(0, num, root);

    // A commitment that is just the hash of an unrelated string never
    // reopens to any (index, blinding) pair the caller supplies.
    let com: [u8; 32] = loyalty_core::group::sha256(&vec![0x61u8]);
    server.process_tx_hello_response(com, 0).unwrap();
    let r: [u8; 32] = [5; 32];
    match server.process_tx_barcode_gen(3, r, com) {
        Err(ProtocolError::InvalidCommit) => (),
        other => panic!("expected the commitment to be rejected, got {:?}", other.is_ok()),
    }
}

#[test]
fn duplicate_commitment_rejected() {
    let mut server = Server::new();
    let c = Client::new(1);
    let (b, pk) = c.register_with_server();
    server.register_user(b, &pk);
    let com: [u8; 32] = [0x42; 32];
    assert!(server.process_tx_hello_response(com, 0).is_ok());
    assert_eq!(server.process_tx_hello_response(com, 0), Err(ProtocolError::InvalidCommit));
}

#[test]
fn hello_with_empty_registry_rejected() {
    let mut server = Server::new();
    let com: [u8; 32] = [1; 32];
    assert_eq!(server.process_tx_hello_response(com, 0), Err(ProtocolError::EmptyRegistry));
}

#[test]
fn unknown_session_rejected() {
    let mut server = Server::new();
    let c = Client::new(1);
    let (b, pk) = c.register_with_server();
    server.register_user(b, &pk);
    let com: [u8; 32] = [9; 32];
    let r: [u8; 32] = [0; 32];
    assert_eq!(
        server.process_tx_barcode_gen(0, r, com).err(),
        Some(ProtocolError::UnknownSession)
    );
}

#[test]
fn tampered_transaction_proof_rejected_by_server() {
    let (mut server, mut c0, _c1) = two_user_system();
    for _ in 0..200 {
        let com = c0.process_tx_hello().unwrap();
        let i_s = server.process_tx_hello_response(com, 0).unwrap();
        let (i_c, r) = c0.process_tx_compute_id(i_s, com).unwrap();
        let (uid_b, barcode, pk_b, base, pi) = server.process_tx_barcode_gen(i_c, r, com).unwrap();
        if uid_b != 1 {
            continue;
        }
        let (ct, tx) = c0.process_tx(&pi, barcode, 17, &pk_b, base, com).unwrap();
        // Swap the two masked outputs before handing the proof over.
        let tampered = loyalty_core::sigma_tx::TxAndProof { r2: tx.r3, r3: tx.r2, ..tx };
        assert_eq!(server.process_tx(ct, tampered, com), Err(ProtocolError::InvalidProof));
        return;
    }
    panic!("the barcode swap never drew the wanted owner");
}

#[test]
fn receipt_delivery_roundtrip_preserves_contents() {
    let (mut server, mut c0, _c1) = two_user_system();
    run_tx(&mut server, &mut c0, 0, 1, 4);
    let delivered: Vec<(ServerReceipt, [u8; 64])> = server.send_receipts(1);
    assert_eq!(delivered.len(), 1);
    // The delivered receipt carries the base the transaction was run under.
    assert_eq!(delivered[0].0.base.len(), 32);
}

#[test]
fn settlement_with_tampered_signature_rejected() {
    let (mut server, mut c0, mut c1) = two_user_system();
    run_tx(&mut server, &mut c0, 0, 1, 7);
    let delivered = server.send_receipts(1);
    for (rct, sigma) in &delivered {
        c1.process_receipt(rct, *sigma).unwrap();
    }
    let (x1, hms1, bases1, mut sigmas1, pi1) = c1.settle_balance();
    assert!(server.settle_balance(1, x1, &hms1, &bases1, &sigmas1, &pi1));
    sigmas1[0][0] ^= 1;
    assert!(!server.settle_balance(1, x1, &hms1, &bases1, &sigmas1, &pi1));
}

#[test]
fn replayed_transact_step_rejected() {
    let (mut server, mut c0, _c1) = two_user_system();
    for _ in 0..200 {
        let com = c0.process_tx_hello().unwrap();
        let i_s = server.process_tx_hello_response(com, 0).unwrap();
        let (i_c, r) = c0.process_tx_compute_id(i_s, com).unwrap();
        let (uid_b, barcode, pk_b, base, pi) = server.process_tx_barcode_gen(i_c, r, com).unwrap();
        if uid_b != 1 {
            continue;
        }
        let (ct, tx) = c0.process_tx(&pi, barcode, 9, &pk_b, base, com).unwrap();
        let ct2 = loyalty_core::hybrid::HybridCt { elg: ct.elg, sym: ct.sym.clone(), nonce: ct.nonce };
        assert!(server.process_tx(ct, tx, com).is_ok());
        // The session is discarded with the first transact; replaying the
        // same message cannot move the balances again.
        assert_eq!(server.process_tx(ct2, tx, com), Err(ProtocolError::UnknownSession));
        return;
    }
    panic!("the barcode swap never drew the wanted owner");
}

#[test]
fn client_hello_with_empty_registry_rejected() {
    let mut c = Client::new(7);
    // A snapshot claiming an empty registry makes the index draw undefined.
    c.update_state(0, 0, [0; 32]);
    assert_eq!(c.process_tx_hello(), Err(ProtocolError::EmptyRegistry));
    let com: [u8; 32] = [2; 32];
    assert_eq!(c.process_tx_compute_id(5, com), Err(ProtocolError::EmptyRegistry));
}
