//! The server's side of the protocol: the user registry backed by the
//! Merkle ledger, per-session transaction state keyed by the shopper's
//! commitment, balance upkeep, receipt storage and settlement checking.

use crate::bytes::{bytes32_eq, push_bytes32, u32_le, u32_to_le};
use crate::err::ProtocolError;
use crate::group::{
    base_mul, group_hash_dl, hash_to_point, madd, mneg, point_add, point_mul, scalar_from_u32,
    sha256, sha256_of, GroupElt,
};
use crate::hybrid::HybridCt;
use crate::merkle::{
    hash_tree_entry, leaf_of, merkle_commit, merkle_committed, merkle_insert, merkle_new,
    merkle_pending, merkle_proof, merkle_root, merkle_root_of, mk_verify_ok, proof_hashes,
    LedgerProof, LedgerTree,
};
use crate::rng::{random_bytes32, random_index};
use crate::sig::{ed_verifies, ed_vk_of, receipt_msg, sign_receipt, signature_keygen, verify_receipt};
use crate::sigma_settle::{settle_check, zk_settle_verify, SettleProof};
use crate::sigma_tx::{zk_tx_check, zk_tx_verify, TxAndProof};
use vstd::prelude::*;

verus! {

/// The server's record of one registered user.
pub struct UserRecord {
    /// The user's loyalty barcode.
    pub barcode: u64,
    /// The stored balance: a group element accumulating each transaction's
    /// masked amount, added for the shopper and subtracted for the owner.
    pub balance: GroupElt,
    /// The user's encryption public key.
    pub pk_enc: GroupElt,
}

/// The server's state for one in-progress transaction.
pub struct ServerSession {
    /// The shopper who opened the transaction.
    pub uid_s: u32,
    /// The server's random index for the barcode swap.
    pub i_s: u32,
    /// The barcode owner, fixed when the commitment is opened.
    pub uid_b: Option<u32>,
    /// The per-transaction base nonce, fixed when the commitment is opened.
    pub base: Option<[u8; 32]>,
}

/// A stored receipt awaiting delivery to its barcode owner.
pub struct ServerReceipt {
    /// The hybrid ciphertext carrying the mask, amount and base.
    pub ct: HybridCt,
    /// The transaction's outputs and proof.
    pub tx: TxAndProof,
    /// The transaction's base nonce.
    pub base: [u8; 32],
}

/// The commitment a client-chosen index and blinding open to.
pub open spec fn com_of(i_c: u32, r: Seq<u8>) -> Seq<u8> {
    sha256_of(u32_le(i_c) + r)
}

/// Whether a session keyed by this commitment exists.
pub open spec fn has_com(s: Seq<([u8; 32], ServerSession)>, com: Seq<u8>) -> bool {
    exists|i: int| 0 <= i < s.len() && (#[trigger] s[i]).0@ == com
}

/// Whether a session has been through the commitment opening and carries a
/// barcode owner and base.
pub open spec fn session_ready(s: ServerSession) -> bool {
    s.uid_b is Some && s.base is Some
}

/// The discrete logarithms of the per-transaction bases, derived by hashing
/// each to the group.
pub open spec fn base_dls(bases: Seq<[u8; 32]>) -> Seq<nat> {
    Seq::new(bases.len(), |k: int| group_hash_dl(bases[k]@))
}

/// The protocol server.
pub struct Server {
    num_users: u32,
    sk: [u8; 32],
    vk: [u8; 32],
    users: Vec<UserRecord>,
    receipts: Vec<Vec<ServerReceipt>>,
    tree: LedgerTree,
    sessions: Vec<([u8; 32], ServerSession)>,
}

impl Server {
    /// The registered users, by user id.
    pub closed spec fn users_view(self) -> Seq<UserRecord> {
        self.users@
    }

    /// The number of registered users.
    pub closed spec fn num(self) -> nat {
        self.num_users as nat
    }

    /// The server's signature verification key.
    pub closed spec fn vk_view(self) -> Seq<u8> {
        self.vk@
    }

    /// The stored receipts, by barcode-owner user id.
    pub closed spec fn receipts_view(self) -> Seq<Seq<ServerReceipt>> {
        Seq::new(self.receipts@.len(), |i: int| self.receipts@[i]@)
    }

    /// The open sessions, in creation order.
    pub closed spec fn sessions_view(self) -> Seq<([u8; 32], ServerSession)> {
        self.sessions@
    }

    /// The Merkle leaves the registry determines: one per user, in order.
    pub open spec fn ledger_view(self) -> Seq<Seq<u8>> {
        Seq::new(self.num(), |i: int| leaf_of(
            i as u32,
            self.users_view()[i].barcode,
            self.users_view()[i].pk_enc.enc(),
        ))
    }

    /// Well-formedness of the server: the registry, receipt store and
    /// ledger line up, the verifying key matches the signing key, and the
    /// sessions are uniquely keyed and in range.
    pub closed spec fn wf(self) -> bool {
        &&& self.users@.len() == self.num_users
        &&& self.receipts@.len() == self.num_users
        &&& self.vk@ == ed_vk_of(self.sk@)
        &&& merkle_pending(self.tree) == merkle_committed(self.tree)
        &&& merkle_committed(self.tree) == self.ledger_view()
        &&& forall|i: int, j: int|
            0 <= i < j < self.sessions@.len() ==> (#[trigger] self.sessions@[i]).0@ != (
            #[trigger] self.sessions@[j]).0@
        &&& forall|i: int|
            0 <= i < self.sessions@.len() ==> {
                let s = (#[trigger] self.sessions@[i]).1;
                &&& s.uid_s < self.num_users
                &&& s.i_s < self.num_users
                &&& (s.uid_b matches Some(u) ==> u < self.num_users)
            }
    }

    /// Find the session keyed by a commitment.
    fn find_session(&self, com: &[u8; 32]) -> (r: Option<usize>)
        ensures
            r matches Some(i) ==> i < self.sessions_view().len() && self.sessions_view()[i as int].0@ == com@,
            r is None ==> !has_com(self.sessions_view(), com@),
    {
        let n = self.sessions.len();
        let mut i: usize = 0;
        while i < n
            invariant
                n == self.sessions@.len(),
                0 <= i <= n,
                forall|j: int| 0 <= j < i ==> (#[trigger] self.sessions@[j]).0@ != com@,
            decreases n - i,
        {
            if bytes32_eq(&self.sessions[i].0, com) {
                return Some(i);
            }
            i = i + 1;
        }
        None
    }

    /// Start a server with a fresh signing keypair, an empty registry and an
    /// empty ledger.
    pub fn new() -> (s: Server)
        ensures
            s.wf(),
            s.num() == 0,
            s.users_view().len() == 0,
            s.receipts_view().len() == 0,
            s.sessions_view().len() == 0,
    {
        let keys = signature_keygen();
        let s = Server {
            num_users: 0,
            sk: keys.0,
            vk: keys.1,
            users: Vec::new(),
            receipts: Vec::new(),
            tree: merkle_new(),
            sessions: Vec::new(),
        };
        proof {
            assert(s.ledger_view() =~= Seq::<Seq<u8>>::empty());
        }
        s
    }

    /// Register a user: append the record with a zero balance, extend the
    /// Merkle ledger with its leaf, and open an empty receipt queue.
    pub fn register_user(&mut self, barcode: u64, pk_enc: &GroupElt) -> (uid: u32)
        requires
            old(self).wf(),
            old(self).num() < 0xFFFFFFFF,
        ensures
            final(self).wf(),
            uid == old(self).num(),
            final(self).num() == old(self).num() + 1,
            final(self).users_view().len() == old(self).users_view().len() + 1,
            forall|i: int|
                0 <= i < old(self).users_view().len() ==> final(self).users_view()[i] == old(self).users_view()[i],
            final(self).users_view()[uid as int].barcode == barcode,
            final(self).users_view()[uid as int].pk_enc == *pk_enc,
            final(self).users_view()[uid as int].balance.dl() == 0,
            final(self).receipts_view() == old(self).receipts_view().push(
                Seq::<ServerReceipt>::empty(),
            ),
            final(self).sessions_view() == old(self).sessions_view(),
            final(self).vk_view() == old(self).vk_view(),
    {
        let uid = self.num_users;
        let zero_bal = base_mul(&scalar_from_u32(0));
        let rec = UserRecord { barcode, balance: zero_bal, pk_enc: *pk_enc };
        let leaf = hash_tree_entry(uid, barcode, &pk_enc.encode());
        self.users.push(rec);
        merkle_insert(&mut self.tree, &leaf);
        merkle_commit(&mut self.tree);
        self.receipts.push(Vec::new());
        self.num_users = self.num_users + 1;
        proof {
            assert(merkle_committed(self.tree) =~= self.ledger_view());
            assert(final(self).receipts_view() =~= old(self).receipts_view().push(
                Seq::<ServerReceipt>::empty(),
            ));
        }
        uid
    }

    /// Publish the registry size, the ledger root and the verifying key.
    pub fn share_state(&self) -> (r: (u32, [u8; 32], [u8; 32]))
        requires
            self.wf(),
            self.num() > 0,
        ensures
            r.0 == self.num(),
            r.1@ == merkle_root_of(self.ledger_view()),
            r.2@ == self.vk_view(),
    {
        let root = match merkle_root(&self.tree) {
            Some(root) => root,
            None => {
                proof {
                    assert(false);
                }
                [0; 32]
            },
        };
        (self.num_users, root, self.vk)
    }

    /// Answer a transaction's hello: draw the server's swap index and open a
    /// session under the shopper's commitment. An empty registry, an unknown
    /// shopper or a commitment that collides with an open session is
    /// rejected.
    pub fn process_tx_hello_response(&mut self, com: [u8; 32], uid_s: u32) -> (r: Result<
        u32,
        ProtocolError,
    >)
        requires
            old(self).wf(),
        ensures
            final(self).wf(),
            r is Ok <==> (old(self).num() > 0 && uid_s < old(self).num() && !has_com(
                old(self).sessions_view(),
                com@,
            )),
            r matches Ok(i_s) ==> i_s < old(self).num() && final(self).sessions_view() == old(self).sessions_view().push(
                (com, ServerSession { uid_s, i_s, uid_b: None, base: None }),
            ),
            r == Err::<u32, ProtocolError>(ProtocolError::EmptyRegistry) <==> old(self).num() == 0,
            r == Err::<u32, ProtocolError>(ProtocolError::UnknownSession) <==> (old(self).num() > 0
                && uid_s >= old(self).num()),
            r == Err::<u32, ProtocolError>(ProtocolError::InvalidCommit) <==> (old(self).num() > 0
                && uid_s < old(self).num() && has_com(old(self).sessions_view(), com@)),
            r is Err ==> *final(self) == *old(self),
            final(self).users_view() == old(self).users_view(),
            final(self).receipts_view() == old(self).receipts_view(),
            final(self).num() == old(self).num(),
            final(self).vk_view() == old(self).vk_view(),
    {
        if self.num_users == 0 {
            return Err(ProtocolError::EmptyRegistry);
        }
        if uid_s >= self.num_users {
            return Err(ProtocolError::UnknownSession);
        }
        if let Some(_) = self.find_session(&com) {
            return Err(ProtocolError::InvalidCommit);
        }
        let i_s = random_index(self.num_users);
        let session = ServerSession { uid_s, i_s, uid_b: None, base: None };
        self.sessions.push((com, session));
        Ok(i_s)
    }

    /// Open the shopper's commitment: check that the index and blinding
    /// hash back to the session's commitment, fix the barcode owner as the
    /// sum of the two indices modulo the registry size, draw the
    /// per-transaction base, and return the owner's record with an inclusion
    /// proof for its ledger leaf.
    pub fn process_tx_barcode_gen(&mut self, i_c: u32, r_open: [u8; 32], tx_id: [u8; 32]) -> (r:
        Result<(u32, u64, GroupElt, [u8; 32], LedgerProof), ProtocolError>)
        requires
            old(self).wf(),
        ensures
            final(self).wf(),
            r == Err::<(u32, u64, GroupElt, [u8; 32], LedgerProof), ProtocolError>(
                ProtocolError::UnknownSession,
            ) <==> !has_com(old(self).sessions_view(), tx_id@),
            r == Err::<(u32, u64, GroupElt, [u8; 32], LedgerProof), ProtocolError>(
                ProtocolError::InvalidCommit,
            ) <==> (has_com(old(self).sessions_view(), tx_id@) && com_of(i_c, r_open@) != tx_id@),
            r is Ok <==> (has_com(old(self).sessions_view(), tx_id@) && com_of(i_c, r_open@)
                == tx_id@),
            r matches Ok((uid_b, barcode, pk_b, base, pi)) ==> forall|i: int|
                0 <= i < old(self).sessions_view().len() && (#[trigger] old(self).sessions_view()[i]).0@ == tx_id@ ==> {
                    let old_s = old(self).sessions_view()[i].1;
                    &&& uid_b == (i_c + old_s.i_s) as int % (old(self).num() as int)
                    &&& barcode == old(self).users_view()[uid_b as int].barcode
                    &&& pk_b == old(self).users_view()[uid_b as int].pk_enc
                    &&& mk_verify_ok(
                        merkle_root_of(old(self).ledger_view()),
                        uid_b as int,
                        leaf_of(uid_b, barcode, pk_b.enc()),
                        old(self).num() as int,
                        proof_hashes(pi),
                    )
                    &&& final(self).sessions_view() == old(self).sessions_view().update(
                        i,
                        (
                            tx_id,
                            ServerSession {
                                uid_s: old_s.uid_s,
                                i_s: old_s.i_s,
                                uid_b: Some(uid_b),
                                base: Some(base),
                            },
                        ),
                    )
                },
            r is Err ==> *final(self) == *old(self),
            final(self).users_view() == old(self).users_view(),
            final(self).receipts_view() == old(self).receipts_view(),
            final(self).num() == old(self).num(),
            final(self).vk_view() == old(self).vk_view(),
    {
        let idx = match self.find_session(&tx_id) {
            Some(idx) => idx,
            None => {
                return Err(ProtocolError::UnknownSession);
            },
        };

        // Recompute the commitment and reject a mismatch.
        let mut com_src: Vec<u8> = Vec::new();
        let i_c_le = u32_to_le(i_c);
        com_src.extend_from_slice(i_c_le.as_slice());
        push_bytes32(&mut com_src, &r_open);
        proof {
            assert(com_src@ =~= u32_le(i_c) + r_open@);
        }
        let com_test = sha256(&com_src);
        if !bytes32_eq(&com_test, &tx_id) {
            proof {
                assert(com_of(i_c, r_open@) != tx_id@);
            }
            return Err(ProtocolError::InvalidCommit);
        }

        let i_s = self.sessions[idx].1.i_s;
        let uid_s = self.sessions[idx].1.uid_s;
        let uid_b_wide: u64 = (i_c as u64 + i_s as u64) % (self.num_users as u64);
        let uid_b: u32 = uid_b_wide as u32;
        let base = random_bytes32();
        let updated = ServerSession { uid_s, i_s, uid_b: Some(uid_b), base: Some(base) };
        self.sessions[idx] = (tx_id, updated);

        let user_b = &self.users[uid_b as usize];
        let barcode = user_b.barcode;
        let pk_b = user_b.pk_enc;
        let pi = merkle_proof(&self.tree, uid_b as usize);
        proof {
            assert(forall|i: int, j: int|
                0 <= i < old(self).sessions_view().len() && 0 <= j < old(self).sessions_view().len() && (#[trigger] old(self).sessions_view()[i]).0@ == tx_id@
                    && (#[trigger] old(self).sessions_view()[j]).0@ == tx_id@ ==> i == j);
        }
        Ok((uid_b, barcode, pk_b, base, pi))
    }

    /// Settle a transaction: check the well-formedness proof against the
    /// session's base, credit the shopper's stored balance with the masked
    /// amount and debit the owner's, store the receipt for the owner, and
    /// sign the masked mask together with the base.
    pub fn process_tx(&mut self, ct: HybridCt, tx: TxAndProof, tx_id: [u8; 32]) -> (r: Result<
        [u8; 64],
        ProtocolError,
    >)
        requires
            old(self).wf(),
        ensures
            final(self).wf(),
            r == Err::<[u8; 64], ProtocolError>(ProtocolError::UnknownSession) <==> !(exists|i: int|
                0 <= i < old(self).sessions_view().len() && (#[trigger] old(self).sessions_view()[i]).0@ == tx_id@ && session_ready(
                    old(self).sessions_view()[i].1,
                )),
            r is Err ==> *final(self) == *old(self),
            forall|i: int|
                0 <= i < old(self).sessions_view().len() && (#[trigger] old(self).sessions_view()[i]).0@ == tx_id@ && session_ready(old(self).sessions_view()[i].1)
                    ==> {
                    let s = old(self).sessions_view()[i].1;
                    let uid_s = s.uid_s as int;
                    let uid_b = s.uid_b.unwrap() as int;
                    let gd = group_hash_dl(s.base.unwrap()@);
                    &&& (r is Err <==> !zk_tx_check(tx, gd))
                    &&& r matches Err(e) ==> e == ProtocolError::InvalidProof
                    &&& r is Ok ==> {
                        &&& final(self).users_view().len() == old(self).users_view().len()
                        &&& (uid_s != uid_b ==> final(self).users_view()[uid_s].balance.dl()
                            == madd(old(self).users_view()[uid_s].balance.dl(), tx.r3.dl())
                            && final(self).users_view()[uid_b].balance.dl() == madd(
                            old(self).users_view()[uid_b].balance.dl(),
                            mneg(tx.r3.dl()),
                        ))
                        &&& (uid_s == uid_b ==> final(self).users_view()[uid_s].balance.dl()
                            == madd(
                            madd(old(self).users_view()[uid_s].balance.dl(), tx.r3.dl()),
                            mneg(tx.r3.dl()),
                        ))
                        &&& forall|u: int|
                            0 <= u < old(self).users_view().len() && u != uid_s && u != uid_b
                                ==> final(self).users_view()[u] == old(self).users_view()[u]
                        &&& forall|u: int|
                            0 <= u < old(self).users_view().len() ==> (#[trigger] final(self).users_view()[u]).barcode == old(self).users_view()[u].barcode
                                && final(self).users_view()[u].pk_enc == old(self).users_view()[u].pk_enc
                        &&& final(self).receipts_view()[uid_b] == old(self).receipts_view()[uid_b].push(ServerReceipt { ct, tx, base: s.base.unwrap() })
                        &&& forall|u: int|
                            0 <= u < old(self).receipts_view().len() && u != uid_b ==> (
                            #[trigger] final(self).receipts_view()[u]) == old(self).receipts_view()[u]
                        &&& r matches Ok(sig) ==> ed_verifies(
                            old(self).vk_view(),
                            receipt_msg(tx.r2, s.base.unwrap()@),
                            sig@,
                        )
                        &&& final(self).sessions_view() == old(self).sessions_view().remove(i)
                    }
                },
            final(self).num() == old(self).num(),
            final(self).vk_view() == old(self).vk_view(),
    {
        let idx = match self.find_session(&tx_id) {
            Some(idx) => idx,
            None => {
                return Err(ProtocolError::UnknownSession);
            },
        };
        let (uid_b, base) = match (self.sessions[idx].1.uid_b, self.sessions[idx].1.base) {
            (Some(u), Some(b)) => (u, b),
            _ => {
                return Err(ProtocolError::UnknownSession);
            },
        };
        let uid_s = self.sessions[idx].1.uid_s;
        proof {
            assert(forall|i: int, j: int|
                0 <= i < old(self).sessions_view().len() && 0 <= j < old(self).sessions_view().len() && (#[trigger] old(self).sessions_view()[i]).0@ == tx_id@
                    && (#[trigger] old(self).sessions_view()[j]).0@ == tx_id@ ==> i == j);
        }

        let g = hash_to_point(base.as_slice());
        if !zk_tx_verify(&tx, &g) {
            return Err(ProtocolError::InvalidProof);
        }

        // Update both users' stored balances: credit the shopper, debit the
        // barcode owner.
        let gmx = tx.r3;
        let neg_one = crate::group::scalar_neg(&scalar_from_u32(1));
        let bal_s = self.users[uid_s as usize].balance;
        let new_s = point_add(&bal_s, &gmx);
        self.users[uid_s as usize].balance = new_s;
        let bal_b = self.users[uid_b as usize].balance;
        let neg_gmx = point_mul(&gmx, &neg_one);
        let new_b = point_add(&bal_b, &neg_gmx);
        self.users[uid_b as usize].balance = new_b;
        proof {
            use_type_invariant(&gmx);
            crate::group::lemma_group_elt_wf(gmx);
            crate::modp::lemma_mmul_mneg(gmx.dl(), 1);
            crate::modp::lemma_mmul_assoc(gmx.dl(), 1, 0);
            crate::modp::lemma_msmall(gmx.dl());
            assert(neg_gmx.dl() == mneg(gmx.dl()));
        }

        // Store the receipt for the barcode owner.
        let rct = ServerReceipt { ct, tx, base };
        self.receipts[uid_b as usize].push(rct);
        proof {
            assert(self.receipts_view()[uid_b as int] =~= old(self).receipts_view()[uid_b as int].push(ServerReceipt { ct, tx, base }));
        }

        // Sign the masked mask together with the base, and discard the
        // finished session so the same commitment cannot transact twice.
        let sig = sign_receipt(&self.sk, &tx.r2, &base);
        self.sessions.remove(idx);
        proof {
            assert(self.ledger_view() =~= old(self).ledger_view());
        }
        Ok(sig)
    }

    /// Deliver and drain a barcode owner's stored receipts, each re-signed
    /// over its masked mask and base.
    pub fn send_receipts(&mut self, uid: u32) -> (out: Vec<(ServerReceipt, [u8; 64])>)
        requires
            old(self).wf(),
            uid < old(self).num(),
        ensures
            final(self).wf(),
            out@.len() == old(self).receipts_view()[uid as int].len(),
            forall|k: int|
                0 <= k < out@.len() ==> (#[trigger] out@[k]).0 == old(self).receipts_view()[uid as int][k] && ed_verifies(
                    old(self).vk_view(),
                    receipt_msg(out@[k].0.tx.r2, out@[k].0.base@),
                    out@[k].1@,
                ),
            final(self).receipts_view()[uid as int].len() == 0,
            forall|u: int|
                0 <= u < old(self).receipts_view().len() && u != uid ==> (#[trigger] final(self).receipts_view()[u]) == old(self).receipts_view()[u],
            final(self).users_view() == old(self).users_view(),
            final(self).sessions_view() == old(self).sessions_view(),
            final(self).num() == old(self).num(),
            final(self).vk_view() == old(self).vk_view(),
    {
        let mut drained: Vec<ServerReceipt> = Vec::new();
        core::mem::swap(&mut drained, &mut self.receipts[uid as usize]);
        let ghost orig = drained@;

        let mut out: Vec<(ServerReceipt, [u8; 64])> = Vec::new();
        while drained.len() > 0
            invariant
                out@.len() + drained@.len() == orig.len(),
                drained@ == orig.skip(out@.len() as int),
                self.vk@ == ed_vk_of(self.sk@),
                forall|j: int|
                    0 <= j < out@.len() ==> (#[trigger] out@[j]).0 == orig[j] && ed_verifies(
                        self.vk@,
                        receipt_msg(out@[j].0.tx.r2, out@[j].0.base@),
                        out@[j].1@,
                    ),
            decreases drained@.len(),
        {
            let rct = drained.remove(0);
            let sigma = sign_receipt(&self.sk, &rct.tx.r2, &rct.base);
            proof {
                assert(rct == orig[out@.len() as int]);
                assert(drained@ =~= orig.skip(out@.len() as int + 1));
            }
            out.push((rct, sigma));
        }
        proof {
            assert(final(self).receipts_view()[uid as int].len() == 0);
        }
        out
    }

    /// A user's stored balance, read back.
    pub fn user_balance(&self, uid: u32) -> (r: GroupElt)
        requires
            self.wf(),
            uid < self.num(),
        ensures
            r == self.users_view()[uid as int].balance,
    {
        self.users[uid as usize].balance
    }

    /// Accept or reject a settlement: every signature must cover its masked
    /// mask and base, and the batched proof must pass against the user's
    /// stored balance over the bases' derived generators.
    pub fn settle_balance(
        &self,
        uid: u32,
        x: i32,
        hms: &Vec<GroupElt>,
        bases: &Vec<[u8; 32]>,
        sigmas: &Vec<[u8; 64]>,
        pi: &SettleProof,
    ) -> (r: bool)
        requires
            self.wf(),
            uid < self.num(),
            hms.len() == bases.len() && hms.len() == sigmas.len(),
        ensures
            r == ((forall|k: int|
                0 <= k < hms@.len() ==> ed_verifies(
                    self.vk_view(),
                    receipt_msg(#[trigger] hms@[k], bases@[k]@),
                    sigmas@[k]@,
                )) && settle_check(
                x,
                self.users_view()[uid as int].balance,
                hms@,
                base_dls(bases@),
                *pi,
            )),
    {
        let server_bal = self.users[uid as usize].balance;
        let n = hms.len();
        let mut gs: Vec<GroupElt> = Vec::new();
        let mut k: usize = 0;
        while k < n
            invariant
                n == hms@.len(),
                hms@.len() == bases@.len() && hms@.len() == sigmas@.len(),
                self.wf(),
                0 <= k <= n,
                gs@.len() == k,
                forall|j: int| 0 <= j < k ==> (#[trigger] gs@[j]).dl() == group_hash_dl(bases@[j]@),
                forall|j: int|
                    0 <= j < k ==> ed_verifies(
                        self.vk_view(),
                        receipt_msg(#[trigger] hms@[j], bases@[j]@),
                        sigmas@[j]@,
                    ),
            decreases n - k,
        {
            if !verify_receipt(&self.vk, &hms[k], &bases[k], &sigmas[k]) {
                return false;
            }
            let g = hash_to_point(bases[k].as_slice());
            gs.push(g);
            k = k + 1;
        }
        let ok = zk_settle_verify(x, &server_bal, hms, &gs, pi);
        proof {
            assert(crate::sigma_settle::dls_of(gs@) =~= base_dls(bases@));
        }
        ok
    }
}

/// Balance conservation across one transaction: crediting the shopper's
/// stored balance with the masked amount and debiting the barcode owner's
/// leaves the sum of the two discrete logarithms unchanged, so no points are
/// created or destroyed at the group-element level.
pub proof fn lemma_balance_conservation(bal_s: nat, bal_b: nat, d: nat)
    requires
        d < crate::group::group_order(),
    ensures
        madd(madd(bal_s, d), madd(bal_b, mneg(d))) == madd(bal_s, bal_b),
{
    let l = crate::group::group_order();
    crate::modp::lemma_madd4(bal_s, d, bal_b, mneg(d));
    if d == 0 {
        vstd::arithmetic::div_mod::lemma_mod_multiples_vanish(1, 0, l as int);
        vstd::arithmetic::div_mod::lemma_small_mod(0, l);
        assert(mneg(0nat) == 0);
    } else {
        vstd::arithmetic::div_mod::lemma_small_mod((l - d) as nat, l);
        assert(mneg(d) == l - d);
        assert(bal_s + d + bal_b + (l - d) == l + (bal_s + bal_b));
        vstd::arithmetic::div_mod::lemma_mod_multiples_vanish(
            1,
            (bal_s + bal_b) as int,
            l as int,
        );
    }
}

} // verus!
