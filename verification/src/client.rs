//! The client's side of the protocol: opening transactions under a
//! commitment, producing the masked outputs and their proof, accumulating
//! receipts on both the shopper's and the barcode owner's side, rejecting
//! replayed masks, and assembling the settlement proof.

use crate::bytes::{bytes32_eq, le_val, push_bytes32, u32_le, u32_to_le};
use crate::err::ProtocolError;
use crate::group::{
    group_hash_dl, group_order, h_label, h_point, hash_to_point, int_to_scalar, madd, mmul, mneg,
    point_add, point_mul, pt_eq, scalar_from_bytes, scalar_mul, scalar_of_int, sha256, GroupElt,
    Scal,
};
use crate::hybrid::{
    aead_dec, decrypt, derived_key, encrypt, encrypts, lemma_hybrid_opening, lemma_payload_amount,
    payload_amount, payload_base, payload_mask, HybridCt,
};
use crate::elgamal::elgamal_keygen;
use crate::merkle::{hash_tree_entry, leaf_of, merkle_verify, mk_verify_ok, proof_hashes, LedgerProof};
use crate::modp::{
    lemma_madd_noop, lemma_mmul_assoc, lemma_mmul_mneg, lemma_mmul_noop, lemma_mneg_of_int,
    lemma_scalar_of_int_add,
};
use crate::rng::{random_bytes32, random_index};
use crate::server::{com_of, ServerReceipt};
use crate::sigma_settle::{
    dls_of, settle_check, sum_gmx, sum_sv, zk_settle_prove, SettleProof,
};
use crate::sigma_tx::{zk_tx_check, zk_tx_prove, TxAndProof};
use vstd::prelude::*;

verus! {

/// One settled transaction as the client remembers it: the signed amount
/// from this client's view, its scalar residue, the mask, the masked mask,
/// the base, and the server's signature.
pub struct ClientReceipt {
    /// The amount, positive for points this client paid out, negative for
    /// points received through its barcode.
    pub points: i32,
    /// The amount's scalar residue.
    pub x: Scal,
    /// The mask.
    pub m: Scal,
    /// The masked mask `h^m`.
    pub hm: GroupElt,
    /// The per-transaction base.
    pub base: [u8; 32],
    /// The server's signature over the masked mask and base.
    pub sigma: [u8; 64],
}

/// The client's state for one in-progress transaction.
pub struct ClientSession {
    /// The client's random swap index.
    pub i_c: u32,
    /// The commitment blinding.
    pub r: [u8; 32],
    /// The barcode owner, fixed once the server's index arrives.
    pub uid_b: Option<u32>,
    /// The mask, drawn at the transact step.
    pub m: Option<Scal>,
    /// The masked mask.
    pub hm: Option<GroupElt>,
    /// The amount.
    pub points: Option<i32>,
    /// The per-transaction base handed out by the server.
    pub base: Option<[u8; 32]>,
}

/// Whether a session keyed by this commitment exists.
pub open spec fn has_session(s: Seq<([u8; 32], ClientSession)>, com: Seq<u8>) -> bool {
    exists|i: int| 0 <= i < s.len() && (#[trigger] s[i]).0@ == com
}

/// Whether a session has been through the index swap and knows its barcode
/// owner.
pub open spec fn session_owned(s: ClientSession) -> bool {
    s.uid_b is Some
}

/// Whether a session has been through the transact step and parks a mask,
/// masked mask, amount and base for the coda.
pub open spec fn session_filled(s: ClientSession) -> bool {
    s.m is Some && s.hm is Some && s.points is Some && s.base is Some
}

/// The signed sum of the first `n` receipts' amounts.
pub open spec fn rsum_points(rs: Seq<ClientReceipt>, n: int) -> int
    decreases n,
{
    if n <= 0 {
        0
    } else {
        rsum_points(rs, n - 1) + rs[n - 1].points
    }
}

/// The discrete logarithm the first `n` receipts contribute to the tracked
/// server-side balance: each base raised to amount times mask, summed.
pub open spec fn rsum_dl(rs: Seq<ClientReceipt>, n: int) -> nat
    decreases n,
{
    if n <= 0 {
        0
    } else {
        madd(
            rsum_dl(rs, n - 1),
            mmul(group_hash_dl(rs[n - 1].base@), mmul(rs[n - 1].x.val(), rs[n - 1].m.val())),
        )
    }
}

/// The modular sum of the first `n` receipts' amount residues.
pub open spec fn rsum_x(rs: Seq<ClientReceipt>, n: int) -> nat
    decreases n,
{
    if n <= 0 {
        0
    } else {
        madd(rsum_x(rs, n - 1), rs[n - 1].x.val())
    }
}

/// The transact step's outputs: the ciphertext carries some 32-byte mask,
/// the amount and the base, encrypted to the owner's key, and the parked
/// mask scalar and the proof's masked mask are that same mask's residue.
pub open spec fn tx_outputs(
    pkb: GroupElt,
    ct: HybridCt,
    tx: TxAndProof,
    points: i32,
    base: [u8; 32],
    m: Scal,
) -> bool {
    exists|pd: nat, mask: Seq<u8>|
        {
            &&& mask.len() == 32
            &&& #[trigger] encrypts(pkb, ct, pd, mask, #[verifier::truncate] (points as u32), base@)
            &&& m.val() == le_val(mask) % group_order()
            &&& tx.r2.dl() == mmul(group_hash_dl(h_label()), m.val())
        }
}

/// The protocol client.
pub struct Client {
    barcode: u64,
    uid: u32,
    num_users: u32,
    merkle_root: Option<[u8; 32]>,
    bal: i32,
    server_bal: GroupElt,
    receipts: Vec<ClientReceipt>,
    seen_ms: Vec<[u8; 32]>,
    sessions: Vec<([u8; 32], ClientSession)>,
    sk_enc: Scal,
    pk_enc: GroupElt,
}

impl Client {
    /// The client's loyalty barcode.
    pub closed spec fn barcode_view(self) -> u64 {
        self.barcode
    }

    /// The registry size the client last learned.
    pub closed spec fn num(self) -> nat {
        self.num_users as nat
    }

    /// The tracked plaintext balance.
    pub closed spec fn bal(self) -> int {
        self.bal as int
    }

    /// The tracked group-element mirror of the server's stored balance.
    pub closed spec fn server_bal_elt(self) -> GroupElt {
        self.server_bal
    }

    /// The accumulated receipts, in order.
    pub closed spec fn receipts_view(self) -> Seq<ClientReceipt> {
        self.receipts@
    }

    /// The masks already accepted through receipt processing.
    pub closed spec fn seen_view(self) -> Seq<Seq<u8>> {
        Seq::new(self.seen_ms@.len(), |i: int| self.seen_ms@[i]@)
    }

    /// The open sessions, in creation order.
    pub closed spec fn sessions_view(self) -> Seq<([u8; 32], ClientSession)> {
        self.sessions@
    }

    /// The client's encryption public key.
    pub closed spec fn pk(self) -> GroupElt {
        self.pk_enc
    }

    /// The ledger root the client last learned, if any.
    pub closed spec fn root_view(self) -> Option<[u8; 32]> {
        self.merkle_root
    }

    /// The client's encryption secret key, for specification purposes.
    pub closed spec fn enc_key(self) -> Scal {
        self.sk_enc
    }

    /// Whether a session under this commitment knows its barcode owner and
    /// the handed-over inclusion proof accepts that owner's ledger entry
    /// against the last learned root.
    pub open spec fn merkle_ok(
        self,
        barcode: u64,
        pkb: GroupElt,
        tx_id: [u8; 32],
        ph: Seq<Seq<u8>>,
    ) -> bool {
        exists|i: int|
            {
                let s = (#[trigger] self.sessions_view()[i]).1;
                &&& 0 <= i < self.sessions_view().len()
                &&& self.sessions_view()[i].0@ == tx_id@
                &&& s.uid_b is Some
                &&& self.root_view() is Some
                &&& mk_verify_ok(
                    self.root_view().unwrap()@,
                    s.uid_b.unwrap() as int,
                    leaf_of(s.uid_b.unwrap(), barcode, pkb.enc()),
                    self.num() as int,
                    ph,
                )
            }
    }

    /// What a hybrid ciphertext opens to under this client's secret key.
    pub closed spec fn opened(self, ct: HybridCt) -> Option<Seq<u8>> {
        aead_dec(derived_key(self.sk_enc, ct.elg), ct.nonce@, ct.sym@)
    }

    /// The delivered ciphertext opens under this client's key to a payload
    /// of the fixed length.
    pub open spec fn receipt_opens(self, rct: ServerReceipt) -> bool {
        &&& self.opened(rct.ct) is Some
        &&& self.opened(rct.ct).unwrap().len() == 68
    }

    /// The opened payload's mask has not been accepted before.
    pub open spec fn receipt_fresh(self, rct: ServerReceipt) -> bool {
        !self.seen_view().contains(payload_mask(self.opened(rct.ct).unwrap()))
    }

    /// The receipt's masked outputs open to the payload's mask and amount
    /// over the payload's base.
    pub open spec fn receipt_sound(self, rct: ServerReceipt) -> bool {
        let pt = self.opened(rct.ct).unwrap();
        let mv = le_val(payload_mask(pt)) % group_order();
        &&& rct.tx.r2.dl() == mmul(group_hash_dl(h_label()), mv)
        &&& rct.tx.r3.dl() == mmul(
            group_hash_dl(payload_base(pt)),
            mmul(mv, scalar_of_int(payload_amount(pt))),
        )
    }

    /// Folding the payload's amount in with its sign flipped keeps the
    /// tracked balance inside its type.
    pub open spec fn receipt_in_range(self, rct: ServerReceipt) -> bool {
        let amt = payload_amount(self.opened(rct.ct).unwrap());
        &&& -0x80000000 <= self.bal() - amt <= 0x7FFFFFFF
        &&& -amt <= 0x7FFFFFFF
    }

    /// Well-formedness of the client: the keypair matches; the tracked
    /// plaintext balance is the signed sum of the receipts' amounts; the
    /// tracked server-side balance is the receipts' group-element sum; each
    /// receipt's residue and masked mask are consistent; sessions are
    /// uniquely keyed and consistent.
    pub closed spec fn wf(self) -> bool {
        &&& self.pk_enc.dl() == self.sk_enc.val()
        &&& self.bal as int == rsum_points(self.receipts@, self.receipts@.len() as int)
        &&& self.server_bal.dl() == rsum_dl(self.receipts@, self.receipts@.len() as int)
        &&& forall|j: int|
            0 <= j < self.receipts@.len() ==> {
                let r = #[trigger] self.receipts@[j];
                &&& r.x.val() == scalar_of_int(r.points as int)
                &&& r.hm.dl() == mmul(group_hash_dl(h_label()), r.m.val())
            }
        &&& forall|i: int, j: int|
            0 <= i < j < self.sessions@.len() ==> (#[trigger] self.sessions@[i]).0@ != (
            #[trigger] self.sessions@[j]).0@
        &&& forall|i: int|
            0 <= i < self.sessions@.len() ==> {
                let s = (#[trigger] self.sessions@[i]).1;
                (s.m matches Some(mv) ==> (s.hm matches Some(hmv) ==> hmv.dl() == mmul(
                    group_hash_dl(h_label()),
                    mv.val(),
                )))
            }
    }

    /// Find the session keyed by a commitment.
    fn find_session(&self, com: &[u8; 32]) -> (r: Option<usize>)
        ensures
            r matches Some(i) ==> i < self.sessions_view().len() && self.sessions_view()[
                i as int
            ].0@ == com@,
            r is None ==> forall|i: int|
                0 <= i < self.sessions_view().len() ==> (#[trigger] self.sessions_view()[i]).0@
                    != com@,
    {
        let n = self.sessions.len();
        let mut i: usize = 0;
        while i < n
            invariant
                n == self.sessions@.len(),
                0 <= i <= n,
                forall|j: int| 0 <= j < i ==> (#[trigger] self.sessions@[j]).0@ != com@,
            decreases n - i,
        {
            if bytes32_eq(&self.sessions[i].0, com) {
                return Some(i);
            }
            i = i + 1;
        }
        None
    }

    /// Start a client with a fresh encryption keypair and empty state.
    pub fn new(barcode: u64) -> (c: Client)
        ensures
            c.wf(),
            c.barcode_view() == barcode,
            c.bal() == 0,
            c.receipts_view().len() == 0,
            c.seen_view().len() == 0,
            c.sessions_view().len() == 0,
            c.num() == 1,
            c.server_bal_elt().dl() == 0,
    {
        let keys = elgamal_keygen();
        let zero_bal = crate::group::base_mul(&crate::group::scalar_from_u32(0));
        Client {
            barcode,
            uid: 1,
            num_users: 1,
            merkle_root: None,
            bal: 0,
            server_bal: zero_bal,
            receipts: Vec::new(),
            seen_ms: Vec::new(),
            sessions: Vec::new(),
            sk_enc: keys.0,
            pk_enc: keys.1,
        }
    }

    /// The tracked plaintext balance, read back.
    pub fn balance(&self) -> (r: i32)
        ensures
            r as int == self.bal(),
    {
        self.bal
    }

    /// The data handed to the server at registration: the barcode and the
    /// encryption public key.
    pub fn register_with_server(&self) -> (r: (u64, GroupElt))
        ensures
            r.0 == self.barcode_view(),
            r.1 == self.pk(),
    {
        (self.barcode, self.pk_enc)
    }

    /// Learn the current registry size and ledger root, and this client's
    /// own user id.
    pub fn update_state(&mut self, uid: u32, num_users: u32, merkle_root: [u8; 32])
        requires
            old(self).wf(),
        ensures
            final(self).wf(),
            final(self).num() == num_users,
            final(self).bal() == old(self).bal(),
            final(self).receipts_view() == old(self).receipts_view(),
            final(self).seen_view() == old(self).seen_view(),
            final(self).sessions_view() == old(self).sessions_view(),
            final(self).server_bal_elt() == old(self).server_bal_elt(),
            final(self).pk() == old(self).pk(),
    {
        self.uid = uid;
        self.num_users = num_users;
        self.merkle_root = Some(merkle_root);
    }

    /// Open a transaction: commit to a random swap index under a random
    /// blinding. The commitment doubles as the transaction id. An empty
    /// registry is rejected, since the index draw over it is undefined; the
    /// only other failure is the fresh commitment colliding with an open
    /// session, which cannot happen while none is open.
    pub fn process_tx_hello(&mut self) -> (r: Result<[u8; 32], ProtocolError>)
        requires
            old(self).wf(),
        ensures
            final(self).wf(),
            r == Err::<[u8; 32], ProtocolError>(ProtocolError::EmptyRegistry) <==> old(self).num()
                == 0,
            r is Err ==> (r == Err::<[u8; 32], ProtocolError>(ProtocolError::EmptyRegistry) || r
                == Err::<[u8; 32], ProtocolError>(ProtocolError::InvalidCommit)),
            r == Err::<[u8; 32], ProtocolError>(ProtocolError::InvalidCommit) ==> old(
                self,
            ).sessions_view().len() > 0,
            (old(self).num() > 0 && old(self).sessions_view().len() == 0) ==> r is Ok,
            r matches Ok(com) ==> {
                let n = old(self).sessions_view().len() as int;
                &&& final(self).sessions_view().len() == n + 1
                &&& forall|i: int|
                    0 <= i < n ==> final(self).sessions_view()[i] == old(self).sessions_view()[i]
                &&& final(self).sessions_view()[n].0 == com
                &&& {
                    let s = final(self).sessions_view()[n].1;
                    &&& com@ == com_of(s.i_c, s.r@)
                    &&& s.i_c < old(self).num()
                    &&& s.uid_b is None
                    &&& s.m is None
                    &&& s.hm is None
                    &&& s.points is None
                    &&& s.base is None
                }
            },
            r is Err ==> *final(self) == *old(self),
            final(self).bal() == old(self).bal(),
            final(self).receipts_view() == old(self).receipts_view(),
            final(self).seen_view() == old(self).seen_view(),
            final(self).server_bal_elt() == old(self).server_bal_elt(),
            final(self).num() == old(self).num(),
            final(self).pk() == old(self).pk(),
    {
        if self.num_users == 0 {
            return Err(ProtocolError::EmptyRegistry);
        }
        let i_c = random_index(self.num_users);
        let r_bits = random_bytes32();
        let mut com_src: Vec<u8> = Vec::new();
        let i_c_le = u32_to_le(i_c);
        com_src.extend_from_slice(i_c_le.as_slice());
        push_bytes32(&mut com_src, &r_bits);
        proof {
            assert(com_src@ =~= u32_le(i_c) + r_bits@);
        }
        let com = sha256(&com_src);
        if let Some(_) = self.find_session(&com) {
            return Err(ProtocolError::InvalidCommit);
        }
        let session = ClientSession {
            i_c,
            r: r_bits,
            uid_b: None,
            m: None,
            hm: None,
            points: None,
            base: None,
        };
        self.sessions.push((com, session));
        Ok(com)
    }

    /// Open the commitment once the server's index arrives: fix the barcode
    /// owner as the sum of the two indices modulo the registry size, and
    /// hand back the committed index and blinding.
    pub fn process_tx_compute_id(&mut self, i_s: u32, tx_id: [u8; 32]) -> (r: Result<
        (u32, [u8; 32]),
        ProtocolError,
    >)
        requires
            old(self).wf(),
        ensures
            final(self).wf(),
            r is Ok <==> (old(self).num() > 0 && has_session(old(self).sessions_view(), tx_id@)),
            r == Err::<(u32, [u8; 32]), ProtocolError>(ProtocolError::EmptyRegistry) <==> old(
                self,
            ).num() == 0,
            r is Err ==> *final(self) == *old(self) && (r == Err::<(u32, [u8; 32]), ProtocolError>(
                ProtocolError::UnknownSession,
            ) || r == Err::<(u32, [u8; 32]), ProtocolError>(ProtocolError::EmptyRegistry)),
            r matches Ok((i_c, r_bits)) ==> forall|i: int|
                0 <= i < old(self).sessions_view().len() && (#[trigger] old(
                    self,
                ).sessions_view()[i]).0@ == tx_id@ ==> {
                    let s = old(self).sessions_view()[i].1;
                    &&& i_c == s.i_c
                    &&& r_bits == s.r
                    &&& final(self).sessions_view() == old(self).sessions_view().update(
                        i,
                        (
                            tx_id,
                            ClientSession {
                                i_c: s.i_c,
                                r: s.r,
                                uid_b: Some(
                                    (((i_c + i_s) as int % (old(self).num() as int)) as u32),
                                ),
                                m: s.m,
                                hm: s.hm,
                                points: s.points,
                                base: s.base,
                            },
                        ),
                    )
                },
            final(self).bal() == old(self).bal(),
            final(self).receipts_view() == old(self).receipts_view(),
            final(self).seen_view() == old(self).seen_view(),
            final(self).server_bal_elt() == old(self).server_bal_elt(),
            final(self).num() == old(self).num(),
            final(self).pk() == old(self).pk(),
    {
        if self.num_users == 0 {
            return Err(ProtocolError::EmptyRegistry);
        }
        let idx = match self.find_session(&tx_id) {
            Some(idx) => idx,
            None => {
                return Err(ProtocolError::UnknownSession);
            },
        };
        let s = &self.sessions[idx].1;
        let i_c = s.i_c;
        let r_bits = s.r;
        let uid_b_wide: u64 = (i_c as u64 + i_s as u64) % (self.num_users as u64);
        let uid_b: u32 = uid_b_wide as u32;
        let updated = ClientSession {
            i_c,
            r: r_bits,
            uid_b: Some(uid_b),
            m: s.m,
            hm: s.hm,
            points: s.points,
            base: s.base,
        };
        self.sessions[idx] = (tx_id, updated);
        proof {
            assert(forall|i: int, j: int|
                0 <= i < old(self).sessions_view().len() && 0 <= j < old(
                    self,
                ).sessions_view().len() && (#[trigger] old(self).sessions_view()[i]).0@ == tx_id@
                    && (#[trigger] old(self).sessions_view()[j]).0@ == tx_id@ ==> i == j);
        }
        Ok((i_c, r_bits))
    }

    /// Check the server's inclusion proof for the barcode owner's ledger
    /// entry against the last learned root. What the proof shows is decided
    /// by the outside Merkle library; a failed check is fatal for the
    /// transaction.
    pub fn verify_merkle_proof(
        &self,
        barcode: u64,
        pi: &LedgerProof,
        pkb: &GroupElt,
        tx_id: [u8; 32],
    ) -> (r: Result<(), ProtocolError>)
        requires
            self.wf(),
        ensures
            r == Err::<(), ProtocolError>(ProtocolError::UnknownSession) <==> !(exists|i: int|
                0 <= i < self.sessions_view().len() && (#[trigger] self.sessions_view()[i]).0@
                    == tx_id@ && session_owned(self.sessions_view()[i].1)),
            r is Ok <==> self.merkle_ok(barcode, *pkb, tx_id, proof_hashes(*pi)),
            r is Err ==> (r == Err::<(), ProtocolError>(ProtocolError::UnknownSession) || r
                == Err::<(), ProtocolError>(ProtocolError::MerkleRejected)),
    {
        proof {
            assert(forall|i: int, j: int|
                0 <= i < self.sessions_view().len() && 0 <= j < self.sessions_view().len() && (
                #[trigger] self.sessions_view()[i]).0@ == tx_id@ && (
                #[trigger] self.sessions_view()[j]).0@ == tx_id@ ==> i == j);
        }
        let idx = match self.find_session(&tx_id) {
            Some(idx) => idx,
            None => {
                return Err(ProtocolError::UnknownSession);
            },
        };
        let uid_b = match self.sessions[idx].1.uid_b {
            Some(u) => u,
            None => {
                return Err(ProtocolError::UnknownSession);
            },
        };
        let root = match self.merkle_root {
            Some(root) => root,
            None => {
                return Err(ProtocolError::MerkleRejected);
            },
        };
        let leaf = hash_tree_entry(uid_b, barcode, &pkb.encode());
        if merkle_verify(&pi, &root, uid_b as usize, &leaf, self.num_users as usize) {
            Ok(())
        } else {
            Err(ProtocolError::MerkleRejected)
        }
    }

    /// Run the transact step: check the inclusion proof, draw the mask,
    /// hybrid-encrypt the mask, amount and base to the barcode owner,
    /// compute the masked outputs over the base's derived generator, and
    /// prove them well-formed. The amount and mask are parked in the session
    /// until the server's signature arrives.
    #[verifier::rlimit(100)]
    pub fn process_tx(
        &mut self,
        pi: &LedgerProof,
        barcode: u64,
        points: i32,
        pkb: &GroupElt,
        base: [u8; 32],
        tx_id: [u8; 32],
    ) -> (r: Result<(HybridCt, TxAndProof), ProtocolError>)
        requires
            old(self).wf(),
        ensures
            final(self).wf(),
            r is Ok <==> old(self).merkle_ok(barcode, *pkb, tx_id, proof_hashes(*pi)),
            r == Err::<(HybridCt, TxAndProof), ProtocolError>(ProtocolError::UnknownSession) <==> !(
            exists|i: int|
                0 <= i < old(self).sessions_view().len() && (#[trigger] old(
                    self,
                ).sessions_view()[i]).0@ == tx_id@ && session_owned(
                    old(self).sessions_view()[i].1,
                )),
            r == Err::<(HybridCt, TxAndProof), ProtocolError>(ProtocolError::MerkleRejected) <==> ((
            exists|i: int|
                0 <= i < old(self).sessions_view().len() && (#[trigger] old(
                    self,
                ).sessions_view()[i]).0@ == tx_id@ && session_owned(old(self).sessions_view()[i].1))
                && !old(self).merkle_ok(barcode, *pkb, tx_id, proof_hashes(*pi))),
            r matches Ok((ct, tx)) ==> zk_tx_check(tx, group_hash_dl(base@)),
            r is Err ==> *final(self) == *old(self),
            final(self).bal() == old(self).bal(),
            final(self).receipts_view() == old(self).receipts_view(),
            final(self).seen_view() == old(self).seen_view(),
            final(self).server_bal_elt() == old(self).server_bal_elt(),
            final(self).num() == old(self).num(),
            final(self).pk() == old(self).pk(),
            r matches Ok((ct, tx)) ==> forall|i: int|
                0 <= i < old(self).sessions_view().len() && (#[trigger] old(
                    self,
                ).sessions_view()[i]).0@ == tx_id@ ==> {
                    let s = old(self).sessions_view()[i].1;
                    let upd = final(self).sessions_view()[i].1;
                    &&& final(self).sessions_view() == old(self).sessions_view().update(
                        i,
                        (tx_id, upd),
                    )
                    &&& upd.i_c == s.i_c
                    &&& upd.r == s.r
                    &&& upd.uid_b == s.uid_b
                    &&& upd.m is Some
                    &&& upd.hm == Some(tx.r2)
                    &&& upd.points == Some(points)
                    &&& upd.base == Some(base)
                    &&& tx_outputs(*pkb, ct, tx, points, base, upd.m.unwrap())
                },
    {
        let idx = match self.find_session(&tx_id) {
            Some(idx) => idx,
            None => {
                return Err(ProtocolError::UnknownSession);
            },
        };
        match self.verify_merkle_proof(barcode, pi, pkb, tx_id) {
            Ok(()) => (),
            Err(e) => {
                return Err(e);
            },
        };

        let ghost pre = *self;
        let result_pair = self.transact_core(idx, points, pkb, base, tx_id);
        proof {
            assert(forall|i: int, j: int|
                0 <= i < pre.sessions_view().len() && 0 <= j < pre.sessions_view().len() && (
                #[trigger] pre.sessions_view()[i]).0@ == tx_id@ && (
                #[trigger] pre.sessions_view()[j]).0@ == tx_id@ ==> i == j);
        }
        Ok(result_pair)
    }

    /// The transact step's cryptographic core: draw the mask, encrypt it
    /// with the amount and base to the owner's key, form the masked outputs
    /// and their proof, and park the secrets in the session at `idx`.
    fn transact_core(
        &mut self,
        idx: usize,
        points: i32,
        pkb: &GroupElt,
        base: [u8; 32],
        tx_id: [u8; 32],
    ) -> (r: (HybridCt, TxAndProof))
        requires
            old(self).wf(),
            idx < old(self).sessions_view().len(),
            old(self).sessions_view()[idx as int].0@ == tx_id@,
        ensures
            final(self).wf(),
            zk_tx_check(r.1, group_hash_dl(base@)),
            final(self).bal() == old(self).bal(),
            final(self).receipts_view() == old(self).receipts_view(),
            final(self).seen_view() == old(self).seen_view(),
            final(self).server_bal_elt() == old(self).server_bal_elt(),
            final(self).num() == old(self).num(),
            final(self).pk() == old(self).pk(),
            final(self).root_view() == old(self).root_view(),
            ({
                let s = old(self).sessions_view()[idx as int].1;
                let upd = final(self).sessions_view()[idx as int].1;
                &&& final(self).sessions_view() == old(self).sessions_view().update(
                    idx as int,
                    (tx_id, upd),
                )
                &&& upd.i_c == s.i_c
                &&& upd.r == s.r
                &&& upd.uid_b == s.uid_b
                &&& upd.m is Some
                &&& upd.hm == Some(r.1.r2)
                &&& upd.points == Some(points)
                &&& upd.base == Some(base)
                &&& tx_outputs(*pkb, r.0, r.1, points, base, upd.m.unwrap())
            }),
    {
        // Draw the mask and ship it, with the amount and base, to the owner.
        let m_bits = random_bytes32();
        let ct = match encrypt(pkb, points, &m_bits, &base) {
            Ok(ct) => ct,
            Err(_) => {
                proof {
                    assert(false);
                }
                vstd::pervasive::unreached()
            },
        };

        // Masked outputs over the base's derived generator.
        let m = scalar_from_bytes(&m_bits);
        let x = int_to_scalar(points);
        let h = h_point();
        let hm = point_mul(&h, &m);
        let g = hash_to_point(base.as_slice());
        let gmx = point_mul(&g, &scalar_mul(&m, &x));
        let tx = zk_tx_prove(hm, gmx, g, m, x);

        let s = &self.sessions[idx].1;
        let updated = ClientSession {
            i_c: s.i_c,
            r: s.r,
            uid_b: s.uid_b,
            m: Some(m),
            hm: Some(hm),
            points: Some(points),
            base: Some(base),
        };
        self.sessions[idx] = (tx_id, updated);
        let result = (ct, tx);
        proof {
            // The drawn mask witnesses the ciphertext's contents.
            let rct = result.0;
            let rtx = result.1;
            assert(exists|pd: nat|
                #[trigger] encrypts(
                    *pkb,
                    rct,
                    pd,
                    m_bits@,
                    #[verifier::truncate] (points as u32),
                    base@,
                ));
            let pd = choose|pd: nat|
                #[trigger] encrypts(
                    *pkb,
                    rct,
                    pd,
                    m_bits@,
                    #[verifier::truncate] (points as u32),
                    base@,
                );
            assert(tx_outputs(*pkb, rct, rtx, points, base, m)) by {
                assert(m_bits@.len() == 32 && encrypts(
                    *pkb,
                    rct,
                    pd,
                    m_bits@,
                    #[verifier::truncate] (points as u32),
                    base@,
                ) && m.val() == le_val(m_bits@) % group_order() && rtx.r2.dl() == mmul(
                    group_hash_dl(h_label()),
                    m.val(),
                ));
            }
        }
        result
    }


    /// Record the server's confirmation: move the parked amount, mask and
    /// masked mask into a receipt beside the signature, fold the amount into
    /// the tracked balances, and close the session.
    pub fn process_tx_coda(&mut self, sigma: [u8; 64], tx_id: [u8; 32]) -> (r: Result<
        (),
        ProtocolError,
    >)
        requires
            old(self).wf(),
            forall|i: int|
                0 <= i < old(self).sessions_view().len() && (#[trigger] old(
                    self,
                ).sessions_view()[i]).0@ == tx_id@ && (old(self).sessions_view()[i].1.points
                    matches Some(p)) ==> {
                    let p = old(self).sessions_view()[i].1.points.unwrap();
                    -0x80000000 <= old(self).bal() + p <= 0x7FFFFFFF
                },
        ensures
            final(self).wf(),
            r is Ok <==> exists|i: int|
                0 <= i < old(self).sessions_view().len() && (#[trigger] old(
                    self,
                ).sessions_view()[i]).0@ == tx_id@ && session_filled(
                    old(self).sessions_view()[i].1,
                ),
            r is Err ==> *final(self) == *old(self) && r == Err::<(), ProtocolError>(
                ProtocolError::UnknownSession,
            ),
            r is Ok ==> forall|i: int|
                0 <= i < old(self).sessions_view().len() && (#[trigger] old(
                    self,
                ).sessions_view()[i]).0@ == tx_id@ ==> {
                    let s = old(self).sessions_view()[i].1;
                    &&& final(self).sessions_view() == old(self).sessions_view().remove(i)
                    &&& final(self).bal() == old(self).bal() + s.points.unwrap()
                    &&& final(self).server_bal_elt().dl() == madd(
                        old(self).server_bal_elt().dl(),
                        mmul(
                            group_hash_dl(s.base.unwrap()@),
                            mmul(scalar_of_int(s.points.unwrap() as int), s.m.unwrap().val()),
                        ),
                    )
                    &&& final(self).receipts_view().len() == old(self).receipts_view().len() + 1
                    &&& {
                        let rct = final(self).receipts_view().last();
                        &&& rct.points == s.points.unwrap()
                        &&& rct.m == s.m.unwrap()
                        &&& rct.hm == s.hm.unwrap()
                        &&& rct.base == s.base.unwrap()
                        &&& rct.sigma == sigma
                    }
                    &&& forall|j: int|
                        0 <= j < old(self).receipts_view().len() ==> final(self).receipts_view()[j]
                            == old(self).receipts_view()[j]
                },
            final(self).seen_view() == old(self).seen_view(),
            final(self).num() == old(self).num(),
            final(self).pk() == old(self).pk(),
    {
        let idx = match self.find_session(&tx_id) {
            Some(idx) => idx,
            None => {
                return Err(ProtocolError::UnknownSession);
            },
        };
        let (m, hm, points, base) = match (
            self.sessions[idx].1.m,
            self.sessions[idx].1.hm,
            self.sessions[idx].1.points,
            self.sessions[idx].1.base,
        ) {
            (Some(m), Some(hm), Some(p), Some(b)) => (m, hm, p, b),
            _ => {
                return Err(ProtocolError::UnknownSession);
            },
        };
        proof {
            assert(forall|i: int, j: int|
                0 <= i < old(self).sessions_view().len() && 0 <= j < old(
                    self,
                ).sessions_view().len() && (#[trigger] old(self).sessions_view()[i]).0@ == tx_id@
                    && (#[trigger] old(self).sessions_view()[j]).0@ == tx_id@ ==> i == j);
        }

        let x = int_to_scalar(points);
        let g = hash_to_point(base.as_slice());
        let gmx = point_mul(&g, &scalar_mul(&m, &x));

        self.bal = self.bal + points;
        self.server_bal = point_add(&self.server_bal, &gmx);
        let rct = ClientReceipt { points, x, m, hm, base, sigma };
        self.receipts.push(rct);
        self.sessions.remove(idx);
        proof {
            let rs = self.receipts@;
            let n = rs.len() as int;
            lemma_rsum_grow(old(self).receipts@, rs, n - 1);
            assert(rs[n - 1].x.val() == scalar_of_int(points as int));
            lemma_mmul_assoc(m.val(), x.val(), 0);
            assert(mmul(m.val(), x.val()) == mmul(x.val(), m.val()));
            assert(self.server_bal.dl() == rsum_dl(rs, n));
        }
        Ok(())
    }

    /// Process one delivered receipt as the barcode owner: open the hybrid
    /// ciphertext, reject a replayed mask, check the masked outputs against
    /// the recovered mask and amount, and fold the amount in with its sign
    /// flipped. A replay is rejected exactly when the ciphertext opens and
    /// its mask was accepted before.
    #[verifier::rlimit(100)]
    pub fn process_receipt(&mut self, rct: &ServerReceipt, sigma: [u8; 64]) -> (r: Result<
        (),
        ProtocolError,
    >)
        requires
            old(self).wf(),
        ensures
            final(self).wf(),
            r is Err ==> *final(self) == *old(self),
            r is Ok <==> (old(self).receipt_opens(*rct) && old(self).receipt_fresh(*rct) && old(
                self,
            ).receipt_sound(*rct) && old(self).receipt_in_range(*rct)),
            r == Err::<(), ProtocolError>(ProtocolError::InvalidCiphertext) <==> !old(
                self,
            ).receipt_opens(*rct),
            r == Err::<(), ProtocolError>(ProtocolError::ReplayedMask) <==> (old(
                self,
            ).receipt_opens(*rct) && !old(self).receipt_fresh(*rct)),
            r == Err::<(), ProtocolError>(ProtocolError::InvalidProof) <==> (old(
                self,
            ).receipt_opens(*rct) && old(self).receipt_fresh(*rct) && !old(self).receipt_sound(
                *rct,
            )),
            r == Err::<(), ProtocolError>(ProtocolError::OutOfRange) <==> (old(self).receipt_opens(
                *rct,
            ) && old(self).receipt_fresh(*rct) && old(self).receipt_sound(*rct) && !old(
                self,
            ).receipt_in_range(*rct)),
            r is Ok ==> final(self).seen_view().len() == old(self).seen_view().len() + 1
                && final(self).receipts_view().len() == old(self).receipts_view().len() + 1 && {
                let pt = old(self).opened(rct.ct).unwrap();
                let nr = final(self).receipts_view().last();
                &&& final(self).seen_view() == old(self).seen_view().push(payload_mask(pt))
                &&& final(self).bal() == old(self).bal() + nr.points
                &&& final(self).server_bal_elt().dl() == madd(
                    old(self).server_bal_elt().dl(),
                    mneg(rct.tx.r3.dl()),
                )
                &&& nr.points as int == 0 - payload_amount(pt)
                &&& nr.m.val() == le_val(payload_mask(pt)) % group_order()
                &&& nr.base@ == payload_base(pt)
                &&& nr.hm == rct.tx.r2
                &&& nr.sigma == sigma
                &&& forall|j: int|
                    0 <= j < old(self).receipts_view().len() ==> final(self).receipts_view()[j]
                        == old(self).receipts_view()[j]
            },
            final(self).sessions_view() == old(self).sessions_view(),
            final(self).num() == old(self).num(),
            final(self).pk() == old(self).pk(),
    {
        // Open the hybrid ciphertext.
        let (m_bits, x_pts, base) = match decrypt(&self.sk_enc, &rct.ct) {
            Ok(out) => out,
            Err(e) => {
                proof {
                    assert(!(old(self).opened(rct.ct) matches Some(pt) && pt.len() == 68));
                }
                return Err(e);
            },
        };
        proof {
            assert(old(self).opened(rct.ct) matches Some(pt) && pt.len() == 68 && pt.subrange(
                0,
                32,
            ) =~= m_bits@);
            let pt = old(self).opened(rct.ct).unwrap();
            assert(payload_mask(pt) =~= m_bits@);
            assert(payload_base(pt) =~= base@);
            lemma_payload_amount(m_bits@, x_pts, base@);
            assert(payload_amount(pt) == x_pts as int);
        }

        // Reject a replayed mask.
        if self.contains_mask(&m_bits) {
            return Err(ProtocolError::ReplayedMask);
        }

        // The recovered mask and amount must open the masked outputs.
        let m = scalar_from_bytes(&m_bits);
        let h = h_point();
        let g = hash_to_point(base.as_slice());
        let x = int_to_scalar(x_pts);
        let hm_expect = point_mul(&h, &m);
        if !pt_eq(&hm_expect, &rct.tx.r2) {
            return Err(ProtocolError::InvalidProof);
        }
        let gmx = point_mul(&g, &scalar_mul(&m, &x));
        if !pt_eq(&gmx, &rct.tx.r3) {
            return Err(ProtocolError::InvalidProof);
        }

        // The flipped amount must keep the balance in range.
        let neg_wide: i64 = -(x_pts as i64);
        let bal_wide: i64 = self.bal as i64 + neg_wide;
        if bal_wide < -0x80000000i64 || bal_wide > 0x7FFFFFFFi64 || neg_wide > 0x7FFFFFFFi64 {
            return Err(ProtocolError::OutOfRange);
        }
        let neg_points: i32 = neg_wide as i32;
        let x_neg = int_to_scalar(neg_points);

        // Accept: record the mask, flip the sign, fold into the balances.
        self.seen_ms.push(m_bits);
        self.bal = bal_wide as i32;
        let neg_one = crate::group::scalar_neg(&crate::group::scalar_from_u32(1));
        let neg_gmx = point_mul(&gmx, &neg_one);
        self.server_bal = point_add(&self.server_bal, &neg_gmx);
        let nr = ClientReceipt {
            points: neg_points,
            x: x_neg,
            m,
            hm: rct.tx.r2,
            base,
            sigma,
        };
        self.receipts.push(nr);
        proof {
            use_type_invariant(&gmx);
            crate::group::lemma_group_elt_wf(gmx);
            use_type_invariant(&m);
            use_type_invariant(&x);
            crate::group::lemma_scal_wf(m);
            crate::group::lemma_scal_wf(x);
            // The subtracted contribution is the negated amount's
            // contribution.
            crate::modp::lemma_mmul_mneg(gmx.dl(), 1);
            lemma_mmul_assoc(gmx.dl(), 1, 0);
            crate::modp::lemma_msmall(gmx.dl());
            assert(neg_gmx.dl() == mneg(gmx.dl()));
            lemma_mneg_of_int(x_pts as int);
            assert(x_neg.val() == mneg(x.val()));
            // g^(m*x) negated equals g^((-x)*m).
            lemma_mmul_assoc(m.val(), x.val(), 0);
            lemma_mmul_mneg(group_hash_dl(base@), mmul(x.val(), m.val()));
            assert(mmul(mneg(x.val()), m.val()) == mneg(mmul(x.val(), m.val()))) by {
                lemma_mmul_assoc(mneg(x.val()), m.val(), 0);
                lemma_mmul_assoc(m.val(), mneg(x.val()), 0);
                crate::modp::lemma_mmul_mneg(m.val(), x.val());
                lemma_mmul_assoc(m.val(), x.val(), 0);
            }
            crate::modp::lemma_mmul_noop(mmul(x.val(), m.val()), 0);
            assert(mmul(group_hash_dl(base@), mmul(mneg(x.val()), m.val())) == mneg(
                mmul(group_hash_dl(base@), mmul(x.val(), m.val())),
            )) by {
                lemma_mmul_mneg(group_hash_dl(base@), mmul(x.val(), m.val()));
            }
            let rs = self.receipts@;
            let n = rs.len() as int;
            lemma_rsum_grow(old(self).receipts@, rs, n - 1);
            assert(self.server_bal.dl() == rsum_dl(rs, n));
            assert(final(self).seen_view() =~= old(self).seen_view().push(m_bits@));
        }
        Ok(())
    }

    /// Whether a mask has been accepted before.
    fn contains_mask(&self, m_bits: &[u8; 32]) -> (r: bool)
        ensures
            r <==> self.seen_view().contains(m_bits@),
    {
        let n = self.seen_ms.len();
        let mut i: usize = 0;
        while i < n
            invariant
                n == self.seen_ms@.len(),
                0 <= i <= n,
                forall|j: int| 0 <= j < i ==> (#[trigger] self.seen_ms@[j])@ != m_bits@,
            decreases n - i,
        {
            if bytes32_eq(&self.seen_ms[i], m_bits) {
                proof {
                    assert(self.seen_view()[i as int] == m_bits@);
                }
                return true;
            }
            i = i + 1;
        }
        proof {
            if self.seen_view().contains(m_bits@) {
                let w = choose|w: int|
                    0 <= w < self.seen_view().len() && self.seen_view()[w] == m_bits@;
                assert((self.seen_ms@[w])@ == m_bits@);
            }
        }
        false
    }

    /// Assemble a settlement: the claimed balance, the masked masks, bases
    /// and signatures of every receipt, and the batched proof, which passes
    /// every verification equation against the tracked server-side balance.
    pub fn settle_balance(&self) -> (r: (
        i32,
        Vec<GroupElt>,
        Vec<[u8; 32]>,
        Vec<[u8; 64]>,
        SettleProof,
    ))
        requires
            self.wf(),
        ensures
            r.0 == self.bal(),
            r.1@.len() == self.receipts_view().len(),
            r.2@.len() == self.receipts_view().len(),
            r.3@.len() == self.receipts_view().len(),
            forall|j: int|
                0 <= j < self.receipts_view().len() ==> {
                    let rct = #[trigger] self.receipts_view()[j];
                    r.1@[j] == rct.hm && r.2@[j] == rct.base && r.3@[j] == rct.sigma
                },
            settle_check(
                r.0,
                self.server_bal_elt(),
                r.1@,
                crate::server::base_dls(r.2@),
                r.4,
            ),
    {
        let x_claim = self.bal;
        let n = self.receipts.len();
        let mut hms: Vec<GroupElt> = Vec::new();
        let mut bases: Vec<[u8; 32]> = Vec::new();
        let mut sigmas: Vec<[u8; 64]> = Vec::new();
        let mut xs: Vec<Scal> = Vec::new();
        let mut ms: Vec<Scal> = Vec::new();
        let mut gs: Vec<GroupElt> = Vec::new();
        let mut k: usize = 0;
        while k < n
            invariant
                n == self.receipts@.len(),
                self.wf(),
                0 <= k <= n,
                hms@.len() == k && bases@.len() == k && sigmas@.len() == k && xs@.len() == k
                    && ms@.len() == k && gs@.len() == k,
                forall|j: int|
                    0 <= j < k ==> {
                        let rct = #[trigger] self.receipts@[j];
                        &&& hms@[j] == rct.hm
                        &&& bases@[j] == rct.base
                        &&& sigmas@[j] == rct.sigma
                        &&& xs@[j] == rct.x
                        &&& ms@[j] == rct.m
                        &&& gs@[j].dl() == group_hash_dl(rct.base@)
                    },
            decreases n - k,
        {
            let rct = &self.receipts[k];
            hms.push(rct.hm);
            bases.push(rct.base);
            sigmas.push(rct.sigma);
            xs.push(rct.x);
            ms.push(rct.m);
            gs.push(hash_to_point(rct.base.as_slice()));
            k = k + 1;
        }

        proof {
            lemma_settle_inputs(self.receipts@, dls_of(gs@), xs@, ms@, n as int);
            lemma_claim_residue(self.receipts@, xs@, n as int);
            assert(self.server_bal.dl() == sum_gmx(dls_of(gs@), xs@, ms@, n as int));
            assert(scalar_of_int(x_claim as int) == sum_sv(xs@, n as int));
            assert forall|j: int| 0 <= j < n implies (#[trigger] hms@[j]).dl() == mmul(
                group_hash_dl(h_label()),
                ms@[j].val(),
            ) by {
                let rct = self.receipts@[j];
                assert(hms@[j] == rct.hm && ms@[j] == rct.m);
            }
        }
        let pi = zk_settle_prove(x_claim, &self.server_bal, &hms, &gs, &xs, &ms);
        proof {
            assert forall|k: int| 0 <= k < n implies crate::server::base_dls(bases@)[k] == dls_of(
                gs@,
            )[k] by {
                let rct = self.receipts@[k];
                assert(bases@[k] == rct.base && gs@[k].dl() == group_hash_dl(rct.base@));
            }
            assert(crate::server::base_dls(bases@) =~= dls_of(gs@));
        }
        (x_claim, hms, bases, sigmas, pi)
    }
}

/// What a ciphertext opens to for this client: the AEAD opening under the
/// key that its own encryption keypair derives. Together with the hybrid
/// scheme's opening law, an honestly produced receipt ciphertext opens to
/// the sender's mask, amount and base; the amount the owner then subtracts
/// is the amount the shopper folded in, so the two sides' plaintext balance
/// deltas of one transaction cancel.
pub proof fn lemma_opened_meaning(c: Client, ct: HybridCt)
    requires
        c.wf(),
    ensures
        c.opened(ct) == aead_dec(derived_key(c.enc_key(), ct.elg), ct.nonce@, ct.sym@),
        c.pk().dl() == c.enc_key().val(),
{
}

/// Plaintext-level conservation across one transaction: a transact step's
/// ciphertext, opened by the barcode owner it was encrypted to, carries
/// exactly the amount the shopper folded into its own balance. The shopper's
/// coda adds that amount and the owner's receipt processing subtracts the
/// opened amount, so the two balance deltas cancel.
pub proof fn lemma_tx_conserves_points(
    owner: Client,
    ct: HybridCt,
    tx: TxAndProof,
    points: i32,
    base: [u8; 32],
    m: Scal,
)
    requires
        owner.wf(),
        owner.enc_key().val() < group_order(),
        ct.elg.0.dl() < group_order(),
        tx_outputs(owner.pk(), ct, tx, points, base, m),
    ensures
        owner.opened(ct) is Some,
        payload_amount(owner.opened(ct).unwrap()) == points,
{
    lemma_opened_meaning(owner, ct);
    assert(exists|pd: nat, mask: Seq<u8>|
        {
            &&& mask.len() == 32
            &&& #[trigger] encrypts(
                owner.pk(),
                ct,
                pd,
                mask,
                #[verifier::truncate] (points as u32),
                base@,
            )
            &&& m.val() == le_val(mask) % group_order()
            &&& tx.r2.dl() == mmul(group_hash_dl(h_label()), m.val())
        });
    let (pd, mask) = choose|pd: nat, mask: Seq<u8>|
        {
            &&& mask.len() == 32
            &&& #[trigger] encrypts(
                owner.pk(),
                ct,
                pd,
                mask,
                #[verifier::truncate] (points as u32),
                base@,
            )
            &&& m.val() == le_val(mask) % group_order()
            &&& tx.r2.dl() == mmul(group_hash_dl(h_label()), m.val())
        };
    lemma_hybrid_opening(owner.enc_key(), owner.pk(), &ct, pd, mask, points, base@);
}

/// Appending receipts leaves the sums over an unchanged prefix unchanged.
proof fn lemma_rsum_grow(a: Seq<ClientReceipt>, b: Seq<ClientReceipt>, n: int)
    requires
        n <= a.len(),
        n <= b.len(),
        forall|j: int| 0 <= j < n ==> a[j] == b[j],
    ensures
        rsum_points(a, n) == rsum_points(b, n),
        rsum_dl(a, n) == rsum_dl(b, n),
        rsum_x(a, n) == rsum_x(b, n),
    decreases n,
{
    if n > 0 {
        lemma_rsum_grow(a, b, n - 1);
    }
}

/// The receipts' group-element sum equals the settlement inputs' sum when
/// the vectors are drawn from the receipts elementwise.
proof fn lemma_settle_inputs(
    rs: Seq<ClientReceipt>,
    gds: Seq<nat>,
    xs: Seq<Scal>,
    ms: Seq<Scal>,
    n: int,
)
    requires
        n <= rs.len(),
        n <= gds.len(),
        n <= xs.len(),
        n <= ms.len(),
        forall|j: int|
            0 <= j < n ==> gds[j] == group_hash_dl((#[trigger] rs[j]).base@) && xs[j] == rs[j].x
                && ms[j] == rs[j].m,
    ensures
        sum_gmx(gds, xs, ms, n) == rsum_dl(rs, n),
    decreases n,
{
    if n > 0 {
        lemma_settle_inputs(rs, gds, xs, ms, n - 1);
    }
}

/// The claimed balance's residue equals the modular sum of the receipts'
/// residues, and hence of the settlement amounts.
proof fn lemma_claim_residue(rs: Seq<ClientReceipt>, xs: Seq<Scal>, n: int)
    requires
        n <= rs.len(),
        n <= xs.len(),
        forall|j: int|
            0 <= j < n ==> xs[j] == (#[trigger] rs[j]).x && rs[j].x.val() == scalar_of_int(
                rs[j].points as int,
            ),
    ensures
        scalar_of_int(rsum_points(rs, n)) == sum_sv(xs, n),
    decreases n,
{
    if n <= 0 {
        crate::modp::lemma_msmall(0);
    } else {
        lemma_claim_residue(rs, xs, n - 1);
        lemma_scalar_of_int_add(rsum_points(rs, n - 1), rs[n - 1].points as int);
        crate::modp::lemma_madd_noop(scalar_of_int(rsum_points(rs, n - 1)), rs[n - 1].x.val());
        crate::modp::lemma_msmall(sum_sv(xs, n - 1));
    }
}

} // verus!
