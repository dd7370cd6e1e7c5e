//! The Merkle ledger of registered users. The tree itself is an outside
//! library, consumed only through `insert`, `commit`, `root`, `proof` and
//! `verify`; this module also fixes the byte-exact leaf encoding: the
//! SHA-256 digest of the little-endian, length-prefixless serialization of
//! `(uid, barcode, pk)`.

use crate::bytes::{push_bytes32, u32_le, u32_to_le, u64_le, u64_to_le};
use crate::group::{sha256, sha256_of};
use vstd::prelude::*;

verus! {

/// The SHA-256 Merkle tree of the outside library, held behind an opaque
/// struct: the library's `Hasher` trait bound cannot be declared to the
/// verifier, so the tree is carried in a hidden field instead.
#[verifier::external_body]
pub struct LedgerTree {
    inner: rs_merkle::MerkleTree<rs_merkle::algorithms::Sha256>,
}

/// An inclusion proof of the outside library, held the same way.
#[verifier::external_body]
pub struct LedgerProof {
    inner: rs_merkle::MerkleProof<rs_merkle::algorithms::Sha256>,
}

/// The committed leaves of a Merkle tree, in insertion order.
pub uninterp spec fn merkle_committed(t: LedgerTree) -> Seq<Seq<u8>>;

/// The leaves a Merkle tree holds once its pending insertions are committed.
pub uninterp spec fn merkle_pending(t: LedgerTree) -> Seq<Seq<u8>>;

/// The root that a list of committed leaves determines.
pub uninterp spec fn merkle_root_of(leaves: Seq<Seq<u8>>) -> Seq<u8>;

/// The hash path an inclusion proof carries.
pub uninterp spec fn proof_hashes(p: LedgerProof) -> Seq<Seq<u8>>;

/// What `MerkleProof::verify` decides for a root, one leaf at an index, a
/// total leaf count, and a proof's hash path.
pub uninterp spec fn mk_verify_ok(
    root: Seq<u8>,
    index: int,
    leaf: Seq<u8>,
    total: int,
    hashes: Seq<Seq<u8>>,
) -> bool;

/// Relies on `MerkleTree::new`: an empty tree with nothing pending.
#[verifier::external_body]
pub(crate) fn merkle_new() -> (t: LedgerTree)
    ensures
        merkle_committed(t) == Seq::<Seq<u8>>::empty(),
        merkle_pending(t) == Seq::<Seq<u8>>::empty(),
{
    LedgerTree { inner: rs_merkle::MerkleTree::new() }
}

/// Relies on `MerkleTree::insert`: the leaf is appended to the pending
/// leaves; the committed state is untouched.
#[verifier::external_body]
pub(crate) fn merkle_insert(t: &mut LedgerTree, leaf: &[u8; 32])
    ensures
        merkle_pending(*final(t)) == merkle_pending(*old(t)).push(leaf@),
        merkle_committed(*final(t)) == merkle_committed(*old(t)),
{
    t.inner.insert(*leaf);
}

/// Relies on `MerkleTree::commit`: the pending leaves become committed.
#[verifier::external_body]
pub(crate) fn merkle_commit(t: &mut LedgerTree)
    ensures
        merkle_committed(*final(t)) == merkle_pending(*old(t)),
        merkle_pending(*final(t)) == merkle_pending(*old(t)),
{
    t.inner.commit();
}

/// Relies on `MerkleTree::root`: the root over the committed leaves, absent
/// exactly when none are committed.
#[verifier::external_body]
pub(crate) fn merkle_root(t: &LedgerTree) -> (r: Option<[u8; 32]>)
    ensures
        r is Some <==> merkle_committed(*t).len() > 0,
        r matches Some(h) ==> h@ == merkle_root_of(merkle_committed(*t)),
{
    t.inner.root()
}

/// Relies on `MerkleTree::proof`: an inclusion proof for one committed leaf,
/// which verifies against the committed root for that leaf, index and count.
#[verifier::external_body]
pub(crate) fn merkle_proof(t: &LedgerTree, index: usize) -> (r: LedgerProof)
    requires
        index < merkle_committed(*t).len(),
    ensures
        mk_verify_ok(
            merkle_root_of(merkle_committed(*t)),
            index as int,
            merkle_committed(*t)[index as int],
            merkle_committed(*t).len() as int,
            proof_hashes(r),
        ),
{
    LedgerProof { inner: t.inner.proof(&[index]) }
}

/// Relies on `MerkleProof::verify`: a deterministic decision from the root,
/// the claimed leaf and index, the leaf count and the proof's hash path.
#[verifier::external_body]
pub(crate) fn merkle_verify(
    pi: &LedgerProof,
    root: &[u8; 32],
    index: usize,
    leaf: &[u8; 32],
    total: usize,
) -> (r: bool)
    ensures
        r == mk_verify_ok(root@, index as int, leaf@, total as int, proof_hashes(*pi)),
{
    pi.inner.verify(*root, &[index], &[*leaf], total)
}

/// The fixed serialization of a ledger entry: the user id's four and the
/// barcode's eight little-endian bytes, then the 32-byte public key.
pub open spec fn tree_entry_bytes(uid: u32, barcode: u64, pk: Seq<u8>) -> Seq<u8> {
    u32_le(uid) + u64_le(barcode) + pk
}

/// The leaf a ledger entry hashes to.
pub open spec fn leaf_of(uid: u32, barcode: u64, pk: Seq<u8>) -> Seq<u8> {
    sha256_of(tree_entry_bytes(uid, barcode, pk))
}

/// Hash a ledger entry to its Merkle leaf.
pub fn hash_tree_entry(uid: u32, barcode: u64, pk: &[u8; 32]) -> (r: [u8; 32])
    ensures
        r@ == leaf_of(uid, barcode, pk@),
{
    let mut bytes: Vec<u8> = Vec::new();
    let uid_le = u32_to_le(uid);
    bytes.extend_from_slice(uid_le.as_slice());
    let barcode_le = u64_to_le(barcode);
    bytes.extend_from_slice(barcode_le.as_slice());
    push_bytes32(&mut bytes, pk);
    proof {
        assert(bytes@ =~= tree_entry_bytes(uid, barcode, pk@));
    }
    sha256(&bytes)
}

} // verus!
