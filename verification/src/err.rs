//! The failure kinds the protocol surfaces. Every error is reported to the
//! caller as a single failure result; none is retried internally.

use vstd::prelude::*;

verus! {

/// Why a protocol step was rejected.
#[derive(Clone, Copy, Debug, PartialEq, Eq, Structural)]
pub enum ProtocolError {
    /// A commitment does not reopen to the provided index and blinding.
    InvalidCommit,
    /// A Sigma-protocol equation fails.
    InvalidProof,
    /// A purported server signature does not verify.
    InvalidSignature,
    /// An ElGamal or AEAD decode or decrypt fails.
    InvalidCiphertext,
    /// The barcode owner observes a duplicate mask.
    ReplayedMask,
    /// A Merkle inclusion proof fails against the stored root.
    MerkleRejected,
    /// Discrete-log recovery was exhausted: a balance exceeds the bound.
    OutOfRange,
    /// A message references an unknown session commitment.
    UnknownSession,
    /// A transaction was opened against an empty user registry.
    EmptyRegistry,
}

} // verus!
