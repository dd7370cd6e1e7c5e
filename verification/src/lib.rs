//! Core of a privacy-preserving loyalty-points protocol: an anonymous
//! barcode-swap state machine, hybrid encryption of per-transaction masks,
//! Fiat-Shamir Sigma-protocols for transaction well-formedness and balance
//! settlement, and a baby-step giant-step discrete-log recovery.

use vstd::prelude::*;

pub mod bytes;
pub mod client;
pub mod dlog;
pub mod elgamal;
pub mod err;
pub mod group;
pub mod hybrid;
pub mod merkle;
pub mod modp;
pub mod rng;
pub mod server;
pub mod sig;
pub mod sigma_settle;
pub mod sigma_sh;
pub mod sigma_tx;

verus! {

/// Number of loyalty points a balance may reach before settlement-time
/// discrete-log recovery gives up.
pub const MAX_POINTS: u32 = 100000;

} // verus!
