//! Multi-party Schnorr-style signature aggregation with an adaptor
//! step: N key holders run a nonce-commitment round, aggregate their
//! public keys under rogue-key-resistant coefficients, sign a shared
//! challenge, and fold their partial signatures into one signature
//! under the aggregated key. One designated party may fold in a hidden
//! scalar, so the finished signature verifies only once that scalar is
//! accounted for.
//!
//! Group and scalar arithmetic come from curv's secp256k1 backend and
//! the hash from sha2, behind trusted wrappers; every scalar is modeled
//! by its reduced value and every group element by its discrete log,
//! and the protocol layer is verified against those models.

use vstd::prelude::*;

pub mod bytes;
pub mod hashing;
pub mod laws;
pub mod musig;
pub mod point;
pub mod scalar;

verus! {

/// Failure conditions of the protocol, one variant per verification gate.
#[derive(Copy, Clone, PartialEq, Eq, Debug, Structural)]
pub enum Error {
    InvalidKey,
    InvalidSS,
    InvalidCom,
    InvalidSig,
}

} // verus!
