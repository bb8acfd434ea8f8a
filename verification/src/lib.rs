//! Additively homomorphic ElGamal aggregation over the Ristretto group.
//!
//! The crate collects independently encrypted numeric contributions,
//! folds them into a running homomorphic sum under one public key, and,
//! on a reveal request, recovers the plaintext sum with the paired
//! secret key through a bounded discrete-log lookup table.

pub mod aggregate;
pub mod codec;
pub mod dlog;
pub mod group;
pub mod keys;
pub mod session;

use vstd::prelude::*;

verus! {

/// Failure of decoding a wire-format ciphertext.
#[derive(Clone, Copy, Debug, PartialEq, Eq, Structural)]
pub enum DecodeError {
    /// An input component is not exactly 32 bytes long.
    InvalidLength,
    /// A 32-byte component is not the canonical encoding of a group element.
    InvalidEncoding,
}

/// Failure of decrypting an aggregate ciphertext.
#[derive(Clone, Copy, Debug, PartialEq, Eq, Structural)]
pub enum DecryptError {
    /// The decrypted group element lies outside the configured lookup range.
    OutOfRange,
}

/// Failure of a session-level operation.
#[derive(Clone, Copy, Debug, PartialEq, Eq, Structural)]
pub enum CoreError {
    /// A contribution could not be decoded.
    Decode(DecodeError),
    /// The aggregate ciphertext could not be decrypted.
    Decrypt(DecryptError),
    /// A call arrived after the epoch's reveal had already been triggered.
    AlreadyRevealed,
    /// A reveal was requested although no contribution was ever folded in.
    EmptyAggregate,
}

} // verus!
