//! Error taxonomy for record validation and persistence around the core.
//!
//! The canonicalization and generation operations themselves are total and
//! never fail; these kinds belong to the surrounding layers.  Constructors
//! of identifier types return an absent result on malformed input rather
//! than an error.  `HashMismatch` is the integrity-critical kind: a
//! recomputed hash that differs from a stored one indicates tampering or
//! corruption, not malformed input.

use vstd::prelude::*;

verus! {

/// The kinds of failure that operations around the core can surface.
#[derive(Debug)]
pub enum CepError {
    /// Invalid timestamp format.
    InvalidTimestamp(String),
    /// Invalid hash format: not 64 hexadecimal characters.
    InvalidHash(String),
    /// Invalid identifier format.
    InvalidIdentifier(String),
    /// Missing required field.
    MissingField(String),
    /// Unsupported schema version.
    UnsupportedVersion(String),
    /// Hash verification failed after recomputation.
    HashMismatch {
        /// The stored hash.
        expected: String,
        /// The recomputed hash.
        actual: String,
    },
    /// An underlying encode or decode failure, described.
    Serialization(String),
    /// Revision chain error.
    RevisionChain(String),
    /// Schema not found or version mismatch.
    UnknownSchema(String),
    /// Configuration or environment error.
    Configuration(String),
}

/// Result type for operations around the core.
pub type CepResult<T> = Result<T, CepError>;

} // verus!
