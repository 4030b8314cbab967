//! Canonicalization and content-derived identifiers for civic entity records.
//!
//! The crate provides three connected pieces:
//!
//! - a canonicalization contract: every record type can produce an ordered
//!   field map, a deterministic canonical string, and a SHA-256 hash of it;
//! - a normalizing pipeline that turns raw entity attributes into a
//!   [`normalizer::CanonicalInput`];
//! - the SNFEI generator, which derives a stable identifier hash from the
//!   canonical input and classifies its confidence tier.

pub mod attestation;
pub mod canonical;
pub mod error;
pub mod generator;
pub mod hash;
pub mod identifiers;
pub mod normalizer;
pub mod text;
pub mod timestamp;
pub mod version;

pub use attestation::{Attestation, ProofPurpose};
pub use canonical::Canonicalize;
pub use error::{CepError, CepResult};
pub use timestamp::CanonicalTimestamp;
pub use version::SCHEMA_VERSION;
