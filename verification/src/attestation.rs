//! Attestation and proof records.
//!
//! An attestation bundles who attested to a record (`attestorId`), when
//! (`attestationTimestamp`), and the cryptographic proof metadata
//! (`proofType`, `proofValue`, `verificationMethodUri`, `proofPurpose`,
//! optionally `anchorUri`).  It implements the canonicalization contract
//! with exactly those camelCase field names, sorted alphabetically, the
//! anchor present only when set.  Signature generation and verification
//! are outside collaborators' work; only the canonical encoding is here.

use vstd::prelude::*;

use crate::canonical::{canonical_string_of_map, entries_string, insert_if_present,
    insert_required, Canonicalize, FieldMap};
use crate::hash::{sha256_hex, sha256_hex_of};
use crate::text::lex_lt;
use crate::timestamp::CanonicalTimestamp;

verus! {

/// The purpose of a cryptographic proof.
#[derive(Debug, Clone, Copy, PartialEq, Eq, Structural, Hash)]
pub enum ProofPurpose {
    /// The proof asserts the truth of a claim.
    AssertionMethod,
    /// The proof authenticates the identity of the attestor.
    Authentication,
    /// The proof delegates a capability to another party.
    CapabilityDelegation,
}

/// The canonical label of a proof purpose.
pub open spec fn purpose_label(p: ProofPurpose) -> Seq<char> {
    match p {
        ProofPurpose::AssertionMethod => "assertionMethod"@,
        ProofPurpose::Authentication => "authentication"@,
        ProofPurpose::CapabilityDelegation => "capabilityDelegation"@,
    }
}

impl ProofPurpose {
    /// The canonical label.
    pub fn as_str(&self) -> (r: &'static str)
        ensures
            r@ == purpose_label(*self),
    {
        match self {
            ProofPurpose::AssertionMethod => "assertionMethod",
            ProofPurpose::Authentication => "authentication",
            ProofPurpose::CapabilityDelegation => "capabilityDelegation",
        }
    }
}

impl Default for ProofPurpose {
    /// Assertion is the default purpose.
    fn default() -> (r: Self)
        ensures
            r == ProofPurpose::AssertionMethod,
    {
        ProofPurpose::AssertionMethod
    }
}

/// Cryptographic attestation proving record authenticity and integrity.
/// Immutable once constructed: the `with_*` operations return new values.
#[derive(Debug, Clone)]
pub struct Attestation {
    /// Verifiable identifier of the attesting entity or node.
    pub attestor_id: String,
    /// When the attestation was created.
    pub attestation_timestamp: CanonicalTimestamp,
    /// The proof algorithm identifier.
    pub proof_type: String,
    /// The cryptographic signature or proof value.
    pub proof_value: String,
    /// URI resolving to the key material for verification.
    pub verification_method_uri: String,
    /// The purpose of the proof.
    pub proof_purpose: ProofPurpose,
    /// Optional URI of a timestamping authority or ledger anchor.
    pub anchor_uri: Option<String>,
}

impl Attestation {
    /// Creates an attestation from the required fields; the purpose
    /// defaults to assertion and no anchor is set.
    pub fn new(
        attestor_id: String,
        attestation_timestamp: CanonicalTimestamp,
        proof_type: String,
        proof_value: String,
        verification_method_uri: String,
    ) -> (r: Self)
        ensures
            r.attestor_id@ == attestor_id@,
            r.attestation_timestamp@ == attestation_timestamp@,
            r.proof_type@ == proof_type@,
            r.proof_value@ == proof_value@,
            r.verification_method_uri@ == verification_method_uri@,
            r.proof_purpose == ProofPurpose::AssertionMethod,
            r.anchor_uri is None,
    {
        Attestation {
            attestor_id,
            attestation_timestamp,
            proof_type,
            proof_value,
            verification_method_uri,
            proof_purpose: ProofPurpose::default(),
            anchor_uri: None,
        }
    }

    /// A copy with the proof purpose set.
    pub fn with_purpose(self, purpose: ProofPurpose) -> (r: Self)
        ensures
            r.proof_purpose == purpose,
            r.attestor_id@ == self.attestor_id@,
            r.attestation_timestamp@ == self.attestation_timestamp@,
            r.proof_type@ == self.proof_type@,
            r.proof_value@ == self.proof_value@,
            r.verification_method_uri@ == self.verification_method_uri@,
            r.anchor_uri == self.anchor_uri,
    {
        Attestation { proof_purpose: purpose, ..self }
    }

    /// A copy with the anchor URI set.
    pub fn with_anchor(self, uri: String) -> (r: Self)
        ensures
            r.anchor_uri matches Some(u) && u@ == uri@,
            r.attestor_id@ == self.attestor_id@,
            r.attestation_timestamp@ == self.attestation_timestamp@,
            r.proof_type@ == self.proof_type@,
            r.proof_value@ == self.proof_value@,
            r.verification_method_uri@ == self.verification_method_uri@,
            r.proof_purpose == self.proof_purpose,
    {
        Attestation { anchor_uri: Some(uri), ..self }
    }
}

/// The seven field keys of the attestation encoding stand in ascending
/// lexicographic order.
proof fn lemma_attestation_key_order()
    ensures
        lex_lt("anchorUri"@, "attestationTimestamp"@),
        lex_lt("attestationTimestamp"@, "attestorId"@),
        lex_lt("attestorId"@, "proofPurpose"@),
        lex_lt("proofPurpose"@, "proofType"@),
        lex_lt("proofType"@, "proofValue"@),
        lex_lt("proofValue"@, "verificationMethodUri"@),
{
    reveal_strlit("anchorUri");
    reveal_strlit("attestationTimestamp");
    reveal_strlit("attestorId");
    reveal_strlit("proofPurpose");
    reveal_strlit("proofType");
    reveal_strlit("proofValue");
    reveal_strlit("verificationMethodUri");
    reveal_with_fuel(lex_lt, 9);
    assert(lex_lt("anchorUri"@, "attestationTimestamp"@));
    assert(lex_lt("attestationTimestamp"@, "attestorId"@));
    assert(lex_lt("attestorId"@, "proofPurpose"@));
    assert(lex_lt("proofPurpose"@, "proofType"@));
    assert(lex_lt("proofType"@, "proofValue"@));
    assert(lex_lt("proofValue"@, "verificationMethodUri"@));
}

impl Canonicalize for Attestation {
    /// The canonical field mapping: the six required fields under their
    /// camelCase names in alphabetical order, with `anchorUri` first when
    /// an anchor is set.
    open spec fn canonical_model(&self) -> Seq<(Seq<char>, Seq<char>)> {
        let base = seq![
            ("attestationTimestamp"@, self.attestation_timestamp@),
            ("attestorId"@, self.attestor_id@),
            ("proofPurpose"@, purpose_label(self.proof_purpose)),
            ("proofType"@, self.proof_type@),
            ("proofValue"@, self.proof_value@),
            ("verificationMethodUri"@, self.verification_method_uri@),
        ];
        match self.anchor_uri {
            Some(u) => seq![("anchorUri"@, u@)] + base,
            None => base,
        }
    }

    fn canonical_fields(&self) -> (r: FieldMap) {
        proof {
            lemma_attestation_key_order();
        }
        let mut map = FieldMap::new();
        insert_if_present(
            &mut map,
            "anchorUri",
            match &self.anchor_uri {
                Some(u) => Some(u.as_str()),
                None => None,
            },
        );
        let timestamp = self.attestation_timestamp.to_canonical_string();
        insert_required(&mut map, "attestationTimestamp", timestamp.as_str());
        insert_required(&mut map, "attestorId", self.attestor_id.as_str());
        insert_required(&mut map, "proofPurpose", self.proof_purpose.as_str());
        insert_required(&mut map, "proofType", self.proof_type.as_str());
        insert_required(&mut map, "proofValue", self.proof_value.as_str());
        insert_required(&mut map, "verificationMethodUri", self.verification_method_uri.as_str());
        proof {
            assert(map@ =~= self.canonical_model());
        }
        map
    }

    fn to_canonical_string(&self) -> (r: String) {
        let map = self.canonical_fields();
        canonical_string_of_map(&map)
    }

    fn calculate_hash(&self) -> (r: String) {
        let canonical = self.to_canonical_string();
        sha256_hex(canonical.as_str())
    }
}

/// Canonical field ordering of an attestation: with required fields only,
/// the keys are exactly the six camelCase names in alphabetical order;
/// setting an anchor inserts `anchorUri` at its sorted place (the front)
/// without disturbing the others.
pub proof fn lemma_attestation_field_order(a: Attestation)
    ensures
        a.anchor_uri is None ==> a.canonical_model().map_values(
            |e: (Seq<char>, Seq<char>)| e.0,
        ) == seq![
            "attestationTimestamp"@,
            "attestorId"@,
            "proofPurpose"@,
            "proofType"@,
            "proofValue"@,
            "verificationMethodUri"@,
        ],
        a.anchor_uri is Some ==> a.canonical_model().map_values(
            |e: (Seq<char>, Seq<char>)| e.0,
        ) == seq![
            "anchorUri"@,
            "attestationTimestamp"@,
            "attestorId"@,
            "proofPurpose"@,
            "proofType"@,
            "proofValue"@,
            "verificationMethodUri"@,
        ],
{
    if a.anchor_uri is None {
        assert(a.canonical_model().map_values(|e: (Seq<char>, Seq<char>)| e.0) =~= seq![
            "attestationTimestamp"@,
            "attestorId"@,
            "proofPurpose"@,
            "proofType"@,
            "proofValue"@,
            "verificationMethodUri"@,
        ]);
    } else {
        assert(a.canonical_model().map_values(|e: (Seq<char>, Seq<char>)| e.0) =~= seq![
            "anchorUri"@,
            "attestationTimestamp"@,
            "attestorId"@,
            "proofPurpose"@,
            "proofType"@,
            "proofValue"@,
            "verificationMethodUri"@,
        ]);
    }
}

/// Round-trip stability: two attestations built from identical field
/// values have the same canonical string and therefore the same hash.
pub proof fn lemma_attestation_hash_stable(a: Attestation, b: Attestation)
    requires
        a.attestor_id@ == b.attestor_id@,
        a.attestation_timestamp@ == b.attestation_timestamp@,
        a.proof_type@ == b.proof_type@,
        a.proof_value@ == b.proof_value@,
        a.verification_method_uri@ == b.verification_method_uri@,
        a.proof_purpose == b.proof_purpose,
        a.anchor_uri is Some <==> b.anchor_uri is Some,
        match (a.anchor_uri, b.anchor_uri) {
            (Some(x), Some(y)) => x@ == y@,
            _ => true,
        },
    ensures
        entries_string(a.canonical_model()) == entries_string(b.canonical_model()),
        sha256_hex_of(entries_string(a.canonical_model())) == sha256_hex_of(
            entries_string(b.canonical_model()),
        ),
{
    assert(a.canonical_model() =~= b.canonical_model());
}

} // verus!
