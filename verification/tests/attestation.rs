use cep::canonical::Canonicalize;
use cep::{Attestation, CanonicalTimestamp};

fn test_attestation() -> Attestation {
    Attestation::new(
        "cep-entity:sam-uei:J6H4FB3N5YK7".to_string(),
        CanonicalTimestamp::new("2025-11-28T14:30:00.000000Z".to_string()),
        "Ed25519Signature2020".to_string(),
        "z3FXQqFwbZxKBxGxqFpCD...".to_string(),
        "did:web:example.gov#key-1".to_string(),
    )
}

#[test]
fn test_canonical_field_order() {
    let attestation = test_attestation();
    let fields = attestation.canonical_fields();

    let keys = fields.keys();
    assert_eq!(
        keys,
        vec![
            "attestationTimestamp".to_string(),
            "attestorId".to_string(),
            "proofPurpose".to_string(),
            "proofType".to_string(),
            "proofValue".to_string(),
            "verificationMethodUri".to_string(),
        ]
    );
}

#[test]
fn test_canonical_string() {
    let attestation = test_attestation();
    let canonical = attestation.to_canonical_string();

    assert!(canonical.starts_with(r#""attestationTimestamp":"2025-11-28T14:30:00.000000Z""#));
    assert!(canonical.contains(r#""attestorId":"cep-entity:sam-uei:J6H4FB3N5YK7""#));
    assert!(canonical.contains(r#""proofPurpose":"assertionMethod""#));
}

#[test]
fn test_with_anchor() {
    let attestation =
        test_attestation().with_anchor("https://blockchain.example.com/tx/abc123".to_string());

    let fields = attestation.canonical_fields();
    assert!(fields.contains_key("anchorUri"));
}

#[test]
fn test_hash_stability() {
    let a1 = test_attestation();
    let a2 = test_attestation();

    assert_eq!(a1.calculate_hash(), a2.calculate_hash());
}

#[test]
fn test_attestation_known_hash() {
    let attestation = test_attestation();
    assert_eq!(
        attestation.calculate_hash(),
        "d93076760ab8762c5b7003356bd9e75b4f608767d75923f4b93e39a51a42f737"
    );
}

#[test]
fn test_anchor_key_sorted_first() {
    let attestation =
        test_attestation().with_anchor("https://blockchain.example.com/tx/abc123".to_string());
    let keys = attestation.canonical_fields().keys();
    assert_eq!(keys[0], "anchorUri".to_string());
    assert_eq!(keys.len(), 7);
    let canonical = attestation.to_canonical_string();
    assert!(canonical.starts_with(r#""anchorUri":"https://blockchain.example.com/tx/abc123""#));
}

#[test]
fn test_canonical_string_escapes_values() {
    let attestation = Attestation::new(
        "attestor \"quoted\" \\ backslash".to_string(),
        CanonicalTimestamp::new("2025-11-28T14:30:00.000000Z".to_string()),
        "line\nbreak\ttab".to_string(),
        "sig".to_string(),
        "uri".to_string(),
    );
    let canonical = attestation.to_canonical_string();
    assert!(canonical.contains(r#""attestorId":"attestor \"quoted\" \\ backslash""#));
    assert!(canonical.contains(r#""proofType":"line\nbreak\ttab""#));
}

#[test]
fn test_with_purpose() {
    let attestation = test_attestation().with_purpose(cep::ProofPurpose::Authentication);
    let canonical = attestation.to_canonical_string();
    assert!(canonical.contains(r#""proofPurpose":"authentication""#));
    assert_eq!(cep::ProofPurpose::CapabilityDelegation.as_str(), "capabilityDelegation");
}
