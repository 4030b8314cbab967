use cep::canonical::Canonicalize;
use cep::identifiers::{AdditionalScheme, CanadianBn, EntityIdentifiers, Lei, SamUei, Snfei};

#[test]
fn test_sam_uei_validation() {
    assert!(SamUei::new("J6H4FB3N5YK7").is_some());
    assert!(SamUei::new("J6H4FB3N5YK").is_none());
    assert!(SamUei::new("J6H4FB3N5YK7X").is_none());
    assert!(SamUei::new("j6h4fb3n5yk7").is_none());
    assert_eq!(SamUei::new("J6H4FB3N5YK7").unwrap().as_str(), "J6H4FB3N5YK7");
}

#[test]
fn test_lei_validation_and_uppercasing() {
    assert!(Lei::new("5493001KJTIIGC8Y1R12").is_some());
    assert!(Lei::new("5493001KJTIIGC8Y1R1").is_none());
    assert!(Lei::new("5493001KJTIIGC8Y1R1!").is_none());
    assert_eq!(Lei::new("5493001kjtiigc8y1r12").unwrap().as_str(), "5493001KJTIIGC8Y1R12");
}

#[test]
fn test_entity_snfei_from_hash() {
    let valid = "0123456789abcdef".repeat(4);
    assert!(Snfei::from_hash(&valid).is_some());
    assert!(Snfei::from_hash("xyz").is_none());
    let upper = "0123456789ABCDEF".repeat(4);
    assert_eq!(Snfei::from_hash(&upper).unwrap().as_str(), valid);
}

#[test]
fn test_entity_snfei_generate() {
    // SHA-256 of "acme corp|US", independently computed.
    let snfei = Snfei::generate("acme corp", "US");
    assert_eq!(
        snfei.as_str(),
        "84e88390687071b318ebbdf7465fa1eacd6924422201c62988e3e7bf89f4595f"
    );
}

#[test]
fn test_canadian_bn_validation() {
    assert!(CanadianBn::new("123456789RC0001").is_some());
    assert!(CanadianBn::new("123456789rc0001").is_none());
    assert!(CanadianBn::new("12345678RC00010").is_none());
    assert!(CanadianBn::new("123456789RC001").is_none());
    assert_eq!(CanadianBn::new("123456789RC0001").unwrap().as_str(), "123456789RC0001");
}

#[test]
fn test_has_any() {
    let empty = EntityIdentifiers::new();
    assert!(!empty.has_any());

    let with_lei = EntityIdentifiers::new().with_lei(Lei::new("5493001KJTIIGC8Y1R12").unwrap());
    assert!(with_lei.has_any());

    let mut with_schemes = EntityIdentifiers::new();
    with_schemes.additional_schemes = Some(vec![]);
    assert!(!with_schemes.has_any());
    with_schemes.additional_schemes = Some(vec![AdditionalScheme {
        scheme_uri: "urn:example".to_string(),
        value: "x1".to_string(),
    }]);
    assert!(with_schemes.has_any());
}

#[test]
fn test_primary_identifier_precedence() {
    let ids = EntityIdentifiers::new()
        .with_sam_uei(SamUei::new("J6H4FB3N5YK7").unwrap())
        .with_lei(Lei::new("5493001KJTIIGC8Y1R12").unwrap());
    assert_eq!(
        ids.primary_identifier(),
        Some("cep-entity:lei:5493001KJTIIGC8Y1R12".to_string())
    );

    let ids = EntityIdentifiers::new().with_sam_uei(SamUei::new("J6H4FB3N5YK7").unwrap());
    assert_eq!(
        ids.primary_identifier(),
        Some("cep-entity:sam-uei:J6H4FB3N5YK7".to_string())
    );

    let hash = "0123456789abcdef".repeat(4);
    let ids = EntityIdentifiers::new().with_snfei(Snfei::from_hash(&hash).unwrap());
    assert_eq!(ids.primary_identifier(), Some(format!("cep-entity:snfei:{}", hash)));

    let mut ids = EntityIdentifiers::new();
    ids.canadian_bn = CanadianBn::new("123456789RC0001");
    assert_eq!(
        ids.primary_identifier(),
        Some("cep-entity:canadian-bn:123456789RC0001".to_string())
    );

    assert_eq!(EntityIdentifiers::new().primary_identifier(), None);
}

#[test]
fn test_entity_identifiers_canonical_fields() {
    let ids = EntityIdentifiers::new()
        .with_sam_uei(SamUei::new("J6H4FB3N5YK7").unwrap())
        .with_lei(Lei::new("5493001KJTIIGC8Y1R12").unwrap());
    let keys = ids.canonical_fields().keys();
    assert_eq!(keys, vec!["lei".to_string(), "samUei".to_string()]);

    let canonical = ids.to_canonical_string();
    assert_eq!(
        canonical,
        r#""lei":"5493001KJTIIGC8Y1R12","samUei":"J6H4FB3N5YK7""#
    );
}

#[test]
fn test_additional_schemes_sorted() {
    let mut ids = EntityIdentifiers::new();
    ids.additional_schemes = Some(vec![
        AdditionalScheme { scheme_uri: "urn:b".to_string(), value: "2".to_string() },
        AdditionalScheme { scheme_uri: "urn:a".to_string(), value: "1".to_string() },
    ]);
    let fields = ids.canonical_fields();
    assert!(fields.contains_key("additionalSchemes"));
    let canonical = ids.to_canonical_string();
    // The schemes are sorted by scheme URI and embedded as escaped JSON.
    assert!(canonical.starts_with(r#""additionalSchemes":"["#));
    let a = canonical.find("urn:a").unwrap();
    let b = canonical.find("urn:b").unwrap();
    assert!(a < b);
    assert!(canonical.contains(r#"{\"schemeUri\":\"urn:a\",\"value\":\"1\"}"#));
}

#[test]
fn test_entity_identifiers_hash_stable() {
    let make = || {
        EntityIdentifiers::new().with_sam_uei(SamUei::new("J6H4FB3N5YK7").unwrap())
    };
    assert_eq!(make().calculate_hash(), make().calculate_hash());
    assert_eq!(make().calculate_hash().len(), 64);
}
