use cep::generator::{generate_snfei, generate_snfei_simple, generate_snfei_with_confidence, Snfei};

#[test]
fn test_snfei_from_hash() {
    let valid = "a".repeat(64);
    assert!(Snfei::from_hash(&valid).is_some());

    let invalid_length = "a".repeat(63);
    assert!(Snfei::from_hash(&invalid_length).is_none());

    let invalid_chars = "g".repeat(64);
    assert!(Snfei::from_hash(&invalid_chars).is_none());
}

#[test]
fn test_generate_snfei_deterministic() {
    let (snfei1, _) = generate_snfei("Springfield USD", "US", None, None);
    let (snfei2, _) = generate_snfei("Springfield USD", "US", None, None);
    assert_eq!(snfei1, snfei2);
}

#[test]
fn test_generate_snfei_normalization_equivalence() {
    let (snfei1, _) = generate_snfei("Springfield USD", "US", None, None);
    let (snfei2, _) = generate_snfei("SPRINGFIELD USD", "US", None, None);
    let (snfei3, _) = generate_snfei("springfield usd", "US", None, None);
    assert_eq!(snfei1, snfei2);
    assert_eq!(snfei2, snfei3);
}

#[test]
fn test_generate_snfei_with_address() {
    let (snfei1, _) = generate_snfei("Acme Corp", "US", None, None);
    let (snfei2, _) = generate_snfei("Acme Corp", "US", Some("123 Main St"), None);
    assert_ne!(snfei1, snfei2);
}

#[test]
fn test_generate_snfei_with_date() {
    let (snfei1, _) = generate_snfei("Acme Corp", "US", None, None);
    let (snfei2, _) = generate_snfei("Acme Corp", "US", None, Some("2020-01-01"));
    assert_ne!(snfei1, snfei2);
}

#[test]
fn test_snfei_result_tier_3_base() {
    let result = generate_snfei_with_confidence("Acme Corp", "US", None, None, None, None);
    assert_eq!(result.tier, 3);
    assert!((result.confidence_hundredths as f64 / 100.0 - 0.5).abs() < 0.01);
}

#[test]
fn test_snfei_result_tier_3_with_address() {
    let result =
        generate_snfei_with_confidence("Acme Corp", "US", Some("123 Main St"), None, None, None);
    assert_eq!(result.tier, 3);
    assert!((result.confidence_hundredths as f64 / 100.0 - 0.7).abs() < 0.01);
}

#[test]
fn test_snfei_result_tier_3_max() {
    let result = generate_snfei_with_confidence(
        "Springfield Regional Medical Center Inc",
        "US",
        Some("500 Hospital Dr"),
        Some("1990-01-01"),
        None,
        None,
    );
    assert_eq!(result.tier, 3);
    assert!((result.confidence_hundredths as f64 / 100.0 - 0.9).abs() < 0.01);
}

#[test]
fn test_snfei_result_tier_2() {
    let result =
        generate_snfei_with_confidence("Acme Corp", "US", None, None, None, Some("ABC123456789"));
    assert_eq!(result.tier, 2);
    assert!((result.confidence_hundredths as f64 / 100.0 - 0.95).abs() < 0.01);
}

#[test]
fn test_snfei_result_tier_1() {
    let result = generate_snfei_with_confidence(
        "Acme Corp",
        "US",
        None,
        None,
        Some("12345678901234567890"),
        None,
    );
    assert_eq!(result.tier, 1);
    assert!((result.confidence_hundredths as f64 / 100.0 - 1.0).abs() < 0.01);
}

#[test]
fn test_canonical_string_format() {
    let (_, canonical) =
        generate_snfei("Acme Corp", "US", Some("123 Main St"), Some("2020-01-01"));
    let hash_string = canonical.to_hash_string();
    assert!(hash_string.contains("|"));
    let parts: Vec<&str> = hash_string.split('|').collect();
    assert_eq!(parts.len(), 4);
}

#[test]
fn test_generate_snfei_known_value() {
    // SHA-256 of "acme corp||US|", independently computed.
    let value = generate_snfei_simple("Acme Corp", "US", None);
    assert_eq!(value, "3ad1ac794319c116cacc0529207ff32c50a4b2b1616ed6b3707c9ae2b4149821");
    let (snfei, canonical) = generate_snfei("Acme Corp", "US", None, None);
    assert_eq!(snfei.value(), value);
    assert_eq!(canonical.to_hash_string(), "acme corp||US|");
}

#[test]
fn test_tier_1_fields_used_order() {
    let result = generate_snfei_with_confidence(
        "Acme Corp",
        "US",
        None,
        None,
        Some("12345678901234567890"),
        None,
    );
    assert_eq!(result.fields_used, vec!["lei", "legal_name", "country_code"]);
}

#[test]
fn test_tier_3_fields_used_order() {
    let result = generate_snfei_with_confidence(
        "Acme Corp",
        "US",
        Some("123 Main St"),
        Some("2020-01-01"),
        None,
        None,
    );
    assert_eq!(
        result.fields_used,
        vec!["legal_name", "country_code", "address", "registration_date"]
    );
}

#[test]
fn test_short_lei_falls_through() {
    // A LEI of the wrong length does not qualify; a qualifying SAM UEI wins.
    let result = generate_snfei_with_confidence(
        "Acme Corp",
        "US",
        None,
        None,
        Some("tooshort"),
        Some("ABC123456789"),
    );
    assert_eq!(result.tier, 2);
    assert_eq!(result.confidence_hundredths, 95);
}

#[test]
fn test_to_map_entries() {
    let result = generate_snfei_with_confidence("Acme Corp", "US", None, None, None, None);
    let map = result.to_map();
    assert_eq!(map.len(), 5);
    assert_eq!(map[0].0, "snfei");
    assert_eq!(map[0].1, result.snfei.value());
    assert_eq!(map[1], ("confidence_score".to_string(), "0.50".to_string()));
    assert_eq!(map[2], ("tier".to_string(), "3".to_string()));
    assert_eq!(map[3], ("fields_used".to_string(), "legal_name,country_code".to_string()));
    assert_eq!(map[4], ("canonical_string".to_string(), "acme corp||US|".to_string()));
}

#[test]
fn test_snfei_short() {
    let value = "a".repeat(64);
    let snfei = Snfei::from_hash(&value).unwrap();
    assert_eq!(snfei.short(8), "aaaaaaaa...");
    assert_eq!(snfei.short(100), value);
}

#[test]
fn test_snfei_from_hash_lowercases() {
    let mixed = "ABCDEF0123456789".repeat(4);
    let snfei = Snfei::from_hash(&mixed).unwrap();
    assert_eq!(snfei.value(), "abcdef0123456789".repeat(4));
}
