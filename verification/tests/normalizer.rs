use cep::normalizer::{build_canonical_input, normalize_text};

#[test]
fn test_normalize_text_rules() {
    assert_eq!(normalize_text("  Springfield   USD  "), "springfield usd");
    assert_eq!(normalize_text("ACME\tCorp\n"), "acme corp");
    assert_eq!(normalize_text(""), "");
    assert_eq!(normalize_text("   \t  "), "");
    assert_eq!(normalize_text("already normal"), "already normal");
}

#[test]
fn test_build_canonical_input_fields() {
    let ci = build_canonical_input(
        "  Acme   Corp ",
        "us",
        Some(" 123  Main St "),
        Some("2020-01-01"),
    );
    assert_eq!(ci.legal_name_normalized, "acme corp");
    assert_eq!(ci.address_normalized, "123 main st");
    assert_eq!(ci.country_code, "US");
    assert_eq!(ci.registration_date, "2020-01-01");
    assert_eq!(ci.to_hash_string(), "acme corp|123 main st|US|2020-01-01");
}

#[test]
fn test_build_canonical_input_absent_segments() {
    let ci = build_canonical_input("Acme Corp", "US", None, None);
    assert_eq!(ci.address_normalized, "");
    assert_eq!(ci.registration_date, "");
    assert_eq!(ci.to_hash_string(), "acme corp||US|");
    assert_eq!(ci.to_hash_string().matches('|').count(), 3);
}
