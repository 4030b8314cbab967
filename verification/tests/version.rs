use cep::version::{major_version, minor_version, patch_version};
use cep::SCHEMA_VERSION;

#[test]
fn test_version_parsing() {
    assert_eq!(major_version(), 1);
    assert_eq!(minor_version(), 0);
    assert_eq!(patch_version(), 0);
}

#[test]
fn test_schema_version_constant() {
    assert_eq!(SCHEMA_VERSION, "1.0.0");
}
