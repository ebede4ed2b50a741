use arqen::error::ErrorKind;
use arqen::schema::{normalize_line_endings, validate_source};

#[test]
fn normalizes_line_endings_for_stable_hashes() {
    let unix = validate_source("version 1\n", None).unwrap();
    let windows = validate_source("version 1\r\n", None).unwrap();
    assert_eq!(unix.hash, windows.hash);
}

#[test]
fn rejects_schema_without_version() {
    let error = validate_source("collection titles {}", None).unwrap_err();
    assert_eq!(error.kind, ErrorKind::Validation);
}

#[test]
fn schema_reports_hash_source_and_path() {
    let report = validate_source("  version 2\r\ncollection users {}\r\n", Some("schema.thingd")).unwrap();
    assert_eq!(report.source, "  version 2\ncollection users {}\n");
    assert_eq!(report.source_path, Some("schema.thingd".to_string()));
    assert!(report.hash.starts_with("sha256:"));
    assert_eq!(report.hash.len(), 7 + 64);
    let hash = validate_source("version 1\n", None).unwrap().hash;
    assert_eq!(hash, "sha256:3a79bf37b571938d1f2907afb6a643f48088b83769dde8bc58f5ee866a5c3636");
}

#[test]
fn blank_schemas_are_refused() {
    let error = validate_source(" \n\t", None).unwrap_err();
    assert_eq!(error.message, "`.thingd` schema is empty");
    let error = validate_source("versions 1", None).unwrap_err();
    assert_eq!(error.message, "`.thingd` schema must declare a version");
}

#[test]
fn crlf_pairs_only_are_replaced() {
    assert_eq!(normalize_line_endings("a\r\nb\rc\r\r\n"), "a\nb\rc\r\n");
}
