use arqen::request_log::{
    error_details_for_status, extract_or_generate_correlation_id, is_safe_request_id, log_decision, redact_path, request_outcome,
    select_request_id, success_level, LogLevel,
};

#[test]
fn test_request_outcome_classification() {
    assert_eq!(request_outcome(200), "success");
    assert_eq!(request_outcome(504), "timeout");
    assert_eq!(request_outcome(502), "dependency_error");
    assert_eq!(request_outcome(500), "server_error");
}

#[test]
fn test_redact_path_removes_secrets() {
    assert_eq!(
        redact_path("/api/titles?password=secret123&token=abc"),
        "/api/titles?password=[REDACTED]&token=[REDACTED]"
    );
    assert_eq!(
        redact_path("/v1/search?key=mykey&filter=active"),
        "/v1/search?key=[REDACTED]&filter=active"
    );
    assert_eq!(redact_path("/health"), "/health");
    assert_eq!(
        redact_path("/admin?authorization=Bearer+xyz"),
        "/admin?authorization=[REDACTED]"
    );
}

#[test]
fn test_error_details_for_status() {
    assert_eq!(
        error_details_for_status(401),
        Some(("authentication", "authentication required"))
    );
    assert_eq!(error_details_for_status(404), Some(("not_found", "not found")));
    assert_eq!(
        error_details_for_status(500),
        Some(("internal", "internal server error"))
    );
    assert_eq!(error_details_for_status(200), None);
}

#[test]
fn test_redact_path_preserves_non_secret() {
    assert_eq!(
        redact_path("/v1/titles/search?q=matrix&genre=Sci-Fi"),
        "/v1/titles/search?q=matrix&genre=Sci-Fi"
    );
}

#[test]
fn test_redact_path_handles_multiple_secrets_and_case() {
    assert_eq!(
        redact_path("/api?Password=foo&TOKEN=bar&secret=zzz&other=keep"),
        "/api?Password=[REDACTED]&TOKEN=[REDACTED]&secret=[REDACTED]&other=keep"
    );
}

#[test]
fn redact_path_handles_bare_and_empty_parameters() {
    assert_eq!(redact_path("/x?mytoken&plain&&=v"), "/x?[REDACTED]&plain&&=v");
    assert_eq!(redact_path("/x?cookie=a&apikey=b"), "/x?cookie=[REDACTED]&apikey=[REDACTED]");
    assert_eq!(redact_path("/x?"), "/x?");
    assert_eq!(redact_path("/x?a=b?c"), "/x?a=b?c");
}

#[test]
fn status_classes_have_details() {
    assert_eq!(error_details_for_status(418), Some(("client_error", "client error")));
    assert_eq!(error_details_for_status(599), Some(("server_error", "server error")));
    assert_eq!(error_details_for_status(408), Some(("timeout", "gateway timeout")));
    assert_eq!(error_details_for_status(302), None);
    assert_eq!(request_outcome(404), "client_error");
    assert_eq!(request_outcome(101), "unknown");
}

#[test]
fn request_ids_are_reused_only_when_safe() {
    assert!(is_safe_request_id("custom-id-123"));
    assert!(!is_safe_request_id(""));
    assert!(!is_safe_request_id("has space"));
    assert!(!is_safe_request_id("quote\"d"));
    assert!(!is_safe_request_id(&"a".repeat(129)));
    assert_eq!(
        select_request_id(None, Some("abc".to_string()), "fresh".to_string()),
        "abc"
    );
    assert_eq!(
        select_request_id(None, Some("bad id".to_string()), "fresh".to_string()),
        "fresh"
    );
    assert_eq!(
        select_request_id(Some("attached".to_string()), Some("abc".to_string()), "fresh".to_string()),
        "attached"
    );
}

#[test]
fn log_levels_follow_status() {
    assert_eq!(success_level("DEBUG"), LogLevel::Debug);
    assert_eq!(success_level("verbose"), LogLevel::Info);
    assert_eq!(log_decision(503, 0, 250_000_000, false, "info"), Some(LogLevel::Error));
    assert_eq!(log_decision(404, 0, 250_000_000, false, "info"), Some(LogLevel::Warn));
    assert_eq!(log_decision(200, 0, 250_000_000, false, "info"), None);
    assert_eq!(log_decision(200, 300_000_000, 250_000_000, false, "trace"), Some(LogLevel::Trace));
    assert_eq!(log_decision(200, 0, 250_000_000, true, "warn"), Some(LogLevel::Warn));
}

#[test]
fn test_correlation_id_generated_when_missing() {
    let correlation_id = extract_or_generate_correlation_id(None);
    assert!(!correlation_id.0.is_empty());
}

#[test]
fn test_correlation_id_extracted_from_header() {
    let correlation_id = extract_or_generate_correlation_id(Some("my-custom-id"));
    assert_eq!(correlation_id.0, "my-custom-id");
}

#[test]
fn test_correlation_id_generated_for_empty_header() {
    let correlation_id = extract_or_generate_correlation_id(Some(""));
    assert!(!correlation_id.0.is_empty());
    assert_ne!(correlation_id.0, "");
}

#[test]
fn test_extract_or_generate_generates_unique_ids() {
    let id1 = extract_or_generate_correlation_id(None);
    let id2 = extract_or_generate_correlation_id(None);
    assert_ne!(id1.0, id2.0);
}

#[test]
fn test_extract_or_generate_preserves_existing_id() {
    let id1 = extract_or_generate_correlation_id(Some("my-id"));
    let id2 = extract_or_generate_correlation_id(Some("my-id"));
    assert_eq!(id1.0, "my-id");
    assert_eq!(id2.0, "my-id");
}

#[test]
fn test_extract_or_generate_rejects_unsafe_or_oversized_ids() {
    let oversized = "x".repeat(129);
    assert_ne!(extract_or_generate_correlation_id(Some("bad\"id")).0, "bad\"id");
    assert_eq!(extract_or_generate_correlation_id(Some(&oversized)).0.len(), 36);
}
