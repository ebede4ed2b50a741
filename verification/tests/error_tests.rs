use arqen::auth::AuthError;
use arqen::error::{AppError, CorrelationId, ErrorCode, ErrorKind, ErrorResponse};

#[test]
fn test_error_code_display() {
    assert_eq!(ErrorCode::NotFound.as_str(), "not_found");
    assert_eq!(ErrorCode::Validation.as_str(), "validation");
    assert_eq!(ErrorCode::Timeout.as_str(), "timeout");
    assert_eq!(ErrorCode::Dependency.as_str(), "dependency");
    assert_eq!(ErrorCode::Internal.as_str(), "internal");
}

#[test]
fn test_error_code_status_codes() {
    assert_eq!(ErrorCode::NotFound.status_code(), 404);
    assert_eq!(ErrorCode::Validation.status_code(), 400);
    assert_eq!(ErrorCode::Authentication.status_code(), 401);
    assert_eq!(ErrorCode::Authorization.status_code(), 403);
    assert_eq!(ErrorCode::Conflict.status_code(), 409);
    assert_eq!(ErrorCode::RateLimited.status_code(), 429);
    assert_eq!(ErrorCode::Timeout.status_code(), 504);
    assert_eq!(ErrorCode::Dependency.status_code(), 502);
    assert_eq!(ErrorCode::Internal.status_code(), 500);
    assert_eq!(ErrorCode::External.status_code(), 502);
    assert_eq!(ErrorCode::Unavailable.status_code(), 503);
}

#[test]
fn test_correlation_id_new() {
    let id = CorrelationId::new();
    assert!(!id.0.is_empty());
}

#[test]
fn test_correlation_id_default() {
    let id = CorrelationId::default();
    assert!(!id.0.is_empty());
}

#[test]
fn correlation_ids_are_hyphenated_uuids() {
    let a = CorrelationId::new();
    let b = CorrelationId::new();
    assert_eq!(a.0.len(), 36);
    assert_eq!(&a.0[8..9], "-");
    assert_ne!(a, b);
}

#[test]
fn test_error_response_new() {
    let response = ErrorResponse::new(ErrorCode::NotFound, "not found", "req-123");
    assert_eq!(response.error.code, ErrorCode::NotFound);
    assert_eq!(response.error.message, "not found");
    assert_eq!(response.error.correlation_id, "req-123");
    assert!(response.error.details.is_none());
}

#[test]
fn test_error_response_redacted() {
    let response = ErrorResponse::redacted("req-123");
    assert_eq!(response.error.code, ErrorCode::Internal);
    assert_eq!(response.error.message, "An internal error occurred");
}

#[test]
fn test_error_kind_to_code() {
    assert_eq!(ErrorKind::NotFound.to_code(), ErrorCode::NotFound);
    assert_eq!(ErrorKind::Validation.to_code(), ErrorCode::Validation);
    assert_eq!(ErrorKind::Timeout.to_code(), ErrorCode::Timeout);
    assert_eq!(ErrorKind::Dependency.to_code(), ErrorCode::Dependency);
    assert_eq!(ErrorKind::Internal.to_code(), ErrorCode::Internal);
}

#[test]
fn test_error_kind_should_redact() {
    assert!(ErrorKind::Internal.should_redact());
    assert!(!ErrorKind::NotFound.should_redact());
    assert!(!ErrorKind::Validation.should_redact());
    assert!(!ErrorKind::Timeout.should_redact());
    assert!(!ErrorKind::Dependency.should_redact());
}

#[test]
fn test_app_error_new() {
    let err = AppError::new(ErrorKind::NotFound, "user not found");
    assert_eq!(err.kind, ErrorKind::NotFound);
    assert_eq!(err.message, "user not found");
    assert!(err.source.is_none());
}

#[test]
fn test_app_error_display() {
    let err = AppError::new(ErrorKind::Validation, "invalid email");
    assert_eq!(err.to_text(), "validation error: invalid email");
}

#[test]
fn test_app_error_with_source() {
    let source = std::io::Error::new(std::io::ErrorKind::NotFound, "file missing");
    let err = AppError::new(ErrorKind::Internal, "io failure").with_source(&source.to_string());
    assert!(err.source.is_some());
}

#[test]
fn test_app_error_from_io_error() {
    let io_err = std::io::Error::new(std::io::ErrorKind::NotFound, "missing");
    let app_err: AppError = io_err.into();
    assert_eq!(app_err.kind, ErrorKind::NotFound);
}

#[test]
fn test_app_error_from_io_permission() {
    let io_err = std::io::Error::new(std::io::ErrorKind::PermissionDenied, "denied");
    let app_err: AppError = io_err.into();
    assert_eq!(app_err.kind, ErrorKind::Authorization);
}

#[test]
fn io_errors_of_other_kinds_are_internal() {
    let io_err = std::io::Error::new(std::io::ErrorKind::Other, "boom");
    let app_err: AppError = io_err.into();
    assert_eq!(app_err.kind, ErrorKind::Internal);
    assert_eq!(app_err.message, "IO error: boom");
}

#[test]
fn test_app_error_to_response() {
    let err = AppError::new(ErrorKind::NotFound, "not found");
    let correlation_id = CorrelationId::new();
    let response = err.to_response(&correlation_id);
    assert_eq!(response.error.code, ErrorCode::NotFound);
    assert_eq!(response.error.message, "not found");
    assert_eq!(response.error.correlation_id, correlation_id.0);
}

#[test]
fn test_app_error_to_redacted_response_internal() {
    let err = AppError::new(ErrorKind::Internal, "database connection failed");
    let correlation_id = CorrelationId::new();
    let response = err.to_redacted_response(&correlation_id);
    assert_eq!(response.error.code, ErrorCode::Internal);
    assert_eq!(response.error.message, "An internal error occurred");
}

#[test]
fn test_app_error_to_redacted_response_non_internal() {
    let err = AppError::new(ErrorKind::NotFound, "user not found");
    let correlation_id = CorrelationId::new();
    let response = err.to_redacted_response(&correlation_id);
    assert_eq!(response.error.code, ErrorCode::NotFound);
    assert_eq!(response.error.message, "user not found");
}

#[test]
fn test_app_error_is_internal() {
    let err = AppError::new(ErrorKind::Internal, "internal error");
    assert!(err.is_internal());

    let err = AppError::new(ErrorKind::NotFound, "not found");
    assert!(!err.is_internal());
}

#[test]
fn test_timeout_error_mapping() {
    let err = AppError::new(ErrorKind::Timeout, "request timed out");
    let correlation_id = CorrelationId::new();
    let response = err.to_response(&correlation_id);
    assert_eq!(response.error.code, ErrorCode::Timeout);
    assert_eq!(response.error.code.status_code(), 504);
}

#[test]
fn test_dependency_error_mapping() {
    let err = AppError::new(ErrorKind::Dependency, "thingd unavailable");
    let correlation_id = CorrelationId::new();
    let response = err.to_response(&correlation_id);
    assert_eq!(response.error.code, ErrorCode::Dependency);
    assert_eq!(response.error.code.status_code(), 502);
}

#[test]
fn test_error_response_with_details() {
    let details = "{\"field\":\"email\"}".to_string();
    let response = ErrorResponse::with_details(ErrorCode::Validation, "invalid email", "req-123", details.clone());
    assert_eq!(response.error.details, Some(details));
}

#[test]
fn test_auth_error_display() {
    assert_eq!(AuthError::Missing.message(), "authentication required");
    assert_eq!(AuthError::Invalid.message(), "invalid credentials");
    assert_eq!(AuthError::Expired.message(), "credentials expired");
    assert_eq!(
        AuthError::Unauthorized("denied".to_string()).message(),
        "unauthorized: denied"
    );
}

#[test]
fn test_auth_error_to_app_error() {
    let err: AppError = AuthError::Missing.into();
    assert_eq!(err.kind, ErrorKind::Authentication);

    let err: AppError = AuthError::Unauthorized("denied".to_string()).into();
    assert_eq!(err.kind, ErrorKind::Authorization);
}

#[test]
fn config_errors_become_validation_errors() {
    let config = arqen::config::AppConfig {
        server: arqen::config::ServerConfig { port: 0, ..Default::default() },
        ..Default::default()
    };
    let err: AppError = config.validate().unwrap_err().into();
    assert_eq!(err.kind, ErrorKind::Validation);
    assert_eq!(err.message, "invalid value for port: '0' (expected a non-zero port number)");
}

#[test]
fn test_app_error_from_serde_json() {
    let json_err = serde_json::from_str::<serde_json::Value>("not json").unwrap_err();
    let app_err: AppError = json_err.into();
    assert_eq!(app_err.kind, ErrorKind::Validation);
    assert!(app_err.message.starts_with("invalid JSON: "));
}

#[test]
fn app_error_from_toml_is_validation() {
    let toml_err = toml::from_str::<toml::Value>("key = ").unwrap_err();
    let app_err: AppError = toml_err.into();
    assert_eq!(app_err.kind, ErrorKind::Validation);
    assert!(app_err.message.starts_with("invalid TOML: "));
}
