use arqen::auth::{
    find_cookie, AllOf, AllowAll, AnyOf, ApiKeyAuth, AuthContext, AuthError, ClaimValue, DenyAll, HeaderInput,
    JwtAuth, Policy, RequireRole, SessionAuth,
};
use arqen::context::{RequestContext, ToolContext};

fn roles(items: &[&str]) -> ClaimValue {
    ClaimValue::List(items.iter().map(|s| Some(s.to_string())).collect())
}

#[test]
fn test_auth_context_new() {
    let ctx = AuthContext::new("user-123", "api_key");
    assert_eq!(ctx.subject, "user-123");
    assert_eq!(ctx.adapter, "api_key");
    assert!(ctx.claims.is_empty());
}

#[test]
fn test_auth_context_with_claim() {
    let ctx = AuthContext::new("user-123", "api_key").with_claim("roles", roles(&["admin"]));
    assert!(ctx.has_claim("roles"));
    assert_eq!(ctx.get_claim("roles"), Some(&roles(&["admin"])));
}

#[test]
fn test_auth_context_has_role() {
    let ctx = AuthContext::new("user-123", "api_key").with_claim("roles", roles(&["admin", "user"]));
    assert!(ctx.has_role("admin"));
    assert!(ctx.has_role("user"));
    assert!(!ctx.has_role("superadmin"));
}

#[test]
fn test_auth_context_no_roles() {
    let ctx = AuthContext::new("user-123", "api_key");
    assert!(!ctx.has_role("admin"));
}

#[test]
fn test_api_key_auth_valid() {
    let auth = ApiKeyAuth::new().with_key("test-key", "user-123");
    let ctx = auth.authenticate(HeaderInput::Text("test-key"), HeaderInput::Absent).unwrap();
    assert_eq!(ctx.subject, "user-123");
    assert_eq!(ctx.adapter, "api_key");
}

#[test]
fn test_api_key_auth_invalid() {
    let auth = ApiKeyAuth::new().with_key("test-key", "user-123");
    let err = auth.authenticate(HeaderInput::Text("wrong-key"), HeaderInput::Absent).unwrap_err();
    assert_eq!(err, AuthError::Invalid);
}

#[test]
fn test_api_key_auth_missing() {
    let auth = ApiKeyAuth::new().with_key("test-key", "user-123");
    let err = auth.authenticate(HeaderInput::Absent, HeaderInput::Absent).unwrap_err();
    assert_eq!(err, AuthError::Missing);
}

#[test]
fn test_api_key_auth_bearer() {
    let auth = ApiKeyAuth::new().with_key("test-key", "user-123");
    let ctx = auth.authenticate(HeaderInput::Absent, HeaderInput::Text("Bearer test-key")).unwrap();
    assert_eq!(ctx.subject, "user-123");
}

#[test]
fn api_keys_added_in_bulk_and_replaced() {
    let auth = ApiKeyAuth::new()
        .with_key("k1", "old")
        .with_keys(vec![("k1".to_string(), "new".to_string()), ("k2".to_string(), "two".to_string())]);
    let ctx = auth.authenticate(HeaderInput::Text("k1"), HeaderInput::Absent).unwrap();
    assert_eq!(ctx.subject, "new");
    let err = auth.authenticate(HeaderInput::Absent, HeaderInput::Text("Basic k2")).unwrap_err();
    assert_eq!(err, AuthError::Missing);
    let err = auth.authenticate(HeaderInput::Unreadable, HeaderInput::Text("Bearer k2")).unwrap_err();
    assert_eq!(err, AuthError::Invalid);
}

#[test]
fn test_jwt_auth_valid() {
    let ctx = AuthContext::new("user-123", "jwt").with_claim("exp", ClaimValue::Other);
    let auth = JwtAuth::new().with_token("valid-token", ctx);
    let ctx = auth.authenticate(HeaderInput::Text("Bearer valid-token")).unwrap();
    assert_eq!(ctx.subject, "user-123");
}

#[test]
fn test_jwt_auth_invalid() {
    let auth = JwtAuth::new();
    let err = auth.authenticate(HeaderInput::Text("Bearer invalid-token")).unwrap_err();
    assert_eq!(err, AuthError::Invalid);
}

#[test]
fn test_session_auth_valid() {
    let ctx = AuthContext::new("user-123", "session");
    let auth = SessionAuth::new("session_id").with_session("abc123", ctx);
    let ctx = auth.authenticate(HeaderInput::Text("session_id=abc123")).unwrap();
    assert_eq!(ctx.subject, "user-123");
}

#[test]
fn test_session_auth_missing() {
    let auth = SessionAuth::new("session_id");
    let err = auth.authenticate(HeaderInput::Absent).unwrap_err();
    assert_eq!(err, AuthError::Missing);
}

#[test]
fn cookies_are_found_among_parts() {
    assert_eq!(find_cookie("theme=dark;  session_id=xyz ; x=1", "session_id"), Some("xyz".to_string()));
    assert_eq!(find_cookie("theme=dark", "session_id"), None);
}

#[test]
fn test_allow_all_policy() {
    let policy = AllowAll;
    let ctx = AuthContext::new("user-123", "test");
    assert!(policy.check(&ctx, "resource").is_ok());
}

#[test]
fn test_deny_all_policy() {
    let policy = DenyAll;
    let ctx = AuthContext::new("user-123", "test");
    assert!(policy.check(&ctx, "resource").is_err());
}

#[test]
fn test_require_role_policy() {
    let policy = RequireRole::new("admin");
    let ctx = AuthContext::new("user-123", "test").with_claim("roles", roles(&["admin"]));
    assert!(policy.check(&ctx, "resource").is_ok());

    let ctx = AuthContext::new("user-123", "test").with_claim("roles", roles(&["user"]));
    assert_eq!(
        policy.check(&ctx, "resource"),
        Err(AuthError::Unauthorized("requires role: admin".to_string()))
    );
}

#[test]
fn request_context_reads_claims() {
    let auth = AuthContext::new("user-1", "jwt")
        .with_claim("tenant", ClaimValue::Text("acme".to_string()))
        .with_claim("scopes", ClaimValue::Text(" read  write ".to_string()))
        .with_claim("roles", ClaimValue::List(vec![Some("admin".to_string()), None]));
    let ctx = RequestContext::from_auth(&auth, "corr-1");
    assert_eq!(ctx.subject.as_deref(), Some("user-1"));
    assert_eq!(ctx.tenant_id.as_deref(), Some("acme"));
    assert_eq!(ctx.instance_id, None);
    assert_eq!(ctx.scopes, vec!["read", "write"]);
    assert_eq!(ctx.roles, vec!["admin"]);
    assert!(ctx.has_scope("write"));
    assert!(ctx.has_role("admin"));
    assert!(!ctx.has_role("user"));
    let anon = RequestContext::anonymous("c");
    assert!(anon.subject.is_none());
    assert_eq!(anon.correlation_id, "c");
}

#[test]
fn test_tool_context_anonymous() {
    let ctx = ToolContext::anonymous();
    assert_eq!(ctx.subject, "anonymous");
    assert!(ctx.scopes.is_empty());
}

#[test]
fn test_tool_context_from_auth_context_reads_scopes_claim() {
    let ctx = AuthContext::new("user-1", "test").with_claim(
        "scopes",
        ClaimValue::List(vec![Some("read:users".to_string()), Some("write:users".to_string())]),
    );
    let tool_ctx = ToolContext::from_auth_context(&ctx);
    assert_eq!(tool_ctx.subject, "user-1");
    assert_eq!(tool_ctx.scopes, vec!["read:users".to_string(), "write:users".to_string()]);
}

#[test]
fn test_all_of_policy() {
    let policy = AllOf::new().with_policy(Box::new(AllowAll)).with_policy(Box::new(RequireRole::new("admin")));

    let ctx = AuthContext::new("user-123", "test").with_claim("roles", roles(&["admin"]));
    assert!(policy.check(&ctx, "resource").is_ok());

    let ctx = AuthContext::new("user-123", "test").with_claim("roles", roles(&["user"]));
    assert!(policy.check(&ctx, "resource").is_err());
}

#[test]
fn test_any_of_policy() {
    let policy = AnyOf::new().with_policy(Box::new(DenyAll)).with_policy(Box::new(RequireRole::new("admin")));

    let ctx = AuthContext::new("user-123", "test").with_claim("roles", roles(&["admin"]));
    assert!(policy.check(&ctx, "resource").is_ok());

    let ctx = AuthContext::new("user-123", "test").with_claim("roles", roles(&["user"]));
    assert!(policy.check(&ctx, "resource").is_err());
}

#[test]
fn combined_policies_report_the_refusal() {
    let all = AllOf::new().with_policy(Box::new(RequireRole::new("admin"))).with_policy(Box::new(DenyAll));
    let ctx = AuthContext::new("user-123", "test").with_claim("roles", roles(&["user"]));
    assert_eq!(all.check(&ctx, "r"), Err(AuthError::Unauthorized("requires role: admin".to_string())));
    assert!(AllOf::new().check(&ctx, "r").is_ok());
    assert_eq!(AnyOf::new().check(&ctx, "r"), Err(AuthError::Unauthorized("no matching policy".to_string())));
}
