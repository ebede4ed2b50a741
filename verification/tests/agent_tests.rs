use arqen::agent::{
    timeout_error, EndpointMetadata, JobMetadata, SchemaGenerator, ToolEffect, ToolMetadata, ToolPlan, ToolRegistry,
    DEFAULT_TOOL_JOB_MAX_RETRIES,
};
use arqen::context::ToolContext;
use arqen::error::ErrorKind;
use arqen::json::{validate_against_schema, JsonNumber, JsonValue};

fn s(text: &str) -> JsonValue {
    JsonValue::String(text.to_string())
}

fn num(n: u64) -> JsonValue {
    JsonValue::Number(JsonNumber::PosInt(n))
}

fn obj(members: Vec<(&str, JsonValue)>) -> JsonValue {
    JsonValue::Object(members.into_iter().map(|(k, v)| (k.to_string(), v)).collect())
}

fn typed(t: &str) -> JsonValue {
    obj(vec![("type", s(t))])
}

fn sample_tool(name: &str) -> ToolMetadata {
    ToolMetadata {
        name: name.to_string(),
        description: format!("Tool {name}"),
        input: typed("object"),
        output: typed("object"),
        scopes: vec![],
        effect: ToolEffect::Read,
        idempotent: true,
        enqueues_job: None,
        timeout: None,
    }
}

#[test]
fn test_validate_against_schema_accepts_valid_object() {
    let schema = obj(vec![
        ("type", s("object")),
        ("properties", obj(vec![("id", typed("string")), ("count", typed("integer"))])),
        ("required", JsonValue::Array(vec![s("id")])),
    ]);
    let value = obj(vec![("id", s("abc")), ("count", num(3))]);
    assert!(validate_against_schema(&value, &schema).is_ok());
}

#[test]
fn test_validate_against_schema_rejects_missing_required() {
    let schema = obj(vec![
        ("type", s("object")),
        ("properties", obj(vec![("id", typed("string"))])),
        ("required", JsonValue::Array(vec![s("id")])),
    ]);
    let value = obj(vec![]);
    let err = validate_against_schema(&value, &schema).unwrap_err();
    assert_eq!(err.kind, ErrorKind::Validation);
    assert_eq!(err.message, "missing required field: id");
}

#[test]
fn test_validate_against_schema_rejects_wrong_type() {
    let schema = obj(vec![("type", s("object")), ("properties", obj(vec![("id", typed("string"))]))]);
    let value = obj(vec![("id", num(42))]);
    let err = validate_against_schema(&value, &schema).unwrap_err();
    assert_eq!(err.kind, ErrorKind::Validation);
    assert_eq!(err.message, "expected value of type string");
}

#[test]
fn test_validate_against_schema_ignores_non_object_schema() {
    assert!(validate_against_schema(&num(1), &JsonValue::Bool(true)).is_ok());
}

#[test]
fn schema_validation_checks_items_and_integer_kinds() {
    let schema = obj(vec![("type", s("array")), ("items", typed("integer"))]);
    let ok = JsonValue::Array(vec![num(1), JsonValue::Number(JsonNumber::NegInt(-4))]);
    assert!(validate_against_schema(&ok, &schema).is_ok());
    let bad = JsonValue::Array(vec![num(1), JsonValue::Number(JsonNumber::Float)]);
    let err = validate_against_schema(&bad, &schema).unwrap_err();
    assert_eq!(err.message, "expected value of type integer");
    let not_array = validate_against_schema(&obj(vec![]), &schema).unwrap_err();
    assert_eq!(not_array.message, "expected value of type array");
    assert!(validate_against_schema(&JsonValue::Null, &typed("unknown")).is_ok());
}

#[test]
fn test_register_and_get_tool() {
    let mut registry = ToolRegistry::default();
    registry.register_tool(sample_tool("tool_a"));
    registry.register_tool(sample_tool("tool_b"));

    assert!(registry.get_tool("tool_a").is_some());
    assert!(registry.get_tool("tool_b").is_some());
    assert!(registry.get_tool("tool_c").is_none());
    assert_eq!(registry.get_tool("tool_b").unwrap().description, "Tool tool_b");
}

#[test]
fn test_list_tools() {
    let mut registry = ToolRegistry::default();
    registry.register_tool(sample_tool("a"));
    registry.register_tool(sample_tool("b"));
    registry.register_tool(sample_tool("c"));

    let tools = registry.list_tools();
    assert_eq!(tools.len(), 3);
}

#[test]
fn list_tools_orders_by_name() {
    let mut registry = ToolRegistry::default();
    registry.register_tool(sample_tool("write"));
    registry.register_tool(sample_tool("archive"));
    registry.register_tool(sample_tool("read"));
    let names: Vec<&str> = registry.list_tools().iter().map(|t| t.name.as_str()).collect();
    assert_eq!(names, vec!["archive", "read", "write"]);
}

#[test]
fn test_generate_manifest() {
    let mut registry = ToolRegistry::new("my-app", "2.0.0", "My App", "persistent");
    registry.register_tool(sample_tool("read"));
    registry.register_tool(sample_tool("write"));

    let manifest = registry.generate_manifest();
    assert_eq!(manifest.name, "my-app");
    assert_eq!(manifest.version, "2.0.0");
    assert_eq!(manifest.tools.len(), 2);
    assert_eq!(manifest.storage_mode, "persistent");
}

#[test]
fn test_generate_tool_schema() {
    let mut registry = ToolRegistry::default();
    let tool = ToolMetadata {
        name: "get_user".to_string(),
        description: "Get user".to_string(),
        input: obj(vec![("type", s("object")), ("properties", obj(vec![("id", typed("string"))]))]),
        output: typed("object"),
        scopes: vec!["read:users".to_string()],
        effect: ToolEffect::Read,
        idempotent: true,
        enqueues_job: None,
        timeout: Some(30),
    };
    registry.register_tool(tool);

    let schema = registry.generate_tool_schema("get_user").unwrap();
    assert!(matches!(schema.get("name"), Some(JsonValue::String(n)) if n == "get_user"));
    assert!(matches!(schema.get("timeout"), Some(JsonValue::Number(JsonNumber::PosInt(30)))));
    assert!(matches!(schema.get("effect"), Some(JsonValue::String(e)) if e == "Read"));
    assert!(matches!(schema.get("enqueues_job"), Some(JsonValue::Null)));
    match schema.get("scopes") {
        Some(JsonValue::Array(items)) => {
            assert_eq!(items.len(), 1);
            assert_eq!(items[0].as_str(), Some("read:users"));
        }
        _ => panic!("expected the scopes array"),
    }

    assert!(registry.generate_tool_schema("nonexistent").is_none());
}

#[test]
fn test_generate_manifest_advertises_invoke_endpoints() {
    let mut registry = ToolRegistry::default();
    registry.register_tool(sample_tool("read"));
    registry.register_tool(sample_tool("write"));

    let manifest = registry.generate_manifest();
    let invoke_paths: Vec<&str> =
        manifest.endpoints.iter().filter(|e| e.method == "POST").map(|e| e.path.as_str()).collect();
    assert!(invoke_paths.contains(&"/agent/tools/read"));
    assert!(invoke_paths.contains(&"/agent/tools/write"));
}

#[test]
fn manifest_orders_endpoints_and_jobs() {
    let mut registry = ToolRegistry::default();
    let mut protected = sample_tool("delete");
    protected.scopes = vec!["admin".to_string()];
    registry.register_tool(protected);
    registry.register_endpoint(EndpointMetadata {
        path: "/health".to_string(),
        method: "GET".to_string(),
        description: "Health".to_string(),
        authenticated: false,
    });
    registry.register_endpoint(EndpointMetadata {
        path: "/agent".to_string(),
        method: "GET".to_string(),
        description: "Manifest".to_string(),
        authenticated: false,
    });
    for name in ["sync", "email", "cleanup"] {
        registry.register_job(JobMetadata {
            name: name.to_string(),
            description: String::new(),
            payload: JsonValue::Null,
            queue: "default".to_string(),
            max_retries: 3,
            timeout: 60,
        });
    }
    let manifest = registry.generate_manifest();
    let paths: Vec<(&str, &str, bool)> = manifest
        .endpoints
        .iter()
        .map(|e| (e.path.as_str(), e.method.as_str(), e.authenticated))
        .collect();
    assert_eq!(paths, vec![("/agent", "GET", false), ("/agent/tools/delete", "POST", true), ("/health", "GET", false)]);
    assert_eq!(manifest.endpoints[1].description, "Invoke the delete tool");
    let jobs: Vec<&str> = manifest.jobs.iter().map(|j| j.name.as_str()).collect();
    assert_eq!(jobs, vec!["cleanup", "email", "sync"]);
}

fn echo_registry() -> ToolRegistry {
    let mut registry = ToolRegistry::default();
    registry.register_tool(ToolMetadata {
        name: "echo".to_string(),
        description: "Echo input".to_string(),
        input: obj(vec![
            ("type", s("object")),
            ("properties", obj(vec![("msg", typed("string"))])),
            ("required", JsonValue::Array(vec![s("msg")])),
        ]),
        output: typed("object"),
        scopes: vec![],
        effect: ToolEffect::Read,
        idempotent: true,
        enqueues_job: None,
        timeout: Some(10),
    });
    registry.register_handler("echo");
    registry
}

#[test]
fn planned_call_runs_the_handler_with_its_timeout() {
    let registry = echo_registry();
    let plan = registry.plan_call("echo", &obj(vec![("msg", s("hi"))]), &ToolContext::anonymous(), false).unwrap();
    assert!(matches!(plan, ToolPlan::Run { timeout_secs: 10 }));
}

#[test]
fn planned_call_of_unknown_tool_is_not_found() {
    let registry = echo_registry();
    let err = registry.plan_call("nope", &obj(vec![]), &ToolContext::anonymous(), false).unwrap_err();
    assert_eq!(err.kind, ErrorKind::NotFound);
    assert_eq!(err.message, "tool not found: nope");
}

#[test]
fn planned_call_without_handler_is_not_implemented() {
    let mut registry = ToolRegistry::default();
    registry.register_tool(sample_tool("no_handler"));
    let err = registry.plan_call("no_handler", &obj(vec![]), &ToolContext::anonymous(), true).unwrap_err();
    assert_eq!(err.kind, ErrorKind::NotImpl);
    assert_eq!(err.message, "tool has no handler registered: no_handler");
}

#[test]
fn planned_call_enforces_scopes() {
    let mut registry = ToolRegistry::default();
    let mut tool = sample_tool("protected");
    tool.scopes = vec!["read:secret".to_string()];
    registry.register_tool(tool);
    registry.register_handler("protected");
    let err = registry.plan_call("protected", &obj(vec![]), &ToolContext::anonymous(), false).unwrap_err();
    assert_eq!(err.kind, ErrorKind::Authorization);
    assert_eq!(err.message, "missing required scopes for tool: protected");
    let ctx = ToolContext::new("user-1", vec!["read:secret".to_string()]);
    let plan = registry.plan_call("protected", &obj(vec![]), &ctx, false).unwrap();
    assert!(matches!(plan, ToolPlan::Run { timeout_secs: 30 }));
}

#[test]
fn planned_call_validates_input() {
    let registry = echo_registry();
    let err = registry.plan_call("echo", &obj(vec![("nope", num(1))]), &ToolContext::anonymous(), false).unwrap_err();
    assert_eq!(err.kind, ErrorKind::Validation);
    assert_eq!(err.message, "missing required field: msg");
}

#[test]
fn planned_call_enqueues_when_no_handler() {
    let mut registry = ToolRegistry::default();
    let mut tool = sample_tool("send_email");
    tool.enqueues_job = Some("email_queue".to_string());
    registry.register_tool(tool);
    match registry.plan_call("send_email", &obj(vec![]), &ToolContext::anonymous(), true).unwrap() {
        ToolPlan::Enqueue { queue, max_retries } => {
            assert_eq!(queue, "email_queue");
            assert_eq!(max_retries, DEFAULT_TOOL_JOB_MAX_RETRIES);
        }
        _ => panic!("expected an enqueue plan"),
    }
    let err = registry.plan_call("send_email", &obj(vec![]), &ToolContext::anonymous(), false).unwrap_err();
    assert_eq!(err.kind, ErrorKind::NotImpl);
    assert_eq!(err.message, "tool send_email enqueues a job but no handler or backend is configured");
}

#[test]
fn timeout_error_names_the_tool_and_limit() {
    let err = timeout_error("slow", 1);
    assert_eq!(err.kind, ErrorKind::Timeout);
    assert_eq!(err.message, "tool slow timed out after 1s");
}

#[test]
fn duplicated_json_keeps_its_content() {
    let v = obj(vec![("a", JsonValue::Array(vec![num(1), s("x")])), ("b", JsonValue::Bool(false))]);
    let d = v.duplicate();
    assert!(matches!(d.get("b"), Some(JsonValue::Bool(false))));
    match d.get("a") {
        Some(JsonValue::Array(items)) => {
            assert_eq!(items.len(), 2);
            assert_eq!(items[1].as_str(), Some("x"));
        }
        _ => panic!("expected the array"),
    }
}

#[test]
fn object_schema_lists_properties_by_name_with_last_type() {
    let schema = SchemaGenerator::object_schema(vec![("name", "string"), ("age", "number"), ("name", "weird")]);
    assert!(matches!(schema.get("type"), Some(JsonValue::String(t)) if t == "object"));
    match schema.get("properties") {
        Some(JsonValue::Object(members)) => {
            let names: Vec<&str> = members.iter().map(|(k, _)| k.as_str()).collect();
            assert_eq!(names, vec!["age", "name"]);
            assert_eq!(members[0].1.get("type").and_then(|t| t.as_str()), Some("number"));
            assert_eq!(members[1].1.get("type").and_then(|t| t.as_str()), Some("object"));
        }
        _ => panic!("expected the properties object"),
    }
}

#[test]
fn manifest_keeps_tied_endpoints_and_jobs_in_registration_order() {
    let mut registry = ToolRegistry::default();
    for authenticated in [true, false] {
        registry.register_endpoint(EndpointMetadata {
            path: "/same".to_string(),
            method: "GET".to_string(),
            description: "Same".to_string(),
            authenticated,
        });
    }
    for queue in ["first", "second"] {
        registry.register_job(JobMetadata {
            name: "job".to_string(),
            description: String::new(),
            payload: JsonValue::Null,
            queue: queue.to_string(),
            max_retries: 1,
            timeout: 1,
        });
    }
    let manifest = registry.generate_manifest();
    assert!(manifest.endpoints[0].authenticated);
    assert!(!manifest.endpoints[1].authenticated);
    assert_eq!(manifest.jobs[0].queue, "first");
    assert_eq!(manifest.jobs[1].queue, "second");
}
