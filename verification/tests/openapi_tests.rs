use arqen::openapi::{default_spec, docs_page, OpenApiGenerator};

#[test]
fn test_generator_new() {
    let generator = OpenApiGenerator::new("Test API", "1.0.0");
    let spec = generator.build();
    assert_eq!(spec.openapi, "3.0.3");
    assert_eq!(spec.info.title, "Test API");
    assert_eq!(spec.info.version, "1.0.0");
}

#[test]
fn test_generator_with_description() {
    let generator = OpenApiGenerator::new("Test API", "1.0.0").with_description("A test API");
    let spec = generator.build();
    assert_eq!(spec.info.description, Some("A test API".to_string()));
}

#[test]
fn test_generator_add_path() {
    let generator = OpenApiGenerator::new("Test API", "1.0.0").add_path(
        "/users",
        "GET",
        "list_users",
        Some("List users".to_string()),
        vec!["users".to_string()],
    );
    let spec = generator.build();
    assert_eq!(spec.paths.len(), 1);
    assert_eq!(spec.paths[0].path, "/users");
    assert_eq!(spec.paths[0].method, "GET");
}

#[test]
fn test_default_spec() {
    let spec = default_spec("0.1.0");
    assert_eq!(spec.openapi, "3.0.3");
    assert_eq!(spec.info.title, "Arqen API");
    assert!(!spec.paths.is_empty());
}

#[test]
fn added_operations_document_the_standard_responses() {
    let spec = OpenApiGenerator::new("T", "1").add_path("/a", "POST", "a", None, vec![]).build();
    let statuses: Vec<&str> = spec.paths[0].responses.iter().map(|r| r.status.as_str()).collect();
    assert_eq!(statuses, vec!["200", "401", "500"]);
    assert_eq!(spec.paths[0].responses[2].description, "Internal Server Error");
    assert!(spec.components.is_none());
    let d = default_spec("9.9.9");
    assert_eq!(d.info.version, "9.9.9");
    assert_eq!(d.paths.len(), 5);
    assert_eq!(d.paths[3].path, "/agent/manifest");
}

#[test]
fn docs_page_lists_endpoints_and_request_id() {
    let page = docs_page("req-42");
    assert!(page.starts_with("<!DOCTYPE html>\n<html>"));
    assert!(page.contains("<p class=\"correlation-id\">Request ID: req-42</p>"));
    assert!(page.contains("<span class=\"path\">/agent/manifest</span>"));
    assert!(page.ends_with("</body>\n</html>"));
}
