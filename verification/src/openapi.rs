//! A builder of OpenAPI 3.0 descriptions and the description of the
//! built-in endpoints.
use vstd::prelude::*;
use crate::text::{owned, push_text};

verus! {

/// Title, version and description of an API.
#[derive(Debug, Clone)]
pub struct OpenApiInfo {
    pub title: String,
    pub version: String,
    pub description: Option<String>,
}

/// One documented response of an operation.
#[derive(Debug, Clone)]
pub struct OpenApiResponse {
    pub status: String,
    pub description: String,
}

/// One operation: a method on a path.
#[derive(Debug, Clone)]
pub struct OpenApiPath {
    pub path: String,
    pub method: String,
    pub operation_id: String,
    pub summary: Option<String>,
    pub description: Option<String>,
    pub tags: Vec<String>,
    pub responses: Vec<OpenApiResponse>,
}

/// A named schema, as JSON text.
#[derive(Debug, Clone)]
pub struct OpenApiSchema {
    pub name: String,
    pub schema: String,
}

/// Reusable parts of a description.
#[derive(Debug, Clone)]
pub struct OpenApiComponents {
    pub schemas: Vec<OpenApiSchema>,
}

/// An OpenAPI description.
#[derive(Debug, Clone)]
pub struct OpenApiSpec {
    pub openapi: String,
    pub info: OpenApiInfo,
    pub paths: Vec<OpenApiPath>,
    pub components: Option<OpenApiComponents>,
}

/// Builder of an OpenAPI description.
#[derive(Debug, Clone)]
pub struct OpenApiGenerator {
    title: String,
    version: String,
    description: Option<String>,
    paths: Vec<OpenApiPath>,
}

/// The responses every operation documents: success, unauthorised and
/// internal error.
pub open spec fn standard_responses(r: Seq<OpenApiResponse>) -> bool {
    &&& r.len() == 3
    &&& r[0].status@ == "200"@ && r[0].description@ == "Success"@
    &&& r[1].status@ == "401"@ && r[1].description@ == "Unauthorized"@
    &&& r[2].status@ == "500"@ && r[2].description@ == "Internal Server Error"@
}

/// An operation as added: the given path, method, identifier, summary and
/// tags, no description, and the standard responses.
pub open spec fn operation_is(
    p: OpenApiPath,
    path: Seq<char>,
    method: Seq<char>,
    operation_id: Seq<char>,
    summary: Option<String>,
    tags: Seq<String>,
) -> bool {
    &&& p.path@ == path
    &&& p.method@ == method
    &&& p.operation_id@ == operation_id
    &&& p.summary == summary
    &&& p.description is None
    &&& p.tags@ == tags
    &&& standard_responses(p.responses@)
}

impl OpenApiGenerator {
    pub closed spec fn title_spec(&self) -> Seq<char> {
        self.title@
    }

    pub closed spec fn version_spec(&self) -> Seq<char> {
        self.version@
    }

    pub closed spec fn description_spec(&self) -> Option<String> {
        self.description
    }

    pub closed spec fn paths_spec(&self) -> Seq<OpenApiPath> {
        self.paths@
    }

    /// A description with a title and version and nothing else.
    pub fn new(title: &str, version: &str) -> (r: Self)
        ensures
            r.title_spec() == title@,
            r.version_spec() == version@,
            r.description_spec() is None,
            r.paths_spec().len() == 0,
    {
        OpenApiGenerator { title: owned(title), version: owned(version), description: None, paths: Vec::new() }
    }

    /// Sets the description.
    pub fn with_description(self, desc: &str) -> (r: Self)
        ensures
            r.title_spec() == self.title_spec(),
            r.version_spec() == self.version_spec(),
            r.description_spec() matches Some(d) && d@ == desc@,
            r.paths_spec() == self.paths_spec(),
    {
        OpenApiGenerator { title: self.title, version: self.version, description: Some(owned(desc)), paths: self.paths }
    }

    /// Adds an operation, documented with the standard responses.
    pub fn add_path(
        self,
        path: &str,
        method: &str,
        operation_id: &str,
        summary: Option<String>,
        tags: Vec<String>,
    ) -> (r: Self)
        ensures
            r.title_spec() == self.title_spec(),
            r.version_spec() == self.version_spec(),
            r.description_spec() == self.description_spec(),
            r.paths_spec().len() == self.paths_spec().len() + 1,
            r.paths_spec().drop_last() == self.paths_spec(),
            operation_is(r.paths_spec().last(), path@, method@, operation_id@, summary, tags@),
    {
        let mut responses: Vec<OpenApiResponse> = Vec::new();
        responses.push(OpenApiResponse { status: owned("200"), description: owned("Success") });
        responses.push(OpenApiResponse { status: owned("401"), description: owned("Unauthorized") });
        responses.push(OpenApiResponse { status: owned("500"), description: owned("Internal Server Error") });
        let mut paths = self.paths;
        let ghost before = paths@;
        paths.push(
            OpenApiPath {
                path: owned(path),
                method: owned(method),
                operation_id: owned(operation_id),
                summary,
                description: None,
                tags,
                responses,
            },
        );
        assert(paths@.drop_last() =~= before);
        OpenApiGenerator { title: self.title, version: self.version, description: self.description, paths }
    }

    /// The finished description, for OpenAPI 3.0.3.
    pub fn build(self) -> (r: OpenApiSpec)
        ensures
            r.openapi@ == "3.0.3"@,
            r.info.title@ == self.title_spec(),
            r.info.version@ == self.version_spec(),
            r.info.description == self.description_spec(),
            r.paths@ == self.paths_spec(),
            r.components is None,
    {
        OpenApiSpec {
            openapi: owned("3.0.3"),
            info: OpenApiInfo { title: self.title, version: self.version, description: self.description },
            paths: self.paths,
            components: None,
        }
    }
}

fn one_tag(tag: &str) -> (r: Vec<String>)
    ensures
        r@.len() == 1,
        r@[0]@ == tag@,
{
    let mut v: Vec<String> = Vec::new();
    v.push(owned(tag));
    v
}

/// The description of the built-in endpoints of an application of the given
/// version: health, readiness, agent description and manifest, and docs.
pub fn default_spec(version: &str) -> (r: OpenApiSpec)
    ensures
        r.openapi@ == "3.0.3"@,
        r.info.title@ == "Arqen API"@,
        r.info.version@ == version@,
        r.info.description matches Some(d) && d@ == "Backend infrastructure for agent-ready applications"@,
        r.paths@.len() == 5,
        r.paths@[0].path@ == "/health"@ && r.paths@[0].operation_id@ == "health"@,
        r.paths@[1].path@ == "/ready"@ && r.paths@[1].operation_id@ == "readiness"@,
        r.paths@[2].path@ == "/agent"@ && r.paths@[2].operation_id@ == "agent"@,
        r.paths@[3].path@ == "/agent/manifest"@ && r.paths@[3].operation_id@ == "agent_manifest"@,
        r.paths@[4].path@ == "/docs"@ && r.paths@[4].operation_id@ == "docs"@,
        forall|k: int| 0 <= k < 5 ==> (#[trigger] r.paths@[k]).method@ == "GET"@ && standard_responses(
            r.paths@[k].responses@,
        ),
{
    let g = OpenApiGenerator::new("Arqen API", version).with_description(
        "Backend infrastructure for agent-ready applications",
    );
    let g = g.add_path("/health", "GET", "health", Some(owned("Liveness check")), one_tag("health"));
    let g = g.add_path("/ready", "GET", "readiness", Some(owned("Readiness check")), one_tag("health"));
    let g = g.add_path("/agent", "GET", "agent", Some(owned("Agent description")), one_tag("agent"));
    let g = g.add_path("/agent/manifest", "GET", "agent_manifest", Some(owned("Agent manifest")), one_tag("agent"));
    let g = g.add_path("/docs", "GET", "docs", Some(owned("API documentation")), one_tag("docs"));
    let ghost p = g.paths_spec();
    assert(p.len() == 5);
    let r = g.build();
    assert forall|k: int| 0 <= k < 5 implies (#[trigger] r.paths@[k]).method@ == "GET"@ && standard_responses(
        r.paths@[k].responses@,
    ) by {
        assert(r.paths@[k] == p[k]);
    }
    r
}

/// The HTML documentation page of the built-in endpoints, showing the id of
/// the request that asked for it.
pub fn docs_page(request_id: &str) -> (r: String)
    ensures
        r@ == "<!DOCTYPE html>\n<html>\n<head>\n    <title>Arqen API Documentation</title>\n    <style>\n        body { font-family: sans-serif; margin: 40px; }\n        h1 { color: #333; }\n        .endpoint { margin: 20px 0; padding: 10px; border: 1px solid #ddd; border-radius: 5px; }\n        .method { font-weight: bold; color: #007bff; }\n        .path { font-family: monospace; }\n        .correlation-id { font-family: monospace; color: #666; font-size: 0.9em; }\n    </style>\n</head>\n<body>\n    <h1>Arqen API Documentation</h1>\n    <p class=\"correlation-id\">Request ID: "@ + request_id@ + "</p>\n    <div class=\"endpoint\">\n        <span class=\"method\">GET</span> <span class=\"path\">/health</span>\n        <p>Liveness check</p>\n    </div>\n    <div class=\"endpoint\">\n        <span class=\"method\">GET</span> <span class=\"path\">/ready</span>\n        <p>Readiness check</p>\n    </div>\n    <div class=\"endpoint\">\n        <span class=\"method\">GET</span> <span class=\"path\">/agent</span>\n        <p>Agent description</p>\n    </div>\n    <div class=\"endpoint\">\n        <span class=\"method\">GET</span> <span class=\"path\">/agent/manifest</span>\n        <p>Agent manifest with tool definitions</p>\n    </div>\n    <div class=\"endpoint\">\n        <span class=\"method\">GET</span> <span class=\"path\">/docs</span>\n        <p>This documentation page</p>\n    </div>\n</body>\n</html>"@,
{
    let mut t = owned("<!DOCTYPE html>\n<html>\n<head>\n    <title>Arqen API Documentation</title>\n    <style>\n        body { font-family: sans-serif; margin: 40px; }\n        h1 { color: #333; }\n        .endpoint { margin: 20px 0; padding: 10px; border: 1px solid #ddd; border-radius: 5px; }\n        .method { font-weight: bold; color: #007bff; }\n        .path { font-family: monospace; }\n        .correlation-id { font-family: monospace; color: #666; font-size: 0.9em; }\n    </style>\n</head>\n<body>\n    <h1>Arqen API Documentation</h1>\n    <p class=\"correlation-id\">Request ID: ");
    push_text(&mut t, request_id);
    push_text(&mut t, "</p>\n    <div class=\"endpoint\">\n        <span class=\"method\">GET</span> <span class=\"path\">/health</span>\n        <p>Liveness check</p>\n    </div>\n    <div class=\"endpoint\">\n        <span class=\"method\">GET</span> <span class=\"path\">/ready</span>\n        <p>Readiness check</p>\n    </div>\n    <div class=\"endpoint\">\n        <span class=\"method\">GET</span> <span class=\"path\">/agent</span>\n        <p>Agent description</p>\n    </div>\n    <div class=\"endpoint\">\n        <span class=\"method\">GET</span> <span class=\"path\">/agent/manifest</span>\n        <p>Agent manifest with tool definitions</p>\n    </div>\n    <div class=\"endpoint\">\n        <span class=\"method\">GET</span> <span class=\"path\">/docs</span>\n        <p>This documentation page</p>\n    </div>\n</body>\n</html>");
    t
}

} // verus!
