//! Scaffolding of new projects and of modules, tools and jobs: the names
//! derived from what the user typed, the checks on them, and the text of
//! every file written.
use vstd::prelude::*;
use crate::parse::{trim_chars, trim_seq};
use crate::text::{
    chars_eq, chars_of, lower_chars, lower_seq, lower_text, owned, push_text, slice_chars, split_chars, split_seq, string_of,
    unicode_lower, unicode_upper_char, upper_char_text,
};

verus! {

/// The `AGENTS.md` guidance written into a new project.
pub fn agent_guide() -> (r: &'static str)
    ensures
        r@ == "# Project guidance\n\n- Keep application-specific domain logic in `src/`; keep framework changes in Arqen itself.\n- Do not commit secrets. Use `.env.example` as a template only.\n- Preserve in-memory and native storage behavior when adding persistence-dependent code.\n- Run `cargo fmt --all -- --check`, `cargo clippy --all-targets --all-features -- -D warnings`, and `cargo test` before submitting changes.\n- Keep optional tools such as Nice Code outside the runtime dependency graph.\n"@,
{
    "# Project guidance\n\n- Keep application-specific domain logic in `src/`; keep framework changes in Arqen itself.\n- Do not commit secrets. Use `.env.example` as a template only.\n- Preserve in-memory and native storage behavior when adding persistence-dependent code.\n- Run `cargo fmt --all -- --check`, `cargo clippy --all-targets --all-features -- -D warnings`, and `cargo test` before submitting changes.\n- Keep optional tools such as Nice Code outside the runtime dependency graph.\n"
}

/// The `examples/README.md` written when starter examples are asked for.
pub fn examples_guide() -> (r: &'static str)
    ensures
        r@ == "# Starter examples\n\nUse the built-in generators from the project root:\n\n```bash\narqen generate module users\narqen generate tool get_user\narqen generate job send_email\n```\n\nRegister generated modules in `src/app/mod.rs`, then add their routes and\ncapabilities to the application state during startup.\n"@,
{
    "# Starter examples\n\nUse the built-in generators from the project root:\n\n```bash\narqen generate module users\narqen generate tool get_user\narqen generate job send_email\n```\n\nRegister generated modules in `src/app/mod.rs`, then add their routes and\ncapabilities to the application state during startup.\n"
}

/// The `NICE_CODE.md` written when the optional Nice Code checks are asked for.
pub fn nice_code_guide() -> (r: &'static str)
    ensures
        r@ == "# Optional Nice Code checks\n\nNice Code is an optional development and CI tool. It is not an Arqen runtime\ndependency and is not required to build or run this application.\n\nRun it without installing it permanently:\n\n```bash\nnpx --yes @sayanmohsin/nice-code@0.1.11 --changed --project .\n```\n"@,
{
    "# Optional Nice Code checks\n\nNice Code is an optional development and CI tool. It is not an Arqen runtime\ndependency and is not required to build or run this application.\n\nRun it without installing it permanently:\n\n```bash\nnpx --yes @sayanmohsin/nice-code@0.1.11 --changed --project .\n```\n"
}

/// The CI workflow that runs the optional Nice Code checks.
pub fn nice_code_workflow() -> (r: &'static str)
    ensures
        r@ == "name: Nice Code\n\non:\n  pull_request:\n  push:\n    branches: [main]\n\njobs:\n  audit:\n    runs-on: ubuntu-latest\n    steps:\n      - uses: actions/checkout@v4\n      - uses: actions/setup-node@v4\n        with:\n          node-version: 20\n      - run: npx --yes @sayanmohsin/nice-code@0.1.11 --ci --project . --format sarif\n"@,
{
    "name: Nice Code\n\non:\n  pull_request:\n  push:\n    branches: [main]\n\njobs:\n  audit:\n    runs-on: ubuntu-latest\n    steps:\n      - uses: actions/checkout@v4\n      - uses: actions/setup-node@v4\n        with:\n          node-version: 20\n      - run: npx --yes @sayanmohsin/nice-code@0.1.11 --ci --project . --format sarif\n"
}

/// The `src/app/mod.rs` of a new HTTP project.
pub fn app_module_source() -> (r: &'static str)
    ensures
        r@ == "use arqen::module::Module;\nuse arqen::http::raw::{Router, routing::get};\n\npub struct AppModule;\n\nimpl Module for AppModule {\n    fn name(&self) -> &str {\n        \"app\"\n    }\n\n}\n\npub fn routes() -> Router {\n    async fn hello() -> &'static str {\n        \"hello from Arqen\"\n    }\n\n    Router::new().route(\"/api/hello\", get(hello))\n}\n"@,
{
    "use arqen::module::Module;\nuse arqen::http::raw::{Router, routing::get};\n\npub struct AppModule;\n\nimpl Module for AppModule {\n    fn name(&self) -> &str {\n        \"app\"\n    }\n\n}\n\npub fn routes() -> Router {\n    async fn hello() -> &'static str {\n        \"hello from Arqen\"\n    }\n\n    Router::new().route(\"/api/hello\", get(hello))\n}\n"
}

/// The `rustfmt.toml` of a new project.
pub fn rustfmt_config() -> (r: &'static str)
    ensures
        r@ == "edition = \"2024\"\nmax_width = 100\nuse_field_init_shorthand = true\nuse_try_shorthand = true\n"@,
{
    "edition = \"2024\"\nmax_width = 100\nuse_field_init_shorthand = true\nuse_try_shorthand = true\n"
}

/// The `clippy.toml` of a new project.
pub fn clippy_config() -> (r: &'static str)
    ensures
        r@ == "avoid-breaking-exported-api = true\n"@,
{
    "avoid-breaking-exported-api = true\n"
}

/// The `src/main.rs` of a new project without the HTTP server.
pub open spec fn plain_main_text() -> Seq<char> {
    "use arqen::config::{AppConfig, CliOverrides};\n\nfn main() -> Result<(), Box<dyn std::error::Error + Send + Sync>> {\n    arqen::run(async {\n    let config = AppConfig::load(CliOverrides::default())?;\n    if std::env::var_os(\"ARQEN_LAUNCH_MODE\").as_deref() == Some(std::ffi::OsStr::new(\"production\")) {{\n        config.validate_production()?;\n    }}\n    println!(\"{} is configured for {} storage\", env!(\"CARGO_PKG_NAME\"), config.storage.mode.as_str());\n    Ok(())\n    })\n}\n"@
}

/// The `src/main.rs` of a new project without the HTTP server.
pub fn plain_main_source() -> (r: &'static str)
    ensures
        r@ == plain_main_text(),
{
    "use arqen::config::{AppConfig, CliOverrides};\n\nfn main() -> Result<(), Box<dyn std::error::Error + Send + Sync>> {\n    arqen::run(async {\n    let config = AppConfig::load(CliOverrides::default())?;\n    if std::env::var_os(\"ARQEN_LAUNCH_MODE\").as_deref() == Some(std::ffi::OsStr::new(\"production\")) {{\n        config.validate_production()?;\n    }}\n    println!(\"{} is configured for {} storage\", env!(\"CARGO_PKG_NAME\"), config.storage.mode.as_str());\n    Ok(())\n    })\n}\n"
}

/// The `.env.example` of a new project.
pub fn env_example() -> (r: &'static str)
    ensures
        r@ == "# Arqen configuration\nARQEN_LOG_LEVEL=info\nARQEN_LOG_FORMAT=compact\nARQEN_PORT=8888\n"@,
{
    "# Arqen configuration\nARQEN_LOG_LEVEL=info\nARQEN_LOG_FORMAT=compact\nARQEN_PORT=8888\n"
}

/// The `Cargo.toml` of a new project named `pkg_name`, depending on Arqen `version` with the given feature list.
pub open spec fn cargo_manifest_text(pkg_name: Seq<char>, version: Seq<char>, feature_text: Seq<char>) -> Seq<char> {
    "[package]\nname = \""@
        + pkg_name
        + "\"\nversion = \"0.1.0\"\nedition = \"2024\"\nrust-version = \"1.96\"\n\n[dependencies]\narqen = { version = \""@
        + version
        + "\", default-features = false, features = ["@
        + feature_text
        + "] }\n"@
}

/// The `Cargo.toml` of a new project named `pkg_name`, depending on Arqen `version` with the given feature list.
pub fn cargo_manifest(pkg_name: &str, version: &str, feature_text: &str) -> (r: String)
    ensures
        r@ == cargo_manifest_text(pkg_name@, version@, feature_text@),
{
    let mut t = owned("[package]\nname = \"");
    push_text(&mut t, pkg_name);
    push_text(&mut t, "\"\nversion = \"0.1.0\"\nedition = \"2024\"\nrust-version = \"1.96\"\n\n[dependencies]\narqen = { version = \"");
    push_text(&mut t, version);
    push_text(&mut t, "\", default-features = false, features = [");
    push_text(&mut t, feature_text);
    push_text(&mut t, "] }\n");
    t
}

/// The `src/main.rs` of a new HTTP project, with `logging_line` before the configuration is loaded.
pub open spec fn http_main_text(logging_line: Seq<char>) -> Seq<char> {
    "use arqen::config::{AppConfig, CliOverrides};\nuse arqen::http::{create_router_with_state_and_routes, start_server};\nuse arqen::http::raw::Router;\nuse arqen::state::AppState;\nuse std::net::SocketAddr;\n\nmod app;\n\nfn main() -> Result<(), Box<dyn std::error::Error + Send + Sync>> {\n    arqen::run(async {\n"@
        + logging_line
        + "    let config = AppConfig::load(CliOverrides::default())?;\n    let state = AppState::builder()\n        .with_config(config)\n        .with_modules(vec![app::AppModule])?\n        .build()?;\n    let addr: SocketAddr = format!(\"{}:{}\", state.config.server.host, state.config.server.port).parse()?;\n    let routes: Router = app::routes();\n    start_server(addr, create_router_with_state_and_routes(state, routes)).await\n    })\n}\n"@
}

/// The `src/main.rs` of a new HTTP project, with `logging_line` before the configuration is loaded.
pub fn http_main_with(logging_line: &str) -> (r: String)
    ensures
        r@ == http_main_text(logging_line@),
{
    let mut t = owned("use arqen::config::{AppConfig, CliOverrides};\nuse arqen::http::{create_router_with_state_and_routes, start_server};\nuse arqen::http::raw::Router;\nuse arqen::state::AppState;\nuse std::net::SocketAddr;\n\nmod app;\n\nfn main() -> Result<(), Box<dyn std::error::Error + Send + Sync>> {\n    arqen::run(async {\n");
    push_text(&mut t, logging_line);
    push_text(&mut t, "    let config = AppConfig::load(CliOverrides::default())?;\n    let state = AppState::builder()\n        .with_config(config)\n        .with_modules(vec![app::AppModule])?\n        .build()?;\n    let addr: SocketAddr = format!(\"{}:{}\", state.config.server.host, state.config.server.port).parse()?;\n    let routes: Router = app::routes();\n    start_server(addr, create_router_with_state_and_routes(state, routes)).await\n    })\n}\n");
    t
}

/// The `README.md` of a new project.
pub open spec fn readme_text(pkg_name: Seq<char>, version: Seq<char>, runtime_note: Seq<char>, endpoint_note: Seq<char>) -> Seq<char> {
    "# "@
        + pkg_name
        + "\n\nAn Arqen application generated by Arqen "@
        + version
        + ".\n\n## Getting started\n\n```bash\narqen dev\n```\n\n"@
        + runtime_note
        + "\n\nFor automatic restart during development, install the optional file watcher\nand run `arqen dev --watch`. Use `arqen start` for a production-style launch.\n\n## Endpoints\n\n- GET /health - Liveness check\n- GET /ready - Readiness check\n- GET /agent - Agent description\n- GET /agent/manifest - Agent manifest\n- GET /docs - API documentation\n"@
        + endpoint_note
        + "\n\n## Adding modules\n\n```bash\narqen generate module users\n```\n\nThis creates `src/users/mod.rs` with a module stub. Register it in `src/app/mod.rs`:\n\n```rust\nmod users;\n\n// In AppModule::dependencies():\nfn dependencies(&self) -> Vec<&str> {\n    vec![\"users\"]\n}\n```\n\n## Adding tools\n\n```bash\narqen generate tool get_user\n```\n\nThis creates `src/tools/get_user.rs` with a tool definition. Register it in your module's `register()` method.\n\n## Adding jobs\n\n```bash\narqen generate job send_email\n```\n\nThis creates `src/jobs/send_email.rs` with a job handler.\n\n## Code quality\n\n```bash\narqen lint       # check formatting and clippy warnings\narqen format     # auto-fix formatting\narqen test       # run tests\narqen build      # build the project\n```\n\nSee the [tooling guide](https://sayanmohsin.github.io/arqen/tooling)\nfor details.\n"@
}

/// The `README.md` of a new project.
pub fn readme_with(pkg_name: &str, version: &str, runtime_note: &str, endpoint_note: &str) -> (r: String)
    ensures
        r@ == readme_text(pkg_name@, version@, runtime_note@, endpoint_note@),
{
    let mut t = owned("# ");
    push_text(&mut t, pkg_name);
    push_text(&mut t, "\n\nAn Arqen application generated by Arqen ");
    push_text(&mut t, version);
    push_text(&mut t, ".\n\n## Getting started\n\n```bash\narqen dev\n```\n\n");
    push_text(&mut t, runtime_note);
    push_text(&mut t, "\n\nFor automatic restart during development, install the optional file watcher\nand run `arqen dev --watch`. Use `arqen start` for a production-style launch.\n\n## Endpoints\n\n- GET /health - Liveness check\n- GET /ready - Readiness check\n- GET /agent - Agent description\n- GET /agent/manifest - Agent manifest\n- GET /docs - API documentation\n");
    push_text(&mut t, endpoint_note);
    push_text(&mut t, "\n\n## Adding modules\n\n```bash\narqen generate module users\n```\n\nThis creates `src/users/mod.rs` with a module stub. Register it in `src/app/mod.rs`:\n\n```rust\nmod users;\n\n// In AppModule::dependencies():\nfn dependencies(&self) -> Vec<&str> {\n    vec![\"users\"]\n}\n```\n\n## Adding tools\n\n```bash\narqen generate tool get_user\n```\n\nThis creates `src/tools/get_user.rs` with a tool definition. Register it in your module's `register()` method.\n\n## Adding jobs\n\n```bash\narqen generate job send_email\n```\n\nThis creates `src/jobs/send_email.rs` with a job handler.\n\n## Code quality\n\n```bash\narqen lint       # check formatting and clippy warnings\narqen format     # auto-fix formatting\narqen test       # run tests\narqen build      # build the project\n```\n\nSee the [tooling guide](https://sayanmohsin.github.io/arqen/tooling)\nfor details.\n");
    t
}

/// The `mod.rs` of a generated module: `module_name` is its type prefix, `name` its name.
pub open spec fn module_source_text(module_name: Seq<char>, name: Seq<char>) -> Seq<char> {
    "use arqen::module::{Module, ModuleContext};\nuse arqen::core::AppError;\n\npub struct "@
        + module_name
        + "Module;\n\nimpl Module for "@
        + module_name
        + "Module {\n    fn name(&self) -> &str {\n        \""@
        + name
        + "\"\n    }\n\n    fn register(&self, _ctx: &mut ModuleContext<'_>) -> Result<(), AppError> {\n        // Register tools: ctx.tools.register_tool(...)\n        Ok(())\n    }\n\n}\n"@
}

/// The `mod.rs` of a generated module: `module_name` is its type prefix, `name` its name.
pub fn module_source_with(module_name: &str, name: &str) -> (r: String)
    ensures
        r@ == module_source_text(module_name@, name@),
{
    let mut t = owned("use arqen::module::{Module, ModuleContext};\nuse arqen::core::AppError;\n\npub struct ");
    push_text(&mut t, module_name);
    push_text(&mut t, "Module;\n\nimpl Module for ");
    push_text(&mut t, module_name);
    push_text(&mut t, "Module {\n    fn name(&self) -> &str {\n        \"");
    push_text(&mut t, name);
    push_text(&mut t, "\"\n    }\n\n    fn register(&self, _ctx: &mut ModuleContext<'_>) -> Result<(), AppError> {\n        // Register tools: ctx.tools.register_tool(...)\n        Ok(())\n    }\n\n}\n");
    t
}

/// The source file of a generated tool named `name`.
pub open spec fn tool_source_text(name: Seq<char>) -> Seq<char> {
    "use arqen::agent::{ToolEffect, ToolMetadata};\nuse arqen::core::AppError;\nuse arqen::module::ModuleContext;\n\npub fn tool_metadata() -> ToolMetadata {\n    ToolMetadata {\n        name: \""@
        + name
        + "\".to_string(),\n        description: \"TODO: describe what this tool does\".to_string(),\n        input: serde_json::json!({\n            \"type\": \"object\",\n            \"properties\": {},\n            \"required\": []\n        }),\n        output: serde_json::json!({\n            \"type\": \"object\"\n        }),\n        scopes: vec![],\n        effect: ToolEffect::Read,\n        idempotent: true,\n        enqueues_job: None,\n        timeout: None,\n    }\n}\n\npub fn register(ctx: &mut ModuleContext<'_>) -> Result<(), AppError> {\n    ctx.tools.register_tool(tool_metadata());\n    Ok(())\n}\n"@
}

/// The source file of a generated tool named `name`.
pub fn tool_source(name: &str) -> (r: String)
    ensures
        r@ == tool_source_text(name@),
{
    let mut t = owned("use arqen::agent::{ToolEffect, ToolMetadata};\nuse arqen::core::AppError;\nuse arqen::module::ModuleContext;\n\npub fn tool_metadata() -> ToolMetadata {\n    ToolMetadata {\n        name: \"");
    push_text(&mut t, name);
    push_text(&mut t, "\".to_string(),\n        description: \"TODO: describe what this tool does\".to_string(),\n        input: serde_json::json!({\n            \"type\": \"object\",\n            \"properties\": {},\n            \"required\": []\n        }),\n        output: serde_json::json!({\n            \"type\": \"object\"\n        }),\n        scopes: vec![],\n        effect: ToolEffect::Read,\n        idempotent: true,\n        enqueues_job: None,\n        timeout: None,\n    }\n}\n\npub fn register(ctx: &mut ModuleContext<'_>) -> Result<(), AppError> {\n    ctx.tools.register_tool(tool_metadata());\n    Ok(())\n}\n");
    t
}

/// The source file of a generated job handler whose type prefix is `handler_name`.
pub open spec fn job_source_text(handler_name: Seq<char>) -> Seq<char> {
    "use arqen::core::AppError;\nuse arqen::jobs::JobHandler;\n\npub struct "@
        + handler_name
        + "Handler;\n\n#[async_trait::async_trait]\nimpl JobHandler for "@
        + handler_name
        + "Handler {\n    async fn handle(&self, payload: serde_json::Value) -> Result<(), AppError> {\n        // TODO: implement job processing\n        tracing::info!(payload = %payload, \"Processing job\");\n        Ok(())\n    }\n}\n"@
}

/// The source file of a generated job handler whose type prefix is `handler_name`.
pub fn job_source_with(handler_name: &str) -> (r: String)
    ensures
        r@ == job_source_text(handler_name@),
{
    let mut t = owned("use arqen::core::AppError;\nuse arqen::jobs::JobHandler;\n\npub struct ");
    push_text(&mut t, handler_name);
    push_text(&mut t, "Handler;\n\n#[async_trait::async_trait]\nimpl JobHandler for ");
    push_text(&mut t, handler_name);
    push_text(&mut t, "Handler {\n    async fn handle(&self, payload: serde_json::Value) -> Result<(), AppError> {\n        // TODO: implement job processing\n        tracing::info!(payload = %payload, \"Processing job\");\n        Ok(())\n    }\n}\n");
    t
}

/// One `_`-separated word in Pascal case: its first character upper-cased
/// and the rest lower-cased, the Unicode way; an empty word stays empty.
pub open spec fn pascal_word(w: Seq<char>) -> Seq<char> {
    if w.len() == 0 {
        Seq::empty()
    } else {
        unicode_upper_char(w[0]) + unicode_lower(w.drop_first())
    }
}

/// The Pascal-case words of `words`, joined.
pub open spec fn pascal_words(words: Seq<Seq<char>>) -> Seq<char>
    decreases words.len(),
{
    if words.len() == 0 {
        Seq::empty()
    } else {
        pascal_words(words.drop_last()) + pascal_word(words.last())
    }
}

/// `snake_case` to `PascalCase`: each `_`-separated word in Pascal case,
/// joined without separators.
pub open spec fn pascal_case(s: Seq<char>) -> Seq<char> {
    pascal_words(split_seq(s, '_'))
}

/// Converts a `snake_case` name to `PascalCase`.
pub fn to_pascal_case(s: &str) -> (r: String)
    ensures
        r@ == pascal_case(s@),
{
    let v = chars_of(s);
    let words = split_chars(&v, '_');
    let ghost ws = split_seq(v@, '_');
    let mut out = owned("");
    proof {
        reveal_strlit("");
    }
    let mut i: usize = 0;
    while i < words.len()
        invariant
            i <= words@.len(),
            words@.len() == ws.len(),
            forall|k: int| 0 <= k < words@.len() ==> #[trigger] words@[k]@ == ws[k],
            out@ == pascal_words(ws.take(i as int)),
        decreases words@.len() - i,
    {
        let w = &words[i];
        assert(ws.take(i + 1).drop_last() =~= ws.take(i as int));
        assert(ws.take(i + 1).last() == w@);
        if w.len() > 0 {
            let first = upper_char_text(w[0]);
            let rest = string_of(&slice_chars(w, 1, w.len()));
            let lower = lower_text(rest.as_str());
            assert(rest@ =~= w@.drop_first());
            push_text(&mut out, first.as_str());
            push_text(&mut out, lower.as_str());
        } else {
            assert(pascal_word(w@) =~= Seq::<char>::empty());
            assert(out@ + pascal_word(w@) =~= out@);
        }
        i = i + 1;
    }
    assert(ws.take(words@.len() as int) =~= ws);
    out
}

/// Choices for a new project.
#[derive(Debug, Clone)]
pub struct ProjectOptions {
    pub output_dir: Option<String>,
    pub yes: bool,
    pub http: bool,
    pub thingd: bool,
    pub logging: bool,
    pub examples: bool,
    pub nice_code: bool,
}

impl Default for ProjectOptions {
    fn default() -> (r: Self)
        ensures
            r.output_dir is None,
            !r.yes,
            r.http,
            !r.thingd,
            r.logging,
            !r.examples,
            !r.nice_code,
    {
        ProjectOptions {
            output_dir: None,
            yes: false,
            http: true,
            thingd: false,
            logging: true,
            examples: false,
            nice_code: false,
        }
    }
}

/// What an answer to a yes/no question means: after trimming and ASCII
/// lower-casing, `y`/`yes` is yes, `n`/`no` is no, nothing is the default,
/// and anything else is refused.
pub open spec fn yes_no_meaning(answer: Seq<char>, default: bool) -> Option<bool> {
    let a = lower_seq(trim_seq(answer));
    if a == "y"@ || a == "yes"@ {
        Some(true)
    } else if a == "n"@ || a == "no"@ {
        Some(false)
    } else if a.len() == 0 {
        Some(default)
    } else {
        None
    }
}

fn chars_are(v: &Vec<char>, word: &str) -> (r: bool)
    ensures
        r == (v@ == word@),
{
    let w = chars_of(word);
    chars_eq(v, &w)
}

/// The answer to a yes/no question, or `Please answer yes or no`.
pub fn yes_no_answer(answer: &str, default: bool) -> (r: Result<bool, String>)
    ensures
        match yes_no_meaning(answer@, default) {
            Some(b) => r == Ok::<bool, String>(b),
            None => r matches Err(m) && m@ == "Please answer yes or no"@,
        },
{
    let v = chars_of(answer);
    let t = trim_chars(&v);
    let a = lower_chars(&t);
    if chars_are(&a, "y") || chars_are(&a, "yes") {
        Ok(true)
    } else if chars_are(&a, "n") || chars_are(&a, "no") {
        Ok(false)
    } else if a.len() == 0 {
        Ok(default)
    } else {
        Err(owned("Please answer yes or no"))
    }
}

/// The options of a new project are asked for only when the user did not
/// accept the defaults, the output is neither JSON nor quiet, and standard
/// input is a terminal.
pub fn asks_options(o: &ProjectOptions, json: bool, quiet: bool, stdin_is_terminal: bool) -> (r: bool)
    ensures
        r == !(o.yes || json || quiet || !stdin_is_terminal),
{
    !(o.yes || json || quiet || !stdin_is_terminal)
}


/// `s` with every `from` replaced by `to`.
pub open spec fn replace_char(s: Seq<char>, from: char, to: char) -> Seq<char> {
    s.map_values(|c: char| if c == from { to } else { c })
}

/// The package name of a new project: the given name when an output
/// directory was given explicitly, else the last component of the project
/// directory (or the name, where the directory has none), with `-` turned
/// into `_`.
pub fn package_name(name: &str, dir_name: Option<&str>, explicit_output: bool) -> (r: String)
    ensures
        r@ == replace_char(
            if explicit_output {
                name@
            } else {
                match dir_name {
                    Some(d) => d@,
                    None => name@,
                }
            },
            '-',
            '_',
        ),
{
    let candidate = if explicit_output {
        name
    } else {
        match dir_name {
            Some(d) => d,
            None => name,
        }
    };
    let v = chars_of(candidate);
    let mut out: Vec<char> = Vec::new();
    let mut i: usize = 0;
    while i < v.len()
        invariant
            i <= v.len(),
            out@ == replace_char(v@.take(i as int), '-', '_'),
        decreases v.len() - i,
    {
        let c = v[i];
        out.push(if c == '-' { '_' } else { c });
        assert(replace_char(v@.take(i + 1), '-', '_') =~= replace_char(v@.take(i as int), '-', '_').push(
            if c == '-' { '_' } else { c },
        ));
        i = i + 1;
    }
    assert(v@.take(v.len() as int) =~= v@);
    string_of(&out)
}

/// `c` occurs in `s`.
pub open spec fn has_char(s: Seq<char>, c: char) -> bool {
    exists|i: int| 0 <= i < s.len() && s[i] == c
}

/// Why a project name is refused, if it is: it is blank; it holds a path
/// separator while an output directory is given; or the package name
/// derived from it is empty, starts with `.` or holds a space.
pub open spec fn project_name_problem(name: Seq<char>, pkg: Seq<char>, explicit_output: bool) -> Option<Seq<char>> {
    if trim_seq(name).len() == 0 {
        Some("Project name must be a non-empty package name"@)
    } else if explicit_output && (has_char(name, '/') || has_char(name, '\\')) {
        Some("Project name must not contain a path separator when --output is used"@)
    } else if pkg.len() == 0 || pkg[0] == '.' || has_char(pkg, ' ') {
        Some("Project name must be a valid Rust package name"@)
    } else {
        None
    }
}

fn find(v: &[char], c: char) -> (r: bool)
    ensures
        r == has_char(v@, c),
{
    proof {
        crate::text::lemma_first_index_bounds(v@, c);
    }
    match crate::text::find_char(v, c) {
        Some(i) => {
            assert(v@[i as int] == c);
            true
        },
        None => false,
    }
}

/// Checks a project name and the package name derived from it.
pub fn check_project_name(name: &str, pkg: &str, explicit_output: bool) -> (r: Option<String>)
    ensures
        match r {
            Some(m) => project_name_problem(name@, pkg@, explicit_output) == Some(m@),
            None => project_name_problem(name@, pkg@, explicit_output) is None,
        },
{
    let trimmed = crate::parse::trim_text(name);
    if trimmed.unicode_len() == 0 {
        return Some(owned("Project name must be a non-empty package name"));
    }
    let n = chars_of(name);
    if explicit_output && (find(&n, '/') || find(&n, '\\')) {
        return Some(owned("Project name must not contain a path separator when --output is used"));
    }
    let p = chars_of(pkg);
    if p.len() == 0 || p[0] == '.' || find(&p, ' ') {
        return Some(owned("Project name must be a valid Rust package name"));
    }
    None
}

/// The Arqen features a new project enables: the HTTP server with advanced
/// transport, native Thingd storage, and logging, as chosen.
pub open spec fn project_features(o: ProjectOptions) -> Seq<Seq<char>> {
    (if o.http { seq!["http-server"@, "advanced-transport"@] } else { Seq::empty() })
        + (if o.thingd { seq!["thingd-native"@] } else { Seq::empty() })
        + (if o.logging { seq!["logging"@] } else { Seq::empty() })
}

/// The features, each quoted, separated by `, `.
pub open spec fn quoted_list(fs: Seq<Seq<char>>) -> Seq<char>
    decreases fs.len(),
{
    if fs.len() == 0 {
        Seq::empty()
    } else if fs.len() == 1 {
        "\""@ + fs[0] + "\""@
    } else {
        quoted_list(fs.drop_last()) + ", \""@ + fs.last() + "\""@
    }
}

/// The features a new project enables.
pub fn features(o: &ProjectOptions) -> (r: Vec<&'static str>)
    ensures
        r@.len() == project_features(*o).len(),
        forall|k: int| 0 <= k < r@.len() ==> #[trigger] r@[k]@ == project_features(*o)[k],
{
    let mut r: Vec<&'static str> = Vec::new();
    if o.http {
        r.push("http-server");
        r.push("advanced-transport");
    }
    let ghost a = r@;
    if o.thingd {
        r.push("thingd-native");
    }
    let ghost b = r@;
    if o.logging {
        r.push("logging");
    }
    proof {
        let f = project_features(*o);
        let fa = if o.http { seq!["http-server"@, "advanced-transport"@] } else { Seq::<Seq<char>>::empty() };
        let fb = if o.thingd { seq!["thingd-native"@] } else { Seq::<Seq<char>>::empty() };
        let fc = if o.logging { seq!["logging"@] } else { Seq::<Seq<char>>::empty() };
        assert(f == fa + fb + fc);
        assert forall|k: int| 0 <= k < r@.len() implies #[trigger] r@[k]@ == f[k] by {
            if k < a.len() {
                assert(r@[k] == a[k]);
            } else if k < b.len() {
                assert(r@[k] == b[k]);
            }
        }
    }
    r
}

/// The feature list as written in `Cargo.toml`: each feature quoted,
/// separated by `, `.
pub fn feature_text(o: &ProjectOptions) -> (r: String)
    ensures
        r@ == quoted_list(project_features(*o)),
{
    let fs = features(o);
    let ghost f = project_features(*o);
    let mut t = owned("");
    proof {
        reveal_strlit("");
    }
    let mut i: usize = 0;
    while i < fs.len()
        invariant
            i <= fs@.len(),
            fs@.len() == f.len(),
            forall|k: int| 0 <= k < fs@.len() ==> #[trigger] fs@[k]@ == f[k],
            t@ == quoted_list(f.take(i as int)),
        decreases fs@.len() - i,
    {
        assert(f.take(i + 1).drop_last() =~= f.take(i as int));
        assert(f.take(i + 1).last() == fs@[i as int]@);
        if i == 0 {
            push_text(&mut t, "\"");
        } else {
            push_text(&mut t, ", \"");
        }
        push_text(&mut t, fs[i]);
        push_text(&mut t, "\"");
        proof {
            if i == 0 {
                assert(f.take(1)[0] == fs@[0]@);
            }
        }
        i = i + 1;
    }
    assert(f.take(fs@.len() as int) =~= f);
    t
}

/// The `Cargo.toml` of a new project.
pub fn project_manifest(pkg_name: &str, version: &str, o: &ProjectOptions) -> (r: String)
    ensures
        r@ == cargo_manifest_text(pkg_name@, version@, quoted_list(project_features(*o))),
{
    let f = feature_text(o);
    cargo_manifest(pkg_name, version, f.as_str())
}

/// The `src/main.rs` of a new project: with the HTTP server (and the
/// logging set-up line when logging is chosen), or the plain starter.
pub fn main_source(o: &ProjectOptions) -> (r: String)
    ensures
        o.http && o.logging ==> r@ == http_main_text("    arqen::logging::init_logging(\"info\", \"compact\");\n"@),
        o.http && !o.logging ==> r@ == http_main_text(Seq::empty()),
        !o.http ==> r@ == plain_main_text(),
{
    proof {
        reveal_strlit("");
    }
    if o.http {
        let line = if o.logging { "    arqen::logging::init_logging(\"info\", \"compact\");\n" } else { "" };
        http_main_with(line)
    } else {
        owned(plain_main_source())
    }
}

/// The storage a new project starts with: `native` with Thingd, else
/// `memory`.
pub fn project_storage(o: &ProjectOptions) -> (r: &'static str)
    ensures
        r@ == (if o.thingd { "native"@ } else { "memory"@ }),
{
    if o.thingd { "native" } else { "memory" }
}

/// The `README.md` of a new project.
pub fn project_readme(pkg_name: &str, version: &str, o: &ProjectOptions) -> (r: String)
    ensures
        o.http ==> r@ == readme_text(
            pkg_name@,
            version@,
            "The server starts on http://127.0.0.1:8888 with "@ + (if o.thingd { "native"@ } else { "memory"@ })
                + " storage."@,
            "- GET /api/hello - Example application route"@,
        ),
        !o.http ==> r@ == readme_text(
            pkg_name@,
            version@,
            "This starter is a library-ready command-line application. Add the `http-server` feature when you are ready to expose HTTP routes."@,
            Seq::empty(),
        ),
{
    proof {
        reveal_strlit("");
    }
    if o.http {
        let mut note = owned("The server starts on http://127.0.0.1:8888 with ");
        push_text(&mut note, project_storage(o));
        push_text(&mut note, " storage.");
        readme_with(pkg_name, version, note.as_str(), "- GET /api/hello - Example application route")
    } else {
        readme_with(
            pkg_name,
            version,
            "This starter is a library-ready command-line application. Add the `http-server` feature when you are ready to expose HTTP routes.",
            "",
        )
    }
}

/// The `arqen.toml` of a new project.
pub fn project_config(o: &ProjectOptions) -> (r: &'static str)
    ensures
        o.thingd ==> r@ == "[storage]\nmode = \"native\"\npersistent_path = \".data/thingd\"\n"@,
        !o.thingd ==> r@ == "[storage]\nmode = \"memory\"\n"@,
{
    if o.thingd {
        "[storage]\nmode = \"native\"\npersistent_path = \".data/thingd\"\n"
    } else {
        "[storage]\nmode = \"memory\"\n"
    }
}

/// The files a new project holds, in the order they are listed.
pub open spec fn project_files(o: ProjectOptions) -> Seq<Seq<char>> {
    seq![
        "Cargo.toml"@,
        "src/main.rs"@,
        "README.md"@,
        "rustfmt.toml"@,
        "clippy.toml"@,
        "arqen.toml"@,
        ".env.example"@,
        "AGENTS.md"@,
    ] + (if o.http { seq!["src/app/mod.rs"@] } else { Seq::empty() }) + (if o.examples {
        seq!["examples/README.md"@]
    } else {
        Seq::empty()
    }) + (if o.nice_code { seq!["NICE_CODE.md"@, ".github/workflows/nice-code.yml"@] } else { Seq::empty() })
}

/// The files a new project holds.
pub fn generated_files(o: &ProjectOptions) -> (r: Vec<&'static str>)
    ensures
        r@.len() == project_files(*o).len(),
        forall|k: int| 0 <= k < r@.len() ==> #[trigger] r@[k]@ == project_files(*o)[k],
{
    let mut r: Vec<&'static str> = Vec::new();
    r.push("Cargo.toml");
    r.push("src/main.rs");
    r.push("README.md");
    r.push("rustfmt.toml");
    r.push("clippy.toml");
    r.push("arqen.toml");
    r.push(".env.example");
    r.push("AGENTS.md");
    let ghost a = r@;
    if o.http {
        r.push("src/app/mod.rs");
    }
    let ghost b = r@;
    if o.examples {
        r.push("examples/README.md");
    }
    let ghost c = r@;
    if o.nice_code {
        r.push("NICE_CODE.md");
        r.push(".github/workflows/nice-code.yml");
    }
    proof {
        let f = project_files(*o);
        assert forall|k: int| 0 <= k < r@.len() implies #[trigger] r@[k]@ == f[k] by {
            if k < a.len() {
                assert(r@[k] == a[k]);
            } else if k < b.len() {
                assert(r@[k] == b[k]);
            } else if k < c.len() {
                assert(r@[k] == c[k]);
            }
        }
    }
    r
}

/// The `mod.rs` of a module generated under `name`.
pub fn module_source(name: &str) -> (r: String)
    ensures
        r@ == module_source_text(pascal_case(name@), name@),
{
    let prefix = to_pascal_case(name);
    module_source_with(prefix.as_str(), name)
}

/// The source of a job handler generated under `name`.
pub fn job_source(name: &str) -> (r: String)
    ensures
        r@ == job_source_text(pascal_case(name@)),
{
    let prefix = to_pascal_case(name);
    job_source_with(prefix.as_str())
}

} // verus!
