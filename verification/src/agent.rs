//! What agents read and call: tool, job and endpoint descriptions, the
//! registry that holds them, the manifest it publishes, and the checks a
//! tool call passes before its handler runs.
use vstd::prelude::*;
use crate::context::{contains_text, has_text, texts, ToolContext};
use crate::error::{AppError, ErrorKind};
use crate::json::{json_view, schema_error, validate_against_schema, JsonNumber, JsonValue, JsonView};
use crate::module::copy_texts;
use crate::scheduler::{lemma_text_lt_total, lemma_text_lt_trans, text_less, text_lt};
use crate::text::{owned, push_text};

verus! {

/// Whether a tool only reads or also changes state.
#[derive(Debug, Clone, Copy, PartialEq, Eq, Structural)]
pub enum ToolEffect {
    Read,
    Write,
}

/// An HTTP endpoint as listed in an agent manifest.
#[derive(Debug, Clone)]
pub struct EndpointMetadata {
    pub path: String,
    pub method: String,
    pub description: String,
    pub authenticated: bool,
}

/// Helper for writing JSON schemas of tool inputs and outputs.
#[derive(Debug, Clone, Copy)]
pub struct SchemaGenerator;

/// The JSON schema type a property type name stands for: `string`,
/// `number`, `boolean` and `array` stand for themselves, anything else for
/// `object`.
pub open spec fn schema_type(name: Seq<char>) -> Seq<char> {
    if name == "string"@ || name == "number"@ || name == "boolean"@ || name == "array"@ {
        name
    } else {
        "object"@
    }
}

impl SchemaGenerator {
    pub fn new() -> (r: Self) {
        SchemaGenerator
    }

    /// The JSON schema type of a property type name.
    pub fn property_type(name: &str) -> (r: &'static str)
        ensures
            r@ == schema_type(name@),
    {
        if crate::text::text_eq(name, "string") {
            "string"
        } else if crate::text::text_eq(name, "number") {
            "number"
        } else if crate::text::text_eq(name, "boolean") {
            "boolean"
        } else if crate::text::text_eq(name, "array") {
            "array"
        } else {
            "object"
        }
    }
}

impl Default for SchemaGenerator {
    fn default() -> (r: Self) {
        SchemaGenerator
    }
}

/// A tool that agents can call: its description, the JSON schemas of its
/// input and output, the scopes a caller needs, and how it runs.
#[derive(Debug)]
pub struct ToolMetadata {
    pub name: String,
    pub description: String,
    pub input: JsonValue,
    pub output: JsonValue,
    pub scopes: Vec<String>,
    pub effect: ToolEffect,
    pub idempotent: bool,
    /// The queue a call is pushed to when the tool has no handler.
    pub enqueues_job: Option<String>,
    /// Seconds a call may take (30 when absent).
    pub timeout: Option<u32>,
}

/// The content of a tool description.
pub struct ToolView {
    pub name: Seq<char>,
    pub description: Seq<char>,
    pub input: JsonView,
    pub output: JsonView,
    pub scopes: Seq<Seq<char>>,
    pub effect: ToolEffect,
    pub idempotent: bool,
    pub enqueues_job: Option<Seq<char>>,
    pub timeout: Option<u32>,
}

pub open spec fn opt_view(o: Option<String>) -> Option<Seq<char>> {
    match o {
        Some(s) => Some(s@),
        None => None,
    }
}

impl View for ToolMetadata {
    type V = ToolView;

    open spec fn view(&self) -> ToolView {
        ToolView {
            name: self.name@,
            description: self.description@,
            input: self.input@,
            output: self.output@,
            scopes: texts(self.scopes@),
            effect: self.effect,
            idempotent: self.idempotent,
            enqueues_job: opt_view(self.enqueues_job),
            timeout: self.timeout,
        }
    }
}

fn copy_opt(o: &Option<String>) -> (r: Option<String>)
    ensures
        opt_view(r) == opt_view(*o),
{
    match o {
        Some(s) => Some(s.clone()),
        None => None,
    }
}

impl ToolMetadata {
    /// A copy with the same content.
    pub fn duplicate(&self) -> (r: Self)
        ensures
            r@ == self@,
    {
        let scopes = copy_texts(&self.scopes);
        ToolMetadata {
            name: self.name.clone(),
            description: self.description.clone(),
            input: self.input.duplicate(),
            output: self.output.duplicate(),
            scopes,
            effect: self.effect,
            idempotent: self.idempotent,
            enqueues_job: copy_opt(&self.enqueues_job),
            timeout: self.timeout,
        }
    }
}

/// A background job as listed in an agent manifest.
#[derive(Debug)]
pub struct JobMetadata {
    pub name: String,
    pub description: String,
    pub payload: JsonValue,
    pub queue: String,
    pub max_retries: u32,
    pub timeout: u32,
}

/// The content of a job description.
pub struct JobView {
    pub name: Seq<char>,
    pub description: Seq<char>,
    pub payload: JsonView,
    pub queue: Seq<char>,
    pub max_retries: u32,
    pub timeout: u32,
}

impl View for JobMetadata {
    type V = JobView;

    open spec fn view(&self) -> JobView {
        JobView {
            name: self.name@,
            description: self.description@,
            payload: self.payload@,
            queue: self.queue@,
            max_retries: self.max_retries,
            timeout: self.timeout,
        }
    }
}

impl JobMetadata {
    /// A copy with the same content.
    pub fn duplicate(&self) -> (r: Self)
        ensures
            r@ == self@,
    {
        JobMetadata {
            name: self.name.clone(),
            description: self.description.clone(),
            payload: self.payload.duplicate(),
            queue: self.queue.clone(),
            max_retries: self.max_retries,
            timeout: self.timeout,
        }
    }
}

/// The content of an endpoint description.
pub type EndpointView = (Seq<char>, Seq<char>, Seq<char>, bool);

impl View for EndpointMetadata {
    type V = EndpointView;

    open spec fn view(&self) -> EndpointView {
        (self.path@, self.method@, self.description@, self.authenticated)
    }
}

impl EndpointMetadata {
    /// A copy with the same content.
    pub fn duplicate(&self) -> (r: Self)
        ensures
            r@ == self@,
    {
        EndpointMetadata {
            path: self.path.clone(),
            method: self.method.clone(),
            description: self.description.clone(),
            authenticated: self.authenticated,
        }
    }
}

/// What an application offers agents, as published at `/agent`.
#[derive(Debug)]
pub struct AgentManifest {
    pub name: String,
    pub version: String,
    pub description: String,
    pub storage_mode: String,
    pub tools: Vec<ToolMetadata>,
    pub jobs: Vec<JobMetadata>,
    pub endpoints: Vec<EndpointMetadata>,
}

/// Index of the tool named `name`.
pub open spec fn tool_index(tools: Seq<ToolMetadata>, name: Seq<char>) -> Option<int> {
    if exists|i: int| 0 <= i < tools.len() && (#[trigger] tools[i]).name@ == name {
        Some(choose|i: int| 0 <= i < tools.len() && (#[trigger] tools[i]).name@ == name)
    } else {
        None
    }
}

/// No two tools share a name.
pub open spec fn distinct_tool_names(tools: Seq<ToolMetadata>) -> bool {
    forall|i: int, j: int|
        0 <= i < tools.len() && 0 <= j < tools.len() && i != j ==> (#[trigger] tools[i]).name@ != (#[trigger] tools[
            j]).name@
}

/// No text occurs twice.
pub open spec fn distinct_texts(v: Seq<String>) -> bool {
    forall|i: int, j: int| 0 <= i < v.len() && 0 <= j < v.len() && i != j ==> (#[trigger] v[i])@ != (#[trigger] v[j])@
}

/// The registry of an application's agent tools, their handlers, jobs and
/// endpoints. A tool name is registered once, and so is a handler name.
pub struct ToolRegistry {
    tools: Vec<ToolMetadata>,
    handlers: Vec<String>,
    jobs: Vec<JobMetadata>,
    endpoints: Vec<EndpointMetadata>,
    app_name: String,
    app_version: String,
    app_description: String,
    storage_mode: String,
}

impl ToolRegistry {
    /// The registered tools, in registration order.
    pub closed spec fn tools_spec(&self) -> Seq<ToolMetadata> {
        self.tools@
    }

    /// The names that have a handler, in registration order.
    pub closed spec fn handler_names(&self) -> Seq<String> {
        self.handlers@
    }

    pub closed spec fn jobs_spec(&self) -> Seq<JobMetadata> {
        self.jobs@
    }

    pub closed spec fn endpoints_spec(&self) -> Seq<EndpointMetadata> {
        self.endpoints@
    }

    /// Name, version, description and storage mode of the application.
    pub closed spec fn app_spec(&self) -> (Seq<char>, Seq<char>, Seq<char>, Seq<char>) {
        (self.app_name@, self.app_version@, self.app_description@, self.storage_mode@)
    }

    /// Tool names and handler names are each registered once.
    pub open spec fn wf(&self) -> bool {
        &&& distinct_tool_names(self.tools_spec())
        &&& distinct_texts(self.handler_names())
    }

    /// An empty registry of the named application.
    pub fn new(app_name: &str, app_version: &str, app_description: &str, storage_mode: &str) -> (r: Self)
        ensures
            r.wf(),
            r.tools_spec().len() == 0,
            r.handler_names().len() == 0,
            r.jobs_spec().len() == 0,
            r.endpoints_spec().len() == 0,
            r.app_spec() == (app_name@, app_version@, app_description@, storage_mode@),
    {
        ToolRegistry {
            tools: Vec::new(),
            handlers: Vec::new(),
            jobs: Vec::new(),
            endpoints: Vec::new(),
            app_name: owned(app_name),
            app_version: owned(app_version),
            app_description: owned(app_description),
            storage_mode: owned(storage_mode),
        }
    }

    /// Registers a tool under a name not yet taken.
    pub fn register_tool(&mut self, tool: ToolMetadata)
        requires
            old(self).wf(),
            tool_index(old(self).tools_spec(), tool.name@) is None,
        ensures
            final(self).wf(),
            final(self).tools_spec() == old(self).tools_spec().push(tool),
            final(self).handler_names() == old(self).handler_names(),
            final(self).jobs_spec() == old(self).jobs_spec(),
            final(self).endpoints_spec() == old(self).endpoints_spec(),
            final(self).app_spec() == old(self).app_spec(),
    {
        let ghost before = self.tools@;
        self.tools.push(tool);
        assert forall|i: int, j: int|
            0 <= i < self.tools@.len() && 0 <= j < self.tools@.len() && i != j implies (
            #[trigger] self.tools@[i]).name@ != (#[trigger] self.tools@[j]).name@ by {
            if i == before.len() {
                assert(before[j].name@ != self.tools@[i].name@);
            } else if j == before.len() {
                assert(before[i].name@ != self.tools@[j].name@);
            }
        }
    }

    /// Records that calls of the tool `name` run a handler; a name gets
    /// one handler.
    pub fn register_handler(&mut self, name: &str)
        requires
            old(self).wf(),
            !has_text(old(self).handler_names(), name@),
        ensures
            final(self).wf(),
            texts(final(self).handler_names()) == texts(old(self).handler_names()).push(name@),
            final(self).tools_spec() == old(self).tools_spec(),
            final(self).jobs_spec() == old(self).jobs_spec(),
            final(self).endpoints_spec() == old(self).endpoints_spec(),
            final(self).app_spec() == old(self).app_spec(),
    {
        let ghost before = self.handlers@;
        self.handlers.push(owned(name));
        assert forall|i: int, j: int|
            0 <= i < self.handlers@.len() && 0 <= j < self.handlers@.len() && i != j implies (
            #[trigger] self.handlers@[i])@ != (#[trigger] self.handlers@[j])@ by {
            if i == before.len() {
                assert(before[j]@ != name@);
            } else if j == before.len() {
                assert(before[i]@ != name@);
            }
        }
        assert(texts(self.handlers@) =~= texts(before).push(name@));
    }

    /// Whether calls of the tool `name` run a handler.
    pub fn has_handler(&self, name: &str) -> (r: bool)
        ensures
            r == has_text(self.handler_names(), name@),
    {
        contains_text(&self.handlers, name)
    }

    pub fn register_job(&mut self, job: JobMetadata)
        ensures
            final(self).jobs_spec() == old(self).jobs_spec().push(job),
            final(self).tools_spec() == old(self).tools_spec(),
            final(self).handler_names() == old(self).handler_names(),
            final(self).endpoints_spec() == old(self).endpoints_spec(),
            final(self).app_spec() == old(self).app_spec(),
    {
        self.jobs.push(job);
    }

    pub fn register_endpoint(&mut self, endpoint: EndpointMetadata)
        ensures
            final(self).endpoints_spec() == old(self).endpoints_spec().push(endpoint),
            final(self).tools_spec() == old(self).tools_spec(),
            final(self).handler_names() == old(self).handler_names(),
            final(self).jobs_spec() == old(self).jobs_spec(),
            final(self).app_spec() == old(self).app_spec(),
    {
        self.endpoints.push(endpoint);
    }

    fn find_tool(&self, name: &str) -> (r: Option<usize>)
        ensures
            match r {
                Some(i) => i < self.tools@.len() && self.tools@[i as int].name@ == name@,
                None => tool_index(self.tools@, name@) is None,
            },
    {
        let mut i: usize = 0;
        while i < self.tools.len()
            invariant
                i <= self.tools@.len(),
                forall|j: int| 0 <= j < i ==> (#[trigger] self.tools@[j]).name@ != name@,
            decreases self.tools@.len() - i,
        {
            if crate::text::text_eq(self.tools[i].name.as_str(), name) {
                return Some(i);
            }
            i = i + 1;
        }
        None
    }

    /// The tool named `name`, if one is registered.
    pub fn get_tool(&self, name: &str) -> (r: Option<&ToolMetadata>)
        requires
            self.wf(),
        ensures
            match tool_index(self.tools_spec(), name@) {
                Some(i) => r == Some(&self.tools_spec()[i]),
                None => r is None,
            },
    {
        match self.find_tool(name) {
            Some(i) => {
                proof {
                    let c = tool_index(self.tools@, name@);
                    assert(self.tools@[i as int].name@ == name@);
                    if c != Some(i as int) {
                        let k = c->0;
                        assert(self.tools@[k].name@ == name@);
                    }
                }
                Some(&self.tools[i])
            },
            None => None,
        }
    }
}

impl Default for ToolRegistry {
    fn default() -> (r: Self)
        ensures
            r.wf(),
            r.tools_spec().len() == 0,
            r.handler_names().len() == 0,
            r.jobs_spec().len() == 0,
            r.endpoints_spec().len() == 0,
            r.app_spec() == ("arqen-app"@, "0.1.0"@, "An Arqen application"@, "memory"@),
    {
        ToolRegistry::new("arqen-app", "0.1.0", "An Arqen application", "memory")
    }
}

/// Texts in strictly increasing order.
pub open spec fn strictly_sorted(s: Seq<Seq<char>>) -> bool {
    forall|a: int, b: int| 0 <= a < b < s.len() ==> text_lt(#[trigger] s[a], #[trigger] s[b])
}

/// Inserting a text where it belongs keeps texts strictly increasing.
proof fn lemma_insert_strict(s: Seq<Seq<char>>, p: int, x: Seq<char>)
    requires
        strictly_sorted(s),
        0 <= p <= s.len(),
        forall|k: int| 0 <= k < p ==> text_lt(#[trigger] s[k], x),
        p < s.len() ==> text_lt(x, s[p]),
    ensures
        strictly_sorted(s.insert(p, x)),
{
    let t = s.insert(p, x);
    assert forall|k: int| p < k < s.len() implies text_lt(x, #[trigger] s[k]) by {
        lemma_text_lt_trans(x, s[p], s[k]);
    }
    assert forall|a: int, b: int| 0 <= a < b < t.len() implies text_lt(#[trigger] t[a], #[trigger] t[b]) by {
        if b < p {
        } else if b == p {
        } else if a < p {
            lemma_text_lt_trans(s[a], x, s[b - 1]);
        } else if a == p {
        } else {
        }
    }
}

/// The names of some tools.
pub open spec fn tool_names(v: Seq<&ToolMetadata>) -> Seq<Seq<char>> {
    v.map_values(|t: &ToolMetadata| t.name@)
}

impl ToolRegistry {
    /// The registered tools, ordered by name.
    pub fn list_tools(&self) -> (r: Vec<&ToolMetadata>)
        requires
            self.wf(),
        ensures
            r@.len() == self.tools_spec().len(),
            forall|k: int|
                0 <= k < r@.len() ==> (tool_index(self.tools_spec(), (#[trigger] r@[k]).name@) matches Some(j) && *r@[k]
                    == self.tools_spec()[j]),
            strictly_sorted(tool_names(r@)),
    {
        let mut out: Vec<&ToolMetadata> = Vec::new();
        let ghost mut from: Seq<int> = Seq::empty();
        let mut i: usize = 0;
        while i < self.tools.len()
            invariant
                i <= self.tools@.len(),
                self.wf(),
                out@.len() == i,
                from.len() == i,
                forall|k: int| 0 <= k < out@.len() ==> 0 <= #[trigger] from[k] < i && out@[k] == &self.tools@[from[k]],
                strictly_sorted(tool_names(out@)),
            decreases self.tools@.len() - i,
        {
            let t = &self.tools[i];
            let mut p: usize = 0;
            while p < out.len() && text_less(out[p].name.as_str(), t.name.as_str())
                invariant
                    p <= out@.len(),
                    forall|k: int| 0 <= k < p ==> text_lt(#[trigger] out@[k].name@, t.name@),
                decreases out@.len() - p,
            {
                p = p + 1;
            }
            proof {
                if p < out@.len() {
                    let j = from[p as int];
                    assert(self.tools@[j].name@ != self.tools@[i as int].name@);
                    lemma_text_lt_total(t.name@, out@[p as int].name@);
                }
                lemma_insert_strict(tool_names(out@), p as int, t.name@);
            }
            let ghost before = out@;
            let ghost from_before = from;
            out.insert(p, t);
            proof {
                from = from.insert(p as int, i as int);
                assert(tool_names(out@) =~= tool_names(before).insert(p as int, t.name@));
                assert forall|k: int| 0 <= k < out@.len() implies 0 <= #[trigger] from[k] < i + 1 && out@[k]
                    == &self.tools@[from[k]] by {
                    if k < p {
                        assert(out@[k] == before[k]);
                        assert(from[k] == from_before[k]);
                    } else if k == p {
                    } else {
                        assert(out@[k] == before[k - 1]);
                        assert(from[k] == from_before[k - 1]);
                    }
                }
            }
            i = i + 1;
        }
        assert forall|k: int| 0 <= k < out@.len() implies (tool_index(
            self.tools_spec(),
            (#[trigger] out@[k]).name@,
        ) matches Some(j) && *out@[k] == self.tools_spec()[j]) by {
            assert(0 <= from[k] < i && out@[k] == &self.tools@[from[k]]);
            let c = tool_index(self.tools_spec(), out@[k].name@)->0;
            assert(self.tools@[from[k]].name@ == out@[k].name@);
            assert(c == from[k]);
        }
        out
    }
}

/// The result of executing a tool.
#[derive(Debug)]
pub enum ToolOutcome {
    /// The tool produced a value inline.
    Output(JsonValue),
    /// The tool enqueued a background job instead of executing inline.
    Enqueued { queue: String, job_id: String },
}

/// How a tool call proceeds once its checks pass.
#[derive(Debug)]
pub enum ToolPlan {
    /// Push the input as a job on `queue`, retried at most `max_retries` times.
    Enqueue { queue: String, max_retries: u32 },
    /// Run the tool's handler for at most `timeout_secs` seconds.
    Run { timeout_secs: u32 },
}

/// Retries of a job that a tool without a handler enqueues.
pub const DEFAULT_TOOL_JOB_MAX_RETRIES: u32 = 3;

/// Seconds a tool call may take when the tool declares no timeout.
pub const DEFAULT_TOOL_TIMEOUT_SECS: u32 = 30;

/// Some scope that the tool requires was not granted.
pub open spec fn lacks_scope(required: Seq<String>, granted: Seq<String>) -> bool {
    exists|k: int| 0 <= k < required.len() && !has_text(granted, (#[trigger] required[k])@)
}

/// The outcome of planning a call: the plan's queue and retries or
/// timeout, or the kind and message of the error.
pub enum PlanView {
    Enqueue(Seq<char>, u32),
    Run(u32),
    Refused(ErrorKind, Seq<char>),
}

/// What a call of the tool `name` with `input` by a caller granted
/// `granted` amounts to: an unknown tool is not found; missing scopes are
/// refused; then the input must fit the tool's input schema; a tool that
/// enqueues a job and has no handler is enqueued when a job backend is
/// available; a tool without a handler is not implemented; otherwise its
/// handler runs, with its timeout or 30 seconds.
pub open spec fn call_plan(
    tools: Seq<ToolMetadata>,
    handlers: Seq<String>,
    name: Seq<char>,
    input: JsonValue,
    granted: Seq<String>,
    has_backend: bool,
) -> PlanView {
    match tool_index(tools, name) {
        None => PlanView::Refused(ErrorKind::NotFound, "tool not found: "@ + name),
        Some(i) => {
            let t = tools[i];
            if lacks_scope(t.scopes@, granted) {
                PlanView::Refused(ErrorKind::Authorization, "missing required scopes for tool: "@ + name)
            } else if schema_error(input, t.input) is Some {
                PlanView::Refused(ErrorKind::Validation, schema_error(input, t.input)->0)
            } else if t.enqueues_job is Some && !has_text(handlers, name) {
                if has_backend {
                    PlanView::Enqueue(t.enqueues_job->0@, DEFAULT_TOOL_JOB_MAX_RETRIES)
                } else {
                    PlanView::Refused(
                        ErrorKind::NotImpl,
                        "tool "@ + name + " enqueues a job but no handler or backend is configured"@,
                    )
                }
            } else if !has_text(handlers, name) {
                PlanView::Refused(ErrorKind::NotImpl, "tool has no handler registered: "@ + name)
            } else {
                PlanView::Run(
                    match t.timeout {
                        Some(s) => s,
                        None => DEFAULT_TOOL_TIMEOUT_SECS,
                    },
                )
            }
        },
    }
}

/// The view of a planned call.
pub open spec fn plan_result_view(r: Result<ToolPlan, AppError>) -> PlanView {
    match r {
        Ok(ToolPlan::Enqueue { queue, max_retries }) => PlanView::Enqueue(queue@, max_retries),
        Ok(ToolPlan::Run { timeout_secs }) => PlanView::Run(timeout_secs),
        Err(e) => PlanView::Refused(e.kind, e.message@),
    }
}

fn all_granted(required: &Vec<String>, granted: &Vec<String>) -> (r: bool)
    ensures
        r == !lacks_scope(required@, granted@),
{
    let mut k: usize = 0;
    while k < required.len()
        invariant
            k <= required@.len(),
            forall|j: int| 0 <= j < k ==> has_text(granted@, (#[trigger] required@[j])@),
        decreases required@.len() - k,
    {
        if !contains_text(granted, required[k].as_str()) {
            return false;
        }
        k = k + 1;
    }
    true
}

fn refusal(kind: ErrorKind, prefix: &str, name: &str, suffix: &str) -> (r: AppError)
    ensures
        r.kind == kind,
        r.message@ == prefix@ + name@ + suffix@,
{
    let mut m = owned(prefix);
    push_text(&mut m, name);
    push_text(&mut m, suffix);
    AppError::from_message(kind, m)
}

impl ToolRegistry {
    /// Checks a call of the tool `name` and says how it proceeds, as
    /// `call_plan` defines; `has_backend` says whether jobs can be pushed.
    pub fn plan_call(&self, name: &str, input: &JsonValue, ctx: &ToolContext, has_backend: bool) -> (r: Result<
        ToolPlan,
        AppError,
    >)
        requires
            self.wf(),
        ensures
            plan_result_view(r) == call_plan(
                self.tools_spec(),
                self.handler_names(),
                name@,
                *input,
                ctx.scopes@,
                has_backend,
            ),
    {
        proof {
            reveal_strlit("");
        }
        let tool = match self.get_tool(name) {
            Some(t) => t,
            None => return Err(refusal(ErrorKind::NotFound, "tool not found: ", name, "")),
        };
        if !all_granted(&tool.scopes, &ctx.scopes) {
            return Err(refusal(ErrorKind::Authorization, "missing required scopes for tool: ", name, ""));
        }
        match validate_against_schema(input, &tool.input) {
            Ok(()) => {},
            Err(e) => return Err(e),
        }
        let handled = self.has_handler(name);
        match &tool.enqueues_job {
            Some(queue) => if !handled {
                if has_backend {
                    return Ok(ToolPlan::Enqueue { queue: queue.clone(), max_retries: DEFAULT_TOOL_JOB_MAX_RETRIES });
                } else {
                    return Err(
                        refusal(
                            ErrorKind::NotImpl,
                            "tool ",
                            name,
                            " enqueues a job but no handler or backend is configured",
                        ),
                    );
                }
            },
            None => {},
        }
        if !handled {
            return Err(refusal(ErrorKind::NotImpl, "tool has no handler registered: ", name, ""));
        }
        Ok(
            ToolPlan::Run {
                timeout_secs: match tool.timeout {
                    Some(s) => s,
                    None => DEFAULT_TOOL_TIMEOUT_SECS,
                },
            },
        )
    }
}

/// The error of a tool call that outran its timeout.
pub fn timeout_error(name: &str, timeout_secs: u32) -> (r: AppError)
    ensures
        r.kind == ErrorKind::Timeout,
        r.message@ == "tool "@ + name@ + " timed out after "@ + crate::parse::decimal_seq(timeout_secs as nat) + "s"@,
{
    let mut m = owned("tool ");
    push_text(&mut m, name);
    push_text(&mut m, " timed out after ");
    crate::parse::push_decimal(&mut m, timeout_secs as u64);
    push_text(&mut m, "s");
    AppError::from_message(ErrorKind::Timeout, m)
}

/// Endpoint order: by path, then method, then description.
pub open spec fn endpoint_lt(a: EndpointView, b: EndpointView) -> bool {
    text_lt(a.0, b.0) || (a.0 == b.0 && (text_lt(a.1, b.1) || (a.1 == b.1 && text_lt(a.2, b.2))))
}

/// Endpoints in order: none comes after one that it precedes.
pub open spec fn endpoints_sorted(s: Seq<EndpointView>) -> bool {
    forall|a: int, b: int| 0 <= a < b < s.len() ==> !endpoint_lt(#[trigger] s[b], #[trigger] s[a])
}

/// The views of some endpoints.
pub open spec fn endpoint_views(v: Seq<EndpointMetadata>) -> Seq<EndpointView> {
    v.map_values(|e: EndpointMetadata| e@)
}

proof fn lemma_endpoint_lt_order(a: EndpointView, b: EndpointView, c: EndpointView)
    ensures
        !(endpoint_lt(a, b) && endpoint_lt(b, a)),
        endpoint_lt(a, b) && endpoint_lt(b, c) ==> endpoint_lt(a, c),
{
    lemma_text_lt_total(a.0, b.0);
    lemma_text_lt_total(a.1, b.1);
    lemma_text_lt_total(a.2, b.2);
    if endpoint_lt(a, b) && endpoint_lt(b, c) {
        if text_lt(a.0, b.0) && text_lt(b.0, c.0) {
            lemma_text_lt_trans(a.0, b.0, c.0);
        }
        if a.0 == b.0 && b.0 == c.0 {
            if text_lt(a.1, b.1) && text_lt(b.1, c.1) {
                lemma_text_lt_trans(a.1, b.1, c.1);
            }
            if a.1 == b.1 && b.1 == c.1 && text_lt(a.2, b.2) && text_lt(b.2, c.2) {
                lemma_text_lt_trans(a.2, b.2, c.2);
            }
        }
    }
}

/// Inserting an endpoint before the first one it precedes keeps
/// endpoints in order.
proof fn lemma_insert_endpoint(s: Seq<EndpointView>, p: int, x: EndpointView)
    requires
        endpoints_sorted(s),
        0 <= p <= s.len(),
        forall|k: int| 0 <= k < p ==> !endpoint_lt(x, #[trigger] s[k]),
        p < s.len() ==> endpoint_lt(x, s[p]),
    ensures
        endpoints_sorted(s.insert(p, x)),
{
    let t = s.insert(p, x);
    assert forall|k: int| p <= k < s.len() implies !endpoint_lt(#[trigger] s[k], x) by {
        lemma_endpoint_lt_order(s[k], x, s[p]);
        lemma_endpoint_lt_order(x, s[p], s[k]);
        if k > p {
            assert(!endpoint_lt(s[k], s[p]));
        }
    }
    assert forall|a: int, b: int| 0 <= a < b < t.len() implies !endpoint_lt(#[trigger] t[b], #[trigger] t[a]) by {
        if b < p {
        } else if b == p {
        } else if a < p {
        } else if a == p {
        } else {
        }
    }
}

fn text_same(a: &String, b: &String) -> (r: bool)
    ensures
        r == (a@ == b@),
{
    crate::text::text_eq(a.as_str(), b.as_str())
}

fn endpoint_less(a: &EndpointMetadata, b: &EndpointMetadata) -> (r: bool)
    ensures
        r == endpoint_lt(a@, b@),
{
    if text_less(a.path.as_str(), b.path.as_str()) {
        return true;
    }
    if !text_same(&a.path, &b.path) {
        return false;
    }
    if text_less(a.method.as_str(), b.method.as_str()) {
        return true;
    }
    if !text_same(&a.method, &b.method) {
        return false;
    }
    text_less(a.description.as_str(), b.description.as_str())
}

/// `out` is `input` reordered: `perm[k]` is the input position of `out[k]`,
/// each input position occurs once, and items that `tied` puts in one
/// class keep their input order.
pub open spec fn stably_reordered<V>(out: Seq<V>, input: Seq<V>, perm: Seq<int>, tied: spec_fn(V, V) -> bool) -> bool {
    &&& perm.len() == out.len() == input.len()
    &&& forall|k: int| 0 <= k < out.len() ==> 0 <= #[trigger] perm[k] < input.len() && out[k] == input[perm[k]]
    &&& forall|a: int, b: int| 0 <= a < b < out.len() ==> #[trigger] perm[a] != #[trigger] perm[b]
    &&& forall|a: int, b: int|
        0 <= a < b < out.len() && tied(#[trigger] out[a], #[trigger] out[b]) ==> perm[a] < perm[b]
}

/// Endpoints that neither precedes.
pub open spec fn endpoints_tied(a: EndpointView, b: EndpointView) -> bool {
    !endpoint_lt(a, b) && !endpoint_lt(b, a)
}

/// `out` is the endpoints `input` reordered, tied endpoints kept in their
/// input order.
pub open spec fn endpoints_reordered(out: Seq<EndpointView>, input: Seq<EndpointView>, perm: Seq<int>) -> bool {
    stably_reordered(out, input, perm, |a: EndpointView, b: EndpointView| endpoints_tied(a, b))
}

proof fn lemma_endpoints_tied(a: EndpointView, b: EndpointView, x: EndpointView)
    requires
        endpoints_tied(a, b),
    ensures
        a.0 == b.0 && a.1 == b.1 && a.2 == b.2,
        endpoint_lt(x, a) == endpoint_lt(x, b),
{
    lemma_text_lt_total(a.0, b.0);
    lemma_text_lt_total(a.1, b.1);
    lemma_text_lt_total(a.2, b.2);
}

/// Endpoints ordered by path, method and description; equal ones keep
/// their order.
fn sort_endpoints(all: &Vec<EndpointMetadata>) -> (r: Vec<EndpointMetadata>)
    ensures
        endpoints_sorted(endpoint_views(r@)),
        endpoint_views(r@).to_multiset() == endpoint_views(all@).to_multiset(),
        exists|perm: Seq<int>| endpoints_reordered(endpoint_views(r@), endpoint_views(all@), perm),
{
    let mut out: Vec<EndpointMetadata> = Vec::new();
    let mut i: usize = 0;
    let ghost mut perm: Seq<int> = Seq::empty();
    let ghost tied = |a: EndpointView, b: EndpointView| endpoints_tied(a, b);
    assert(endpoint_views(out@) =~= endpoint_views(all@.take(0)));
    while i < all.len()
        invariant
            i <= all@.len(),
            tied == (|a: EndpointView, b: EndpointView| endpoints_tied(a, b)),
            endpoints_sorted(endpoint_views(out@)),
            endpoint_views(out@).to_multiset() == endpoint_views(all@.take(i as int)).to_multiset(),
            stably_reordered(endpoint_views(out@), endpoint_views(all@.take(i as int)), perm, tied),
        decreases all@.len() - i,
    {
        let x = &all[i];
        let mut p: usize = 0;
        while p < out.len() && !endpoint_less(x, &out[p])
            invariant
                p <= out@.len(),
                forall|k: int| 0 <= k < p ==> !endpoint_lt(x@, #[trigger] endpoint_views(out@)[k]),
            decreases out@.len() - p,
        {
            p = p + 1;
        }
        proof {
            lemma_insert_endpoint(endpoint_views(out@), p as int, x@);
        }
        let ghost before = out@;
        let ghost perm_before = perm;
        out.insert(p, x.duplicate());
        proof {
            let vb = endpoint_views(before);
            let v = endpoint_views(out@);
            let src = endpoint_views(all@.take(i + 1));
            let src_before = endpoint_views(all@.take(i as int));
            assert(v =~= vb.insert(p as int, x@));
            assert(src =~= src_before.push(x@));
            vstd::seq_lib::to_multiset_insert(vb, p as int, x@);
            vstd::seq_lib::to_multiset_build(src_before, x@);
            perm = perm_before.insert(p as int, i as int);
            assert forall|k: int| 0 <= k < v.len() implies 0 <= #[trigger] perm[k] < src.len() && v[k] == src[perm[k]] by {
                if k < p {
                    assert(perm[k] == perm_before[k]);
                } else if k > p {
                    assert(perm[k] == perm_before[k - 1]);
                }
            }
            assert forall|a: int, b: int| 0 <= a < b < v.len() implies #[trigger] perm[a] != #[trigger] perm[b] by {
                let pa = if a < p { a } else { a - 1 };
                let pb = if b < p { b } else { b - 1 };
                if a != p && b != p {
                    assert(perm[a] == perm_before[pa] && perm[b] == perm_before[pb]);
                    assert(perm_before[pa] != perm_before[pb]);
                } else if a == p {
                    assert(perm[b] == perm_before[pb]);
                    assert(0 <= perm_before[pb] < i);
                } else {
                    assert(perm[a] == perm_before[pa]);
                    assert(0 <= perm_before[pa] < i);
                }
            }
            assert forall|a: int, b: int| 0 <= a < b < v.len() && tied(#[trigger] v[a], #[trigger] v[b]) implies perm[a]
                < perm[b] by {
                let pa = if a < p { a } else { a - 1 };
                let pb = if b < p { b } else { b - 1 };
                if a != p && b != p {
                    assert(perm[a] == perm_before[pa] && perm[b] == perm_before[pb]);
                    assert(v[a] == vb[pa] && v[b] == vb[pb]);
                    assert(tied(vb[pa], vb[pb]));
                } else if a == p {
                    assert(v[b] == vb[pb]);
                    assert(endpoint_lt(x@, vb[p as int]));
                    if pb > p {
                        assert(!endpoint_lt(vb[pb], vb[p as int]));
                        lemma_endpoint_lt_order(x@, vb[p as int], vb[pb]);
                        if !endpoint_lt(vb[p as int], vb[pb]) {
                            lemma_endpoints_tied(vb[p as int], vb[pb], x@);
                        }
                    }
                    assert(endpoint_lt(x@, vb[pb]));
                    assert(false);
                } else {
                    assert(perm[a] == perm_before[pa]);
                    assert(0 <= perm_before[pa] < i);
                }
            }
        }
        i = i + 1;
    }
    assert(all@.take(i as int) =~= all@);
    assert(endpoints_reordered(endpoint_views(out@), endpoint_views(all@), perm));
    out
}

/// Jobs in name order: none comes after one whose name precedes its own.
pub open spec fn jobs_sorted(s: Seq<JobView>) -> bool {
    forall|a: int, b: int| 0 <= a < b < s.len() ==> !text_lt((#[trigger] s[b]).name, (#[trigger] s[a]).name)
}

/// The views of some jobs.
pub open spec fn job_views(v: Seq<JobMetadata>) -> Seq<JobView> {
    v.map_values(|j: JobMetadata| j@)
}

/// Jobs of one name.
pub open spec fn jobs_tied(a: JobView, b: JobView) -> bool {
    !text_lt(a.name, b.name) && !text_lt(b.name, a.name)
}

/// `out` is the jobs `input` reordered, jobs of one name kept in their
/// input order.
pub open spec fn jobs_reordered(out: Seq<JobView>, input: Seq<JobView>, perm: Seq<int>) -> bool {
    stably_reordered(out, input, perm, |a: JobView, b: JobView| jobs_tied(a, b))
}

proof fn lemma_insert_job(s: Seq<JobView>, p: int, x: JobView)
    requires
        jobs_sorted(s),
        0 <= p <= s.len(),
        forall|k: int| 0 <= k < p ==> !text_lt(x.name, (#[trigger] s[k]).name),
        p < s.len() ==> text_lt(x.name, s[p].name),
    ensures
        jobs_sorted(s.insert(p, x)),
{
    let t = s.insert(p, x);
    assert forall|k: int| p <= k < s.len() implies !text_lt((#[trigger] s[k]).name, x.name) by {
        lemma_text_lt_total(s[k].name, x.name);
        if text_lt(s[k].name, x.name) {
            lemma_text_lt_trans(s[k].name, x.name, s[p].name);
        }
    }
    assert forall|a: int, b: int| 0 <= a < b < t.len() implies !text_lt(
        (#[trigger] t[b]).name,
        (#[trigger] t[a]).name,
    ) by {
        if b < p {
        } else if b == p {
        } else if a < p {
        } else if a == p {
        } else {
        }
    }
}

/// Jobs ordered by name; jobs of one name keep their order.
fn sort_jobs(all: &Vec<JobMetadata>) -> (r: Vec<JobMetadata>)
    ensures
        jobs_sorted(job_views(r@)),
        job_views(r@).to_multiset() == job_views(all@).to_multiset(),
        exists|perm: Seq<int>| jobs_reordered(job_views(r@), job_views(all@), perm),
{
    let mut out: Vec<JobMetadata> = Vec::new();
    let mut i: usize = 0;
    let ghost mut perm: Seq<int> = Seq::empty();
    let ghost tied = |a: JobView, b: JobView| jobs_tied(a, b);
    assert(job_views(out@) =~= job_views(all@.take(0)));
    while i < all.len()
        invariant
            i <= all@.len(),
            tied == (|a: JobView, b: JobView| jobs_tied(a, b)),
            jobs_sorted(job_views(out@)),
            job_views(out@).to_multiset() == job_views(all@.take(i as int)).to_multiset(),
            stably_reordered(job_views(out@), job_views(all@.take(i as int)), perm, tied),
        decreases all@.len() - i,
    {
        let x = &all[i];
        let mut p: usize = 0;
        while p < out.len() && !text_less(x.name.as_str(), out[p].name.as_str())
            invariant
                p <= out@.len(),
                forall|k: int| 0 <= k < p ==> !text_lt(x.name@, (#[trigger] job_views(out@)[k]).name),
            decreases out@.len() - p,
        {
            p = p + 1;
        }
        proof {
            lemma_insert_job(job_views(out@), p as int, x@);
        }
        let ghost before = out@;
        let ghost perm_before = perm;
        out.insert(p, x.duplicate());
        proof {
            let vb = job_views(before);
            let v = job_views(out@);
            let src = job_views(all@.take(i + 1));
            let src_before = job_views(all@.take(i as int));
            assert(v =~= vb.insert(p as int, x@));
            assert(src =~= src_before.push(x@));
            vstd::seq_lib::to_multiset_insert(vb, p as int, x@);
            vstd::seq_lib::to_multiset_build(src_before, x@);
            perm = perm_before.insert(p as int, i as int);
            assert forall|k: int| 0 <= k < v.len() implies 0 <= #[trigger] perm[k] < src.len() && v[k] == src[perm[k]] by {
                if k < p {
                    assert(perm[k] == perm_before[k]);
                } else if k > p {
                    assert(perm[k] == perm_before[k - 1]);
                }
            }
            assert forall|a: int, b: int| 0 <= a < b < v.len() implies #[trigger] perm[a] != #[trigger] perm[b] by {
                let pa = if a < p { a } else { a - 1 };
                let pb = if b < p { b } else { b - 1 };
                if a != p && b != p {
                    assert(perm[a] == perm_before[pa] && perm[b] == perm_before[pb]);
                    assert(perm_before[pa] != perm_before[pb]);
                } else if a == p {
                    assert(perm[b] == perm_before[pb]);
                    assert(0 <= perm_before[pb] < i);
                } else {
                    assert(perm[a] == perm_before[pa]);
                    assert(0 <= perm_before[pa] < i);
                }
            }
            assert forall|a: int, b: int| 0 <= a < b < v.len() && tied(#[trigger] v[a], #[trigger] v[b]) implies perm[a]
                < perm[b] by {
                let pa = if a < p { a } else { a - 1 };
                let pb = if b < p { b } else { b - 1 };
                if a != p && b != p {
                    assert(perm[a] == perm_before[pa] && perm[b] == perm_before[pb]);
                    assert(v[a] == vb[pa] && v[b] == vb[pb]);
                    assert(tied(vb[pa], vb[pb]));
                } else if a == p {
                    assert(v[b] == vb[pb]);
                    assert(text_lt(x.name@, vb[p as int].name));
                    if pb > p {
                        assert(!text_lt(vb[pb].name, vb[p as int].name));
                        lemma_text_lt_total(vb[p as int].name, vb[pb].name);
                        if text_lt(vb[p as int].name, vb[pb].name) {
                            lemma_text_lt_trans(x.name@, vb[p as int].name, vb[pb].name);
                        }
                    }
                    assert(text_lt(x.name@, vb[pb].name));
                    assert(false);
                } else {
                    assert(perm[a] == perm_before[pa]);
                    assert(0 <= perm_before[pa] < i);
                }
            }
        }
        i = i + 1;
    }
    assert(all@.take(i as int) =~= all@);
    assert(jobs_reordered(job_views(out@), job_views(all@), perm));
    out
}

/// The endpoint through which agents invoke a tool: `POST
/// /agent/tools/<name>`, authenticated when the tool requires scopes.
pub open spec fn invoke_endpoint(t: ToolMetadata) -> EndpointView {
    ("/agent/tools/"@ + t.name@, "POST"@, "Invoke the "@ + t.name@ + " tool"@, t.scopes@.len() > 0)
}

/// The invoke endpoints of some tools.
pub open spec fn invoke_endpoints(tools: Seq<ToolMetadata>) -> Seq<EndpointView> {
    tools.map_values(|t: ToolMetadata| invoke_endpoint(t))
}

fn invoke_endpoint_of(t: &ToolMetadata) -> (r: EndpointMetadata)
    ensures
        r@ == invoke_endpoint(*t),
{
    let mut path = owned("/agent/tools/");
    push_text(&mut path, t.name.as_str());
    let mut description = owned("Invoke the ");
    push_text(&mut description, t.name.as_str());
    push_text(&mut description, " tool");
    EndpointMetadata { path, method: owned("POST"), description, authenticated: t.scopes.len() > 0 }
}

/// Each description in `v` has the content of the one of its name in
/// `src`.
pub open spec fn copies_of(v: Seq<ToolMetadata>, src: Seq<ToolMetadata>) -> bool {
    forall|k: int|
        0 <= k < v.len() ==> (tool_index(src, (#[trigger] v[k]).name@) matches Some(j) && v[k]@ == src[j]@)
}

/// The names of some tool descriptions.
pub open spec fn manifest_tool_names(v: Seq<ToolMetadata>) -> Seq<Seq<char>> {
    v.map_values(|t: ToolMetadata| t.name@)
}

impl ToolRegistry {
    /// The manifest of the application: its tools ordered by name, its jobs
    /// ordered by name, and its endpoints together with an invoke endpoint
    /// per tool, ordered by path, method and description.
    pub fn generate_manifest(&self) -> (r: AgentManifest)
        requires
            self.wf(),
        ensures
            (r.name@, r.version@, r.description@, r.storage_mode@) == self.app_spec(),
            r.tools@.len() == self.tools_spec().len(),
            copies_of(r.tools@, self.tools_spec()),
            strictly_sorted(manifest_tool_names(r.tools@)),
            jobs_sorted(job_views(r.jobs@)),
            job_views(r.jobs@).to_multiset() == job_views(self.jobs_spec()).to_multiset(),
            exists|perm: Seq<int>| jobs_reordered(job_views(r.jobs@), job_views(self.jobs_spec()), perm),
            endpoints_sorted(endpoint_views(r.endpoints@)),
            endpoint_views(r.endpoints@).to_multiset() == (endpoint_views(self.endpoints_spec()) + invoke_endpoints(
                self.tools_spec(),
            )).to_multiset(),
            exists|perm: Seq<int>|
                endpoints_reordered(
                    endpoint_views(r.endpoints@),
                    endpoint_views(self.endpoints_spec()) + invoke_endpoints(self.tools_spec()),
                    perm,
                ),
    {
        let mut all: Vec<EndpointMetadata> = Vec::new();
        let mut i: usize = 0;
        while i < self.endpoints.len()
            invariant
                i <= self.endpoints@.len(),
                endpoint_views(all@) == endpoint_views(self.endpoints@.take(i as int)),
            decreases self.endpoints@.len() - i,
        {
            let ghost before = all@;
            let d = self.endpoints[i].duplicate();
            all.push(d);
            assert(endpoint_views(all@) =~= endpoint_views(before).push(d@));
            assert(self.endpoints@.take(i + 1) =~= self.endpoints@.take(i as int).push(self.endpoints@[i as int]));
            assert(endpoint_views(self.endpoints@.take(i + 1)) =~= endpoint_views(self.endpoints@.take(i as int)).push(
                self.endpoints@[i as int]@,
            ));
            i = i + 1;
        }
        assert(self.endpoints@.take(i as int) =~= self.endpoints@);
        let mut t: usize = 0;
        while t < self.tools.len()
            invariant
                t <= self.tools@.len(),
                endpoint_views(all@) == endpoint_views(self.endpoints@) + invoke_endpoints(self.tools@.take(t as int)),
            decreases self.tools@.len() - t,
        {
            let ghost before = all@;
            let e = invoke_endpoint_of(&self.tools[t]);
            all.push(e);
            assert(endpoint_views(all@) =~= endpoint_views(before).push(e@));
            assert(self.tools@.take(t + 1) =~= self.tools@.take(t as int).push(self.tools@[t as int]));
            assert(invoke_endpoints(self.tools@.take(t + 1)) =~= invoke_endpoints(self.tools@.take(t as int)).push(
                invoke_endpoint(self.tools@[t as int]),
            ));
            assert(endpoint_views(all@) =~= endpoint_views(self.endpoints@) + invoke_endpoints(
                self.tools@.take(t + 1),
            ));
            t = t + 1;
        }
        assert(self.tools@.take(t as int) =~= self.tools@);
        let endpoints = sort_endpoints(&all);
        let listed = self.list_tools();
        let mut tools: Vec<ToolMetadata> = Vec::new();
        let mut k: usize = 0;
        while k < listed.len()
            invariant
                k <= listed@.len(),
                tools@.len() == k,
                forall|m: int| 0 <= m < k ==> (#[trigger] tools@[m])@ == listed@[m]@,
            decreases listed@.len() - k,
        {
            tools.push(listed[k].duplicate());
            k = k + 1;
        }
        proof {
            assert(manifest_tool_names(tools@) =~= tool_names(listed@));
            assert forall|m: int| 0 <= m < tools@.len() implies (tool_index(
                self.tools_spec(),
                (#[trigger] tools@[m]).name@,
            ) matches Some(j) && tools@[m]@ == self.tools_spec()[j]@) by {
                assert(tools@[m]@ == listed@[m]@);
                assert(tool_index(self.tools_spec(), listed@[m].name@) is Some);
            }
        }
        let jobs = sort_jobs(&self.jobs);
        AgentManifest {
            name: self.app_name.clone(),
            version: self.app_version.clone(),
            description: self.app_description.clone(),
            storage_mode: self.storage_mode.clone(),
            tools,
            jobs,
            endpoints,
        }
    }
}

/// The name an effect is written under.
pub open spec fn effect_name(e: ToolEffect) -> Seq<char> {
    match e {
        ToolEffect::Read => "Read"@,
        ToolEffect::Write => "Write"@,
    }
}

/// A list of texts as a JSON array of strings.
pub open spec fn string_array(v: Seq<Seq<char>>) -> JsonView {
    JsonView::Array(v.map_values(|s: Seq<char>| JsonView::Str(s)))
}

/// The JSON description of a tool: its fields, keys in alphabetical order.
pub open spec fn tool_schema_view(t: ToolMetadata) -> JsonView {
    JsonView::Object(
        seq![
            ("description"@, JsonView::Str(t.description@)),
            ("effect"@, JsonView::Str(effect_name(t.effect))),
            ("enqueues_job"@, match t.enqueues_job {
                Some(q) => JsonView::Str(q@),
                None => JsonView::Null,
            }),
            ("idempotent"@, JsonView::Bool(t.idempotent)),
            ("input"@, t.input@),
            ("name"@, JsonView::Str(t.name@)),
            ("output"@, t.output@),
            ("scopes"@, string_array(texts(t.scopes@))),
            ("timeout"@, match t.timeout {
                Some(n) => JsonView::Number(JsonNumber::PosInt(n as u64)),
                None => JsonView::Null,
            }),
        ],
    )
}

fn strings_json(v: &Vec<String>) -> (r: JsonValue)
    ensures
        r@ == string_array(texts(v@)),
{
    let mut items: Vec<JsonValue> = Vec::new();
    let mut i: usize = 0;
    while i < v.len()
        invariant
            i <= v@.len(),
            items@.len() == i,
            forall|k: int| 0 <= k < i ==> (#[trigger] items@[k]) == JsonValue::String(v@[k]),
        decreases v@.len() - i,
    {
        items.push(JsonValue::String(v[i].clone()));
        i = i + 1;
    }
    let r = JsonValue::Array(items);
    proof {
        reveal(json_view);
        let a = match json_view(r) {
            JsonView::Array(a) => a,
            _ => Seq::empty(),
        };
        assert forall|k: int| 0 <= k < a.len() implies a[k] == JsonView::Str(v@[k]@) by {
            assert(json_view(items@[k]) == JsonView::Str(v@[k]@));
        }
        assert(a =~= texts(v@).map_values(|s: Seq<char>| JsonView::Str(s)));
    }
    r
}

fn text_json(s: &String) -> (r: JsonValue)
    ensures
        r@ == JsonView::Str(s@),
{
    proof {
        reveal(json_view);
    }
    JsonValue::String(s.clone())
}

fn member(key: &str, value: JsonValue) -> (r: (String, JsonValue))
    ensures
        r.0@ == key@,
        r.1 == value,
{
    (owned(key), value)
}

impl ToolRegistry {
    /// The JSON description of the tool `name`, if one is registered.
    pub fn generate_tool_schema(&self, name: &str) -> (r: Option<JsonValue>)
        requires
            self.wf(),
        ensures
            match tool_index(self.tools_spec(), name@) {
                Some(i) => r matches Some(v) && v@ == tool_schema_view(self.tools_spec()[i]),
                None => r is None,
            },
    {
        let t = match self.get_tool(name) {
            Some(t) => t,
            None => return None,
        };
        let effect = match t.effect {
            ToolEffect::Read => JsonValue::String(owned("Read")),
            ToolEffect::Write => JsonValue::String(owned("Write")),
        };
        let queue = match &t.enqueues_job {
            Some(q) => text_json(q),
            None => JsonValue::Null,
        };
        let timeout = match t.timeout {
            Some(n) => JsonValue::Number(JsonNumber::PosInt(n as u64)),
            None => JsonValue::Null,
        };
        let mut members: Vec<(String, JsonValue)> = Vec::new();
        members.push(member("description", text_json(&t.description)));
        members.push(member("effect", effect));
        members.push(member("enqueues_job", queue));
        members.push(member("idempotent", JsonValue::Bool(t.idempotent)));
        members.push(member("input", t.input.duplicate()));
        members.push(member("name", text_json(&t.name)));
        members.push(member("output", t.output.duplicate()));
        members.push(member("scopes", strings_json(&t.scopes)));
        members.push(member("timeout", timeout));
        let r = JsonValue::Object(members);
        proof {
            reveal(json_view);
            let a = match json_view(r) {
                JsonView::Object(a) => a,
                _ => Seq::empty(),
            };
            let b = match tool_schema_view(*t) {
                JsonView::Object(b) => b,
                _ => Seq::empty(),
            };
            assert(a.len() == b.len());
            assert forall|k: int| 0 <= k < a.len() implies a[k] == b[k] by {
                assert(a[k] == (members@[k].0@, json_view(members@[k].1)));
            }
            assert(a =~= b);
        }
        Some(r)
    }
}

/// Among tools with distinct names, the tool of a name is the one that has
/// it.
pub proof fn lemma_tool_index_unique(tools: Seq<ToolMetadata>, i: int)
    requires
        distinct_tool_names(tools),
        0 <= i < tools.len(),
    ensures
        tool_index(tools, tools[i].name@) == Some(i),
{
    let n = tools[i].name@;
    let c = tool_index(tools, n)->0;
    assert(tools[c].name@ == n);
}

/// Registering a tool makes its name find it, and leaves every other name
/// finding what it found before.
pub proof fn lemma_registered_tool_found(tools: Seq<ToolMetadata>, tool: ToolMetadata, other: Seq<char>)
    requires
        distinct_tool_names(tools),
        tool_index(tools, tool.name@) is None,
    ensures
        tool_index(tools.push(tool), tool.name@) == Some(tools.len() as int),
        other != tool.name@ ==> match tool_index(tools, other) {
            Some(i) => tool_index(tools.push(tool), other) == Some(i) && tools.push(tool)[i] == tools[i],
            None => tool_index(tools.push(tool), other) is None,
        },
{
    let pushed = tools.push(tool);
    assert(distinct_tool_names(pushed)) by {
        assert forall|i: int, j: int|
            0 <= i < pushed.len() && 0 <= j < pushed.len() && i != j implies (#[trigger] pushed[i]).name@ != (
            #[trigger] pushed[j]).name@ by {
            if i == tools.len() {
                assert(pushed[j] == tools[j]);
            } else if j == tools.len() {
                assert(pushed[i] == tools[i]);
            } else {
                assert(pushed[i] == tools[i] && pushed[j] == tools[j]);
            }
        }
    }
    lemma_tool_index_unique(pushed, tools.len() as int);
    if other != tool.name@ {
        match tool_index(tools, other) {
            Some(i) => {
                assert(tools[i].name@ == other);
                lemma_tool_index_unique(tools, i);
                assert(pushed[i] == tools[i]);
                lemma_tool_index_unique(pushed, i);
            },
            None => {
                if tool_index(pushed, other) is Some {
                    let k = tool_index(pushed, other)->0;
                    assert(pushed[k].name@ == other);
                    assert(k < tools.len());
                    assert(tools[k].name@ == other);
                }
            },
        }
    }
}

/// Every registered tool's invoke endpoint is among the endpoints of any
/// listing made of the registered endpoints and the invoke endpoints, as
/// the manifest's endpoints are.
pub proof fn lemma_invoke_endpoint_advertised(
    base: Seq<EndpointView>,
    tools: Seq<ToolMetadata>,
    listed: Seq<EndpointView>,
    j: int,
)
    requires
        listed.to_multiset() == (base + invoke_endpoints(tools)).to_multiset(),
        0 <= j < tools.len(),
    ensures
        listed.contains(invoke_endpoint(tools[j])),
{
    let all = base + invoke_endpoints(tools);
    let e = invoke_endpoint(tools[j]);
    assert(all[base.len() + j] == e);
    vstd::seq_lib::to_multiset_contains(all, e);
    vstd::seq_lib::to_multiset_contains(listed, e);
}

/// The type name each property name was given last.
pub open spec fn last_types(props: Seq<(Seq<char>, Seq<char>)>) -> Map<Seq<char>, Seq<char>>
    decreases props.len(),
{
    if props.len() == 0 {
        Map::empty()
    } else {
        last_types(props.drop_last()).insert(props.last().0, props.last().1)
    }
}

/// The schema of a property of JSON schema type `t`: `{"type": t}`.
pub open spec fn typed_view(t: Seq<char>) -> JsonView {
    JsonView::Object(seq![("type"@, JsonView::Str(t))])
}

/// Members that list the properties of `types` once each, ordered by name,
/// each with the schema of its type.
pub open spec fn property_members(members: Seq<(Seq<char>, JsonView)>, types: Map<Seq<char>, Seq<char>>) -> bool {
    &&& strictly_sorted(members.map_values(|m: (Seq<char>, JsonView)| m.0))
    &&& forall|k: int|
        0 <= k < members.len() ==> types.contains_key((#[trigger] members[k]).0) && members[k].1 == typed_view(
            schema_type(types[members[k].0]),
        )
    &&& forall|name: Seq<char>|
        #[trigger] types.contains_key(name) ==> exists|k: int| 0 <= k < members.len() && (#[trigger] members[k]).0 == name
}

/// The members of a JSON object, as views.
pub open spec fn member_views(v: Seq<(String, JsonValue)>) -> Seq<(Seq<char>, JsonView)> {
    v.map_values(|m: (String, JsonValue)| (m.0@, m.1@))
}

fn typed_json(t: &str) -> (r: JsonValue)
    ensures
        r@ == typed_view(t@),
{
    let mut m: Vec<(String, JsonValue)> = Vec::new();
    m.push((owned("type"), JsonValue::String(owned(t))));
    let r = JsonValue::Object(m);
    proof {
        reveal_with_fuel(json_view, 2);
        let a = match json_view(r) {
            JsonView::Object(a) => a,
            _ => Seq::empty(),
        };
        assert(json_view(m@[0].1) == JsonView::Str(t@));
        assert(a =~= seq![("type"@, JsonView::Str(t@))]);
    }
    r
}

impl SchemaGenerator {
    /// A JSON schema of an object with the given `(name, type name)`
    /// properties: `{"properties": {...}, "type": "object"}`, the properties
    /// listed once each by name, each with the type its name was given last.
    pub fn object_schema(properties: Vec<(&str, &str)>) -> (r: JsonValue)
        ensures
            r@ matches JsonView::Object(outer) && outer.len() == 2 && outer[0].0 == "properties"@ && outer[1]
                == ("type"@, JsonView::Str("object"@)) && (outer[0].1 matches JsonView::Object(members)
                && property_members(
                members,
                last_types(properties@.map_values(|p: (&str, &str)| (p.0@, p.1@))),
            )),
    {
        let ghost props = properties@.map_values(|p: (&str, &str)| (p.0@, p.1@));
        let mut members: Vec<(String, JsonValue)> = Vec::new();
        let mut i: usize = 0;
        while i < properties.len()
            invariant
                i <= properties@.len(),
                props == properties@.map_values(|p: (&str, &str)| (p.0@, p.1@)),
                property_members(member_views(members@), last_types(props.take(i as int))),
            decreases properties@.len() - i,
        {
            let (name, kind) = properties[i];
            let ghost before = members@;
            let ghost types = last_types(props.take(i as int));
            assert(props.take(i + 1).drop_last() =~= props.take(i as int));
            assert(props.take(i + 1).last() == (name@, kind@));
            let value = typed_json(SchemaGenerator::property_type(kind));
            let mut p: usize = 0;
            while p < members.len() && text_less(members[p].0.as_str(), name)
                invariant
                    p <= members@.len(),
                    forall|k: int| 0 <= k < p ==> text_lt((#[trigger] members@[k]).0@, name@),
                decreases members@.len() - p,
            {
                p = p + 1;
            }
            let ghost keys_before = member_views(before).map_values(|m: (Seq<char>, JsonView)| m.0);
            if p < members.len() && crate::text::text_eq(members[p].0.as_str(), name) {
                members.set(p, (owned(name), value));
            } else {
                proof {
                    if p < members@.len() {
                        lemma_text_lt_total(name@, members@[p as int].0@);
                    }
                    lemma_insert_strict(keys_before, p as int, name@);
                }
                members.insert(p, (owned(name), value));
            }
            proof {
                let types2 = last_types(props.take(i + 1));
                assert(types2 == types.insert(name@, kind@));
                let mv = member_views(members@);
                let replaced = p < before.len() && before[p as int].0@ == name@;
                let ob = member_views(before);
                assert forall|k: int| 0 <= k < mv.len() implies types2.contains_key((#[trigger] mv[k]).0) && mv[k].1
                    == typed_view(schema_type(types2[mv[k].0])) by {
                    if k == p {
                        assert(mv[k] == (name@, value@));
                    } else {
                        let j = if k < p || replaced { k } else { k - 1 };
                        assert(mv[k] == ob[j]);
                        assert(ob[j].0 != name@) by {
                            lemma_text_lt_total(ob[j].0, ob[j].0);
                            if replaced {
                                if j < p {
                                    assert(text_lt(keys_before[j], keys_before[p as int]));
                                } else {
                                    assert(text_lt(keys_before[p as int], keys_before[j]));
                                }
                            } else if j < p {
                                assert(text_lt(ob[j].0, name@));
                                lemma_text_lt_total(name@, name@);
                            } else {
                                lemma_text_lt_total(name@, ob[p as int].0);
                                if j > p {
                                    assert(text_lt(keys_before[p as int], keys_before[j]));
                                    lemma_text_lt_trans(name@, ob[p as int].0, ob[j].0);
                                }
                                lemma_text_lt_total(name@, ob[j].0);
                            }
                        }
                    }
                }
                assert forall|n: Seq<char>| #[trigger] types2.contains_key(n) implies exists|k: int|
                    0 <= k < mv.len() && (#[trigger] mv[k]).0 == n by {
                    if n == name@ {
                        assert(mv[p as int].0 == n);
                    } else {
                        let j = choose|j: int| 0 <= j < ob.len() && (#[trigger] ob[j]).0 == n;
                        if replaced {
                            assert(mv[j].0 == n);
                        } else if j < p {
                            assert(mv[j].0 == n);
                        } else {
                            assert(mv[j + 1].0 == n);
                        }
                    }
                }
                let keys = mv.map_values(|m: (Seq<char>, JsonView)| m.0);
                if replaced {
                    assert(keys =~= keys_before);
                } else {
                    assert(keys =~= keys_before.insert(p as int, name@));
                }
            }
            i = i + 1;
        }
        assert(props.take(i as int) =~= props);
        let mut outer: Vec<(String, JsonValue)> = Vec::new();
        let ghost inner = member_views(members@);
        outer.push((owned("properties"), JsonValue::Object(members)));
        outer.push((owned("type"), JsonValue::String(owned("object"))));
        let r = JsonValue::Object(outer);
        proof {
            reveal_with_fuel(json_view, 2);
            assert(json_view(outer@[1].1) == JsonView::Str("object"@));
            let a = match json_view(r) {
                JsonView::Object(a) => a,
                _ => Seq::empty(),
            };
            let b = match json_view(outer@[0].1) {
                JsonView::Object(b) => b,
                _ => Seq::empty(),
            };
            assert(b =~= inner);
        }
        r
    }
}

} // verus!
