//! The developer commands of the command-line tool (`doctor`, `check`,
//! `lint`, `format`, `test`, `build`, `doc`, `store`): how the outcomes of
//! the programs they run become report lines and an exit status.
use vstd::prelude::*;
use crate::config::{AppConfig, ConfigError, config_error_text};
use crate::oenv::lines_seq;
use crate::parse::{decimal_seq, push_decimal, trim_seq, trim_text};
use crate::text::{chars_of, join_seq, owned, push_text, split_chars, split_seq, string_of, slice_chars};

verus! {

/// How a command ends.
#[derive(Debug, Clone, Copy, PartialEq, Eq, Structural)]
pub enum ExitCode {
    Success,
    /// The configuration is invalid.
    Config,
    /// A required program is missing.
    Dependency,
    /// The work itself failed.
    Runtime,
}

/// Outcome of one step of a report.
#[derive(Debug, Clone, Copy, PartialEq, Eq, Structural)]
pub enum StepStatus {
    Pass,
    Warning,
    Failure,
}

/// The word a status is reported under.
pub open spec fn status_text(s: StepStatus) -> Seq<char> {
    match s {
        StepStatus::Pass => "ok"@,
        StepStatus::Warning => "warn"@,
        StepStatus::Failure => "fail"@,
    }
}

/// The marker printed for a status.
pub open spec fn status_marker(s: StepStatus) -> Seq<char> {
    match s {
        StepStatus::Pass => "ok"@,
        StepStatus::Warning => "warn"@,
        StepStatus::Failure => "FAIL"@,
    }
}

impl StepStatus {
    pub fn as_str(&self) -> (r: &'static str)
        ensures
            r@ == status_text(*self),
    {
        match self {
            StepStatus::Pass => "ok",
            StepStatus::Warning => "warn",
            StepStatus::Failure => "fail",
        }
    }

    pub fn marker(&self) -> (r: &'static str)
        ensures
            r@ == status_marker(*self),
    {
        match self {
            StepStatus::Pass => "ok",
            StepStatus::Warning => "warn",
            StepStatus::Failure => "FAIL",
        }
    }
}

/// One line of a diagnostic report.
#[derive(Debug, Clone)]
pub struct ToolStep {
    pub name: String,
    pub status: StepStatus,
    pub detail: String,
}

/// A step whose program answered with `found`, or is missing.
pub fn probe_step(name: &str, found: Option<String>, missing_status: StepStatus, missing_detail: &str) -> (r: ToolStep)
    ensures
        r.name@ == name@,
        match found {
            Some(v) => r.status == StepStatus::Pass && r.detail == v,
            None => r.status == missing_status && r.detail@ == missing_detail@,
        },
{
    match found {
        Some(v) => ToolStep { name: owned(name), status: StepStatus::Pass, detail: v },
        None => ToolStep { name: owned(name), status: missing_status, detail: owned(missing_detail) },
    }
}

/// The detail of a probe step: what the program answered, else `missing`.
pub open spec fn probe_detail(found: Option<String>, missing: Seq<char>) -> Seq<char> {
    match found {
        Some(v) => v@,
        None => missing,
    }
}

/// A report line is shown unless the output is quiet and the step passed.
pub fn step_shown(quiet: bool, step: &ToolStep) -> (r: bool)
    ensures
        r == !(quiet && step.status == StepStatus::Pass),
{
    !(quiet && step.status == StepStatus::Pass)
}

/// The report line of a step: `  [marker] name: detail`, with `n. `
/// before the marker in numbered reports.
pub fn step_line(step: &ToolStep, number: Option<usize>) -> (r: String)
    ensures
        r@ == "  "@ + match number {
            Some(n) => decimal_seq(n as nat) + ". "@,
            None => Seq::empty(),
        } + "["@ + status_marker(step.status) + "] "@ + step.name@ + ": "@ + step.detail@,
{
    let mut t = owned("  ");
    match number {
        Some(n) => {
            push_decimal(&mut t, n as u64);
            push_text(&mut t, ". ");
        },
        None => {},
    }
    push_text(&mut t, "[");
    push_text(&mut t, step.status.marker());
    push_text(&mut t, "] ");
    push_text(&mut t, step.name.as_str());
    push_text(&mut t, ": ");
    push_text(&mut t, step.detail.as_str());
    t
}

/// The environment variables `doctor` reports.
pub open spec fn doctor_var(k: int) -> Seq<char> {
    if k == 0 {
        "ARQEN_HOST"@
    } else if k == 1 {
        "ARQEN_PORT"@
    } else if k == 2 {
        "ARQEN_LOG_LEVEL"@
    } else {
        "ARQEN_STORAGE_MODE"@
    }
}

/// How `doctor` shows one variable: `NAME=value`, or `NAME (default)`.
pub open spec fn var_note(name: Seq<char>, value: Option<String>) -> Seq<char> {
    match value {
        Some(v) => name + "="@ + v@,
        None => name + " (default)"@,
    }
}

fn var_note_exec(name: &str, value: &Option<String>) -> (r: String)
    ensures
        r@ == var_note(name@, *value),
{
    let mut t = owned(name);
    match value {
        Some(v) => {
            push_text(&mut t, "=");
            push_text(&mut t, v.as_str());
        },
        None => push_text(&mut t, " (default)"),
    }
    t
}

/// The `doctor` report: the versions of rustc and cargo (required), docker
/// and docker compose (optional), the Thingd address, and the
/// configuration variables in effect; it fails when rustc or cargo is
/// missing.
pub fn doctor_report(
    rustc: Option<String>,
    cargo: Option<String>,
    docker: Option<String>,
    compose: Option<String>,
    thingd_url: Option<String>,
    vars: &Vec<Option<String>>,
) -> (r: (Vec<ToolStep>, ExitCode))
    requires
        vars@.len() == 4,
    ensures
        r.0@.len() == 6,
        r.0@[0].name@ == "rustc"@ && r.0@[0].status == (if rustc is Some { StepStatus::Pass } else { StepStatus::Failure }),
        r.0@[0].detail@ == probe_detail(rustc, "rustc not found"@),
        r.0@[1].name@ == "cargo"@ && r.0@[1].status == (if cargo is Some { StepStatus::Pass } else { StepStatus::Failure }),
        r.0@[1].detail@ == probe_detail(cargo, "cargo not found"@),
        r.0@[2].name@ == "docker"@ && r.0@[2].status == (if docker is Some { StepStatus::Pass } else { StepStatus::Warning }),
        r.0@[2].detail@ == probe_detail(docker, "docker not found (optional)"@),
        r.0@[3].name@ == "docker-compose"@ && r.0@[3].status == (if compose is Some {
            StepStatus::Pass
        } else {
            StepStatus::Warning
        }),
        r.0@[3].detail@ == probe_detail(compose, "docker-compose not found (optional)"@),
        r.0@[4].name@ == "thingd"@ && match thingd_url {
            Some(u) => r.0@[4].status == StepStatus::Pass && r.0@[4].detail@ == "ARQEN_THINGD_URL="@ + u@,
            None => r.0@[4].status == StepStatus::Warning && r.0@[4].detail@ == "ARQEN_THINGD_URL not set"@,
        },
        r.0@[5].name@ == "env"@ && r.0@[5].status == StepStatus::Pass && r.0@[5].detail@ == var_note(doctor_var(0), vars@[0])
            + ", "@ + var_note(doctor_var(1), vars@[1]) + ", "@ + var_note(doctor_var(2), vars@[2]) + ", "@ + var_note(
            doctor_var(3),
            vars@[3],
        ),
        r.1 == (if rustc is None || cargo is None { ExitCode::Dependency } else { ExitCode::Success }),
{
    let critical = rustc.is_none() || cargo.is_none();
    let mut steps: Vec<ToolStep> = Vec::new();
    steps.push(probe_step("rustc", rustc, StepStatus::Failure, "rustc not found"));
    steps.push(probe_step("cargo", cargo, StepStatus::Failure, "cargo not found"));
    steps.push(probe_step("docker", docker, StepStatus::Warning, "docker not found (optional)"));
    steps.push(probe_step("docker-compose", compose, StepStatus::Warning, "docker-compose not found (optional)"));
    let thingd = match thingd_url {
        Some(u) => {
            let mut d = owned("ARQEN_THINGD_URL=");
            push_text(&mut d, u.as_str());
            ToolStep { name: owned("thingd"), status: StepStatus::Pass, detail: d }
        },
        None => ToolStep { name: owned("thingd"), status: StepStatus::Warning, detail: owned("ARQEN_THINGD_URL not set") },
    };
    steps.push(thingd);
    let mut d = var_note_exec("ARQEN_HOST", &vars[0]);
    push_text(&mut d, ", ");
    let n1 = var_note_exec("ARQEN_PORT", &vars[1]);
    push_text(&mut d, n1.as_str());
    push_text(&mut d, ", ");
    let n2 = var_note_exec("ARQEN_LOG_LEVEL", &vars[2]);
    push_text(&mut d, n2.as_str());
    push_text(&mut d, ", ");
    let n3 = var_note_exec("ARQEN_STORAGE_MODE", &vars[3]);
    push_text(&mut d, n3.as_str());
    steps.push(ToolStep { name: owned("env"), status: StepStatus::Pass, detail: d });
    (steps, if critical { ExitCode::Dependency } else { ExitCode::Success })
}

/// What was found of the configuration file that `check` validates.
pub enum ConfigProbe {
    /// The file does not exist.
    Absent,
    /// The file exists and loads as a valid configuration.
    Valid,
    /// The file exists but does not load or validate.
    Invalid(ConfigError),
}

/// The `check` report: rustc and cargo versions (required), the project's
/// `Cargo.toml`, and the configuration file; it fails with `Dependency`
/// when rustc or cargo is missing, else with `Config` when the
/// configuration is invalid.
pub fn check_report(
    rustc: Option<String>,
    cargo: Option<String>,
    has_manifest: bool,
    config_path: &str,
    config: ConfigProbe,
) -> (r: (Vec<ToolStep>, ExitCode))
    ensures
        r.0@.len() == 4,
        r.0@[0].name@ == "rustc"@ && r.0@[0].status == (if rustc is Some { StepStatus::Pass } else { StepStatus::Failure }),
        r.0@[0].detail@ == probe_detail(rustc, "rustc not found"@),
        r.0@[1].name@ == "cargo"@ && r.0@[1].status == (if cargo is Some { StepStatus::Pass } else { StepStatus::Failure }),
        r.0@[1].detail@ == probe_detail(cargo, "cargo not found"@),
        r.0@[2].name@ == "project"@ && (if has_manifest {
            r.0@[2].status == StepStatus::Pass && r.0@[2].detail@ == "Cargo.toml found"@
        } else {
            r.0@[2].status == StepStatus::Warning && r.0@[2].detail@ == "Cargo.toml not found in current directory"@
        }),
        r.0@[3].name@ == "config"@ && match config {
            ConfigProbe::Absent => r.0@[3].status == StepStatus::Pass && r.0@[3].detail@ == config_path@
                + " not found (using defaults)"@,
            ConfigProbe::Valid => r.0@[3].status == StepStatus::Pass && r.0@[3].detail@ == config_path@ + " is valid"@,
            ConfigProbe::Invalid(e) => r.0@[3].status == StepStatus::Failure && r.0@[3].detail@ == config_path@ + ": "@
                + config_error_text(e@),
        },
        r.1 == (if rustc is None || cargo is None {
            ExitCode::Dependency
        } else if config is Invalid {
            ExitCode::Config
        } else {
            ExitCode::Success
        }),
{
    let critical = rustc.is_none() || cargo.is_none();
    let mut steps: Vec<ToolStep> = Vec::new();
    steps.push(probe_step("rustc", rustc, StepStatus::Failure, "rustc not found"));
    steps.push(probe_step("cargo", cargo, StepStatus::Failure, "cargo not found"));
    if has_manifest {
        steps.push(ToolStep { name: owned("project"), status: StepStatus::Pass, detail: owned("Cargo.toml found") });
    } else {
        steps.push(
            ToolStep {
                name: owned("project"),
                status: StepStatus::Warning,
                detail: owned("Cargo.toml not found in current directory"),
            },
        );
    }
    let mut d = owned(config_path);
    let invalid = match &config {
        ConfigProbe::Absent => {
            push_text(&mut d, " not found (using defaults)");
            false
        },
        ConfigProbe::Valid => {
            push_text(&mut d, " is valid");
            false
        },
        ConfigProbe::Invalid(e) => {
            push_text(&mut d, ": ");
            let m = e.message();
            push_text(&mut d, m.as_str());
            true
        },
    };
    steps.push(ToolStep { name: owned("config"), status: if invalid { StepStatus::Failure } else { StepStatus::Pass }, detail: d });
    let code = if critical {
        ExitCode::Dependency
    } else if invalid {
        ExitCode::Config
    } else {
        ExitCode::Success
    };
    (steps, code)
}

/// The detail of a failed program: the first three lines of its trimmed
/// error output joined with `; `, or `fallback` when it printed nothing.
pub open spec fn failure_detail_spec(stderr: Seq<char>, fallback: Seq<char>) -> Seq<char> {
    if trim_seq(stderr).len() == 0 {
        fallback
    } else {
        let ls = lines_seq(trim_seq(stderr));
        join_seq(if ls.len() > 3 { ls.take(3) } else { ls }, "; "@)
    }
}

/// The detail of a failed program.
pub fn failure_detail(stderr: &str, fallback: &str) -> (r: String)
    ensures
        r@ == failure_detail_spec(stderr@, fallback@),
{
    let t = trim_text(stderr);
    if t.unicode_len() == 0 {
        return owned(fallback);
    }
    let v = chars_of(t.as_str());
    let parts = split_chars(&v, '\n');
    let ghost pieces = split_seq(v@, '\n');
    let ghost ls = lines_seq(t@);
    proof {
        crate::oenv::lemma_split_nonempty(v@, '\n');
    }
    let n = parts.len();
    let mut kept: Vec<Vec<char>> = Vec::new();
    let mut i: usize = 0;
    while i < n && kept.len() < 3
        invariant
            n == parts@.len(),
            n >= 1,
            i <= n,
            pieces == split_seq(v@, '\n'),
            v@ == t@,
            ls == lines_seq(t@),
            parts@.len() == pieces.len(),
            forall|k: int| 0 <= k < parts@.len() ==> #[trigger] parts@[k]@ == pieces[k],
            kept@.len() <= 3,
            kept@.len() <= i,
            (i < n ==> kept@.len() == i),
            kept@.len() <= ls.len(),
            forall|k: int| 0 <= k < kept@.len() ==> #[trigger] kept@[k]@ == ls[k],
            i == n ==> kept@.len() == (if ls.len() > 3 { 3 } else { ls.len() as int }) || kept@.len() == 3,
        decreases n - i,
    {
        let part = &parts[i];
        if i + 1 < n {
            let line: Vec<char>;
            if part.len() > 0 && part[part.len() - 1] == '\r' {
                line = slice_chars(part, 0, part.len() - 1);
                assert(line@ =~= part@.drop_last());
            } else {
                line = slice_chars(part, 0, part.len());
                assert(line@ =~= part@);
            }
            assert(line@ == ls[i as int]);
            kept.push(line);
        } else if part.len() > 0 {
            let line = slice_chars(part, 0, part.len());
            assert(line@ =~= part@);
            assert(line@ == ls[i as int]);
            kept.push(line);
        }
        i = i + 1;
    }
    let ghost shown = if ls.len() > 3 { ls.take(3) } else { ls };
    assert(crate::text::views(kept@) =~= shown) by {
        assert(kept@.len() == shown.len());
    }
    let sep = chars_of("; ");
    let joined = crate::text::join_chars(&kept, &sep);
    string_of(&joined)
}

/// What running a cargo subcommand that reports through its exit status
/// produced.
pub enum CargoRun {
    Succeeded,
    /// It failed, with this exit code when it exited normally.
    Failed(Option<i32>),
    /// It could not be started; the operating system's message.
    NotRun(String),
}

/// A command's outcome as reported: exit status, the JSON status word, the
/// exit code or detail reported in JSON, the message printed otherwise, and
/// whether quiet output hides that message.
pub struct CargoReport {
    pub exit: ExitCode,
    pub status: StepStatus,
    pub exit_code: Option<i32>,
    pub detail: Option<String>,
    pub message: String,
    pub hidden_when_quiet: bool,
}

/// The report of `test`, `build` or `doc`: `ok_message` on success, `<failed_prefix> (exit
/// code N)` on failure (1 when the exit code is unknown), `cargo not found:
/// <error>` when cargo could not be started.
pub fn cargo_report(run: CargoRun, ok_message: &str, failed_prefix: &str) -> (r: CargoReport)
    ensures
        match run {
            CargoRun::Succeeded => r.exit == ExitCode::Success && r.status == StepStatus::Pass && r.exit_code is None
                && r.detail is None && r.message@ == ok_message@ && r.hidden_when_quiet,
            CargoRun::Failed(code) => {
                let c = match code { Some(c) => c, None => 1i32 };
                &&& r.exit == ExitCode::Runtime
                &&& r.status == StepStatus::Failure
                &&& r.exit_code == Some(c)
                &&& r.detail is None
                &&& r.message@ == failed_prefix@ + " (exit code "@ + crate::dev::signed_decimal(c as int) + ")"@
                &&& r.hidden_when_quiet
            },
            CargoRun::NotRun(e) => {
                &&& r.exit == ExitCode::Dependency
                &&& r.status == StepStatus::Failure
                &&& r.exit_code is None
                &&& r.detail matches Some(d) && d@ == "cargo not found: "@ + e@
                &&& r.message@ == "cargo not found: "@ + e@
                &&& !r.hidden_when_quiet
            },
        },
{
    match run {
        CargoRun::Succeeded => CargoReport {
            exit: ExitCode::Success,
            status: StepStatus::Pass,
            exit_code: None,
            detail: None,
            message: owned(ok_message),
            hidden_when_quiet: true,
        },
        CargoRun::Failed(code) => {
            let c: i32 = match code {
                Some(c) => c,
                None => 1,
            };
            let mut m = owned(failed_prefix);
            push_text(&mut m, " (exit code ");
            if c < 0 {
                push_text(&mut m, "-");
                let magnitude: u64 = (-(c as i64)) as u64;
                push_decimal(&mut m, magnitude);
            } else {
                push_decimal(&mut m, c as u64);
            }
            push_text(&mut m, ")");
            CargoReport {
                exit: ExitCode::Runtime,
                status: StepStatus::Failure,
                exit_code: Some(c),
                detail: None,
                message: m,
                hidden_when_quiet: true,
            }
        },
        CargoRun::NotRun(e) => {
            let mut m = owned("cargo not found: ");
            push_text(&mut m, e.as_str());
            let d = m.clone();
            CargoReport {
                exit: ExitCode::Dependency,
                status: StepStatus::Failure,
                exit_code: None,
                detail: Some(d),
                message: m,
                hidden_when_quiet: false,
            }
        },
    }
}

/// What running `cargo fmt` produced: success, failure with its error
/// output, or the reason it could not be started.
pub enum FormatRun {
    Succeeded,
    Failed(String),
    NotRun(String),
}

/// The report of `format`.
pub fn format_report(run: FormatRun) -> (r: CargoReport)
    ensures
        match run {
            FormatRun::Succeeded => r.exit == ExitCode::Success && r.status == StepStatus::Pass && r.detail is None
                && r.message@ == "Formatted successfully"@ && r.hidden_when_quiet,
            FormatRun::Failed(stderr) => {
                &&& r.exit == ExitCode::Runtime
                &&& r.status == StepStatus::Failure
                &&& r.detail matches Some(d) && d@ == trim_seq(stderr@)
                &&& r.message@ == "Format failed: "@ + trim_seq(stderr@)
                &&& !r.hidden_when_quiet
            },
            FormatRun::NotRun(e) => {
                &&& r.exit == ExitCode::Dependency
                &&& r.status == StepStatus::Failure
                &&& r.detail matches Some(d) && d@ == "cargo not found: "@ + e@
                &&& r.message@ == "cargo not found: "@ + e@
                &&& !r.hidden_when_quiet
            },
        },
        r.exit_code is None,
{
    match run {
        FormatRun::Succeeded => CargoReport {
            exit: ExitCode::Success,
            status: StepStatus::Pass,
            exit_code: None,
            detail: None,
            message: owned("Formatted successfully"),
            hidden_when_quiet: true,
        },
        FormatRun::Failed(stderr) => {
            let t = trim_text(stderr.as_str());
            let mut m = owned("Format failed: ");
            push_text(&mut m, t.as_str());
            CargoReport {
                exit: ExitCode::Runtime,
                status: StepStatus::Failure,
                exit_code: None,
                detail: Some(t),
                message: m,
                hidden_when_quiet: false,
            }
        },
        FormatRun::NotRun(e) => {
            let mut m = owned("cargo not found: ");
            push_text(&mut m, e.as_str());
            let d = m.clone();
            CargoReport {
                exit: ExitCode::Dependency,
                status: StepStatus::Failure,
                exit_code: None,
                detail: Some(d),
                message: m,
                hidden_when_quiet: false,
            }
        },
    }
}

/// What running a lint program produced.
pub enum LintRun {
    Passed,
    /// It reported problems, with this error output.
    Failed(String),
    /// It could not be started; the operating system's message.
    NotRun(String),
}

/// One lint step: passed, failed with the first lines of its error output
/// (or `fallback`), or missing cargo, which ends the lint run.
pub fn lint_step(name: &str, run: LintRun, ok_detail: &str, fallback: &str) -> (r: (ToolStep, bool))
    ensures
        r.0.name@ == name@,
        match run {
            LintRun::Passed => r.0.status == StepStatus::Pass && r.0.detail@ == ok_detail@ && !r.1,
            LintRun::Failed(stderr) => r.0.status == StepStatus::Failure && r.0.detail@ == failure_detail_spec(
                stderr@,
                fallback@,
            ) && !r.1,
            LintRun::NotRun(e) => r.0.status == StepStatus::Failure && r.0.detail@ == "cargo not found: "@ + e@ && r.1,
        },
{
    match run {
        LintRun::Passed => (ToolStep { name: owned(name), status: StepStatus::Pass, detail: owned(ok_detail) }, false),
        LintRun::Failed(stderr) => (
            ToolStep { name: owned(name), status: StepStatus::Failure, detail: failure_detail(stderr.as_str(), fallback) },
            false,
        ),
        LintRun::NotRun(e) => {
            let mut d = owned("cargo not found: ");
            push_text(&mut d, e.as_str());
            (ToolStep { name: owned(name), status: StepStatus::Failure, detail: d }, true)
        },
    }
}

/// The exit status of a lint run: `Dependency` when cargo was missing,
/// `Runtime` when a step failed, else `Success`.
pub fn lint_exit(steps: &Vec<ToolStep>, cargo_missing: bool) -> (r: ExitCode)
    ensures
        cargo_missing ==> r == ExitCode::Dependency,
        !cargo_missing ==> r == (if exists|k: int| 0 <= k < steps@.len() && (#[trigger] steps@[k]).status
            == StepStatus::Failure {
            ExitCode::Runtime
        } else {
            ExitCode::Success
        }),
{
    if cargo_missing {
        return ExitCode::Dependency;
    }
    let mut i: usize = 0;
    while i < steps.len()
        invariant
            i <= steps@.len(),
            !cargo_missing,
            forall|k: int| 0 <= k < i ==> (#[trigger] steps@[k]).status != StepStatus::Failure,
        decreases steps@.len() - i,
    {
        if steps[i].status == StepStatus::Failure {
            return ExitCode::Runtime;
        }
        i = i + 1;
    }
    ExitCode::Success
}

/// The native store directory to export or import: the one given, else
/// the configured persistent path; an error when the configuration does
/// not load or names none. `loaded` is the outcome of loading the
/// configuration, present exactly when no directory was given.
pub fn configured_data_dir(explicit: Option<&str>, loaded: Option<Result<AppConfig, ConfigError>>) -> (r: Result<String, String>)
    requires
        explicit is None <==> loaded is Some,
    ensures
        match explicit {
            Some(p) => r matches Ok(d) && d@ == p@,
            None => match loaded {
                Some(Err(e)) => r matches Err(m) && m@ == config_error_text(e@),
                Some(Ok(c)) => match c.storage.persistent_path {
                    Some(p) => r == Ok::<String, String>(p),
                    None => r matches Err(m) && m@ == "native store path is not configured; pass --data-dir"@,
                },
                None => false,
            },
        },
{
    if let Some(p) = explicit {
        return Ok(owned(p));
    }
    match loaded {
        Some(Err(e)) => Err(e.message()),
        Some(Ok(c)) => match c.storage.persistent_path {
            Some(p) => Ok(p),
            None => Err(owned("native store path is not configured; pass --data-dir")),
        },
        None => Err(owned("native store path is not configured; pass --data-dir")),
    }
}

} // verus!
