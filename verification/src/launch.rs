//! Launching applications from the command-line tool (`dev`, `start`): the
//! overrides each mode applies, how an Arqen application project is
//! recognised, and the process an application is run as.
use vstd::prelude::*;
use crate::config::{CliOverrides, LogFormat};
use crate::oenv::{lines_seq, pair_views};
use crate::parse::{decimal_seq, push_decimal, trim_start_seq};
use crate::text::{chars_of, owned, push_text, slice_chars, split_chars, split_seq};
use crate::tooling::ExitCode;

verus! {

/// A line of a manifest declares the `arqen` dependency: after its leading
/// white space it starts with `arqen =`.
pub open spec fn declares_arqen(line: Seq<char>) -> bool {
    crate::scheduler::has_prefix(trim_start_seq(line), "arqen ="@)
}

fn line_declares_arqen(line: &[char]) -> (r: bool)
    ensures
        r == declares_arqen(line@),
{
    let t = crate::parse::trim_start_chars(line);
    let p = chars_of("arqen =");
    proof {
        reveal_strlit("arqen =");
    }
    if t.len() < p.len() {
        return false;
    }
    let head = slice_chars(&t, 0, p.len());
    assert(head@ =~= t@.take(p@.len() as int));
    crate::text::chars_eq(&head, &p)
}

/// Whether a project's `Cargo.toml` depends on Arqen: some line declares
/// the `arqen` dependency.
pub fn manifest_uses_arqen(manifest: &str) -> (r: bool)
    ensures
        r == exists|k: int| 0 <= k < lines_seq(manifest@).len() && declares_arqen(#[trigger] lines_seq(manifest@)[k]),
{
    let v = chars_of(manifest);
    let parts = split_chars(&v, '\n');
    let ghost pieces = split_seq(v@, '\n');
    let ghost lines = lines_seq(manifest@);
    proof {
        crate::oenv::lemma_split_nonempty(v@, '\n');
    }
    let n = parts.len();
    let mut i: usize = 0;
    while i < n
        invariant
            n == parts@.len(),
            n >= 1,
            i <= n,
            pieces == split_seq(v@, '\n'),
            v@ == manifest@,
            lines == lines_seq(manifest@),
            parts@.len() == pieces.len(),
            forall|k: int| 0 <= k < parts@.len() ==> #[trigger] parts@[k]@ == pieces[k],
            forall|k: int| 0 <= k < i && k < lines.len() ==> !declares_arqen(#[trigger] lines[k]),
        decreases n - i,
    {
        let part = &parts[i];
        let line: Vec<char>;
        if i + 1 < n {
            if part.len() > 0 && part[part.len() - 1] == '\r' {
                line = slice_chars(part, 0, part.len() - 1);
                assert(line@ =~= part@.drop_last());
            } else {
                line = slice_chars(part, 0, part.len());
                assert(line@ =~= part@);
            }
            assert(line@ == lines[i as int]);
        } else {
            line = slice_chars(part, 0, part.len());
            assert(line@ =~= part@);
            if part.len() == 0 {
                return false;
            }
            assert(line@ == lines[i as int]);
        }
        if line_declares_arqen(&line) {
            return true;
        }
        i = i + 1;
    }
    false
}

fn owned_opt(v: Option<&str>) -> (r: Option<String>)
    ensures
        match v {
            Some(s) => r matches Some(t) && t@ == s@,
            None => r is None,
        },
{
    match v {
        Some(s) => Some(owned(s)),
        None => None,
    }
}

/// The overrides of a development run: the flags given, with compact logs
/// unless a format was given or `ARQEN_LOG_FORMAT` is set.
pub fn dev_overrides(
    host: Option<&str>,
    port: Option<u16>,
    log: Option<&str>,
    storage: Option<&str>,
    log_format: Option<LogFormat>,
    env_sets_format: bool,
) -> (r: CliOverrides)
    ensures
        r.port == port,
        r.log_format == (match log_format {
            Some(f) => Some(f),
            None => if env_sets_format { None } else { Some(LogFormat::Compact) },
        }),
        match host { Some(h) => r.host matches Some(t) && t@ == h@, None => r.host is None },
        match log { Some(l) => r.log_level matches Some(t) && t@ == l@, None => r.log_level is None },
        match storage { Some(s) => r.storage_mode matches Some(t) && t@ == s@, None => r.storage_mode is None },
{
    let format = match log_format {
        Some(f) => Some(f),
        None => if env_sets_format { None } else { Some(LogFormat::Compact) },
    };
    CliOverrides {
        host: owned_opt(host),
        port,
        log_level: owned_opt(log),
        log_format: format,
        storage_mode: owned_opt(storage),
    }
}

/// The overrides of a production start: the flags given, with JSON logs
/// unless another format was given.
pub fn start_overrides(
    host: Option<&str>,
    port: Option<u16>,
    log: Option<&str>,
    storage: Option<&str>,
    log_format: Option<LogFormat>,
) -> (r: CliOverrides)
    ensures
        r.port == port,
        r.log_format == Some(match log_format {
            Some(f) => f,
            None => LogFormat::Json,
        }),
        match host { Some(h) => r.host matches Some(t) && t@ == h@, None => r.host is None },
        match log { Some(l) => r.log_level matches Some(t) && t@ == l@, None => r.log_level is None },
        match storage { Some(s) => r.storage_mode matches Some(t) && t@ == s@, None => r.storage_mode is None },
{
    CliOverrides {
        host: owned_opt(host),
        port,
        log_level: owned_opt(log),
        log_format: Some(
            match log_format {
                Some(f) => f,
                None => LogFormat::Json,
            },
        ),
        storage_mode: owned_opt(storage),
    }
}

/// How an application project is run: the cargo arguments, the
/// environment handed to it, and the line announcing it.
#[derive(Debug)]
pub struct Launch {
    pub args: Vec<String>,
    pub env: Vec<(String, String)>,
    pub announcement: String,
}

/// The name a log format is handed on under.
pub open spec fn format_name(f: LogFormat) -> Seq<char> {
    match f {
        LogFormat::Pretty => "pretty"@,
        LogFormat::Compact => "compact"@,
        LogFormat::Json => "json"@,
    }
}

fn push_pair(env: &mut Vec<(String, String)>, name: &str, value: &str)
    ensures
        pair_views(final(env)@) == pair_views(old(env)@).push((name@, value@)),
{
    let ghost before = env@;
    env.push((owned(name), owned(value)));
    assert(pair_views(env@) =~= pair_views(before).push((name@, value@)));
}

/// A variable set only when a value is given.
pub open spec fn opt_pair(name: Seq<char>, value: Option<Seq<char>>) -> Seq<(Seq<char>, Seq<char>)> {
    match value {
        Some(v) => seq![(name, v)],
        None => Seq::empty(),
    }
}

/// The view of an optional text.
pub open spec fn opt_text(v: Option<&str>) -> Option<Seq<char>> {
    match v {
        Some(s) => Some(s@),
        None => None,
    }
}

/// The environment an application project is launched with, in order:
/// the configuration file, host, port, log level and storage mode given;
/// the log format given, or the mode's own (`json` in production,
/// `compact` otherwise) unless `ARQEN_LOG_FORMAT` is already set; and
/// `ARQEN_LAUNCH_MODE=production` in production.
pub open spec fn launch_env(
    production: bool,
    file: Option<Seq<char>>,
    host: Option<Seq<char>>,
    port: Option<u16>,
    log: Option<Seq<char>>,
    storage: Option<Seq<char>>,
    log_format: Option<LogFormat>,
    env_sets_format: bool,
) -> Seq<(Seq<char>, Seq<char>)> {
    opt_pair("ARQEN_CONFIG_FILE"@, file) + opt_pair("ARQEN_HOST"@, host) + opt_pair(
        "ARQEN_PORT"@,
        match port {
            Some(p) => Some(decimal_seq(p as nat)),
            None => None,
        },
    ) + opt_pair("ARQEN_LOG_LEVEL"@, log) + opt_pair("ARQEN_STORAGE_MODE"@, storage) + opt_pair(
        "ARQEN_LOG_FORMAT"@,
        match log_format {
            Some(f) => Some(format_name(f)),
            None => if env_sets_format {
                None
            } else {
                Some(if production { "json"@ } else { "compact"@ })
            },
        },
    ) + opt_pair("ARQEN_LAUNCH_MODE"@, if production { Some("production"@) } else { None })
}

/// The environment of `launch_env`, built.
#[verifier::rlimit(50)]
fn launch_vars(
    production: bool,
    file: Option<&str>,
    host: Option<&str>,
    port: Option<u16>,
    log: Option<&str>,
    storage: Option<&str>,
    log_format: Option<LogFormat>,
    env_sets_format: bool,
) -> (env: Vec<(String, String)>)
    ensures
        pair_views(env@) == launch_env(
            production,
            opt_text(file),
            opt_text(host),
            port,
            opt_text(log),
            opt_text(storage),
            log_format,
            env_sets_format,
        ),
{
    let mut env: Vec<(String, String)> = Vec::new();
    assert(pair_views(env@) =~= Seq::empty());
    if let Some(f) = file {
        push_pair(&mut env, "ARQEN_CONFIG_FILE", f);
    }
    assert(pair_views(env@) =~= opt_pair("ARQEN_CONFIG_FILE"@, opt_text(file)));
    let ghost e1 = pair_views(env@);
    if let Some(h) = host {
        push_pair(&mut env, "ARQEN_HOST", h);
    }
    assert(pair_views(env@) =~= e1 + opt_pair("ARQEN_HOST"@, opt_text(host)));
    let ghost e2 = pair_views(env@);
    let ghost port_text = match port {
        Some(p) => Some(decimal_seq(p as nat)),
        None => None,
    };
    if let Some(p) = port {
        let mut t = owned("");
        proof {
            reveal_strlit("");
        }
        push_decimal(&mut t, p as u64);
        push_pair(&mut env, "ARQEN_PORT", t.as_str());
    }
    assert(pair_views(env@) =~= e2 + opt_pair("ARQEN_PORT"@, port_text));
    let ghost e3 = pair_views(env@);
    if let Some(l) = log {
        push_pair(&mut env, "ARQEN_LOG_LEVEL", l);
    }
    assert(pair_views(env@) =~= e3 + opt_pair("ARQEN_LOG_LEVEL"@, opt_text(log)));
    let ghost e4 = pair_views(env@);
    if let Some(st) = storage {
        push_pair(&mut env, "ARQEN_STORAGE_MODE", st);
    }
    assert(pair_views(env@) =~= e4 + opt_pair("ARQEN_STORAGE_MODE"@, opt_text(storage)));
    let ghost e5 = pair_views(env@);
    let ghost format_text = match log_format {
        Some(f) => Some(format_name(f)),
        None => if env_sets_format {
            None
        } else {
            Some(if production { "json"@ } else { "compact"@ })
        },
    };
    match log_format {
        Some(f) => {
            let name = match f {
                LogFormat::Pretty => "pretty",
                LogFormat::Compact => "compact",
                LogFormat::Json => "json",
            };
            push_pair(&mut env, "ARQEN_LOG_FORMAT", name);
        },
        None => {
            if !env_sets_format {
                push_pair(&mut env, "ARQEN_LOG_FORMAT", if production { "json" } else { "compact" });
            }
        },
    }
    assert(pair_views(env@) =~= e5 + opt_pair("ARQEN_LOG_FORMAT"@, format_text));
    let ghost e6 = pair_views(env@);
    if production {
        push_pair(&mut env, "ARQEN_LAUNCH_MODE", "production");
    }
    assert(pair_views(env@) =~= e6 + opt_pair(
        "ARQEN_LAUNCH_MODE"@,
        if production { Some("production"@) } else { None },
    ));
    env
}

/// The launch of an application project in development or production
/// mode: `cargo run --quiet` (or `cargo watch --why -x run` with automatic
/// reload) with the environment of `launch_env`.
pub fn application_launch(
    production: bool,
    watch: bool,
    file: Option<&str>,
    host: Option<&str>,
    port: Option<u16>,
    log: Option<&str>,
    storage: Option<&str>,
    log_format: Option<LogFormat>,
    env_sets_format: bool,
) -> (r: Launch)
    ensures
        watch ==> r.args@.len() == 4 && r.args@[0]@ == "watch"@ && r.args@[1]@ == "--why"@ && r.args@[2]@ == "-x"@
            && r.args@[3]@ == "run"@,
        !watch ==> r.args@.len() == 2 && r.args@[0]@ == "run"@ && r.args@[1]@ == "--quiet"@,
        r.announcement@ == "Starting application in "@ + (if production { "production"@ } else { "development"@ })
            + " mode"@ + (if watch { " with automatic reload"@ } else { Seq::empty() }),
        pair_views(r.env@) == launch_env(
            production,
            opt_text(file),
            opt_text(host),
            port,
            opt_text(log),
            opt_text(storage),
            log_format,
            env_sets_format,
        ),
{
    let mut args: Vec<String> = Vec::new();
    if watch {
        args.push(owned("watch"));
        args.push(owned("--why"));
        args.push(owned("-x"));
        args.push(owned("run"));
    } else {
        args.push(owned("run"));
        args.push(owned("--quiet"));
    }
    let env = launch_vars(production, file, host, port, log, storage, log_format, env_sets_format);
    let mut announcement = owned("Starting application in ");
    push_text(&mut announcement, if production { "production" } else { "development" });
    push_text(&mut announcement, " mode");
    if watch {
        push_text(&mut announcement, " with automatic reload");
    }
    proof {
        reveal_strlit("");
    }
    Launch { args, env, announcement }
}

/// How a launched process ended.
pub enum ProcessRun {
    Succeeded,
    /// It exited unsuccessfully: its exit code, or none when a signal ended it.
    Exited(Option<i32>),
    /// The program to run was not found.
    NotFound,
    /// It could not be started for another reason.
    Failed(String),
}

/// How the command ends after running an application: with the
/// application's own exit code when it had one.
#[derive(Debug, Clone, Copy, PartialEq, Eq, Structural)]
pub enum LaunchExit {
    Code(i32),
    Status(ExitCode),
}

/// The end of an application run: its exit status and the error line to
/// print, if any.
pub fn application_outcome(run: ProcessRun) -> (r: (LaunchExit, Option<String>))
    ensures
        match run {
            ProcessRun::Succeeded => r.0 == LaunchExit::Status(ExitCode::Success) && r.1 is None,
            ProcessRun::Exited(Some(c)) => r.0 == LaunchExit::Code(c) && (r.1 matches Some(m) && m@
                == "application process exited with code "@ + crate::dev::signed_decimal(c as int)),
            ProcessRun::Exited(None) => r.0 == LaunchExit::Status(ExitCode::Runtime) && (r.1 matches Some(m) && m@
                == "application process exited with a signal"@),
            ProcessRun::NotFound => r.0 == LaunchExit::Status(ExitCode::Config) && (r.1 matches Some(m) && m@
                == "application launch requires Cargo to be installed and available on PATH"@),
            ProcessRun::Failed(e) => r.0 == LaunchExit::Status(ExitCode::Runtime) && (r.1 matches Some(m) && m@
                == "failed to start application: "@ + e@),
        },
{
    match run {
        ProcessRun::Succeeded => (LaunchExit::Status(ExitCode::Success), None),
        ProcessRun::Exited(Some(c)) => {
            let mut m = owned("application process exited with code ");
            if c < 0 {
                push_text(&mut m, "-");
                let magnitude: u64 = (-(c as i64)) as u64;
                push_decimal(&mut m, magnitude);
            } else {
                push_decimal(&mut m, c as u64);
            }
            (LaunchExit::Code(c), Some(m))
        },
        ProcessRun::Exited(None) => (
            LaunchExit::Status(ExitCode::Runtime),
            Some(owned("application process exited with a signal")),
        ),
        ProcessRun::NotFound => (
            LaunchExit::Status(ExitCode::Config),
            Some(owned("application launch requires Cargo to be installed and available on PATH")),
        ),
        ProcessRun::Failed(e) => {
            let mut m = owned("failed to start application: ");
            push_text(&mut m, e.as_str());
            (LaunchExit::Status(ExitCode::Runtime), Some(m))
        },
    }
}

/// The end of an automatic-reload run without an application project.
pub fn watch_outcome(run: ProcessRun) -> (r: (LaunchExit, Option<String>))
    ensures
        match run {
            ProcessRun::Succeeded => r.0 == LaunchExit::Status(ExitCode::Success) && r.1 is None,
            ProcessRun::Exited(Some(c)) => r.0 == LaunchExit::Code(c) && r.1 is None,
            ProcessRun::Exited(None) => r.0 == LaunchExit::Status(ExitCode::Runtime) && r.1 is None,
            ProcessRun::NotFound => r.0 == LaunchExit::Status(ExitCode::Config) && (r.1 matches Some(m) && m@
                == "automatic reload requires 'cargo-watch'; install it with `cargo install cargo-watch`"@),
            ProcessRun::Failed(e) => r.0 == LaunchExit::Status(ExitCode::Runtime) && (r.1 matches Some(m) && m@
                == "failed to start automatic reload: "@ + e@),
        },
{
    match run {
        ProcessRun::Succeeded => (LaunchExit::Status(ExitCode::Success), None),
        ProcessRun::Exited(Some(c)) => (LaunchExit::Code(c), None),
        ProcessRun::Exited(None) => (LaunchExit::Status(ExitCode::Runtime), None),
        ProcessRun::NotFound => (
            LaunchExit::Status(ExitCode::Config),
            Some(owned("automatic reload requires 'cargo-watch'; install it with `cargo install cargo-watch`")),
        ),
        ProcessRun::Failed(e) => {
            let mut m = owned("failed to start automatic reload: ");
            push_text(&mut m, e.as_str());
            (LaunchExit::Status(ExitCode::Runtime), Some(m))
        },
    }
}

} // verus!
