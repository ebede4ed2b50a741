//! Decisions of the request logging middleware: which query parameters are
//! redacted, how a status is classified, which request id a response carries
//! and whether and at which level a completed request is logged.
use vstd::prelude::*;
use crate::text::{
    append_chars, chars_eq, chars_of, contains_chars, contains_seq, join_chars, join_seq,
    lower_chars, lower_seq, owned, slice_chars, split_chars, split_once_chars, split_once_seq,
    split_seq, string_of, views,
};

verus! {

/// A query parameter whose key mentions one of these words is redacted.
pub open spec fn key_is_sensitive(lower_key: Seq<char>) -> bool {
    contains_seq(lower_key, "password"@) || contains_seq(lower_key, "token"@)
        || contains_seq(lower_key, "secret"@) || contains_seq(lower_key, "key"@)
        || lower_key == "authorization"@ || lower_key == "cookie"@
}

/// A query parameter without `=` is redacted when it mentions one of these.
pub open spec fn bare_is_sensitive(lower: Seq<char>) -> bool {
    contains_seq(lower, "password"@) || contains_seq(lower, "token"@)
        || contains_seq(lower, "secret"@)
}

/// The logged form of one query parameter.
pub open spec fn redacted_param(param: Seq<char>) -> Seq<char> {
    match split_once_seq(param, '=') {
        Some((key, _value)) => if key_is_sensitive(lower_seq(key)) {
            key + "=[REDACTED]"@
        } else {
            param
        },
        None => if bare_is_sensitive(lower_seq(param)) {
            "[REDACTED]"@
        } else {
            param
        },
    }
}

/// The logged form of a request path with its query.
pub open spec fn redacted_path(path: Seq<char>) -> Seq<char> {
    match split_once_seq(path, '?') {
        Some((base, query)) => base + seq!['?'] + join_seq(
            split_seq(query, '&').map_values(|p: Seq<char>| redacted_param(p)),
            seq!['&'],
        ),
        None => path,
    }
}

fn is_sensitive_key(lower_key: &[char]) -> (r: bool)
    ensures
        r == key_is_sensitive(lower_key@),
{
    contains_chars(lower_key, &chars_of("password")) || contains_chars(lower_key, &chars_of("token"))
        || contains_chars(lower_key, &chars_of("secret")) || contains_chars(lower_key, &chars_of("key"))
        || chars_eq(lower_key, &chars_of("authorization")) || chars_eq(lower_key, &chars_of("cookie"))
}

fn is_sensitive_bare(lower: &[char]) -> (r: bool)
    ensures
        r == bare_is_sensitive(lower@),
{
    contains_chars(lower, &chars_of("password")) || contains_chars(lower, &chars_of("token"))
        || contains_chars(lower, &chars_of("secret"))
}

fn redact_param(param: &Vec<char>) -> (r: Vec<char>)
    ensures
        r@ == redacted_param(param@),
{
    match split_once_chars(param, '=') {
        Some((key, _value)) => {
            let lower = lower_chars(&key);
            if is_sensitive_key(&lower) {
                let mut out = key;
                append_chars(&mut out, &chars_of("=[REDACTED]"));
                out
            } else {
                slice_chars(param, 0, param.len())
            }
        },
        None => {
            let lower = lower_chars(param);
            if is_sensitive_bare(&lower) {
                chars_of("[REDACTED]")
            } else {
                slice_chars(param, 0, param.len())
            }
        },
    }
}

/// Redacts sensitive query parameters from a request path before it is
/// logged. The part before the first `?` is kept; each `&`-separated
/// parameter is replaced by its redacted form.
pub fn redact_path(path: &str) -> (r: String)
    ensures
        r@ == redacted_path(path@),
{
    let chars = chars_of(path);
    assert(chars@.subrange(0, chars@.len() as int) =~= chars@);
    match split_once_chars(&chars, '?') {
        Some((base, query)) => {
            let params = split_chars(&query, '&');
            let ghost pieces = split_seq(query@, '&');
            let mut redacted: Vec<Vec<char>> = Vec::new();
            let mut i: usize = 0;
            while i < params.len()
                invariant
                    i <= params.len(),
                    params@.len() == pieces.len(),
                    forall|k: int| 0 <= k < params@.len() ==> #[trigger] params@[k]@ == pieces[k],
                    redacted@.len() == i,
                    forall|k: int| 0 <= k < i ==> #[trigger] redacted@[k]@ == redacted_param(pieces[k]),
                decreases params.len() - i,
            {
                let p = redact_param(&params[i]);
                redacted.push(p);
                i = i + 1;
            }
            let joined = join_chars(&redacted, &['&']);
            assert(views(redacted@) =~= pieces.map_values(|p: Seq<char>| redacted_param(p)));
            let mut out = base;
            out.push('?');
            append_chars(&mut out, &joined);
            proof {
                assert(seq!['&'] =~= (['&'])@);
            }
            string_of(&out)
        },
        None => string_of(&chars),
    }
}

/// Error code and message logged for a status, if it is an error status.
pub open spec fn error_details_spec(status: u16) -> Option<(Seq<char>, Seq<char>)> {
    if status == 400 {
        Some(("validation"@, "bad request"@))
    } else if status == 401 {
        Some(("authentication"@, "authentication required"@))
    } else if status == 403 {
        Some(("authorization"@, "forbidden"@))
    } else if status == 404 {
        Some(("not_found"@, "not found"@))
    } else if status == 409 {
        Some(("conflict"@, "conflict"@))
    } else if status == 429 {
        Some(("rate_limited"@, "rate limited"@))
    } else if status == 408 || status == 504 {
        Some(("timeout"@, "gateway timeout"@))
    } else if status == 502 {
        Some(("dependency"@, "bad gateway"@))
    } else if status == 503 {
        Some(("unavailable"@, "service unavailable"@))
    } else if status == 500 {
        Some(("internal"@, "internal server error"@))
    } else if status == 501 {
        Some(("not_impl"@, "not implemented"@))
    } else if 400 <= status <= 499 {
        Some(("client_error"@, "client error"@))
    } else if 500 <= status <= 599 {
        Some(("server_error"@, "server error"@))
    } else {
        None
    }
}

/// Error code and message that a completed request with `status` is logged
/// with; `None` for statuses that are not errors.
pub fn error_details_for_status(status: u16) -> (r: Option<(&'static str, &'static str)>)
    ensures
        match r {
            Some((code, message)) => error_details_spec(status) == Some((code@, message@)),
            None => error_details_spec(status) is None,
        },
{
    if status == 400 {
        Some(("validation", "bad request"))
    } else if status == 401 {
        Some(("authentication", "authentication required"))
    } else if status == 403 {
        Some(("authorization", "forbidden"))
    } else if status == 404 {
        Some(("not_found", "not found"))
    } else if status == 409 {
        Some(("conflict", "conflict"))
    } else if status == 429 {
        Some(("rate_limited", "rate limited"))
    } else if status == 408 || status == 504 {
        Some(("timeout", "gateway timeout"))
    } else if status == 502 {
        Some(("dependency", "bad gateway"))
    } else if status == 503 {
        Some(("unavailable", "service unavailable"))
    } else if status == 500 {
        Some(("internal", "internal server error"))
    } else if status == 501 {
        Some(("not_impl", "not implemented"))
    } else if 400 <= status && status <= 499 {
        Some(("client_error", "client error"))
    } else if 500 <= status && status <= 599 {
        Some(("server_error", "server error"))
    } else {
        None
    }
}

/// Outcome label of a status in request logs.
pub open spec fn outcome_spec(status: u16) -> Seq<char> {
    if 200 <= status <= 399 {
        "success"@
    } else if status == 408 || status == 504 {
        "timeout"@
    } else if 400 <= status <= 499 {
        "client_error"@
    } else if status == 502 {
        "dependency_error"@
    } else if 500 <= status <= 599 {
        "server_error"@
    } else {
        "unknown"@
    }
}

/// Outcome label of a completed request.
pub fn request_outcome(status: u16) -> (r: &'static str)
    ensures
        r@ == outcome_spec(status),
{
    if 200 <= status && status <= 399 {
        "success"
    } else if status == 408 || status == 504 {
        "timeout"
    } else if 400 <= status && status <= 499 {
        "client_error"
    } else if status == 502 {
        "dependency_error"
    } else if 500 <= status && status <= 599 {
        "server_error"
    } else {
        "unknown"
    }
}

/// A client-supplied request id is reused only when it is short, non-empty
/// and made of visible ASCII characters other than `"`.
pub open spec fn request_id_is_safe(id: Seq<char>) -> bool {
    &&& 0 < id.len() <= 128
    &&& forall|i: int| 0 <= i < id.len() ==> '!' <= #[trigger] id[i] <= '~' && id[i] != '"'
}

/// Whether a client-supplied `x-request-id` value may be reused.
pub fn is_safe_request_id(id: &str) -> (r: bool)
    ensures
        r == request_id_is_safe(id@),
{
    let v = chars_of(id);
    if v.len() == 0 || v.len() > 128 {
        return false;
    }
    let mut i: usize = 0;
    while i < v.len()
        invariant
            i <= v.len(),
            v@ == id@,
            forall|k: int| 0 <= k < i ==> '!' <= #[trigger] v@[k] <= '~' && v@[k] != '"',
        decreases v.len() - i,
    {
        let c = v[i];
        if !('!' <= c && c <= '~' && c != '"') {
            return false;
        }
        i = i + 1;
    }
    true
}

/// The request id a response carries: the correlation id already attached to
/// the request, else a safe client-supplied header, else a fresh id.
pub fn select_request_id(attached: Option<String>, header: Option<String>, fresh: String) -> (r: String)
    ensures
        r@ == (match attached {
            Some(a) => a@,
            None => match header {
                Some(h) => if request_id_is_safe(h@) { h@ } else { fresh@ },
                None => fresh@,
            },
        }),
{
    match attached {
        Some(a) => a,
        None => match header {
            Some(h) => if is_safe_request_id(h.as_str()) { h } else { fresh },
            None => fresh,
        },
    }
}

/// Severity at which a request is logged.
#[derive(Debug, Clone, Copy, PartialEq, Eq, Structural)]
pub enum LogLevel {
    Trace,
    Debug,
    Info,
    Warn,
    Error,
}

/// Level for successful requests chosen from a configured level name.
pub open spec fn success_level_spec(configured: Seq<char>) -> LogLevel {
    let lower = lower_seq(configured);
    if lower == "trace"@ {
        LogLevel::Trace
    } else if lower == "debug"@ {
        LogLevel::Debug
    } else if lower == "warn"@ {
        LogLevel::Warn
    } else if lower == "error"@ {
        LogLevel::Error
    } else {
        LogLevel::Info
    }
}

/// Level for successful requests chosen from a configured level name,
/// matched without regard to ASCII case; unknown names mean `Info`.
pub fn success_level(configured: &str) -> (r: LogLevel)
    ensures
        r == success_level_spec(configured@),
{
    let lower = lower_chars(&chars_of(configured));
    if chars_eq(&lower, &chars_of("trace")) {
        LogLevel::Trace
    } else if chars_eq(&lower, &chars_of("debug")) {
        LogLevel::Debug
    } else if chars_eq(&lower, &chars_of("warn")) {
        LogLevel::Warn
    } else if chars_eq(&lower, &chars_of("error")) {
        LogLevel::Error
    } else {
        LogLevel::Info
    }
}

/// Whether a completed request is logged: errors and slow requests always
/// are, other requests when the success sampler selected them.
pub open spec fn should_log_spec(status: u16, elapsed_nanos: u64, slow_nanos: u64, sampled: bool) -> bool {
    status >= 400 || elapsed_nanos >= slow_nanos || sampled
}

/// Level a logged request uses: server errors at `Error`, other statuses with
/// error details at `Warn`, the rest at the configured success level.
pub open spec fn log_level_spec(status: u16, configured: Seq<char>) -> LogLevel {
    if error_details_spec(status) is Some {
        if status >= 500 { LogLevel::Error } else { LogLevel::Warn }
    } else {
        success_level_spec(configured)
    }
}

/// Decides whether and at which level a completed request is logged.
pub fn log_decision(
    status: u16,
    elapsed_nanos: u64,
    slow_nanos: u64,
    sampled: bool,
    configured_level: &str,
) -> (r: Option<LogLevel>)
    ensures
        r == (if should_log_spec(status, elapsed_nanos, slow_nanos, sampled) {
            Some(log_level_spec(status, configured_level@))
        } else {
            None::<LogLevel>
        }),
{
    if !(status >= 400 || elapsed_nanos >= slow_nanos || sampled) {
        return None;
    }
    match error_details_for_status(status) {
        Some(_) => if status >= 500 { Some(LogLevel::Error) } else { Some(LogLevel::Warn) },
        None => Some(success_level(configured_level)),
    }
}

/// The correlation id of a request: its `x-request-id` header when that is
/// safe to reuse, else a fresh random id.
pub fn extract_or_generate_correlation_id(header: Option<&str>) -> (r: crate::error::CorrelationId)
    ensures
        match header {
            Some(h) => if request_id_is_safe(h@) {
                r.0@ == h@
            } else {
                crate::error::is_uuid_text(r.0@)
            },
            None => crate::error::is_uuid_text(r.0@),
        },
{
    match header {
        Some(h) => if is_safe_request_id(h) {
            crate::error::CorrelationId(owned(h))
        } else {
            crate::error::CorrelationId::new()
        },
        None => crate::error::CorrelationId::new(),
    }
}

} // verus!
