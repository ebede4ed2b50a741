//! Timing rules of the durable scheduler: cron fields, interval expressions,
//! the search for the next cron minute, and how a schedule's counters move
//! after each attempt to enqueue a run.
//!
//! Instants are milliseconds since the Unix epoch, in UTC.
use chrono::{Datelike, Timelike};
use vstd::prelude::*;
use crate::error::{AppError, app_error_text};
use crate::parse::{parse_unsigned_chars, parse_unsigned_spec, split_whitespace, words_seq};
use crate::text::{chars_of, owned, push_text, slice_chars, split_chars, split_once_chars, split_once_seq, split_seq};

verus! {

/// Errors of the scheduler.
#[derive(Debug)]
pub enum SchedulerError {
    Storage(AppError),
    NotFound(String),
    Invalid(String),
    Unsupported(String),
    NotRunning,
}

/// The display form of a scheduler error.
pub open spec fn scheduler_error_text(e: SchedulerError) -> Seq<char> {
    match e {
        SchedulerError::Storage(a) => "scheduler storage error: "@ + app_error_text(a.kind, a.message@),
        SchedulerError::NotFound(id) => "schedule '"@ + id@ + "' was not found"@,
        SchedulerError::Invalid(m) => "invalid schedule: "@ + m@,
        SchedulerError::Unsupported(m) => "scheduler operation is not supported by this Thingd mode: "@ + m@,
        SchedulerError::NotRunning => "scheduler is not running"@,
    }
}

impl SchedulerError {
    /// The display form of the error.
    pub fn message(&self) -> (r: String)
        ensures
            r@ == scheduler_error_text(*self),
    {
        match self {
            SchedulerError::Storage(a) => {
                let mut s = owned("scheduler storage error: ");
                let t = a.to_text();
                push_text(&mut s, t.as_str());
                s
            },
            SchedulerError::NotFound(id) => {
                let mut s = owned("schedule '");
                push_text(&mut s, id.as_str());
                push_text(&mut s, "' was not found");
                s
            },
            SchedulerError::Invalid(m) => {
                let mut s = owned("invalid schedule: ");
                push_text(&mut s, m.as_str());
                s
            },
            SchedulerError::Unsupported(m) => {
                let mut s = owned("scheduler operation is not supported by this Thingd mode: ");
                push_text(&mut s, m.as_str());
                s
            },
            SchedulerError::NotRunning => owned("scheduler is not running"),
        }
    }
}

/// Outcome of the last run of a schedule.
#[derive(Debug, Clone, Copy, PartialEq, Eq, Structural)]
pub enum ScheduleStatus {
    Running,
    Completed,
    Failed,
    Disabled,
}

/// A change in a schedule's life, as reported to observers.
#[derive(Debug, Clone)]
pub struct ScheduleEvent {
    pub schedule_id: String,
    pub status: ScheduleStatus,
    pub timestamp: String,
    pub run_count: u64,
    pub fail_count: u64,
    pub error: Option<String>,
}

/// The largest value of `u32`, as `u32::from_str` bounds it.
pub open spec fn u32_max() -> nat {
    0xffff_ffffnat
}

/// One comma-separated piece of a cron field admits `value`: `*/step`
/// (steps counted from the field's minimum), `start-end`, or a single
/// number that must also lie within `min..=max`.
pub open spec fn part_matches(part: Seq<char>, value: u32, min: u32, max: u32) -> bool {
    if part.len() >= 2 && part[0] == '*' && part[1] == '/' {
        match parse_unsigned_spec(part.skip(2), u32_max()) {
            Some(step) => step > 0 && (value - min) % (step as int) == 0,
            None => false,
        }
    } else {
        match split_once_seq(part, '-') {
            Some((a, b)) => match (parse_unsigned_spec(a, u32_max()), parse_unsigned_spec(b, u32_max())) {
                (Some(lo), Some(hi)) => lo <= value && value <= hi,
                _ => false,
            },
            None => match parse_unsigned_spec(part, u32_max()) {
                Some(p) => min <= p && p <= max && p == value,
                None => false,
            },
        }
    }
}

/// A cron field admits `value`: it is `*`, or one of its comma-separated
/// pieces admits it.
pub open spec fn field_matches_spec(field: Seq<char>, value: u32, min: u32, max: u32) -> bool {
    field =~= seq!['*'] || exists|k: int|
        0 <= k < split_seq(field, ',').len() && part_matches(#[trigger] split_seq(field, ',')[k], value, min, max)
}

/// The weekday field admits a weekday counted from Sunday (0); Sunday may
/// also be written 7.
pub open spec fn weekday_matches_spec(field: Seq<char>, weekday: u32) -> bool {
    field =~= seq!['*'] || field_matches_spec(field, weekday, 0, 7) || (weekday == 0
        && field_matches_spec(field, 7, 0, 7))
}

fn part_matches_exec(part: &[char], value: u32, min: u32, max: u32) -> (r: bool)
    requires
        min <= value,
    ensures
        r == part_matches(part@, value, min, max),
{
    if part.len() >= 2 && part[0] == '*' && part[1] == '/' {
        let rest = slice_chars(part, 2, part.len());
        assert(rest@ =~= part@.skip(2));
        match parse_unsigned_chars(&rest, 0xffff_ffff) {
            Some(step) => step > 0 && ((value - min) as u64) % step == 0,
            None => false,
        }
    } else {
        match split_once_chars(part, '-') {
            Some((a, b)) => {
                let lo = parse_unsigned_chars(&a, 0xffff_ffff);
                let hi = parse_unsigned_chars(&b, 0xffff_ffff);
                match (lo, hi) {
                    (Some(lo), Some(hi)) => lo <= value as u64 && value as u64 <= hi,
                    _ => false,
                }
            },
            None => match parse_unsigned_chars(part, 0xffff_ffff) {
                Some(p) => min as u64 <= p && p <= max as u64 && p == value as u64,
                None => false,
            },
        }
    }
}

/// Whether a cron field admits `value`, for a field whose values run from
/// `min` to `max`.
pub fn field_matches(field: &str, value: u32, min: u32, max: u32) -> (r: bool)
    requires
        min <= value,
    ensures
        r == field_matches_spec(field@, value, min, max),
{
    let v = chars_of(field);
    if v.len() == 1 && v[0] == '*' {
        assert(v@ =~= seq!['*']);
        return true;
    }
    assert(!(v@ =~= seq!['*'])) by {
        if v@ =~= seq!['*'] {
            assert(v@.len() == 1 && v@[0] == '*');
        }
    }
    let parts = split_chars(&v, ',');
    let ghost pieces = split_seq(v@, ',');
    let mut i: usize = 0;
    while i < parts.len()
        invariant
            i <= parts.len(),
            min <= value,
            pieces == split_seq(v@, ','),
            v@ == field@,
            parts@.len() == pieces.len(),
            forall|k: int| 0 <= k < parts@.len() ==> #[trigger] parts@[k]@ == pieces[k],
            forall|k: int| 0 <= k < i ==> !part_matches(#[trigger] pieces[k], value, min, max),
        decreases parts.len() - i,
    {
        if part_matches_exec(&parts[i], value, min, max) {
            assert(v@ == field@);
            assert(part_matches(split_seq(field@, ',')[i as int], value, min, max));
            return true;
        }
        i = i + 1;
    }
    false
}

/// Whether the weekday field admits `weekday`, counted from Sunday (0).
pub fn weekday_matches(field: &str, weekday: u32) -> (r: bool)
    requires
        weekday < 7,
    ensures
        r == weekday_matches_spec(field@, weekday),
{
    let v = chars_of(field);
    if v.len() == 1 && v[0] == '*' {
        assert(v@ =~= seq!['*']);
        return true;
    }
    field_matches(field, weekday, 0, 7) || (weekday == 0 && field_matches(field, 7, 0, 7))
}

/// What a search for the next run yields, as the contracts see it.
pub enum RunAt {
    At(int),
    Invalid(Seq<char>),
    Unsupported(Seq<char>),
    Other,
}

/// The outcome of a computed run time, read through `RunAt`.
pub open spec fn run_at_of(r: Result<i64, SchedulerError>) -> RunAt {
    match r {
        Ok(t) => RunAt::At(t as int),
        Err(SchedulerError::Invalid(m)) => RunAt::Invalid(m@),
        Err(SchedulerError::Unsupported(m)) => RunAt::Unsupported(m@),
        Err(_) => RunAt::Other,
    }
}

/// Minute, hour, day of month, month and weekday (days since Sunday) of the
/// UTC instant `millis` milliseconds after the Unix epoch, or `None` where
/// chrono cannot represent that instant.
pub uninterp spec fn utc_calendar(millis: i64) -> Option<(u32, u32, u32, u32, u32)>;

/// Calendar fields of a UTC instant, read with chrono's
/// `DateTime::from_timestamp_millis` and the `Timelike` / `Datelike`
/// accessors. Claimed: the result is `utc_calendar(millis)`, and each field
/// lies in the range that chrono documents for it.
#[verifier::external_body]
fn calendar_at(millis: i64) -> (r: Option<(u32, u32, u32, u32, u32)>)
    ensures
        r == utc_calendar(millis),
        r matches Some(c) ==> (c.0 < 60 && c.1 < 24 && 1 <= c.2 <= 31 && 1 <= c.3 <= 12 && c.4 < 7),
{
    match chrono::DateTime::from_timestamp_millis(millis) {
        Some(t) => Some((t.minute(), t.hour(), t.day(), t.month(), t.weekday().num_days_from_sunday())),
        None => None,
    }
}

/// Milliseconds since the Unix epoch of an RFC 3339 timestamp, or chrono's
/// message for why the text is not one.
pub uninterp spec fn rfc3339_millis(text: Seq<char>) -> Result<i64, Seq<char>>;

/// Parses an RFC 3339 timestamp with chrono's `DateTime::parse_from_rfc3339`
/// and reads it as UTC milliseconds. Claimed: the outcome is
/// `rfc3339_millis(text)`, the error carried as chrono's message.
#[verifier::external_body]
fn parse_rfc3339(text: &str) -> (r: Result<i64, String>)
    ensures
        match r {
            Ok(v) => rfc3339_millis(text@) == Ok::<i64, Seq<char>>(v),
            Err(m) => rfc3339_millis(text@) == Err::<i64, Seq<char>>(m@),
        },
{
    match chrono::DateTime::parse_from_rfc3339(text) {
        Ok(t) => Ok(t.with_timezone(&chrono::Utc).timestamp_millis()),
        Err(e) => Err(e.to_string()),
    }
}

/// How many minutes a cron search looks ahead: one leap year.
pub const CRON_SEARCH_MINUTES: u64 = 527040;

/// The start of the minute that contains `ms`.
pub open spec fn minute_floor(ms: int) -> int {
    (ms / 60000) * 60000
}

/// A candidate minute's calendar fields satisfy the five cron fields
/// (minute, hour, day of month, month, weekday).
pub open spec fn cron_admits(f: Seq<Seq<char>>, c: (u32, u32, u32, u32, u32)) -> bool {
    &&& field_matches_spec(f[0], c.0, 0, 59)
    &&& field_matches_spec(f[1], c.1, 0, 23)
    &&& field_matches_spec(f[2], c.2, 1, 31)
    &&& field_matches_spec(f[3], c.3, 1, 12)
    &&& weekday_matches_spec(f[4], c.4)
}

/// The search from the `k`-th minute after `start` on: the first admitted
/// minute, unless an instant leaves the representable range first or the
/// look-ahead runs out.
pub open spec fn cron_search(f: Seq<Seq<char>>, start: int, k: nat) -> RunAt
    decreases CRON_SEARCH_MINUTES - k,
{
    if k >= CRON_SEARCH_MINUTES {
        RunAt::Invalid("cron expression has no run within one year"@)
    } else {
        let t = start + k * 60000;
        if t > i64::MAX {
            RunAt::Invalid("invalid cron time"@)
        } else {
            match utc_calendar(t as i64) {
                None => RunAt::Invalid("invalid cron time"@),
                Some(c) => if cron_admits(f, c) {
                    RunAt::At(t)
                } else {
                    cron_search(f, start, k + 1)
                },
            }
        }
    }
}

/// The next run of a cron expression of five fields, or six with a
/// leading seconds field that is ignored: the first whole minute strictly
/// after `from` that the fields admit, within one year.
pub open spec fn cron_next_spec(expr: Seq<char>, from: int) -> RunAt {
    let parts = words_seq(expr);
    if !(parts.len() == 5 || parts.len() == 6) {
        RunAt::Invalid("cron requires 5 or 6 fields"@)
    } else if from + 60000 > i64::MAX {
        RunAt::Invalid("invalid cron time"@)
    } else {
        let f = if parts.len() == 5 { parts } else { parts.drop_first() };
        cron_search(f, minute_floor(from + 60000), 0)
    }
}

fn floor_minute(x: i64) -> (r: i64)
    requires
        x >= i64::MIN + 60000,
    ensures
        r as int == minute_floor(x as int),
{
    if x >= 0 {
        let u = x as u64;
        proof {
            vstd::arithmetic::div_mod::lemma_fundamental_div_mod(u as int, 60000);
        }
        (u - u % 60000) as i64
    } else {
        let nx = (-x) as u64;
        let q = (nx + 59999) / 60000;
        proof {
            vstd::arithmetic::div_mod::lemma_fundamental_div_mod((nx + 59999) as int, 60000);
            vstd::arithmetic::div_mod::lemma_mod_pos_bound((nx + 59999) as int, 60000);
            vstd::arithmetic::div_mod::lemma_fundamental_div_mod_converse(x as int, 60000, -q, x + q * 60000);
        }
        -((q * 60000) as i64)
    }
}

/// The next run of a cron expression after `from`; see `cron_next_spec`.
pub fn cron_next(expression: &str, from: i64) -> (r: Result<i64, SchedulerError>)
    ensures
        run_at_of(r) == cron_next_spec(expression@, from as int),
{
    let parts = split_whitespace(expression);
    if !(parts.len() == 5 || parts.len() == 6) {
        return Err(SchedulerError::Invalid(owned("cron requires 5 or 6 fields")));
    }
    if from > i64::MAX - 60000 {
        return Err(SchedulerError::Invalid(owned("invalid cron time")));
    }
    let off: usize = if parts.len() == 5 { 0 } else { 1 };
    let ghost w = words_seq(expression@);
    let ghost f = if parts.len() == 5 { w } else { w.drop_first() };
    assert forall|j: int| 0 <= j < 5 implies #[trigger] f[j] == parts@[off + j]@ by {
        if parts.len() == 6 {
            assert(f[j] == w[j + 1]);
        }
    }
    let start = floor_minute(from + 60000);
    assert(cron_next_spec(expression@, from as int) == cron_search(f, start as int, 0));
    let mut t: i64 = start;
    let mut k: u64 = 0;
    while k < CRON_SEARCH_MINUTES
        invariant
            k <= CRON_SEARCH_MINUTES,
            t as int == start as int + k * 60000,
            f.len() == 5,
            parts@.len() == off + 5,
            off <= 1,
            forall|j: int| 0 <= j < 5 ==> #[trigger] f[j] == parts@[off + j]@,
            cron_search(f, start as int, 0) == cron_search(f, start as int, k as nat),
            cron_next_spec(expression@, from as int) == cron_search(f, start as int, 0),
        decreases CRON_SEARCH_MINUTES - k,
    {
        match calendar_at(t) {
            None => {
                return Err(SchedulerError::Invalid(owned("invalid cron time")));
            },
            Some(c) => {
                let hit = field_matches(parts[off].as_str(), c.0, 0, 59)
                    && field_matches(parts[off + 1].as_str(), c.1, 0, 23)
                    && field_matches(parts[off + 2].as_str(), c.2, 1, 31)
                    && field_matches(parts[off + 3].as_str(), c.3, 1, 12)
                    && weekday_matches(parts[off + 4].as_str(), c.4);
                assert(hit == cron_admits(f, c)) by {
                    assert(f[0] == parts@[off + 0]@);
                    assert(f[1] == parts@[off + 1]@);
                    assert(f[2] == parts@[off + 2]@);
                    assert(f[3] == parts@[off + 3]@);
                    assert(f[4] == parts@[off + 4]@);
                }
                if hit {
                    return Ok(t);
                }
            },
        }
        if t > i64::MAX - 60000 {
            if k + 1 < CRON_SEARCH_MINUTES {
                return Err(SchedulerError::Invalid(owned("invalid cron time")));
            } else {
                assert(cron_search(f, start as int, (k + 1) as nat) == RunAt::Invalid(
                    "cron expression has no run within one year"@,
                ));
                return Err(SchedulerError::Invalid(owned("cron expression has no run within one year")));
            }
        }
        t = t + 60000;
        k = k + 1;
    }
    Err(SchedulerError::Invalid(owned("cron expression has no run within one year")))
}

/// `s` begins with `p`.
pub open spec fn has_prefix(s: Seq<char>, p: Seq<char>) -> bool {
    p.len() <= s.len() && s.take(p.len() as int) =~= p
}

/// `s` ends with `p`.
pub open spec fn has_suffix(s: Seq<char>, p: Seq<char>) -> bool {
    p.len() <= s.len() && s.skip(s.len() - p.len()) =~= p
}

/// `i64::from_str`: an optional sign, then one or more ASCII digits, within
/// the range of `i64`.
pub open spec fn parse_i64_spec(s: Seq<char>) -> Option<int> {
    if s.len() > 0 && s[0] == '-' {
        let d = s.drop_first();
        if d.len() > 0 && d[0] != '+' {
            match parse_unsigned_spec(d, 0x8000_0000_0000_0000nat) {
                Some(v) => Some(-v),
                None => None,
            }
        } else {
            None
        }
    } else {
        match parse_unsigned_spec(s, 0x7fff_ffff_ffff_ffffnat) {
            Some(v) => Some(v as int),
            None => None,
        }
    }
}

/// Parses a signed 64-bit decimal number as `i64::from_str` does.
pub fn parse_i64(v: &[char]) -> (r: Option<i64>)
    ensures
        match r {
            Some(x) => parse_i64_spec(v@) == Some(x as int),
            None => parse_i64_spec(v@) is None,
        },
{
    if v.len() > 0 && v[0] == '-' {
        let d = slice_chars(v, 1, v.len());
        assert(d@ =~= v@.drop_first());
        if d.len() > 0 && d[0] != '+' {
            match parse_unsigned_chars(&d, 0x8000_0000_0000_0000) {
                Some(u) => {
                    if u == 0x8000_0000_0000_0000 {
                        Some(i64::MIN)
                    } else {
                        Some(-(u as i64))
                    }
                },
                None => None,
            }
        } else {
            None
        }
    } else {
        match parse_unsigned_chars(v, 0x7fff_ffff_ffff_ffff) {
            Some(u) => Some(u as i64),
            None => None,
        }
    }
}

/// An interval of `digits` units of `unit` milliseconds after `from`:
/// `invalid` when the amount is not a number, and an error when the instant
/// it reaches cannot be represented.
pub open spec fn interval_outcome(digits: Seq<char>, unit: int, from: int, invalid: Seq<char>) -> RunAt {
    match parse_i64_spec(digits) {
        None => RunAt::Invalid(invalid),
        Some(n) => {
            let t = from + n * unit;
            if i64::MIN <= t <= i64::MAX && utc_calendar(t as i64) is Some {
                RunAt::At(t)
            } else {
                RunAt::Invalid("interval is out of range"@)
            }
        },
    }
}

/// The next run of a schedule expression after `from`, with the optional
/// time zone of a cron expression. `once:<rfc3339>` names one instant;
/// `<n>ms`, `<n>s`, `<n>m`, `<n>h` and `<n>d` are intervals counted from
/// `from`; anything else is a cron expression, which only UTC may qualify.
pub open spec fn next_run_spec(expr: Seq<char>, timezone: Option<Seq<char>>, from: int) -> RunAt {
    if has_prefix(expr, "once:"@) {
        match rfc3339_millis(expr.skip(5)) {
            Ok(v) => RunAt::At(v as int),
            Err(m) => RunAt::Invalid(m),
        }
    } else if has_suffix(expr, "ms"@) {
        interval_outcome(expr.take(expr.len() - 2), 1, from, "interval must be numeric milliseconds"@)
    } else if has_suffix(expr, seq!['s']) {
        interval_outcome(expr.drop_last(), 1000, from, "interval must be numeric seconds"@)
    } else if has_suffix(expr, seq!['m']) {
        interval_outcome(expr.drop_last(), 60000, from, "interval must be numeric minutes"@)
    } else if has_suffix(expr, seq!['h']) {
        interval_outcome(expr.drop_last(), 3600000, from, "interval must be numeric hours"@)
    } else if has_suffix(expr, seq!['d']) {
        interval_outcome(expr.drop_last(), 86400000, from, "interval must be numeric days"@)
    } else if timezone matches Some(z) && z != "UTC"@ && z != "Etc/UTC"@ {
        RunAt::Unsupported("only UTC timezone is supported by the Rust adapter"@)
    } else {
        cron_next_spec(expr, from)
    }
}

fn interval_run(digits: &[char], unit: i64, from: i64, invalid: &str) -> (r: Result<i64, SchedulerError>)
    requires
        1 <= unit <= 86400000,
    ensures
        run_at_of(r) == interval_outcome(digits@, unit as int, from as int, invalid@),
{
    match parse_i64(digits) {
        None => Err(SchedulerError::Invalid(owned(invalid))),
        Some(n) => {
            assert(-0x8000_0000_0000_0000 * 86400000 <= n * unit <= 0x7fff_ffff_ffff_ffff * 86400000)
                by (nonlinear_arith)
                requires
                    i64::MIN <= n <= i64::MAX,
                    1 <= unit <= 86400000,
            ;
            let t: i128 = from as i128 + (n as i128) * (unit as i128);
            if t < i64::MIN as i128 || t > i64::MAX as i128 {
                return Err(SchedulerError::Invalid(owned("interval is out of range")));
            }
            let t = t as i64;
            match calendar_at(t) {
                Some(_) => Ok(t),
                None => Err(SchedulerError::Invalid(owned("interval is out of range"))),
            }
        },
    }
}

fn ends_with_char(v: &[char], c: char) -> (r: bool)
    ensures
        r == has_suffix(v@, seq![c]),
{
    if v.len() > 0 && v[v.len() - 1] == c {
        assert(v@.skip(v@.len() - 1) =~= seq![c]);
        true
    } else {
        if v.len() > 0 {
            assert(v@.skip(v@.len() - 1)[0] == v@[v@.len() - 1]);
        }
        false
    }
}

/// The next run of a schedule expression after `from`; see
/// `next_run_spec`.
pub fn next_run(expression: &str, timezone: Option<&str>, from: i64) -> (r: Result<i64, SchedulerError>)
    ensures
        run_at_of(r) == next_run_spec(
            expression@,
            match timezone {
                Some(z) => Some(z@),
                None => None,
            },
            from as int,
        ),
{
    let v = chars_of(expression);
    let n = v.len();
    proof {
        reveal_strlit("once:");
        reveal_strlit("ms");
    }
    if n >= 5 && v[0] == 'o' && v[1] == 'n' && v[2] == 'c' && v[3] == 'e' && v[4] == ':' {
        assert(v@.take(5) =~= "once:"@);
        let rest = slice_chars(&v, 5, n);
        assert(rest@ =~= v@.skip(5));
        let text = crate::text::string_of(&rest);
        return match parse_rfc3339(text.as_str()) {
            Ok(t) => Ok(t),
            Err(m) => Err(SchedulerError::Invalid(m)),
        };
    }
    assert(!has_prefix(v@, "once:"@)) by {
        if has_prefix(v@, "once:"@) {
            assert(v@.take(5)[0] == 'o' && v@.take(5)[1] == 'n' && v@.take(5)[2] == 'c');
            assert(v@.take(5)[3] == 'e' && v@.take(5)[4] == ':');
        }
    }
    if n >= 2 && v[n - 2] == 'm' && v[n - 1] == 's' {
        assert(v@.skip(n - 2) =~= "ms"@);
        let digits = slice_chars(&v, 0, n - 2);
        assert(digits@ =~= v@.take(n - 2));
        return interval_run(&digits, 1, from, "interval must be numeric milliseconds");
    }
    assert(!has_suffix(v@, "ms"@)) by {
        if has_suffix(v@, "ms"@) {
            assert(v@.skip(n - 2)[0] == v@[n - 2]);
            assert(v@.skip(n - 2)[1] == v@[n - 1]);
        }
    }
    let digits = if n > 0 { slice_chars(&v, 0, n - 1) } else { Vec::new() };
    assert(n > 0 ==> digits@ =~= v@.drop_last());
    if ends_with_char(&v, 's') {
        return interval_run(&digits, 1000, from, "interval must be numeric seconds");
    }
    if ends_with_char(&v, 'm') {
        return interval_run(&digits, 60000, from, "interval must be numeric minutes");
    }
    if ends_with_char(&v, 'h') {
        return interval_run(&digits, 3600000, from, "interval must be numeric hours");
    }
    if ends_with_char(&v, 'd') {
        return interval_run(&digits, 86400000, from, "interval must be numeric days");
    }
    if let Some(z) = timezone {
        if !crate::text::text_eq(z, "UTC") && !crate::text::text_eq(z, "Etc/UTC") {
            return Err(SchedulerError::Unsupported(owned("only UTC timezone is supported by the Rust adapter")));
        }
    }
    cron_next(expression, from)
}

/// RFC 3339 text of the UTC instant `millis` milliseconds after the Unix
/// epoch, or `None` where chrono cannot represent the instant.
pub uninterp spec fn rfc3339_text(millis: i64) -> Option<Seq<char>>;

/// Formats a UTC instant with chrono's `DateTime::to_rfc3339`. Claimed: the
/// result is `rfc3339_text(millis)`.
#[verifier::external_body]
fn format_rfc3339(millis: i64) -> (r: Option<String>)
    ensures
        match r {
            Some(t) => rfc3339_text(millis) == Some(t@),
            None => rfc3339_text(millis) is None,
        },
{
    match chrono::DateTime::from_timestamp_millis(millis) {
        Some(t) => Some(t.to_rfc3339()),
        None => None,
    }
}

/// The expression a new schedule is stored under: exactly one of a cron or
/// interval expression and an interval given in milliseconds, which is
/// written `<millis>ms`; a queue and a job type are required.
pub fn schedule_expression(
    queue: &str,
    job_type: &str,
    expression: Option<&str>,
    interval_ms: Option<u128>,
) -> (r: Result<String, SchedulerError>)
    ensures
        (queue@.len() == 0 || job_type@.len() == 0) ==> (r matches Err(SchedulerError::Invalid(m))
            && m@ == "queue and job_type are required"@),
        (queue@.len() > 0 && job_type@.len() > 0) ==> match (expression, interval_ms) {
            (Some(e), None) => r matches Ok(x) && x@ == e@,
            (None, Some(ms)) => r matches Ok(x) && x@ == crate::parse::decimal_seq(ms as nat) + "ms"@,
            _ => r matches Err(SchedulerError::Invalid(m)) && m@ == "provide exactly one expression or interval"@,
        },
{
    if queue.unicode_len() == 0 || job_type.unicode_len() == 0 {
        return Err(SchedulerError::Invalid(owned("queue and job_type are required")));
    }
    match (expression, interval_ms) {
        (Some(e), None) => Ok(owned(e)),
        (None, Some(ms)) => {
            let digits = crate::parse::decimal_chars_wide(ms);
            let mut x = crate::text::string_of(&digits);
            push_text(&mut x, "ms");
            Ok(x)
        },
        _ => Err(SchedulerError::Invalid(owned("provide exactly one expression or interval"))),
    }
}

/// A stored schedule. Times are RFC 3339 texts; the payload and metadata
/// are JSON texts.
#[derive(Debug, Clone)]
pub struct Schedule {
    pub id: String,
    pub expression: String,
    pub timezone: Option<String>,
    pub queue: String,
    pub job_type: String,
    pub payload: String,
    pub enabled: bool,
    pub next_run_at: String,
    pub last_run_at: Option<String>,
    pub last_status: Option<ScheduleStatus>,
    pub last_error: Option<String>,
    pub last_duration_ms: Option<u64>,
    pub run_count: u64,
    pub fail_count: u64,
    pub consecutive_fails: u32,
    pub max_consecutive_fails: u32,
    pub created_at: String,
    pub updated_at: String,
    pub metadata: Option<String>,
}

/// The time zone of a schedule, by its view.
pub open spec fn zone_view(z: Option<String>) -> Option<Seq<char>> {
    match z {
        Some(t) => Some(t@),
        None => None,
    }
}

impl Schedule {
    /// Records a run that the queue accepted, or already held under the
    /// run's idempotency key: the run is counted and marked running, and
    /// the schedule moves to its next run. A one-off schedule is disabled
    /// instead and keeps its run time. Fails, leaving the counters already
    /// updated, when the next run cannot be computed or written.
    pub fn record_enqueued(&mut self, run_at: i64, run_at_text: String, updated_at: String) -> (r: Result<(), SchedulerError>)
        requires
            old(self).run_count < u64::MAX,
        ensures
            final(self).run_count == old(self).run_count + 1,
            final(self).fail_count == old(self).fail_count,
            final(self).consecutive_fails == old(self).consecutive_fails,
            final(self).last_status == Some(ScheduleStatus::Running),
            final(self).last_run_at == Some(run_at_text),
            final(self).last_error is None,
            final(self).expression == old(self).expression,
            final(self).timezone == old(self).timezone,
            final(self).id == old(self).id,
            final(self).queue == old(self).queue,
            final(self).max_consecutive_fails == old(self).max_consecutive_fails,
            has_prefix(old(self).expression@, "once:"@) ==> {
                &&& r is Ok
                &&& !final(self).enabled
                &&& final(self).next_run_at == old(self).next_run_at
                &&& final(self).updated_at == updated_at
            },
            !has_prefix(old(self).expression@, "once:"@) ==> {
                &&& final(self).enabled == old(self).enabled
                &&& match next_run_spec(old(self).expression@, zone_view(old(self).timezone), run_at as int) {
                    RunAt::At(t) => match rfc3339_text(t as i64) {
                        Some(text) => r is Ok && final(self).next_run_at@ == text && final(self).updated_at
                            == updated_at,
                        None => r is Err,
                    },
                    _ => r is Err,
                }
            },
    {
        self.run_count = self.run_count + 1;
        self.last_status = Some(ScheduleStatus::Running);
        self.last_run_at = Some(run_at_text);
        self.last_error = None;
        let v = chars_of(self.expression.as_str());
        proof {
            reveal_strlit("once:");
        }
        let once = v.len() >= 5 && v[0] == 'o' && v[1] == 'n' && v[2] == 'c' && v[3] == 'e' && v[4] == ':';
        assert(once == has_prefix(v@, "once:"@)) by {
            if once {
                assert(v@.take(5) =~= "once:"@);
            }
            if has_prefix(v@, "once:"@) {
                assert(v@.take(5)[0] == 'o' && v@.take(5)[1] == 'n' && v@.take(5)[2] == 'c');
                assert(v@.take(5)[3] == 'e' && v@.take(5)[4] == ':');
            }
        }
        if once {
            self.enabled = false;
        } else {
            let zone: Option<&str> = match &self.timezone {
                Some(z) => Some(z.as_str()),
                None => None,
            };
            let next = next_run(self.expression.as_str(), zone, run_at);
            match next {
                Ok(t) => match format_rfc3339(t) {
                    Some(text) => {
                        self.next_run_at = text;
                    },
                    None => {
                        return Err(SchedulerError::Invalid(owned("invalid cron time")));
                    },
                },
                Err(e) => {
                    return Err(e);
                },
            }
        }
        self.updated_at = updated_at;
        Ok(())
    }

    /// Records a run that the queue refused: the failure is counted and
    /// kept, and the schedule is disabled once its consecutive failures
    /// reach its limit.
    pub fn record_failure(&mut self, error: String, run_at_text: String, updated_at: String)
        requires
            old(self).fail_count < u64::MAX,
            old(self).consecutive_fails < u32::MAX,
        ensures
            final(self).fail_count == old(self).fail_count + 1,
            final(self).consecutive_fails == old(self).consecutive_fails + 1,
            final(self).run_count == old(self).run_count,
            final(self).last_error == Some(error),
            final(self).last_run_at == Some(run_at_text),
            final(self).updated_at == updated_at,
            final(self).next_run_at == old(self).next_run_at,
            final(self).max_consecutive_fails == old(self).max_consecutive_fails,
            final(self).consecutive_fails >= old(self).max_consecutive_fails ==> {
                &&& !final(self).enabled
                &&& final(self).last_status == Some(ScheduleStatus::Disabled)
            },
            final(self).consecutive_fails < old(self).max_consecutive_fails ==> {
                &&& final(self).enabled == old(self).enabled
                &&& final(self).last_status == Some(ScheduleStatus::Failed)
            },
    {
        self.fail_count = self.fail_count + 1;
        self.consecutive_fails = self.consecutive_fails + 1;
        self.last_status = Some(ScheduleStatus::Failed);
        self.last_error = Some(error);
        self.last_run_at = Some(run_at_text);
        if self.consecutive_fails >= self.max_consecutive_fails {
            self.enabled = false;
            self.last_status = Some(ScheduleStatus::Disabled);
        }
        self.updated_at = updated_at;
    }

    /// Pauses the schedule.
    pub fn pause(&mut self, updated_at: String)
        ensures
            !final(self).enabled,
            final(self).updated_at == updated_at,
            final(self).next_run_at == old(self).next_run_at,
            final(self).run_count == old(self).run_count,
            final(self).fail_count == old(self).fail_count,
    {
        self.enabled = false;
        self.updated_at = updated_at;
    }

    /// Resumes the schedule from `now`: it is enabled again and its next run
    /// is computed afresh. Fails, leaving the schedule unchanged, when the
    /// next run cannot be computed or written.
    pub fn resume(&mut self, now: i64, updated_at: String) -> (r: Result<(), SchedulerError>)
        ensures
            match next_run_spec(old(self).expression@, zone_view(old(self).timezone), now as int) {
                RunAt::At(t) => match rfc3339_text(t as i64) {
                    Some(text) => {
                        &&& r is Ok
                        &&& final(self).enabled
                        &&& final(self).next_run_at@ == text
                        &&& final(self).updated_at == updated_at
                        &&& final(self).expression == old(self).expression
                        &&& final(self).run_count == old(self).run_count
                    },
                    None => r is Err && *final(self) == *old(self),
                },
                _ => r is Err && *final(self) == *old(self),
            },
    {
        let zone: Option<&str> = match &self.timezone {
            Some(z) => Some(z.as_str()),
            None => None,
        };
        let next = next_run(self.expression.as_str(), zone, now);
        match next {
            Ok(t) => match format_rfc3339(t) {
                Some(text) => {
                    self.enabled = true;
                    self.next_run_at = text;
                    self.updated_at = updated_at;
                    Ok(())
                },
                None => Err(SchedulerError::Invalid(owned("invalid cron time"))),
            },
            Err(e) => Err(e),
        }
    }
}

/// Totals over the stored schedules.
#[derive(Debug, Clone)]
pub struct SchedulerStats {
    pub total: usize,
    pub enabled: usize,
    pub disabled: usize,
    pub running: usize,
    pub next_run: Option<(String, String)>,
}

/// Strict lexicographic order of texts, character by character.
pub open spec fn text_lt(a: Seq<char>, b: Seq<char>) -> bool
    decreases a.len(),
{
    if a.len() == 0 {
        b.len() > 0
    } else if b.len() == 0 {
        false
    } else if a[0] < b[0] {
        true
    } else if a[0] > b[0] {
        false
    } else {
        text_lt(a.drop_first(), b.drop_first())
    }
}

/// Compares two texts in lexicographic order.
pub fn text_less(a: &str, b: &str) -> (r: bool)
    ensures
        r == text_lt(a@, b@),
{
    let x = chars_of(a);
    let y = chars_of(b);
    let mut i: usize = 0;
    assert(x@.skip(0) =~= x@);
    assert(y@.skip(0) =~= y@);
    while i < x.len() && i < y.len()
        invariant
            i <= x.len(),
            i <= y.len(),
            text_lt(x@, y@) == text_lt(x@.skip(i as int), y@.skip(i as int)),
            x@ == a@,
            y@ == b@,
        decreases x.len() - i,
    {
        let c = x[i];
        let d = y[i];
        assert(x@.skip(i as int)[0] == x@[i as int]);
        assert(y@.skip(i as int)[0] == y@[i as int]);
        if c < d {
            return true;
        }
        if c > d {
            return false;
        }
        assert(x@.skip(i as int).drop_first() =~= x@.skip(i + 1));
        assert(y@.skip(i as int).drop_first() =~= y@.skip(i + 1));
        i = i + 1;
    }
    assert(x@.skip(i as int).len() == x.len() - i);
    i == x.len() && i < y.len()
}

/// Number of enabled schedules among the first `n`.
pub open spec fn enabled_count(s: Seq<Schedule>, n: int) -> nat
    decreases n,
{
    if n <= 0 {
        0
    } else {
        enabled_count(s, n - 1) + if s[n - 1].enabled { 1nat } else { 0nat }
    }
}

/// `m` is the first enabled schedule whose next run is earliest among the
/// enabled ones of the first `n`.
pub open spec fn is_first_earliest(s: Seq<Schedule>, n: int, m: int) -> bool {
    &&& 0 <= m < n
    &&& s[m].enabled
    &&& forall|j: int| 0 <= j < n && s[j].enabled ==> !text_lt(#[trigger] s[j].next_run_at@, s[m].next_run_at@)
    &&& forall|j: int| 0 <= j < m && s[j].enabled ==> text_lt(s[m].next_run_at@, #[trigger] s[j].next_run_at@)
}

/// Lexicographic text order is total and irreflexive: of two different
/// texts one comes first, and never both.
pub proof fn lemma_text_lt_total(a: Seq<char>, b: Seq<char>)
    ensures
        a != b ==> (text_lt(a, b) || text_lt(b, a)),
        !(text_lt(a, b) && text_lt(b, a)),
        !text_lt(a, a),
    decreases a.len(),
{
    if a.len() > 0 && b.len() > 0 {
        lemma_text_lt_total(a.drop_first(), b.drop_first());
        if a != b && a[0] == b[0] {
            assert(a.drop_first() != b.drop_first()) by {
                if a.drop_first() =~= b.drop_first() {
                    assert forall|k: int| 0 <= k < a.len() implies a[k] == b[k] by {
                        if k > 0 {
                            assert(a[k] == a.drop_first()[k - 1]);
                            assert(b[k] == b.drop_first()[k - 1]);
                        }
                    }
                    assert(a =~= b);
                }
            }
        }
    } else if a.len() == 0 && b.len() == 0 {
        assert(a =~= b);
    }
    if a.len() > 0 {
        lemma_text_lt_total(a.drop_first(), a.drop_first());
    }
}

/// Lexicographic text order is transitive.
pub proof fn lemma_text_lt_trans(a: Seq<char>, b: Seq<char>, c: Seq<char>)
    requires
        text_lt(a, b),
        text_lt(b, c),
    ensures
        text_lt(a, c),
    decreases a.len(),
{
    if a.len() > 0 && b.len() > 0 && c.len() > 0 {
        if a[0] == b[0] && b[0] == c[0] {
            lemma_text_lt_trans(a.drop_first(), b.drop_first(), c.drop_first());
        }
    }
}

/// Totals over `schedules`: how many there are, how many are enabled and
/// disabled, how many runs are being enqueued, and the id and next run of
/// the first enabled schedule whose next run text is smallest.
pub fn schedule_stats(schedules: &Vec<Schedule>, running: usize) -> (r: SchedulerStats)
    ensures
        r.total == schedules@.len(),
        r.enabled == enabled_count(schedules@, schedules@.len() as int),
        r.disabled == r.total - r.enabled,
        r.running == running,
        match r.next_run {
            None => forall|j: int| 0 <= j < schedules@.len() ==> !(#[trigger] schedules@[j]).enabled,
            Some((id, at)) => exists|m: int| {
                &&& is_first_earliest(schedules@, schedules@.len() as int, m)
                &&& id@ == schedules@[m].id@
                &&& at@ == #[trigger] schedules@[m].next_run_at@
            },
        },
{
    let mut enabled: usize = 0;
    let mut best: Option<usize> = None;
    let mut i: usize = 0;
    while i < schedules.len()
        invariant
            i <= schedules@.len(),
            enabled == enabled_count(schedules@, i as int),
            enabled <= i,
            match best {
                None => forall|j: int| 0 <= j < i ==> !(#[trigger] schedules@[j]).enabled,
                Some(m) => is_first_earliest(schedules@, i as int, m as int),
            },
        decreases schedules@.len() - i,
    {
        let s = &schedules[i];
        if s.enabled {
            enabled = enabled + 1;
            match best {
                None => {
                    proof {
                        lemma_text_lt_total(s.next_run_at@, s.next_run_at@);
                    }
                    best = Some(i);
                },
                Some(m) => {
                    if text_less(s.next_run_at.as_str(), schedules[m].next_run_at.as_str()) {
                        proof {
                            let a = schedules@[i as int].next_run_at@;
                            lemma_text_lt_total(a, a);
                            assert forall|j: int| 0 <= j < i + 1 && schedules@[j].enabled implies !text_lt(
                                #[trigger] schedules@[j].next_run_at@,
                                a,
                            ) by {
                                let bj = schedules@[j].next_run_at@;
                                let bm = schedules@[m as int].next_run_at@;
                                lemma_text_lt_total(bj, a);
                                if j < i && text_lt(bj, a) {
                                    lemma_text_lt_trans(bj, a, bm);
                                }
                            }
                            assert forall|j: int| 0 <= j < i && schedules@[j].enabled implies text_lt(
                                a,
                                #[trigger] schedules@[j].next_run_at@,
                            ) by {
                                let bj = schedules@[j].next_run_at@;
                                let bm = schedules@[m as int].next_run_at@;
                                lemma_text_lt_total(bj, bm);
                                if text_lt(bm, bj) {
                                    lemma_text_lt_trans(a, bm, bj);
                                } else {
                                    lemma_text_lt_total(bm, bj);
                                }
                            }
                        }
                        best = Some(i);
                    } else {
                        proof {
                            let a = schedules@[i as int].next_run_at@;
                            let bm = schedules@[m as int].next_run_at@;
                            lemma_text_lt_total(a, bm);
                        }
                    }
                },
            }
        }
        i = i + 1;
    }
    assert(i == schedules@.len());
    match best {
        Some(m) => {
            let id = owned(schedules[m].id.as_str());
            let at = owned(schedules[m].next_run_at.as_str());
            assert(at@ == schedules@[m as int].next_run_at@);
            SchedulerStats {
                total: schedules.len(),
                enabled,
                disabled: schedules.len() - enabled,
                running,
                next_run: Some((id, at)),
            }
        },
        None => SchedulerStats {
            total: schedules.len(),
            enabled,
            disabled: schedules.len() - enabled,
            running,
            next_run: None,
        },
    }
}

proof fn lemma_cron_search_after(f: Seq<Seq<char>>, start: int, k: nat)
    requires
        start % 60000 == 0,
    ensures
        cron_search(f, start, k) matches RunAt::At(t) ==> t >= start && t % 60000 == 0,
    decreases CRON_SEARCH_MINUTES - k,
{
    if k < CRON_SEARCH_MINUTES {
        let t = start + k * 60000;
        assert((start + k * 60000) % 60000 == 0) by {
            vstd::arithmetic::div_mod::lemma_mod_multiples_vanish(k as int, start, 60000);
        }
        lemma_cron_search_after(f, start, k + 1);
    }
}

/// A cron expression's next run lies strictly after the instant it is
/// computed from, at the start of a minute.
pub proof fn lemma_cron_next_is_later_minute(expr: Seq<char>, from: int)
    ensures
        cron_next_spec(expr, from) matches RunAt::At(t) ==> t > from && t % 60000 == 0,
{
    let start = minute_floor(from + 60000);
    vstd::arithmetic::div_mod::lemma_fundamental_div_mod(from + 60000, 60000);
    assert(start % 60000 == 0) by {
        vstd::arithmetic::div_mod::lemma_mod_multiples_basic((from + 60000) / 60000, 60000);
    }
    assert(start > from);
    let parts = words_seq(expr);
    let f = if parts.len() == 5 { parts } else { parts.drop_first() };
    lemma_cron_search_after(f, start, 0);
}

/// The idempotency key of a schedule's due run: the schedule and the run
/// time it is due at, so that enqueueing the same occurrence twice names
/// the same queue entry.
pub open spec fn run_key_text(id: Seq<char>, next_run_at: Seq<char>) -> Seq<char> {
    "schedule:"@ + id + ":"@ + next_run_at
}

impl Schedule {
    /// The idempotency key of the schedule's due run.
    pub fn run_key(&self) -> (r: String)
        ensures
            r@ == run_key_text(self.id@, self.next_run_at@),
    {
        let mut t = owned("schedule:");
        push_text(&mut t, self.id.as_str());
        push_text(&mut t, ":");
        push_text(&mut t, self.next_run_at.as_str());
        t
    }
}

/// Two schedules due at the same occurrence share a run key, and schedules
/// with different ids never do.
pub proof fn lemma_run_key_identifies_occurrence(a: Seq<char>, at_a: Seq<char>, b: Seq<char>, at_b: Seq<char>)
    requires
        !a.contains(':'),
        !b.contains(':'),
    ensures
        (a == b && at_a == at_b) ==> run_key_text(a, at_a) == run_key_text(b, at_b),
        a != b ==> run_key_text(a, at_a) != run_key_text(b, at_b),
{
    reveal_strlit("schedule:");
    reveal_strlit(":");
    if a != b && run_key_text(a, at_a) == run_key_text(b, at_b) {
        let ka = run_key_text(a, at_a);
        let p = "schedule:"@;
        assert(ka.subrange(9, 9 + a.len() as int) =~= a);
        assert(ka[9 + a.len() as int] == ':');
        assert(run_key_text(b, at_b).subrange(9, 9 + b.len() as int) =~= b);
        assert(run_key_text(b, at_b)[9 + b.len() as int] == ':');
        if a.len() < b.len() {
            assert(b[a.len() as int] == ':');
            assert(b.contains(':'));
        } else if b.len() < a.len() {
            assert(a[b.len() as int] == ':');
            assert(a.contains(':'));
        } else {
            assert(a =~= b);
        }
    }
}

/// The first stored form of a cron or interval schedule: no runs yet, at
/// least one failure allowed before it is disabled, and its creation time
/// kept from the schedule it replaces, if any.
pub fn new_schedule(
    id: String,
    expression: String,
    timezone: Option<String>,
    queue: String,
    job_type: String,
    payload: String,
    enabled: bool,
    next_run_at: String,
    max_consecutive_fails: u32,
    metadata: Option<String>,
    replaced_created_at: Option<String>,
    now: String,
) -> (r: Schedule)
    ensures
        r.id == id && r.expression == expression && r.timezone == timezone,
        r.queue == queue && r.job_type == job_type && r.payload == payload,
        r.enabled == enabled && r.next_run_at == next_run_at && r.metadata == metadata,
        r.last_run_at is None && r.last_status is None && r.last_error is None && r.last_duration_ms is None,
        r.run_count == 0 && r.fail_count == 0 && r.consecutive_fails == 0,
        r.max_consecutive_fails == (if max_consecutive_fails == 0 { 1 } else { max_consecutive_fails }),
        r.created_at == (match replaced_created_at {
            Some(c) => c,
            None => now,
        }),
        r.updated_at == now,
{
    let created_at = match replaced_created_at {
        Some(c) => c,
        None => now.clone(),
    };
    Schedule {
        id,
        expression,
        timezone,
        queue,
        job_type,
        payload,
        enabled,
        next_run_at,
        last_run_at: None,
        last_status: None,
        last_error: None,
        last_duration_ms: None,
        run_count: 0,
        fail_count: 0,
        consecutive_fails: 0,
        max_consecutive_fails: if max_consecutive_fails == 0 { 1 } else { max_consecutive_fails },
        created_at,
        updated_at: now,
        metadata,
    }
}

/// The first stored form of a one-off schedule at `run_at` (an RFC 3339
/// text): expression `once:<run_at>`, enabled, disabled by its first
/// failure.
pub fn once_schedule(
    id: String,
    run_at: String,
    queue: String,
    job_type: String,
    payload: String,
    metadata: Option<String>,
    replaced_created_at: Option<String>,
    now: String,
) -> (r: Schedule)
    ensures
        r.id == id && r.expression@ == "once:"@ + run_at@ && r.timezone is None,
        r.queue == queue && r.job_type == job_type && r.payload == payload,
        r.enabled && r.next_run_at == run_at && r.metadata == metadata,
        r.last_run_at is None && r.last_status is None && r.last_error is None && r.last_duration_ms is None,
        r.run_count == 0 && r.fail_count == 0 && r.consecutive_fails == 0,
        r.max_consecutive_fails == 1,
        r.created_at == (match replaced_created_at {
            Some(c) => c,
            None => now,
        }),
        r.updated_at == now,
{
    let mut expression = owned("once:");
    push_text(&mut expression, run_at.as_str());
    new_schedule(id, expression, None, queue, job_type, payload, true, run_at, 1, metadata, replaced_created_at, now)
}

} // verus!

verus! {

/// A non-empty run of ASCII digits.
pub open spec fn digit_run(s: Seq<char>) -> bool {
    s.len() > 0 && forall|i: int| 0 <= i < s.len() ==> crate::parse::is_digit(#[trigger] s[i])
}

/// A cron range `a-b` (two runs of digits, each at most `u32::MAX`) admits
/// a value exactly when it lies between the two ends, both ends included;
/// as the only piece of a field it decides the field.
pub proof fn lemma_range_piece(a: Seq<char>, b: Seq<char>, value: u32, min: u32, max: u32)
    requires
        digit_run(a),
        digit_run(b),
        crate::parse::digits_value(a) <= u32_max(),
        crate::parse::digits_value(b) <= u32_max(),
    ensures
        part_matches(a + seq!['-'] + b, value, min, max) <==> (crate::parse::digits_value(a) <= value
            && value <= crate::parse::digits_value(b)),
        field_matches_spec(a + seq!['-'] + b, value, min, max) <==> (crate::parse::digits_value(a) <= value
            && value <= crate::parse::digits_value(b)),
{
    let p = a + seq!['-'] + b;
    assert(crate::parse::is_digit(a[0]));
    assert(p[0] == a[0]);
    assert forall|j: int| 0 <= j < a.len() implies p[j] != '-' by {
        assert(p[j] == a[j]);
        assert(crate::parse::is_digit(a[j]));
    }
    crate::text::lemma_first_index_is(p, '-', a.len() as int);
    assert(p.subrange(0, a.len() as int) =~= a);
    assert(p.subrange(a.len() as int + 1, p.len() as int) =~= b);
    assert(crate::parse::unsigned_digits(a) == a);
    assert(crate::parse::unsigned_digits(b) == b);
    assert forall|j: int| 0 <= j < p.len() implies p[j] != ',' by {
        if j < a.len() {
            assert(p[j] == a[j]);
            assert(crate::parse::is_digit(a[j]));
        } else if j > a.len() {
            assert(p[j] == b[j - a.len() - 1]);
            assert(crate::parse::is_digit(b[j - a.len() - 1]));
        }
    }
    crate::text::lemma_first_index_is(p, ',', p.len() as int);
    assert(split_seq(p, ',') =~= seq![p]);
    assert(!(p =~= seq!['*'])) by {
        if p =~= seq!['*'] {
            assert(p.len() == 1);
        }
    }
    if part_matches(p, value, min, max) {
        assert(part_matches(split_seq(p, ',')[0], value, min, max));
    }
}

/// A cron piece that is one number admits exactly that number, when it lies
/// within the field's bounds.
pub proof fn lemma_single_piece(a: Seq<char>, value: u32, min: u32, max: u32)
    requires
        digit_run(a),
        crate::parse::digits_value(a) <= u32_max(),
    ensures
        part_matches(a, value, min, max) <==> (crate::parse::digits_value(a) == value && min <= value
            && value <= max),
{
    assert(crate::parse::is_digit(a[0]));
    assert forall|j: int| 0 <= j < a.len() implies a[j] != '-' by {
        assert(crate::parse::is_digit(a[j]));
    }
    crate::text::lemma_first_index_is(a, '-', a.len() as int);
    assert(crate::parse::unsigned_digits(a) == a);
}

/// A cron piece `*/n` admits the values that lie a multiple of `n` above
/// the field's minimum, and nothing when `n` is zero.
pub proof fn lemma_step_piece(a: Seq<char>, value: u32, min: u32, max: u32)
    requires
        digit_run(a),
        crate::parse::digits_value(a) <= u32_max(),
    ensures
        part_matches(seq!['*', '/'] + a, value, min, max) <==> (crate::parse::digits_value(a) > 0 && (value - min)
            % (crate::parse::digits_value(a) as int) == 0),
{
    let p = seq!['*', '/'] + a;
    assert(p.skip(2) =~= a);
    assert(crate::parse::is_digit(a[0]));
    assert(crate::parse::unsigned_digits(a) == a);
}

} // verus!
