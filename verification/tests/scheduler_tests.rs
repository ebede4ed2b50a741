use chrono::{DateTime, TimeZone, Timelike, Utc};

use arqen::scheduler::{
    cron_next, field_matches, new_schedule, next_run, once_schedule, parse_i64, schedule_expression, schedule_stats, weekday_matches, Schedule,
    ScheduleStatus, SchedulerError,
};

fn millis(y: i32, mo: u32, d: u32, h: u32, mi: u32, s: u32) -> i64 {
    Utc.with_ymd_and_hms(y, mo, d, h, mi, s).unwrap().timestamp_millis()
}

fn schedule(id: &str, expression: &str, enabled: bool, next_run_at: &str) -> Schedule {
    Schedule {
        id: id.to_string(),
        expression: expression.to_string(),
        timezone: None,
        queue: "default".to_string(),
        job_type: "job".to_string(),
        payload: "{}".to_string(),
        enabled,
        next_run_at: next_run_at.to_string(),
        last_run_at: None,
        last_status: None,
        last_error: None,
        last_duration_ms: None,
        run_count: 0,
        fail_count: 0,
        consecutive_fails: 0,
        max_consecutive_fails: 2,
        created_at: "2026-01-01T00:00:00+00:00".to_string(),
        updated_at: "2026-01-01T00:00:00+00:00".to_string(),
        metadata: None,
    }
}

#[test]
fn calculates_cron_and_rejects_unsupported_timezone() {
    let from = millis(2026, 1, 1, 12, 0, 0);
    let next = next_run("0 0 * * 0", None, from).unwrap();
    let at = DateTime::from_timestamp_millis(next).unwrap();
    assert_eq!(at.hour(), 0);
    assert!(next > from);
    assert!(matches!(
        next_run("0 0 * * 0", Some("America/Toronto"), from),
        Err(SchedulerError::Unsupported(_))
    ));
}

#[test]
fn cron_finds_next_sunday_midnight() {
    let from = millis(2026, 1, 1, 12, 0, 0);
    assert_eq!(cron_next("0 0 * * 0", from).unwrap(), millis(2026, 1, 4, 0, 0, 0));
    assert_eq!(cron_next("0 0 * * 7", from).unwrap(), millis(2026, 1, 4, 0, 0, 0));
}

#[test]
fn cron_starts_at_the_next_whole_minute() {
    let from = millis(2026, 1, 1, 12, 0, 30);
    assert_eq!(cron_next("* * * * *", from).unwrap(), millis(2026, 1, 1, 12, 1, 0));
    assert_eq!(cron_next("0 * * * * *", from).unwrap(), millis(2026, 1, 1, 12, 1, 0));
    assert_eq!(cron_next("*/15 * * * *", from).unwrap(), millis(2026, 1, 1, 12, 15, 0));
}

#[test]
fn cron_rejects_wrong_field_count() {
    let from = millis(2026, 1, 1, 12, 0, 0);
    match cron_next("* * *", from) {
        Err(SchedulerError::Invalid(m)) => assert_eq!(m, "cron requires 5 or 6 fields"),
        _ => panic!("expected an invalid expression"),
    }
}

#[test]
fn utc_time_zones_are_accepted_for_cron() {
    let from = millis(2026, 1, 1, 12, 0, 0);
    assert_eq!(next_run("30 12 * * *", Some("UTC"), from).unwrap(), millis(2026, 1, 1, 12, 30, 0));
    assert_eq!(next_run("30 12 * * *", Some("Etc/UTC"), from).unwrap(), millis(2026, 1, 1, 12, 30, 0));
}

#[test]
fn intervals_count_from_the_given_instant() {
    let from = millis(2026, 1, 1, 12, 0, 0);
    assert_eq!(next_run("1500ms", None, from).unwrap(), from + 1500);
    assert_eq!(next_run("2s", None, from).unwrap(), from + 2000);
    assert_eq!(next_run("3m", None, from).unwrap(), from + 180_000);
    assert_eq!(next_run("1h", None, from).unwrap(), from + 3_600_000);
    assert_eq!(next_run("1d", None, from).unwrap(), from + 86_400_000);
    assert_eq!(next_run("-1s", None, from).unwrap(), from - 1000);
    match next_run("xs", None, from) {
        Err(SchedulerError::Invalid(m)) => assert_eq!(m, "interval must be numeric seconds"),
        _ => panic!("expected an invalid interval"),
    }
    match next_run("ams", None, from) {
        Err(SchedulerError::Invalid(m)) => assert_eq!(m, "interval must be numeric milliseconds"),
        _ => panic!("expected an invalid interval"),
    }
}

#[test]
fn once_expressions_name_their_instant() {
    let from = millis(2026, 1, 1, 12, 0, 0);
    assert_eq!(next_run("once:2026-02-01T00:00:00Z", None, from).unwrap(), millis(2026, 2, 1, 0, 0, 0));
    assert!(matches!(next_run("once:yesterday", None, from), Err(SchedulerError::Invalid(_))));
}

#[test]
fn cron_fields_accept_steps_ranges_and_lists() {
    assert!(field_matches("*", 7, 0, 59));
    assert!(field_matches("*/15", 30, 0, 59));
    assert!(!field_matches("*/15", 31, 0, 59));
    assert!(!field_matches("*/0", 0, 0, 59));
    assert!(field_matches("1-5", 3, 0, 23));
    assert!(!field_matches("1-5", 6, 0, 23));
    assert!(field_matches("5,10,15", 10, 0, 59));
    assert!(!field_matches("60", 60, 0, 59));
    assert!(field_matches("*/2", 3, 1, 31));
    assert!(weekday_matches("7", 0));
    assert!(weekday_matches("0", 0));
    assert!(!weekday_matches("1-5", 0));
}

#[test]
fn signed_numbers_parse_like_i64() {
    let p = |s: &str| parse_i64(&s.chars().collect::<Vec<char>>());
    assert_eq!(p("42"), Some(42));
    assert_eq!(p("+42"), Some(42));
    assert_eq!(p("-42"), Some(-42));
    assert_eq!(p("-9223372036854775808"), Some(i64::MIN));
    assert_eq!(p("9223372036854775808"), None);
    assert_eq!(p("-+1"), None);
    assert_eq!(p("-"), None);
    assert_eq!(p(""), None);
}

#[test]
fn schedule_expressions_need_exactly_one_form() {
    assert_eq!(schedule_expression("default", "job", Some("*/5 * * * *"), None).unwrap(), "*/5 * * * *");
    assert_eq!(schedule_expression("default", "job", None, Some(1500)).unwrap(), "1500ms");
    match schedule_expression("", "job", None, Some(1)) {
        Err(SchedulerError::Invalid(m)) => assert_eq!(m, "queue and job_type are required"),
        _ => panic!("expected an invalid schedule"),
    }
    match schedule_expression("q", "job", Some("1s"), Some(1)) {
        Err(SchedulerError::Invalid(m)) => assert_eq!(m, "provide exactly one expression or interval"),
        _ => panic!("expected an invalid schedule"),
    }
}

#[test]
fn repeated_failures_disable_a_schedule() {
    let mut s = schedule("s", "1s", true, "2026-01-01T00:00:01+00:00");
    s.record_failure("boom".to_string(), "t1".to_string(), "u1".to_string());
    assert!(s.enabled);
    assert_eq!(s.last_status, Some(ScheduleStatus::Failed));
    s.record_failure("boom".to_string(), "t2".to_string(), "u2".to_string());
    assert!(!s.enabled);
    assert_eq!(s.last_status, Some(ScheduleStatus::Disabled));
    assert_eq!(s.fail_count, 2);
    assert_eq!(s.consecutive_fails, 2);
}

#[test]
fn enqueued_runs_move_to_the_next_run() {
    let mut s = schedule("s", "1s", true, "old");
    let run_at = millis(2026, 1, 1, 0, 0, 0);
    s.record_enqueued(run_at, "run".to_string(), "now".to_string()).unwrap();
    assert_eq!(s.run_count, 1);
    assert_eq!(s.last_status, Some(ScheduleStatus::Running));
    assert_eq!(s.next_run_at, "2026-01-01T00:00:01+00:00");
    let mut once = schedule("o", "once:2026-01-01T00:00:00Z", true, "2026-01-01T00:00:00+00:00");
    once.record_enqueued(run_at, "run".to_string(), "now".to_string()).unwrap();
    assert!(!once.enabled);
    assert_eq!(once.next_run_at, "2026-01-01T00:00:00+00:00");
}

#[test]
fn pause_and_resume() {
    let mut s = schedule("s", "1m", true, "old");
    s.pause("later".to_string());
    assert!(!s.enabled);
    s.resume(millis(2026, 1, 1, 0, 0, 0), "now".to_string()).unwrap();
    assert!(s.enabled);
    assert_eq!(s.next_run_at, "2026-01-01T00:01:00+00:00");
}

#[test]
fn stats_report_the_earliest_enabled_run() {
    let list = vec![
        schedule("a", "1s", true, "2026-01-03T00:00:00+00:00"),
        schedule("b", "1s", false, "2026-01-01T00:00:00+00:00"),
        schedule("c", "1s", true, "2026-01-02T00:00:00+00:00"),
        schedule("d", "1s", true, "2026-01-02T00:00:00+00:00"),
    ];
    let stats = schedule_stats(&list, 1);
    assert_eq!(stats.total, 4);
    assert_eq!(stats.enabled, 3);
    assert_eq!(stats.disabled, 1);
    assert_eq!(stats.running, 1);
    assert_eq!(stats.next_run, Some(("c".to_string(), "2026-01-02T00:00:00+00:00".to_string())));
    assert_eq!(schedule_stats(&vec![], 0).next_run, None);
}

#[test]
fn scheduler_errors_display() {
    assert_eq!(SchedulerError::NotFound("x".to_string()).message(), "schedule 'x' was not found");
    assert_eq!(SchedulerError::NotRunning.message(), "scheduler is not running");
    assert_eq!(SchedulerError::Invalid("bad".to_string()).message(), "invalid schedule: bad");
}

#[test]
fn new_schedules_start_without_runs() {
    let s = new_schedule(
        "nightly".to_string(),
        "0 3 * * *".to_string(),
        Some("UTC".to_string()),
        "default".to_string(),
        "cleanup".to_string(),
        "{}".to_string(),
        true,
        "2025-01-02T03:00:00.000Z".to_string(),
        0,
        None,
        Some("2024-12-01T00:00:00.000Z".to_string()),
        "2025-01-01T00:00:00.000Z".to_string(),
    );
    assert_eq!(s.max_consecutive_fails, 1);
    assert_eq!(s.created_at, "2024-12-01T00:00:00.000Z");
    assert_eq!(s.updated_at, "2025-01-01T00:00:00.000Z");
    assert_eq!(s.run_count, 0);
    assert!(s.last_status.is_none());

    let once = once_schedule(
        "report".to_string(),
        "2025-01-05T10:00:00.000Z".to_string(),
        "default".to_string(),
        "report".to_string(),
        "{}".to_string(),
        None,
        None,
        "2025-01-01T00:00:00.000Z".to_string(),
    );
    assert_eq!(once.expression, "once:2025-01-05T10:00:00.000Z");
    assert_eq!(once.next_run_at, "2025-01-05T10:00:00.000Z");
    assert_eq!(once.created_at, "2025-01-01T00:00:00.000Z");
    assert_eq!(once.max_consecutive_fails, 1);
    assert!(once.enabled && once.timezone.is_none());
}
