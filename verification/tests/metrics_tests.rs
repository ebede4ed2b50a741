use arqen::metrics::{JobMetrics, RequestMetrics, RequestTimer, MAX_LATENCY_SAMPLES, MAX_ROUTE_LABELS};

fn avg(m: &RequestMetrics) -> f64 {
    if m.sample_count() == 0 {
        0.0
    } else {
        m.duration_total_ms() as f64 / m.sample_count() as f64
    }
}

#[test]
fn test_new() {
    let m = RequestMetrics::new();
    assert_eq!(m.total_requests(), 0);
}

#[test]
fn test_record() {
    let mut m = RequestMetrics::new();
    m.record("GET", "/health", 200, 10);
    assert_eq!(m.total_requests(), 1);
}

#[test]
fn test_response_size_is_reported() {
    let mut metrics = RequestMetrics::new();
    metrics.record_with_size("GET", "/items", 200, 4, 1024);
    metrics.record_with_size("GET", "/items", 200, 6, 2048);
    let report = metrics.to_report();
    assert_eq!(report.response_bytes_total as f64 / report.sample_count as f64, 1536.0);
}

#[test]
fn test_latency_samples_and_route_labels_are_bounded() {
    let mut m = RequestMetrics::new();
    for index in 0..5000 {
        m.record("GET", &format!("/title/{index}"), 200, index);
    }

    let report = m.to_report();
    assert_eq!(report.requests_total, 5000);
    assert!(report.by_path.len() <= MAX_ROUTE_LABELS + 1);
    assert!(report.max_duration_ms >= 4999 - MAX_LATENCY_SAMPLES as u64);
}

#[test]
fn test_timeout_and_dependency_counters() {
    let mut m = RequestMetrics::new();
    m.record("GET", "/timeout", 504, 10);
    m.record("GET", "/dependency", 502, 11);

    let report = m.to_report();
    assert_eq!(report.requests_timeout, 1);
    assert_eq!(report.requests_dependency_error, 1);
}

#[test]
fn test_record_multiple() {
    let mut m = RequestMetrics::new();
    m.record("GET", "/health", 200, 10);
    m.record("POST", "/agent", 201, 50);
    m.record("GET", "/health", 200, 15);
    assert_eq!(m.total_requests(), 3);
}

#[test]
fn test_status_codes() {
    let mut m = RequestMetrics::new();
    m.record("GET", "/health", 200, 10);
    m.record("GET", "/error", 404, 5);
    m.record("GET", "/fail", 500, 100);
    let r = m.to_report();
    assert_eq!(r.requests_success, 1);
    assert_eq!(r.requests_client_error, 1);
    assert_eq!(r.requests_server_error, 1);
}

#[test]
fn test_avg_duration() {
    let mut m = RequestMetrics::new();
    m.record("GET", "/health", 200, 10);
    m.record("GET", "/health", 200, 20);
    assert_eq!(avg(&m), 15.0);
}

#[test]
fn test_avg_duration_empty() {
    let m = RequestMetrics::new();
    assert_eq!(avg(&m), 0.0);
}

#[test]
fn test_error_rate() {
    let mut m = RequestMetrics::new();
    m.record("GET", "/ok", 200, 10);
    m.record("GET", "/ok", 200, 10);
    m.record("GET", "/fail", 500, 100);
    let r = m.to_report();
    let rate = r.requests_server_error as f64 / r.requests_total as f64;
    assert!((rate - 1.0 / 3.0).abs() < 0.001);
}

#[test]
fn test_error_rate_empty() {
    let m = RequestMetrics::new();
    let r = m.to_report();
    let rate = if r.requests_total == 0 { 0.0 } else { r.requests_server_error as f64 / r.requests_total as f64 };
    assert_eq!(rate, 0.0);
}

#[test]
fn test_uptime() {
    let m = RequestMetrics::new();
    let uptime = m.uptime_seconds();
    assert!(uptime < 2);
}

#[test]
fn test_to_report() {
    let mut m = RequestMetrics::new();
    m.record("GET", "/health", 200, 10);
    let r = m.to_report();
    assert_eq!(r.requests_total, 1);
    assert_eq!(r.requests_success, 1);
    assert_eq!(r.p50_duration_ms, 10);
    assert_eq!(r.p95_duration_ms, 10);
    assert_eq!(r.p99_duration_ms, 10);
    assert_eq!(r.max_duration_ms, 10);
    assert!(r.uptime_seconds < 2);
}

#[test]
fn test_percentiles() {
    let mut m = RequestMetrics::new();
    for i in 1..=100 {
        m.record("GET", "/test", 200, i);
    }
    let r = m.to_report();
    assert_eq!(r.p50_duration_ms, 50);
    assert_eq!(r.p95_duration_ms, 95);
    assert_eq!(r.p99_duration_ms, 99);
    assert_eq!(r.max_duration_ms, 100);
}

#[test]
fn test_by_status() {
    let mut m = RequestMetrics::new();
    m.record("GET", "/ok", 200, 10);
    m.record("GET", "/ok", 200, 10);
    m.record("GET", "/err", 500, 100);
    let r = m.to_report();
    let get = |s: u16| r.by_status.iter().find(|(k, _)| *k == s).map(|(_, c)| *c);
    assert_eq!(get(200), Some(2));
    assert_eq!(get(500), Some(1));
}

#[test]
fn test_timer() {
    let mut m = RequestMetrics::new();
    let t = RequestTimer::start("GET", "/health");
    t.finish(&mut m, 200);
    assert_eq!(m.total_requests(), 1);
}

#[test]
fn window_keeps_the_newest_samples() {
    let mut m = RequestMetrics::new();
    for i in 0..(MAX_LATENCY_SAMPLES as u64 + 10) {
        m.record("GET", "/w", 200, i);
    }
    assert_eq!(m.sample_count(), MAX_LATENCY_SAMPLES);
    let r = m.to_report();
    assert_eq!(r.max_duration_ms, MAX_LATENCY_SAMPLES as u64 + 9);
    let total: u128 = (10..(MAX_LATENCY_SAMPLES as u128 + 10)).sum();
    assert_eq!(r.duration_total_ms, total);
}

#[test]
fn overflow_routes_count_as_other() {
    let mut m = RequestMetrics::new();
    for i in 0..(MAX_ROUTE_LABELS + 3) {
        m.record("GET", &format!("/r/{i}"), 200, 1);
    }
    let r = m.to_report();
    assert_eq!(r.by_path.len(), MAX_ROUTE_LABELS + 1);
    assert!(r.by_path.iter().any(|(p, c)| p == "__other__" && *c == 3));
    m.record("GET", "/r/0", 200, 1);
    let r = m.to_report();
    assert!(r.by_path.iter().any(|(p, c)| p == "/r/0" && *c == 2));
}

#[test]
fn test_job_metrics_default() {
    let metrics = JobMetrics::default();
    assert_eq!(metrics.processed, 0);
    assert_eq!(metrics.completed, 0);
    assert_eq!(metrics.failed, 0);
    assert_eq!(metrics.avg_duration_ms(), 0);
}

#[test]
fn test_job_metrics_avg_duration() {
    let metrics = JobMetrics {
        processed: 10,
        total_duration_ms: 1000,
        ..Default::default()
    };
    assert_eq!(metrics.avg_duration_ms(), 100);
}
