use std::time::Duration;

use arqen::jobs::{next_step, ClaimResult, JobConfig, WorkerStep};
use arqen::metrics::JobMetrics;

#[test]
fn test_job_config_default() {
    let config = JobConfig::default();
    assert_eq!(config.queue, "default");
    assert_eq!(Duration::from_secs(config.poll_interval_secs), Duration::from_secs(1));
    assert_eq!(config.lease_seconds, 30);
    assert_eq!(config.max_retries, 3);
    assert_eq!(config.max_concurrency, 1);
}

#[test]
fn job_configs_get_distinct_worker_ids() {
    let a = JobConfig::default();
    let b = JobConfig::default();
    assert_eq!(a.worker_id.len(), 36);
    assert_ne!(a.worker_id, b.worker_id);
}

#[test]
fn worker_steps() {
    assert_eq!(next_step(true, ClaimResult::Claimed(1)), WorkerStep::Stop);
    assert_eq!(next_step(false, ClaimResult::Claimed(1)), WorkerStep::Process { retried: false });
    assert_eq!(next_step(false, ClaimResult::Claimed(2)), WorkerStep::Process { retried: true });
    assert_eq!(next_step(false, ClaimResult::Empty), WorkerStep::Idle);
    assert_eq!(next_step(false, ClaimResult::Failed), WorkerStep::Backoff);
}

#[test]
fn job_counters() {
    let mut m = JobMetrics::zero();
    m.record_job(10, true, true);
    m.record_job(20, false, true);
    m.record_job(30, true, false);
    assert_eq!((m.processed, m.completed, m.failed, m.total_duration_ms), (3, 1, 1, 60));
    assert_eq!(m.avg_duration_ms(), 20);
}

#[test]
fn handler_result_decides_acknowledgement() {
    assert_eq!(arqen::jobs::ack_for(true), arqen::jobs::JobAck::Complete);
    assert_eq!(arqen::jobs::ack_for(false), arqen::jobs::JobAck::Nack);
}
