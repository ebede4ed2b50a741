//! Job workers: their settings, what the polling loop does after each claim,
//! and how the processing counters move.
use vstd::prelude::*;
use crate::error::{is_uuid_text, random_uuid_text};
use crate::metrics::JobMetrics;
use crate::text::owned;

verus! {

/// Settings of a job worker.
#[derive(Debug, Clone)]
pub struct JobConfig {
    /// Queue consumed.
    pub queue: String,
    /// Unique identifier of the worker.
    pub worker_id: String,
    /// Pause between polls of an empty queue, in seconds.
    pub poll_interval_secs: u64,
    /// Lease of a claimed job, in seconds.
    pub lease_seconds: u32,
    /// Retries before a job is dead-lettered.
    pub max_retries: u32,
    /// Jobs processed at once.
    pub max_concurrency: u32,
}

impl Default for JobConfig {
    fn default() -> (r: Self)
        ensures
            r.queue@ == "default"@,
            is_uuid_text(r.worker_id@),
            r.poll_interval_secs == 1,
            r.lease_seconds == 30,
            r.max_retries == 3,
            r.max_concurrency == 1,
    {
        JobConfig {
            queue: owned("default"),
            worker_id: random_uuid_text(),
            poll_interval_secs: 1,
            lease_seconds: 30,
            max_retries: 3,
            max_concurrency: 1,
        }
    }
}

/// What a claim on the queue returned.
#[derive(Debug, Clone, Copy, PartialEq, Eq, Structural)]
pub enum ClaimResult {
    /// A job, on its given attempt (counted from 1).
    Claimed(u32),
    /// The queue is empty.
    Empty,
    /// The claim failed.
    Failed,
}

/// What the worker loop does next.
#[derive(Debug, Clone, Copy, PartialEq, Eq, Structural)]
pub enum WorkerStep {
    /// Stop: a shutdown was requested.
    Stop,
    /// Process the claimed job; warn first when it is a retry.
    Process { retried: bool },
    /// Wait a poll interval, stopping early on a shutdown request.
    Idle,
    /// Wait a poll interval after a failed claim.
    Backoff,
}

/// The next step of the worker loop: stop on a shutdown request, else act
/// on what the claim returned.
pub fn next_step(shutdown: bool, claim: ClaimResult) -> (r: WorkerStep)
    ensures
        shutdown ==> r == WorkerStep::Stop,
        !shutdown ==> r == match claim {
            ClaimResult::Claimed(a) => WorkerStep::Process { retried: a > 1 },
            ClaimResult::Empty => WorkerStep::Idle,
            ClaimResult::Failed => WorkerStep::Backoff,
        },
{
    if shutdown {
        return WorkerStep::Stop;
    }
    match claim {
        ClaimResult::Claimed(a) => WorkerStep::Process { retried: a > 1 },
        ClaimResult::Empty => WorkerStep::Idle,
        ClaimResult::Failed => WorkerStep::Backoff,
    }
}

/// What the worker tells the queue about a job its handler has run.
#[derive(Debug, Clone, Copy, PartialEq, Eq, Structural)]
pub enum JobAck {
    /// The handler succeeded: the job is marked complete.
    Complete,
    /// The handler failed: the job is handed back for another attempt.
    Nack,
}

/// The acknowledgement of a job after its handler ran: complete it when
/// the handler succeeded, hand it back otherwise.
pub fn ack_for(handled: bool) -> (r: JobAck)
    ensures
        r == (if handled { JobAck::Complete } else { JobAck::Nack }),
{
    if handled {
        JobAck::Complete
    } else {
        JobAck::Nack
    }
}

impl JobMetrics {
    /// Counters before any job: all zero.
    pub fn zero() -> (r: Self)
        ensures
            r.processed == 0 && r.completed == 0 && r.failed == 0 && r.dead_lettered == 0 && r.total_duration_ms == 0,
    {
        JobMetrics { processed: 0, completed: 0, failed: 0, dead_lettered: 0, total_duration_ms: 0 }
    }

    /// No more jobs completed or failed than were processed.
    pub open spec fn consistent(&self) -> bool {
        self.completed + self.failed <= self.processed
    }

    /// Counts one processed job that took `duration_ms`: it completed when
    /// its handler succeeded and the queue acknowledged it, and failed when
    /// its handler failed (a job whose acknowledgement failed is neither).
    pub fn record_job(&mut self, duration_ms: u64, handled: bool, acknowledged: bool)
        requires
            old(self).processed < u64::MAX,
            old(self).completed < u64::MAX,
            old(self).failed < u64::MAX,
            old(self).total_duration_ms + duration_ms <= u64::MAX,
        ensures
            final(self).processed == old(self).processed + 1,
            final(self).total_duration_ms == old(self).total_duration_ms + duration_ms,
            final(self).completed == old(self).completed + if handled && acknowledged { 1int } else { 0int },
            final(self).failed == old(self).failed + if handled { 0int } else { 1int },
            final(self).dead_lettered == old(self).dead_lettered,
            old(self).consistent() ==> final(self).consistent(),
    {
        self.processed = self.processed + 1;
        self.total_duration_ms = self.total_duration_ms + duration_ms;
        if handled {
            if acknowledged {
                self.completed = self.completed + 1;
            }
        } else {
            self.failed = self.failed + 1;
        }
    }
}

} // verus!
