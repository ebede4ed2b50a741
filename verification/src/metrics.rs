//! Request and job metrics: status-class counters, a bounded window of
//! latency samples, bounded route labels, percentiles and averages.
use vstd::prelude::*;
use std::collections::VecDeque;
use crate::counts::{bump, bump_count, StatusCounts, TextCounts};
use crate::text::owned;

verus! {

/// Latency samples kept (the oldest is dropped beyond this).
pub const MAX_LATENCY_SAMPLES: usize = 4096;

/// Distinct route labels kept; further routes count under `__other__`.
pub const MAX_ROUTE_LABELS: usize = 256;

#[verifier::external_type_specification]
#[verifier::external_body]
pub struct ExInstant(std::time::Instant);

/// `std::time::Instant::now`: the current instant of the monotonic clock.
#[verifier::external_body]
fn instant_now() -> (r: std::time::Instant) {
    std::time::Instant::now()
}

/// `Instant::elapsed` in whole seconds; it depends on the clock.
#[verifier::external_body]
fn elapsed_secs(start: &std::time::Instant) -> (r: u64) {
    start.elapsed().as_secs()
}

/// `Instant::elapsed` in whole milliseconds (saturating at `u64::MAX`); it
/// depends on the clock.
#[verifier::external_body]
fn elapsed_millis(start: &std::time::Instant) -> (r: u64) {
    u64::try_from(start.elapsed().as_millis()).unwrap_or(u64::MAX)
}

/// Sum of a sequence of samples.
pub open spec fn sum_seq(s: Seq<u64>) -> nat
    decreases s.len(),
{
    if s.len() == 0 {
        0
    } else {
        sum_seq(s.drop_last()) + (s.last() as nat)
    }
}

/// The counter a status increments, by class.
pub open spec fn is_success(status: u16) -> bool { 200 <= status <= 299 }
pub open spec fn is_client_error(status: u16) -> bool { 400 <= status <= 499 }
pub open spec fn is_server_error(status: u16) -> bool { 500 <= status <= 599 }
pub open spec fn is_timeout(status: u16) -> bool { status == 408 || status == 504 }
pub open spec fn is_dependency_error(status: u16) -> bool { status == 502 }

/// A counter after a request whose status may count for it.
pub open spec fn counted(new: u64, old: u64, applies: bool) -> bool {
    new == if applies { bump(old) } else { old }
}

/// The sample window after one more sample: the oldest sample leaves once
/// the window is full.
pub open spec fn window_push(old: Seq<u64>, x: u64) -> Seq<u64> {
    if old.len() >= MAX_LATENCY_SAMPLES {
        old.drop_first().push(x)
    } else {
        old.push(x)
    }
}

/// The label a path is counted under: itself while it is already a label or
/// there is room for another label, `__other__` otherwise.
pub open spec fn route_label(paths: TextCounts, path: Seq<char>) -> Seq<char> {
    if paths.count(path) is Some || paths.pairs().len() < MAX_ROUTE_LABELS {
        path
    } else {
        "__other__"@
    }
}

/// Request metrics for monitoring.
pub struct RequestMetrics {
    requests_total: u64,
    requests_success: u64,
    requests_client_error: u64,
    requests_server_error: u64,
    requests_timeout: u64,
    requests_dependency_error: u64,
    durations: VecDeque<u64>,
    response_bytes: VecDeque<u64>,
    by_path: TextCounts,
    by_method: TextCounts,
    by_status: StatusCounts,
    start: std::time::Instant,
}

impl RequestMetrics {
    pub closed spec fn total(&self) -> u64 { self.requests_total }
    pub closed spec fn success(&self) -> u64 { self.requests_success }
    pub closed spec fn client_errors(&self) -> u64 { self.requests_client_error }
    pub closed spec fn server_errors(&self) -> u64 { self.requests_server_error }
    pub closed spec fn timeouts(&self) -> u64 { self.requests_timeout }
    pub closed spec fn dependency_errors(&self) -> u64 { self.requests_dependency_error }
    /// Latency samples in milliseconds, oldest first.
    pub closed spec fn samples(&self) -> Seq<u64> { self.durations@ }
    /// Response sizes in bytes, paired with the samples.
    pub closed spec fn sizes(&self) -> Seq<u64> { self.response_bytes@ }
    pub closed spec fn paths(&self) -> TextCounts { self.by_path }
    pub closed spec fn methods(&self) -> TextCounts { self.by_method }
    pub closed spec fn statuses(&self) -> StatusCounts { self.by_status }

    /// The invariant every metrics value keeps: the sample windows are
    /// bounded and paired, labels are distinct and route labels bounded.
    pub closed spec fn wf(&self) -> bool {
        &&& self.durations@.len() == self.response_bytes@.len()
        &&& self.durations@.len() <= MAX_LATENCY_SAMPLES
        &&& self.by_path.wf()
        &&& self.by_method.wf()
        &&& self.by_status.wf()
        &&& self.by_path.pairs().len() <= MAX_ROUTE_LABELS
            || (self.by_path.pairs().len() == MAX_ROUTE_LABELS + 1 && self.by_path.count("__other__"@) is Some)
    }

    pub fn new() -> (r: Self)
        ensures
            r.wf(),
            r.total() == 0,
            r.success() == 0,
            r.client_errors() == 0,
            r.server_errors() == 0,
            r.timeouts() == 0,
            r.dependency_errors() == 0,
            r.samples().len() == 0,
            r.paths().pairs().len() == 0,
            r.methods().pairs().len() == 0,
            r.statuses().pairs().len() == 0,
    {
        RequestMetrics {
            requests_total: 0,
            requests_success: 0,
            requests_client_error: 0,
            requests_server_error: 0,
            requests_timeout: 0,
            requests_dependency_error: 0,
            durations: VecDeque::new(),
            response_bytes: VecDeque::new(),
            by_path: TextCounts::new(),
            by_method: TextCounts::new(),
            by_status: StatusCounts::new(),
            start: instant_now(),
        }
    }

    /// Records a completed request with no response body size.
    pub fn record(&mut self, method: &str, path: &str, status: u16, duration_ms: u64)
        requires
            old(self).wf(),
        ensures
            final(self).wf(),
            recorded(*old(self), *final(self), method@, path@, status, duration_ms, 0),
    {
        self.record_with_size(method, path, status, duration_ms, 0);
    }

    /// Records a completed request.
    pub fn record_with_size(&mut self, method: &str, path: &str, status: u16, duration_ms: u64, response_bytes: u64)
        requires
            old(self).wf(),
        ensures
            final(self).wf(),
            recorded(*old(self), *final(self), method@, path@, status, duration_ms, response_bytes),
    {
        self.requests_total = bump_count(self.requests_total);
        if 200 <= status && status <= 299 {
            self.requests_success = bump_count(self.requests_success);
        } else if 400 <= status && status <= 499 {
            self.requests_client_error = bump_count(self.requests_client_error);
        } else if 500 <= status && status <= 599 {
            self.requests_server_error = bump_count(self.requests_server_error);
        }
        if status == 408 || status == 504 {
            self.requests_timeout = bump_count(self.requests_timeout);
        }
        if status == 502 {
            self.requests_dependency_error = bump_count(self.requests_dependency_error);
        }
        if self.durations.len() == MAX_LATENCY_SAMPLES {
            self.durations.pop_front();
            self.response_bytes.pop_front();
        }
        self.durations.push_back(duration_ms);
        self.response_bytes.push_back(response_bytes);
        let keep = self.by_path.contains(path) || self.by_path.len() < MAX_ROUTE_LABELS;
        if keep {
            self.by_path.increment(path);
        } else {
            self.by_path.increment("__other__");
        }
        self.by_method.increment(method);
        self.by_status.increment(status);
    }

    /// Requests recorded so far (wrapping after `u64::MAX`).
    pub fn total_requests(&self) -> (r: u64)
        ensures
            r == self.total(),
    {
        self.requests_total
    }

    /// Sum of the latency samples in the window, in milliseconds.
    pub fn duration_total_ms(&self) -> (r: u128)
        requires
            self.wf(),
        ensures
            r == sum_seq(self.samples()),
    {
        sum_deque(&self.durations)
    }

    /// Number of latency samples in the window.
    pub fn sample_count(&self) -> (r: usize)
        ensures
            r == self.samples().len(),
    {
        self.durations.len()
    }

    /// Seconds since the metrics were created.
    pub fn uptime_seconds(&self) -> (r: u64) {
        elapsed_secs(&self.start)
    }

    /// A snapshot of all counters, percentiles and label counts.
    pub fn to_report(&self) -> (r: MetricsReport)
        requires
            self.wf(),
        ensures
            r.requests_total == self.total(),
            r.requests_success == self.success(),
            r.requests_client_error == self.client_errors(),
            r.requests_server_error == self.server_errors(),
            r.requests_timeout == self.timeouts(),
            r.requests_dependency_error == self.dependency_errors(),
            r.sample_count == self.samples().len(),
            r.duration_total_ms == sum_seq(self.samples()),
            r.response_bytes_total == sum_seq(self.sizes()),
            self.samples().len() > 0 ==> exists|s: Seq<u64>| {
                &&& #[trigger] ascending(s)
                &&& s.to_multiset() == self.samples().to_multiset()
                &&& r.p50_duration_ms == s[percentile_index(s.len(), 500)]
                &&& r.p95_duration_ms == s[percentile_index(s.len(), 950)]
                &&& r.p99_duration_ms == s[percentile_index(s.len(), 990)]
                &&& r.max_duration_ms == s.last()
            },
            self.samples().len() == 0 ==> r.p50_duration_ms == 0 && r.p95_duration_ms == 0
                && r.p99_duration_ms == 0 && r.max_duration_ms == 0,
            r.by_path@.map_values(|e: (String, u64)| (e.0@, e.1)) == self.paths().pairs(),
            r.by_method@.map_values(|e: (String, u64)| (e.0@, e.1)) == self.methods().pairs(),
            r.by_status@ == self.statuses().pairs(),
    {
        let sorted = sorted_samples(&self.durations);
        let len = sorted.len();
        let max = if len > 0 { sorted[len - 1] } else { 0 };
        MetricsReport {
            requests_total: self.requests_total,
            requests_success: self.requests_success,
            requests_client_error: self.requests_client_error,
            requests_server_error: self.requests_server_error,
            requests_timeout: self.requests_timeout,
            requests_dependency_error: self.requests_dependency_error,
            sample_count: len,
            duration_total_ms: sum_deque(&self.durations),
            response_bytes_total: sum_deque(&self.response_bytes),
            p50_duration_ms: percentile(&sorted, 500),
            p95_duration_ms: percentile(&sorted, 950),
            p99_duration_ms: percentile(&sorted, 990),
            max_duration_ms: max,
            by_path: self.by_path.to_vec(),
            by_method: self.by_method.to_vec(),
            by_status: self.by_status.to_vec(),
            uptime_seconds: elapsed_secs(&self.start),
        }
    }
}

/// What recording one request does to the metrics.
pub open spec fn recorded(
    old: RequestMetrics,
    new: RequestMetrics,
    method: Seq<char>,
    path: Seq<char>,
    status: u16,
    duration_ms: u64,
    response_bytes: u64,
) -> bool {
    let label = route_label(old.paths(), path);
    &&& new.total() == bump(old.total())
    &&& counted(new.success(), old.success(), is_success(status))
    &&& counted(new.client_errors(), old.client_errors(), is_client_error(status))
    &&& counted(new.server_errors(), old.server_errors(), is_server_error(status))
    &&& counted(new.timeouts(), old.timeouts(), is_timeout(status))
    &&& counted(new.dependency_errors(), old.dependency_errors(), is_dependency_error(status))
    &&& new.samples() == window_push(old.samples(), duration_ms)
    &&& new.sizes() == window_push(old.sizes(), response_bytes)
    &&& new.paths().count(label) == Some(bump(match old.paths().count(label) { Some(c) => c, None => 0 }))
    &&& forall|l: Seq<char>| l != label ==> new.paths().count(l) == old.paths().count(l)
    &&& new.methods().count(method) == Some(bump(match old.methods().count(method) { Some(c) => c, None => 0 }))
    &&& forall|l: Seq<char>| l != method ==> new.methods().count(l) == old.methods().count(l)
    &&& new.statuses().count(status) == Some(bump(match old.statuses().count(status) { Some(c) => c, None => 0 }))
    &&& forall|l: u16| l != status ==> new.statuses().count(l) == old.statuses().count(l)
}

/// The window keeps at most `MAX_LATENCY_SAMPLES` samples and at most
/// `MAX_ROUTE_LABELS + 1` route labels, however many requests are recorded.
pub proof fn lemma_metrics_bounded(m: RequestMetrics)
    requires
        m.wf(),
    ensures
        m.samples().len() <= MAX_LATENCY_SAMPLES,
        m.paths().pairs().len() <= MAX_ROUTE_LABELS + 1,
{
}

/// The sample window ends with the newest sample and keeps the previous
/// ones in order.
pub proof fn lemma_window_keeps_recent(old: Seq<u64>, x: u64)
    requires
        old.len() <= MAX_LATENCY_SAMPLES,
    ensures
        window_push(old, x).len() <= MAX_LATENCY_SAMPLES,
        window_push(old, x).last() == x,
        forall|i: int| 0 <= i < window_push(old, x).len() - 1 ==> #[trigger] window_push(old, x)[i]
            == old[i + old.len() + 1 - window_push(old, x).len()],
{
}

fn sum_deque(d: &VecDeque<u64>) -> (r: u128)
    requires
        d@.len() <= MAX_LATENCY_SAMPLES,
    ensures
        r == sum_seq(d@),
{
    let mut total: u128 = 0;
    let mut i: usize = 0;
    while i < d.len()
        invariant
            i <= d@.len() <= MAX_LATENCY_SAMPLES,
            total == sum_seq(d@.take(i as int)),
            total <= i * 0xffff_ffff_ffff_ffff,
        decreases d@.len() - i,
    {
        assert(d@.take(i + 1).drop_last() =~= d@.take(i as int));
        let x = d[i];
        assert(total + x <= (i + 1) * 0xffff_ffff_ffff_ffff) by (nonlinear_arith)
            requires total <= i * 0xffff_ffff_ffff_ffff, x <= 0xffff_ffff_ffff_ffff;
        assert((i + 1) * 0xffff_ffff_ffff_ffff <= 4097 * 0xffff_ffff_ffff_ffff) by (nonlinear_arith)
            requires i + 1 <= 4097;
        total = total + x as u128;
        i = i + 1;
    }
    assert(d@.take(i as int) =~= d@);
    total
}

/// The index that the percentile at `per_mille`/1000 reads in a sorted
/// sample of `len` values: `floor((len - 1) * per_mille / 1000)`.
pub open spec fn percentile_index(len: nat, per_mille: nat) -> int {
    ((len - 1) * per_mille / 1000) as int
}

/// The sample at the given per-mille rank of a sorted sample (0 when empty).
pub fn percentile(sorted: &Vec<u64>, per_mille: u64) -> (r: u64)
    requires
        per_mille <= 1000,
        sorted@.len() <= MAX_LATENCY_SAMPLES,
    ensures
        sorted@.len() == 0 ==> r == 0,
        sorted@.len() > 0 ==> r == sorted@[percentile_index(sorted@.len(), per_mille as nat)],
{
    if sorted.len() == 0 {
        return 0;
    }
    let n: u64 = (sorted.len() - 1) as u64;
    assert(n * per_mille <= 4096 * 1000) by (nonlinear_arith)
        requires n <= 4096, per_mille <= 1000;
    let idx: u64 = n * per_mille / 1000;
    assert(idx <= n) by (nonlinear_arith)
        requires idx == n * per_mille / 1000, per_mille <= 1000;
    sorted[idx as usize]
}

/// The samples of a window in ascending order.
fn sorted_samples(d: &VecDeque<u64>) -> (r: Vec<u64>)
    requires
        d@.len() <= MAX_LATENCY_SAMPLES,
    ensures
        ascending(r@),
        r@.to_multiset() == d@.to_multiset(),
        r@.len() == d@.len(),
{
    let mut v: Vec<u64> = Vec::new();
    let mut i: usize = 0;
    while i < d.len()
        invariant
            i <= d@.len(),
            v@ == d@.take(i as int),
        decreases d@.len() - i,
    {
        v.push(d[i]);
        assert(v@ =~= d@.take(i + 1));
        i = i + 1;
    }
    assert(d@.take(i as int) =~= d@);
    insertion_sort(&mut v);
    v
}

/// Ascending order of `u64` samples.
pub open spec fn ascending(s: Seq<u64>) -> bool {
    forall|i: int, j: int| 0 <= i <= j < s.len() ==> s[i] <= s[j]
}

/// Sorts samples in ascending order.
fn insertion_sort(v: &mut Vec<u64>)
    ensures
        ascending(final(v)@),
        final(v)@.to_multiset() == old(v)@.to_multiset(),
        final(v)@.len() == old(v)@.len(),
{
    let n = v.len();
    let mut i: usize = 1;
    if n == 0 {
        return;
    }
    while i < n
        invariant
            1 <= i <= n,
            v@.len() == n,
            ascending(v@.take(i as int)),
            v@.to_multiset() == old(v)@.to_multiset(),
        decreases n - i,
    {
        let mut j: usize = i;
        assert forall|a: int, b: int| 0 <= a <= b <= i && a != j && b != j implies v@[a] <= v@[b] by {
            assert(v@.take(i as int)[a] == v@[a]);
            assert(v@.take(i as int)[b] == v@[b]);
        }
        while j > 0 && v[j - 1] > v[j]
            invariant
                0 <= j <= i < n,
                v@.len() == n,
                v@.to_multiset() == old(v)@.to_multiset(),
                forall|a: int, b: int| 0 <= a <= b <= i && a != j && b != j ==> v@[a] <= v@[b],
                forall|b: int| j < b <= i ==> v@[j as int] <= v@[b],
            decreases j,
        {
            let a = v[j - 1];
            let b = v[j];
            let ghost before = v@;
            v.set(j - 1, b);
            v.set(j, a);
            proof {
                assert(v@ == before.update(j - 1, b).update(j as int, a));
                lemma_swap_multiset(before, j - 1, j as int);
            }
            j = j - 1;
        }
        assert forall|a: int, b: int| 0 <= a <= b < i + 1 implies #[trigger] v@.take(i + 1)[a] <= #[trigger] v@.take(i + 1)[b] by {
            if a == j && j > 0 {
            }
        }
        i = i + 1;
    }
    assert(v@.take(n as int) =~= v@);
}

proof fn lemma_swap_multiset(s: Seq<u64>, i: int, j: int)
    requires
        0 <= i < j < s.len(),
    ensures
        s.update(i, s[j]).update(j, s[i]).to_multiset() == s.to_multiset(),
{
    broadcast use vstd::seq_lib::group_to_multiset_ensures;
    let t = s.update(i, s[j]);
    assert(t.to_multiset() == s.to_multiset().remove(s[i]).insert(s[j]));
    assert(t.update(j, s[i]).to_multiset() == t.to_multiset().remove(t[j]).insert(s[i]));
    assert(t[j] == s[j]);
    assert(s.to_multiset().remove(s[i]).insert(s[j]).remove(s[j]).insert(s[i]) =~= s.to_multiset());
}

/// A snapshot of request metrics. Averages are given as totals and counts.
#[derive(Debug, Clone)]
pub struct MetricsReport {
    pub requests_total: u64,
    pub requests_success: u64,
    pub requests_client_error: u64,
    pub requests_server_error: u64,
    pub requests_timeout: u64,
    pub requests_dependency_error: u64,
    /// Latency samples in the window.
    pub sample_count: usize,
    /// Sum of the latency samples in the window, in milliseconds.
    pub duration_total_ms: u128,
    /// Sum of the response sizes in the window, in bytes.
    pub response_bytes_total: u128,
    pub p50_duration_ms: u64,
    pub p95_duration_ms: u64,
    pub p99_duration_ms: u64,
    pub max_duration_ms: u64,
    pub by_path: Vec<(String, u64)>,
    pub by_method: Vec<(String, u64)>,
    pub by_status: Vec<(u16, u64)>,
    pub uptime_seconds: u64,
}

/// Times one request and records it when finished.
pub struct RequestTimer {
    start: std::time::Instant,
    method: String,
    path: String,
}

impl RequestTimer {
    pub closed spec fn method(&self) -> Seq<char> { self.method@ }
    pub closed spec fn path(&self) -> Seq<char> { self.path@ }

    pub fn start(method: &str, path: &str) -> (r: Self)
        ensures
            r.method() == method@,
            r.path() == path@,
    {
        RequestTimer { start: instant_now(), method: owned(method), path: owned(path) }
    }

    /// Records the request with the elapsed time since `start`.
    pub fn finish(self, metrics: &mut RequestMetrics, status: u16)
        requires
            old(metrics).wf(),
        ensures
            final(metrics).wf(),
            exists|d: u64| recorded(*old(metrics), *final(metrics), self.method(), self.path(), status, d, 0),
    {
        let duration_ms = elapsed_millis(&self.start);
        metrics.record(self.method.as_str(), self.path.as_str(), status, duration_ms);
        assert(recorded(*old(metrics), *metrics, self.method(), self.path(), status, duration_ms, 0));
    }
}

/// Metrics for job processing.
#[derive(Debug, Clone, Copy, Default)]
pub struct JobMetrics {
    pub processed: u64,
    pub completed: u64,
    pub failed: u64,
    pub dead_lettered: u64,
    /// Total processing time in milliseconds.
    pub total_duration_ms: u64,
}

impl JobMetrics {
    /// Average processing time per job in whole milliseconds (0 before the
    /// first job).
    pub fn avg_duration_ms(&self) -> (r: u64)
        ensures
            r == if self.processed == 0 { 0 } else { self.total_duration_ms / self.processed },
    {
        if self.processed == 0 {
            0
        } else {
            self.total_duration_ms / self.processed
        }
    }
}

/// A request as reported to a metrics sink.
#[derive(Debug, Clone)]
pub struct RequestMetric {
    pub method: String,
    pub route: String,
    pub status: u16,
    pub duration_ms: u64,
}

/// A storage operation as reported to a metrics sink.
#[derive(Debug, Clone)]
pub struct StorageMetric {
    pub operation: String,
    pub backend: String,
    pub duration_ms: u64,
    pub success: bool,
}

/// A cache lookup as reported to a metrics sink.
#[derive(Debug, Clone)]
pub struct CacheMetric {
    pub operation: String,
    pub hit: bool,
    pub duration_ms: u64,
}

/// A job operation as reported to a metrics sink.
#[derive(Debug, Clone)]
pub struct JobMetric {
    pub queue: String,
    pub operation: String,
    pub duration_ms: u64,
    pub success: bool,
}

/// A replication operation as reported to a metrics sink: operational
/// counters only, never credentials, request bodies or replicated payloads.
#[derive(Debug, Clone)]
pub struct SyncMetric {
    pub operation: String,
    pub mode: String,
    pub duration_ms: u64,
    pub retries: u32,
    pub cursor: u64,
    pub conflicts: u64,
    pub snapshot_fallback: bool,
    pub success: bool,
}

/// Where metric events go: an application forwards them to the metrics
/// system it uses.
pub trait MetricsSink {
    fn record_request(&self, event: RequestMetric);

    fn record_storage(&self, event: StorageMetric);

    fn record_cache(&self, event: CacheMetric);

    fn record_job(&self, event: JobMetric);

    /// Records a replication operation; ignored unless a sink handles it.
    fn record_sync(&self, event: SyncMetric) {
    }
}

/// A sink that drops every event.
#[derive(Debug, Default)]
pub struct NoopMetricsSink;

impl MetricsSink for NoopMetricsSink {
    fn record_request(&self, event: RequestMetric) {
    }

    fn record_storage(&self, event: StorageMetric) {
    }

    fn record_cache(&self, event: CacheMetric) {
    }

    fn record_job(&self, event: JobMetric) {
    }
}

} // verus!
