//! Health and readiness: dependency statuses, which checks each probe runs,
//! and how individual results combine into the overall status of a report.
//! Running the checks (in parallel, each under its timeout) is the server's
//! work; the decisions are here.
use vstd::prelude::*;
use crate::parse::push_decimal;
use crate::text::{owned, push_text};
use crate::parse::decimal_seq;
use std::sync::Arc;

verus! {

/// Health status of a dependency.
#[derive(Debug, Clone, PartialEq, Eq)]
pub enum HealthStatus {
    /// Dependency is healthy.
    Healthy,
    /// Dependency is degraded but functional.
    Degraded { reason: String },
    /// Dependency is unhealthy.
    Unhealthy { reason: String },
}

/// The display text of a status.
pub open spec fn status_text(s: HealthStatus) -> Seq<char> {
    match s {
        HealthStatus::Healthy => "healthy"@,
        HealthStatus::Degraded { reason } => "degraded: "@ + reason@,
        HealthStatus::Unhealthy { reason } => "unhealthy: "@ + reason@,
    }
}

/// The HTTP status a probe answers with: only unhealthy is an error.
pub open spec fn status_http(s: HealthStatus) -> u16 {
    match s {
        HealthStatus::Unhealthy { .. } => 503,
        _ => 200,
    }
}

impl HealthStatus {
    pub fn is_healthy(&self) -> (r: bool)
        ensures
            r == (*self is Healthy),
    {
        match self {
            HealthStatus::Healthy => true,
            _ => false,
        }
    }

    pub fn is_degraded(&self) -> (r: bool)
        ensures
            r == (*self is Degraded),
    {
        match self {
            HealthStatus::Degraded { .. } => true,
            _ => false,
        }
    }

    pub fn is_unhealthy(&self) -> (r: bool)
        ensures
            r == (*self is Unhealthy),
    {
        match self {
            HealthStatus::Unhealthy { .. } => true,
            _ => false,
        }
    }

    /// HTTP status code: 200 for healthy and degraded, 503 for unhealthy.
    pub fn to_http_status(&self) -> (r: u16)
        ensures
            r == status_http(*self),
    {
        match self {
            HealthStatus::Healthy => 200,
            HealthStatus::Degraded { .. } => 200,
            HealthStatus::Unhealthy { .. } => 503,
        }
    }

    /// The display form: `healthy`, `degraded: {reason}` or
    /// `unhealthy: {reason}`.
    pub fn to_text(&self) -> (r: String)
        ensures
            r@ == status_text(*self),
    {
        match self {
            HealthStatus::Healthy => owned("healthy"),
            HealthStatus::Degraded { reason } => {
                let mut s = owned("degraded: ");
                push_text(&mut s, reason.as_str());
                s
            },
            HealthStatus::Unhealthy { reason } => {
                let mut s = owned("unhealthy: ");
                push_text(&mut s, reason.as_str());
                s
            },
        }
    }

    /// A copy of the status.
    pub fn duplicate(&self) -> (r: HealthStatus)
        ensures
            r == *self,
    {
        match self {
            HealthStatus::Healthy => HealthStatus::Healthy,
            HealthStatus::Degraded { reason } => HealthStatus::Degraded { reason: reason.clone() },
            HealthStatus::Unhealthy { reason } => HealthStatus::Unhealthy { reason: reason.clone() },
        }
    }
}

/// Result of a single health check.
#[derive(Debug, Clone)]
pub struct CheckResult {
    pub name: String,
    pub status: HealthStatus,
    /// Duration of the check in milliseconds.
    pub duration_ms: u64,
}

/// Type of health probe.
#[derive(Debug, Clone, Copy, PartialEq, Eq, Structural)]
pub enum ProbeType {
    /// Is the application alive? Runs every check.
    Liveness,
    /// Is the application ready to serve traffic? Runs the required checks.
    Readiness,
}

/// Overall health report.
#[derive(Debug, Clone)]
pub struct HealthReport {
    pub status: HealthStatus,
    pub checks: Vec<CheckResult>,
    /// RFC 3339 time of the report.
    pub timestamp: String,
    pub probe_type: ProbeType,
}

/// The overall status after the results in `results` were seen in order:
/// an unhealthy result replaces the status, a degraded one replaces it only
/// while it is still healthy.
pub open spec fn overall_status(results: Seq<HealthStatus>) -> HealthStatus
    decreases results.len(),
{
    if results.len() == 0 {
        HealthStatus::Healthy
    } else {
        let prev = overall_status(results.drop_last());
        let s = results.last();
        match s {
            HealthStatus::Unhealthy { .. } => s,
            HealthStatus::Degraded { .. } => if prev is Healthy { s } else { prev },
            HealthStatus::Healthy => prev,
        }
    }
}

/// The statuses of a sequence of check results.
pub open spec fn statuses(results: Seq<CheckResult>) -> Seq<HealthStatus> {
    results.map_values(|r: CheckResult| r.status)
}

/// Combines check results into the overall status of a report.
pub fn combine_statuses(results: &Vec<CheckResult>) -> (r: HealthStatus)
    ensures
        r == overall_status(statuses(results@)),
{
    let mut overall = HealthStatus::Healthy;
    let mut i: usize = 0;
    while i < results.len()
        invariant
            i <= results@.len(),
            overall == overall_status(statuses(results@).take(i as int)),
        decreases results@.len() - i,
    {
        proof {
            let t = statuses(results@).take(i + 1);
            assert(t.drop_last() =~= statuses(results@).take(i as int));
            assert(t.last() == results@[i as int].status);
        }
        match &results[i].status {
            HealthStatus::Unhealthy { .. } => {
                overall = results[i].status.duplicate();
            },
            HealthStatus::Degraded { .. } => {
                if overall.is_healthy() {
                    overall = results[i].status.duplicate();
                }
            },
            HealthStatus::Healthy => {},
        }
        i = i + 1;
    }
    assert(statuses(results@).take(results@.len() as int) =~= statuses(results@));
    overall
}

/// The overall status is unhealthy exactly when some result is unhealthy.
pub proof fn lemma_unhealthy_dominates(results: Seq<HealthStatus>)
    ensures
        (overall_status(results) is Unhealthy) <==> exists|i: int| 0 <= i < results.len() && #[trigger] results[i] is Unhealthy,
    decreases results.len(),
{
    if results.len() > 0 {
        lemma_unhealthy_dominates(results.drop_last());
        if overall_status(results.drop_last()) is Unhealthy {
            let i = choose|i: int| 0 <= i < results.drop_last().len() && #[trigger] results.drop_last()[i] is Unhealthy;
            assert(results[i] is Unhealthy);
        }
        if exists|i: int| 0 <= i < results.len() && #[trigger] results[i] is Unhealthy {
            let i = choose|i: int| 0 <= i < results.len() && #[trigger] results[i] is Unhealthy;
            if i < results.len() - 1 {
                assert(results.drop_last()[i] is Unhealthy);
            }
        }
    }
}

/// The overall status is healthy exactly when every result is healthy.
pub proof fn lemma_healthy_iff_all_healthy(results: Seq<HealthStatus>)
    ensures
        (overall_status(results) is Healthy) <==> forall|i: int| 0 <= i < results.len() ==> #[trigger] results[i] is Healthy,
    decreases results.len(),
{
    if results.len() > 0 {
        lemma_healthy_iff_all_healthy(results.drop_last());
        if forall|i: int| 0 <= i < results.len() ==> #[trigger] results[i] is Healthy {
            assert forall|i: int| 0 <= i < results.drop_last().len() implies #[trigger] results.drop_last()[i] is Healthy by {
                assert(results[i] is Healthy);
            }
            assert(results[results.len() - 1] is Healthy);
        }
        if overall_status(results) is Healthy {
            assert forall|i: int| 0 <= i < results.len() implies #[trigger] results[i] is Healthy by {
                if i < results.len() - 1 {
                    assert(results.drop_last()[i] is Healthy);
                }
            }
        }
    }
}

/// A health check: a named dependency probe with a timeout, which may or may
/// not be required for readiness. Running the probe itself is the server's
/// (asynchronous) work; each implementation states its name, timeout and
/// readiness flag through the spec functions below.
pub trait HealthCheck {
    /// Name of the dependency.
    spec fn spec_name(&self) -> Seq<char>;

    /// Timeout of the check, in milliseconds.
    spec fn spec_timeout_ms(&self) -> u64;

    /// Whether readiness probes run this check.
    spec fn spec_required_for_readiness(&self) -> bool;

    fn name(&self) -> (r: &str)
        ensures
            r@ == self.spec_name(),
    ;

    fn timeout_ms(&self) -> (r: u64)
        ensures
            r == self.spec_timeout_ms(),
    ;

    fn required_for_readiness(&self) -> (r: bool)
        ensures
            r == self.spec_required_for_readiness(),
    ;
}

/// Health checks in registration order.
pub struct HealthRegistry<C> {
    checks: Vec<C>,
}

/// A shared check is checked through the check it points to.
impl HealthCheck for Arc<dyn HealthCheck> {
    open spec fn spec_name(&self) -> Seq<char> {
        (**self).spec_name()
    }

    open spec fn spec_timeout_ms(&self) -> u64 {
        (**self).spec_timeout_ms()
    }

    open spec fn spec_required_for_readiness(&self) -> bool {
        (**self).spec_required_for_readiness()
    }

    fn name(&self) -> (r: &str) {
        (**self).name()
    }

    fn timeout_ms(&self) -> (r: u64) {
        (**self).timeout_ms()
    }

    fn required_for_readiness(&self) -> (r: bool) {
        (**self).required_for_readiness()
    }
}

impl<C: HealthCheck> HealthRegistry<C> {
    /// The registered checks.
    pub closed spec fn entries(&self) -> Seq<C> {
        self.checks@
    }

    pub fn new() -> (r: Self)
        ensures
            r.entries().len() == 0,
    {
        HealthRegistry { checks: Vec::new() }
    }

    /// Registers a check after those already registered.
    pub fn register(&mut self, check: C)
        ensures
            final(self).entries() == old(self).entries().push(check),
    {
        self.checks.push(check);
    }

    pub fn len(&self) -> (r: usize)
        ensures
            r == self.entries().len(),
    {
        self.checks.len()
    }

    /// The check registered at `index`.
    pub fn check(&self, index: usize) -> (r: &C)
        requires
            index < self.entries().len(),
        ensures
            *r == self.entries()[index as int],
    {
        &self.checks[index]
    }

    /// The positions of the checks a probe runs, in registration order:
    /// every check for liveness, for readiness those that declare themselves
    /// required.
    pub fn checks_for(&self, probe: ProbeType) -> (r: Vec<usize>)
        ensures
            r@ == probe_selection(self.entries(), probe),
    {
        let mut out: Vec<usize> = Vec::new();
        let mut i: usize = 0;
        while i < self.checks.len()
            invariant
                i <= self.checks@.len(),
                out@ == probe_selection(self.checks@.take(i as int), probe),
            decreases self.checks@.len() - i,
        {
            proof {
                assert(self.checks@.take(i + 1).drop_last() =~= self.checks@.take(i as int));
            }
            if probe == ProbeType::Liveness || self.checks[i].required_for_readiness() {
                out.push(i);
            }
            i = i + 1;
        }
        assert(self.checks@.take(self.checks@.len() as int) =~= self.checks@);
        out
    }

    /// The report of a probe, given the outcome (status and duration in
    /// milliseconds) of each check it ran, in the order of `checks_for`: the
    /// results carry the checks' names, and the overall status combines
    /// them.
    pub fn report_for(&self, probe: ProbeType, outcomes: Vec<(HealthStatus, u64)>, timestamp: String) -> (r: HealthReport)
        requires
            outcomes@.len() == probe_selection(self.entries(), probe).len(),
        ensures
            r.checks@.len() == outcomes@.len(),
            forall|k: int| 0 <= k < outcomes@.len() ==> {
                &&& (#[trigger] r.checks@[k]).name@ == self.entries()[probe_selection(self.entries(), probe)[k] as int].spec_name()
                &&& r.checks@[k].status == outcomes@[k].0
                &&& r.checks@[k].duration_ms == outcomes@[k].1
            },
            r.status == overall_status(statuses(r.checks@)),
            r.timestamp == timestamp,
            r.probe_type == probe,
    {
        let selected = self.checks_for(probe);
        let _count = self.checks.len();
        proof {
            lemma_probe_selection(self.entries(), probe);
        }
        let ghost sel = probe_selection(self.entries(), probe);
        let mut results: Vec<CheckResult> = Vec::new();
        let mut k: usize = 0;
        while k < outcomes.len()
            invariant
                k <= outcomes@.len(),
                selected@ == sel,
                sel == probe_selection(self.entries(), probe),
                outcomes@.len() == sel.len(),
                self.checks@ == self.entries(),
                forall|j: int| 0 <= j < sel.len() ==> (#[trigger] sel[j]) < self.entries().len(),
                results@.len() == k,
                forall|j: int| 0 <= j < k ==> {
                    &&& (#[trigger] results@[j]).name@ == self.entries()[sel[j] as int].spec_name()
                    &&& results@[j].status == outcomes@[j].0
                    &&& results@[j].duration_ms == outcomes@[j].1
                },
            decreases outcomes@.len() - k,
        {
            let idx = selected[k];
            assert(sel[k as int] < self.entries().len());
            let name = owned(self.checks[idx].name());
            let status = outcomes[k].0.duplicate();
            results.push(CheckResult { name, status, duration_ms: outcomes[k].1 });
            k = k + 1;
        }
        let status = combine_statuses(&results);
        HealthReport { status, checks: results, timestamp, probe_type: probe }
    }
}

/// The positions of the checks a probe runs.
pub open spec fn probe_selection<C: HealthCheck>(entries: Seq<C>, probe: ProbeType) -> Seq<usize>
    decreases entries.len(),
{
    if entries.len() == 0 {
        Seq::empty()
    } else {
        let prev = probe_selection(entries.drop_last(), probe);
        if probe == ProbeType::Liveness || entries.last().spec_required_for_readiness() {
            prev.push((entries.len() - 1) as usize)
        } else {
            prev
        }
    }
}

/// Readiness runs exactly the checks that declare themselves required for
/// readiness, liveness runs all of them, both in registration order.
pub proof fn lemma_probe_selection<C: HealthCheck>(entries: Seq<C>, probe: ProbeType)
    requires
        entries.len() <= usize::MAX,
    ensures
        forall|k: int| 0 <= k < probe_selection(entries, probe).len() ==> {
            let i = #[trigger] probe_selection(entries, probe)[k];
            &&& i < entries.len()
            &&& (probe == ProbeType::Readiness ==> entries[i as int].spec_required_for_readiness())
        },
        forall|k: int, l: int| 0 <= k < l < probe_selection(entries, probe).len() ==>
            #[trigger] probe_selection(entries, probe)[k] < #[trigger] probe_selection(entries, probe)[l],
        forall|i: int| 0 <= i < entries.len() && (probe == ProbeType::Liveness || entries[i].spec_required_for_readiness()) ==>
            #[trigger] probe_selection(entries, probe).contains(i as usize),
        probe == ProbeType::Liveness ==> probe_selection(entries, probe).len() == entries.len(),
    decreases entries.len(),
{
    if entries.len() > 0 {
        let prev = entries.drop_last();
        lemma_probe_selection(prev, probe);
        let sel = probe_selection(entries, probe);
        let psel = probe_selection(prev, probe);
        assert forall|i: int| 0 <= i < entries.len() && (probe == ProbeType::Liveness || entries[i].spec_required_for_readiness())
            implies #[trigger] sel.contains(i as usize) by {
            if i < entries.len() - 1 {
                assert(prev[i] == entries[i]);
                assert(psel.contains(i as usize));
                let k = choose|k: int| 0 <= k < psel.len() && psel[k] == i as usize;
                assert(sel[k] == i as usize);
            } else {
                assert(sel[sel.len() - 1] == i as usize);
            }
        }
        assert forall|k: int| 0 <= k < sel.len() implies {
            let i = #[trigger] sel[k];
            &&& i < entries.len()
            &&& (probe == ProbeType::Readiness ==> entries[i as int].spec_required_for_readiness())
        } by {
            if k < psel.len() {
                assert(sel[k] == psel[k]);
                assert(prev[psel[k] as int] == entries[psel[k] as int]);
            }
        }
        assert forall|k: int, l: int| 0 <= k < l < sel.len() implies #[trigger] sel[k] < #[trigger] sel[l] by {
            if l < psel.len() {
                assert(sel[k] == psel[k] && sel[l] == psel[l]);
            } else {
                assert(sel[k] == psel[k]);
            }
        }
    }
}

/// Registering a check adds it to every liveness probe, and to readiness
/// probes exactly when the check itself declares that it is required for
/// readiness; what the probes ran before stays as it was, in front.
pub proof fn lemma_register_probes<C: HealthCheck>(before: Seq<C>, check: C)
    requires
        before.len() < usize::MAX,
    ensures
        probe_selection(before.push(check), ProbeType::Liveness)
            == probe_selection(before, ProbeType::Liveness).push(before.len() as usize),
        probe_selection(before.push(check), ProbeType::Readiness) == if check.spec_required_for_readiness() {
            probe_selection(before, ProbeType::Readiness).push(before.len() as usize)
        } else {
            probe_selection(before, ProbeType::Readiness)
        },
        probe_selection(before.push(check), ProbeType::Readiness).contains(before.len() as usize)
            <==> check.spec_required_for_readiness(),
{
    let after = before.push(check);
    assert(after.drop_last() =~= before);
    lemma_probe_selection(before, ProbeType::Readiness);
    let prev = probe_selection(before, ProbeType::Readiness);
    if !check.spec_required_for_readiness() {
        if prev.contains(before.len() as usize) {
            let k = choose|k: int| 0 <= k < prev.len() && prev[k] == before.len() as usize;
            assert(prev[k] < before.len());
        }
    } else {
        assert(after.last() == check);
        let sel = probe_selection(after, ProbeType::Readiness);
        assert(sel[sel.len() - 1] == before.len() as usize);
    }
}

/// Builds the report of a probe from the results of the checks it ran.
pub fn build_report(checks: Vec<CheckResult>, timestamp: String, probe_type: ProbeType) -> (r: HealthReport)
    ensures
        r.status == overall_status(statuses(checks@)),
        r.checks == checks,
        r.timestamp == timestamp,
        r.probe_type == probe_type,
{
    let status = combine_statuses(&checks);
    HealthReport { status, checks, timestamp, probe_type }
}

/// The status of a check that did not answer within its timeout.
pub fn timeout_status(timeout_ms: u64) -> (r: HealthStatus)
    ensures
        r matches HealthStatus::Unhealthy { reason } && reason@ == "check timed out after "@
            + decimal_seq(timeout_ms as nat) + "ms"@,
{
    let mut reason = owned("check timed out after ");
    push_decimal(&mut reason, timeout_ms);
    push_text(&mut reason, "ms");
    HealthStatus::Unhealthy { reason }
}

/// Default timeout of a health check, in milliseconds.
pub fn default_check_timeout_ms() -> (r: u64)
    ensures
        r == 5000,
{
    5000
}

/// A check that is always healthy.
pub struct AlwaysHealthy;

impl HealthCheck for AlwaysHealthy {
    open spec fn spec_name(&self) -> Seq<char> {
        "always_healthy"@
    }

    open spec fn spec_timeout_ms(&self) -> u64 {
        5000
    }

    open spec fn spec_required_for_readiness(&self) -> bool {
        true
    }

    fn name(&self) -> (r: &str) {
        "always_healthy"
    }

    fn timeout_ms(&self) -> (r: u64) {
        5000
    }

    fn required_for_readiness(&self) -> (r: bool) {
        true
    }
}

impl AlwaysHealthy {
    pub fn status(&self) -> (r: HealthStatus)
        ensures
            r is Healthy,
    {
        HealthStatus::Healthy
    }
}

impl HealthCheck for AlwaysDegraded {
    open spec fn spec_name(&self) -> Seq<char> {
        "always_degraded"@
    }

    open spec fn spec_timeout_ms(&self) -> u64 {
        5000
    }

    open spec fn spec_required_for_readiness(&self) -> bool {
        true
    }

    fn name(&self) -> (r: &str) {
        "always_degraded"
    }

    fn timeout_ms(&self) -> (r: u64) {
        5000
    }

    fn required_for_readiness(&self) -> (r: bool) {
        true
    }
}

/// A check that is always degraded.
pub struct AlwaysDegraded {
    reason: String,
}

impl AlwaysDegraded {
    pub fn new(reason: &str) -> (r: Self)
        ensures
            r.reason()@ == reason@,
    {
        AlwaysDegraded { reason: owned(reason) }
    }

    pub closed spec fn reason(&self) -> String {
        self.reason
    }

    pub fn status(&self) -> (r: HealthStatus)
        ensures
            r matches HealthStatus::Degraded { reason } && reason@ == self.reason()@,
    {
        HealthStatus::Degraded { reason: self.reason.clone() }
    }
}

impl HealthCheck for AlwaysUnhealthy {
    open spec fn spec_name(&self) -> Seq<char> {
        "always_unhealthy"@
    }

    open spec fn spec_timeout_ms(&self) -> u64 {
        5000
    }

    open spec fn spec_required_for_readiness(&self) -> bool {
        true
    }

    fn name(&self) -> (r: &str) {
        "always_unhealthy"
    }

    fn timeout_ms(&self) -> (r: u64) {
        5000
    }

    fn required_for_readiness(&self) -> (r: bool) {
        true
    }
}

/// A check that is always unhealthy.
pub struct AlwaysUnhealthy {
    reason: String,
}

impl AlwaysUnhealthy {
    pub fn new(reason: &str) -> (r: Self)
        ensures
            r.reason()@ == reason@,
    {
        AlwaysUnhealthy { reason: owned(reason) }
    }

    pub closed spec fn reason(&self) -> String {
        self.reason
    }

    pub fn status(&self) -> (r: HealthStatus)
        ensures
            r matches HealthStatus::Unhealthy { reason } && reason@ == self.reason()@,
    {
        HealthStatus::Unhealthy { reason: self.reason.clone() }
    }
}

/// A check that answers healthy after a delay longer than its own timeout.
pub struct AlwaysTimeout {
    /// Delay before the check answers, in milliseconds.
    pub delay_ms: u64,
}

impl AlwaysTimeout {
    pub fn new(delay_ms: u64) -> (r: Self)
        ensures
            r.delay_ms == delay_ms,
    {
        AlwaysTimeout { delay_ms }
    }

}

impl HealthCheck for AlwaysTimeout {
    open spec fn spec_name(&self) -> Seq<char> {
        "always_timeout"@
    }

    open spec fn spec_timeout_ms(&self) -> u64 {
        10
    }

    open spec fn spec_required_for_readiness(&self) -> bool {
        true
    }

    fn name(&self) -> (r: &str) {
        "always_timeout"
    }

    fn timeout_ms(&self) -> (r: u64) {
        10
    }

    fn required_for_readiness(&self) -> (r: bool) {
        true
    }
}

/// A healthy check that readiness probes skip.
pub struct OptionalCheck;

impl HealthCheck for OptionalCheck {
    open spec fn spec_name(&self) -> Seq<char> {
        "optional_check"@
    }

    open spec fn spec_timeout_ms(&self) -> u64 {
        5000
    }

    open spec fn spec_required_for_readiness(&self) -> bool {
        false
    }

    fn name(&self) -> (r: &str) {
        "optional_check"
    }

    fn timeout_ms(&self) -> (r: u64) {
        5000
    }

    fn required_for_readiness(&self) -> (r: bool) {
        false
    }
}

} // verus!
