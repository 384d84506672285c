//! Service level objectives.
//!
//! Tracks latency and error rate of each endpoint against its targets, over a sliding window, and
//! tells how much of the error budget is left. With a budget of 0.1 percent, one request in a
//! thousand may fail; when the budget is used up, the objective is violated.

use std::collections::VecDeque;
use std::time::Instant;
use vstd::prelude::*;

use crate::clock::{nanos_at, nanos_since};
use crate::keyed::{lists_domain, KeyedMap};
use crate::ratio::{Fraction, Ratio};
use crate::text::{dec, u64_text};

verus! {

/// Targets of a service level objective.
#[derive(Debug, Clone)]
pub struct SloTarget {
    pub name: String,
    pub latency_p50_ms: u64,
    pub latency_p95_ms: u64,
    pub latency_p99_ms: u64,
    pub error_budget_pct: Fraction,
    pub window_secs: u64,
}

impl SloTarget {
    /// Targets of 100, 300 and 500 milliseconds, a budget of 0.1 percent and a window of 30 days.
    pub fn new(name: &str) -> (r: SloTarget)
        ensures
            r.name@ == name@,
            r.latency_p50_ms == 100,
            r.latency_p95_ms == 300,
            r.latency_p99_ms == 500,
            r.error_budget_pct.ppm == 1000,
            r.window_secs == 86_400 * 30,
    {
        SloTarget {
            name: name.to_owned(),
            latency_p50_ms: 100,
            latency_p95_ms: 300,
            latency_p99_ms: 500,
            error_budget_pct: Fraction { ppm: 1000 },
            window_secs: 86_400 * 30,
        }
    }

    /// The same targets, with another median latency.
    pub fn latency_p50(self, ms: u64) -> (r: SloTarget)
        ensures
            r == (SloTarget { latency_p50_ms: ms, ..self }),
    {
        SloTarget { latency_p50_ms: ms, ..self }
    }

    /// The same targets, with another 95th percentile of latency.
    pub fn latency_p95(self, ms: u64) -> (r: SloTarget)
        ensures
            r == (SloTarget { latency_p95_ms: ms, ..self }),
    {
        SloTarget { latency_p95_ms: ms, ..self }
    }

    /// The same targets, with another 99th percentile of latency.
    pub fn latency_p99(self, ms: u64) -> (r: SloTarget)
        ensures
            r == (SloTarget { latency_p99_ms: ms, ..self }),
    {
        SloTarget { latency_p99_ms: ms, ..self }
    }

    /// The same targets, with another error budget.
    pub fn error_budget_pct(self, pct: Fraction) -> (r: SloTarget)
        ensures
            r == (SloTarget { error_budget_pct: pct, ..self }),
    {
        SloTarget { error_budget_pct: pct, ..self }
    }

    /// The same targets, with another window.
    pub fn window_secs(self, secs: u64) -> (r: SloTarget)
        ensures
            r == (SloTarget { window_secs: secs, ..self }),
    {
        SloTarget { window_secs: secs, ..self }
    }
}

/// Status of an objective.
#[derive(Debug, Clone, Copy, PartialEq, Eq, Structural)]
pub enum SloStatus {
    /// All objectives met, healthy error budget.
    Good,
    /// Approaching budget exhaustion (less than 10% remaining).
    Warning,
    /// Error budget exhausted or latency too high: objective violated.
    Violated,
}

impl SloStatus {
    /// The name of the status.
    pub open spec fn name(self) -> Seq<char> {
        match self {
            SloStatus::Good => "good"@,
            SloStatus::Warning => "warning"@,
            SloStatus::Violated => "violated"@,
        }
    }

    /// The name of the status.
    pub fn text(&self) -> (r: String)
        ensures
            r@ == self.name(),
    {
        match self {
            SloStatus::Good => "good".to_owned(),
            SloStatus::Warning => "warning".to_owned(),
            SloStatus::Violated => "violated".to_owned(),
        }
    }
}

/// One observed request. The time is counted in nanoseconds from the tracker's beginning.
#[derive(Debug, Clone, Copy, PartialEq, Eq, Structural)]
pub struct RequestObs {
    pub timestamp: u64,
    pub latency_ms: u64,
    pub is_error: bool,
}

/// Whether an observation has left a window of `window_secs` at time `now`.
pub open spec fn outdated(obs: RequestObs, now: u64, window_secs: u64) -> bool {
    now - obs.timestamp > window_secs * 1_000_000_000
}

/// The observations that are left at time `now`: outdated ones leave from the front.
pub open spec fn in_window(w: Seq<RequestObs>, now: u64, window_secs: u64) -> Seq<RequestObs>
    decreases w.len(),
{
    if w.len() > 0 && outdated(w[0], now, window_secs) {
        in_window(w.skip(1), now, window_secs)
    } else {
        w
    }
}

/// The observations among `w` that are not outdated at time `now`, in order.
pub open spec fn current(w: Seq<RequestObs>, now: u64, window_secs: u64) -> Seq<RequestObs>
    decreases w.len(),
{
    if w.len() == 0 {
        w
    } else if outdated(w.last(), now, window_secs) {
        current(w.drop_last(), now, window_secs)
    } else {
        current(w.drop_last(), now, window_secs).push(w.last())
    }
}

/// The window after one more observation at time `timestamp`, as it is left at time `now`.
pub open spec fn recorded(
    w: Seq<RequestObs>,
    timestamp: u64,
    now: u64,
    latency_ms: u64,
    is_error: bool,
    window_secs: u64,
) -> Seq<RequestObs> {
    in_window(w.push(RequestObs { timestamp, latency_ms, is_error }), now, window_secs)
}

/// How many observations are errors.
pub open spec fn count_errors(w: Seq<RequestObs>) -> nat
    decreases w.len(),
{
    if w.len() == 0 {
        0
    } else {
        count_errors(w.drop_last()) + (if w.last().is_error {
            1nat
        } else {
            0
        })
    }
}

/// The latencies of observations, in order of time.
pub open spec fn latencies(w: Seq<RequestObs>) -> Seq<u64> {
    Seq::new(w.len(), |i: int| w[i].latency_ms)
}

/// The order of numbers.
pub open spec fn at_most() -> spec_fn(u64, u64) -> bool {
    |a: u64, b: u64| a <= b
}

/// The latencies of observations, in ascending order.
pub open spec fn sorted_latencies(w: Seq<RequestObs>) -> Seq<u64> {
    latencies(w).sort_by(at_most())
}

/// The position of a percentile among `n` sorted numbers.
pub open spec fn percentile_index(n: int, pct: int) -> int {
    if pct * n / 100 < n {
        pct * n / 100
    } else {
        n - 1
    }
}

/// The percentile `pct` of sorted numbers; zero where there are none.
pub open spec fn percentile_of(sorted: Seq<u64>, pct: int) -> u64 {
    if sorted.len() == 0 {
        0
    } else {
        sorted[percentile_index(sorted.len() as int, pct)]
    }
}

/// The share of errors among the observations.
pub open spec fn error_rate(w: Seq<RequestObs>) -> Ratio {
    if w.len() == 0 {
        Ratio { part: 0, whole: 1 }
    } else {
        Ratio { part: count_errors(w) as u128, whole: w.len() as u128 }
    }
}

/// Whether the error rate is within the budget.
pub open spec fn within_budget(w: Seq<RequestObs>, budget: Fraction) -> bool {
    count_errors(w) * 1_000_000 <= budget.ppm * w.len()
}

/// What is left of the error budget: all of it where nothing was observed or the budget is zero,
/// nothing where the error rate exceeds it.
pub open spec fn budget_left(w: Seq<RequestObs>, budget: Fraction) -> Ratio {
    let allowed = budget.ppm * w.len();
    let used = count_errors(w) * 1_000_000;
    if allowed == 0 {
        Ratio { part: 1, whole: 1 }
    } else if used >= allowed {
        Ratio { part: 0, whole: allowed as u128 }
    } else {
        Ratio { part: (allowed - used) as u128, whole: allowed as u128 }
    }
}

/// Whether the three latency targets are met.
pub open spec fn latency_met(w: Seq<RequestObs>, t: SloTarget) -> bool {
    let s = sorted_latencies(w);
    &&& percentile_of(s, 50) <= t.latency_p50_ms
    &&& percentile_of(s, 95) <= t.latency_p95_ms
    &&& percentile_of(s, 99) <= t.latency_p99_ms
}

/// The status of the objective: violated where the budget or a latency target is exceeded,
/// a warning where less than a tenth of the budget is left. Nothing observed is good.
pub open spec fn status_of(w: Seq<RequestObs>, t: SloTarget) -> SloStatus {
    if w.len() == 0 {
        SloStatus::Good
    } else if !within_budget(w, t.error_budget_pct) || !latency_met(w, t) {
        SloStatus::Violated
    } else if budget_left(w, t.error_budget_pct).part * 10 < budget_left(
        w,
        t.error_budget_pct,
    ).whole {
        SloStatus::Warning
    } else {
        SloStatus::Good
    }
}

/// Whether `r` reports on the observations `w` against the targets `t`.
pub open spec fn reports(r: SloReport, w: Seq<RequestObs>, t: SloTarget) -> bool {
    let s = sorted_latencies(w);
    &&& r.name == t.name
    &&& r.total_requests == w.len()
    &&& r.error_count == count_errors(w)
    &&& r.error_rate_pct == error_rate(w)
    &&& r.error_budget_remaining_pct == budget_left(w, t.error_budget_pct)
    &&& r.p50_ms == percentile_of(s, 50)
    &&& r.p95_ms == percentile_of(s, 95)
    &&& r.p99_ms == percentile_of(s, 99)
    &&& r.status == status_of(w, t)
    &&& r.latency_ok == (w.len() == 0 || latency_met(w, t))
    &&& r.budget_ok == (w.len() == 0 || within_budget(w, t.error_budget_pct))
}

/// Tracker of one endpoint or tenant.
pub struct SloTracker {
    pub target: SloTarget,
    pub window: VecDeque<RequestObs>,
    pub origin: Instant,
}

impl SloTracker {
    /// The observations within the window at time `now`.
    pub open spec fn held(self, now: u64) -> Seq<RequestObs> {
        current(self.window@, now, self.target.window_secs)
    }
}

/// `<[u64]>::sort_unstable` sorts numbers in place. Claimed: afterwards the slice holds the same
/// numbers, each as often as before, in ascending order.
#[verifier::external_body]
fn sort_numbers(v: &mut Vec<u64>)
    ensures
        final(v)@.to_multiset() == old(v)@.to_multiset(),
        vstd::relations::sorted_by(final(v)@, at_most()),
{
    v.sort_unstable()
}

/// The numbers of `v` in ascending order.
pub fn ascending(v: Vec<u64>) -> (r: Vec<u64>)
    ensures
        r@ == v@.sort_by(at_most()),
{
    let ghost before = v@;
    let mut r = v;
    sort_numbers(&mut r);
    proof {
        lemma_sorted_is_sort(before, r@);
    }
    r
}

/// The percentile `pct` of sorted numbers; zero where there are none.
pub fn percentile(sorted: &[u64], pct: usize) -> (r: u64)
    ensures
        r == percentile_of(sorted@, pct as int),
{
    let n: usize = sorted.len();
    if n == 0 {
        return 0;
    }
    assert(0 <= pct * n <= 0xffff_ffff_ffff_ffff * 0xffff_ffff_ffff_ffff) by (nonlinear_arith)
        requires
            0 <= pct <= 0xffff_ffff_ffff_ffff,
            0 <= n <= 0xffff_ffff_ffff_ffff,
    ;
    let at: u128 = pct as u128 * n as u128 / 100;
    let i: usize = if at < n as u128 {
        at as usize
    } else {
        n - 1
    };
    sorted[i]
}

impl SloTracker {
    /// A tracker without observations.
    pub fn new(target: SloTarget) -> (r: SloTracker)
        ensures
            r.target == target,
            r.window@ == Seq::<RequestObs>::empty(),
    {
        SloTracker { target, window: VecDeque::new(), origin: Instant::now() }
    }

    /// Records a request that was observed at `timestamp`, and drops what has left the window at
    /// time `now`.
    pub fn record_at(&mut self, timestamp: u64, now: u64, latency_ms: u64, is_error: bool)
        ensures
            final(self).target == old(self).target,
            final(self).origin == old(self).origin,
            final(self).window@ == recorded(
                old(self).window@,
                timestamp,
                now,
                latency_ms,
                is_error,
                old(self).target.window_secs,
            ),
    {
        self.window.push_back(RequestObs { timestamp, latency_ms, is_error });
        let secs: u64 = self.target.window_secs;
        let cutoff: u128 = secs as u128 * 1_000_000_000;
        let ghost all = self.window@;
        while self.window.len() > 0
            invariant_except_break
                in_window(self.window@, now, secs) == in_window(all, now, secs),
            invariant
                secs == self.target.window_secs,
                cutoff == secs * 1_000_000_000,
                self.target == old(self).target,
                self.origin == old(self).origin,
            ensures
                self.window@ == in_window(all, now, secs),
            decreases self.window@.len(),
        {
            let front: RequestObs = self.window[0];
            if now >= front.timestamp && (now - front.timestamp) as u128 > cutoff {
                let ghost before = self.window@;
                let _ = self.window.pop_front();
                assert(self.window@ =~= before.skip(1));
            } else {
                break;
            }
        }
    }

    /// Records a request that was observed now.
    pub fn record(&mut self, latency_ms: u64, is_error: bool)
        ensures
            final(self).target == old(self).target,
            final(self).origin == old(self).origin,
            exists|seen: Instant, now: Instant|
                final(self).window@ == recorded(
                    old(self).window@,
                    #[trigger] nanos_at(old(self).origin, seen),
                    #[trigger] nanos_at(old(self).origin, now),
                    latency_ms,
                    is_error,
                    old(self).target.window_secs,
                ),
    {
        let timestamp: u64 = nanos_since(&self.origin);
        let now: u64 = nanos_since(&self.origin);
        self.record_at(timestamp, now, latency_ms, is_error);
        proof {
            let seen = choose|t: Instant| timestamp == #[trigger] nanos_at(old(self).origin, t);
            let t = choose|t: Instant| now == #[trigger] nanos_at(old(self).origin, t);
            assert(timestamp == nanos_at(old(self).origin, seen));
            assert(now == nanos_at(old(self).origin, t));
        }
    }

    /// The present report.
    pub fn report(&self) -> (r: SloReport)
        ensures
            exists|t: Instant|
                reports(r, self.held(#[trigger] nanos_at(self.origin, t)), self.target),
            r.error_rate_pct.wf(),
            r.error_budget_remaining_pct.wf(),
    {
        let now: u64 = nanos_since(&self.origin);
        let r = self.report_at(now);
        proof {
            let t = choose|t: Instant| now == #[trigger] nanos_at(self.origin, t);
            assert(reports(r, self.held(nanos_at(self.origin, t)), self.target));
        }
        r
    }

    /// The report at time `now`, over the observations within the window.
    pub fn report_at(&self, now: u64) -> (r: SloReport)
        ensures
            reports(r, self.held(now), self.target),
            r.error_rate_pct.wf(),
            r.error_budget_remaining_pct.wf(),
    {
        let ghost all = self.window@;
        let ghost w = self.held(now);
        let secs: u64 = self.target.window_secs;
        let cutoff: u128 = secs as u128 * 1_000_000_000;
        let mut n: usize = 0;
        let mut errors: u64 = 0;
        let mut times: Vec<u64> = Vec::new();
        let mut i: usize = 0;
        assert(all.take(0) =~= Seq::<RequestObs>::empty());
        assert(latencies(Seq::<RequestObs>::empty()) =~= Seq::<u64>::empty());
        while i < self.window.len()
            invariant
                i <= self.window@.len(),
                n <= i,
                all == self.window@,
                secs == self.target.window_secs,
                cutoff == secs * 1_000_000_000,
                n == current(all.take(i as int), now, secs).len(),
                errors == count_errors(current(all.take(i as int), now, secs)),
                errors <= n,
                times@ == latencies(current(all.take(i as int), now, secs)),
            decreases self.window@.len() - i,
        {
            let obs: RequestObs = self.window[i];
            let ghost before = current(all.take(i as int), now, secs);
            assert(all.take(i + 1).drop_last() =~= all.take(i as int));
            if !(now >= obs.timestamp && (now - obs.timestamp) as u128 > cutoff) {
                assert(before.push(obs).drop_last() =~= before);
                if obs.is_error {
                    errors = errors + 1;
                }
                times.push(obs.latency_ms);
                n = n + 1;
                assert(times@ =~= latencies(before.push(obs)));
            }
            i = i + 1;
        }
        assert(all.take(i as int) =~= all);
        let total: u64 = n as u64;
        if n == 0 {
            proof {
                lemma_empty_sorted(w);
            }
            return SloReport {
                name: self.target.name.clone(),
                total_requests: 0,
                error_count: 0,
                error_rate_pct: Ratio { part: 0, whole: 1 },
                error_budget_remaining_pct: Ratio { part: 1, whole: 1 },
                p50_ms: 0,
                p95_ms: 0,
                p99_ms: 0,
                status: SloStatus::Good,
                latency_ok: true,
                budget_ok: true,
            };
        }
        let times = ascending(times);
        let p50: u64 = percentile(times.as_slice(), 50);
        let p95: u64 = percentile(times.as_slice(), 95);
        let p99: u64 = percentile(times.as_slice(), 99);
        let ppm: u32 = self.target.error_budget_pct.ppm;
        assert(0 <= ppm * total <= 0xffff_ffff * 0xffff_ffff_ffff_ffff) by (nonlinear_arith)
            requires
                0 <= ppm <= 0xffff_ffff,
                0 <= total <= 0xffff_ffff_ffff_ffff,
        ;
        let allowed: u128 = ppm as u128 * total as u128;
        let used: u128 = errors as u128 * 1_000_000;
        let left = if allowed == 0 {
            Ratio { part: 1, whole: 1 }
        } else if used >= allowed {
            Ratio { part: 0, whole: allowed }
        } else {
            Ratio { part: allowed - used, whole: allowed }
        };
        let latency_ok = p50 <= self.target.latency_p50_ms && p95 <= self.target.latency_p95_ms
            && p99 <= self.target.latency_p99_ms;
        let budget_ok = used <= allowed;
        let status = if !budget_ok || !latency_ok {
            SloStatus::Violated
        } else if left.part * 10 < left.whole {
            SloStatus::Warning
        } else {
            SloStatus::Good
        };
        SloReport {
            name: self.target.name.clone(),
            total_requests: total,
            error_count: errors,
            error_rate_pct: Ratio { part: errors as u128, whole: total as u128 },
            error_budget_remaining_pct: left,
            p50_ms: p50,
            p95_ms: p95,
            p99_ms: p99,
            status,
            latency_ok,
            budget_ok,
        }
    }

    /// The targets of the tracker.
    pub fn target(&self) -> (r: &SloTarget)
        ensures
            *r == self.target,
    {
        &self.target
    }
}

proof fn lemma_at_most_total()
    ensures
        vstd::relations::total_ordering(at_most()),
{
}

proof fn lemma_sorted_is_sort(s: Seq<u64>, t: Seq<u64>)
    requires
        t.to_multiset() == s.to_multiset(),
        vstd::relations::sorted_by(t, at_most()),
    ensures
        t == s.sort_by(at_most()),
{
    lemma_at_most_total();
    s.lemma_sort_by_ensures(at_most());
    vstd::seq_lib::lemma_sorted_unique(t, s.sort_by(at_most()), at_most());
}

proof fn lemma_empty_sorted(w: Seq<RequestObs>)
    requires
        w.len() == 0,
    ensures
        sorted_latencies(w).len() == 0,
{
    let s = latencies(w);
    lemma_at_most_total();
    s.lemma_sort_by_ensures(at_most());
    let t = s.sort_by(at_most());
    s.to_multiset_ensures();
    t.to_multiset_ensures();
}

/// Snapshot of an objective.
#[derive(Debug, Clone)]
pub struct SloReport {
    pub name: String,
    pub total_requests: u64,
    pub error_count: u64,
    pub error_rate_pct: Ratio,
    pub error_budget_remaining_pct: Ratio,
    pub p50_ms: u64,
    pub p95_ms: u64,
    pub p99_ms: u64,
    pub status: SloStatus,
    pub latency_ok: bool,
    pub budget_ok: bool,
}

impl SloReport {
    /// Whether the status is good.
    pub fn is_healthy(&self) -> (r: bool)
        ensures
            r == (self.status == SloStatus::Good),
    {
        self.status == SloStatus::Good
    }

    /// The report in one line.
    pub fn summary(&self) -> (r: String)
        requires
            self.error_rate_pct.wf(),
            self.error_budget_remaining_pct.wf(),
        ensures
            r@ == self.name@ + ": "@ + self.status.name() + " | p50="@ + dec(self.p50_ms as nat)
                + "ms p95="@ + dec(self.p95_ms as nat) + "ms p99="@ + dec(self.p99_ms as nat)
                + "ms | err="@ + self.error_rate_pct.percent_text(3, 1000) + "% budget="@
                + self.error_budget_remaining_pct.percent_text(1, 10) + "%"@,
    {
        self.name.clone().concat(": ").concat(self.status.text().as_str()).concat(" | p50=").concat(
            u64_text(self.p50_ms).as_str(),
        ).concat("ms p95=").concat(u64_text(self.p95_ms).as_str()).concat("ms p99=").concat(
            u64_text(self.p99_ms).as_str(),
        ).concat("ms | err=").concat(self.error_rate_pct.percent_three().as_str()).concat(
            "% budget=",
        ).concat(self.error_budget_remaining_pct.percent_one().as_str()).concat("%")
    }
}

/// Whether `r` reports on what is within the tracker's window at some reading of the clock.
pub open spec fn present_report(r: SloReport, tracker: SloTracker) -> bool {
    exists|t: Instant|
        reports(r, tracker.held(#[trigger] nanos_at(tracker.origin, t)), tracker.target)
}

/// The worst status among reports; good where there are none.
pub open spec fn worst_status(all: Seq<SloReport>) -> SloStatus {
    if exists|i: int| 0 <= i < all.len() && (#[trigger] all[i]).status == SloStatus::Violated {
        SloStatus::Violated
    } else if exists|i: int| 0 <= i < all.len() && (#[trigger] all[i]).status == SloStatus::Warning {
        SloStatus::Warning
    } else {
        SloStatus::Good
    }
}

/// The worst status among reports; good where there are none.
pub fn worst_of(all: &Vec<SloReport>) -> (r: SloStatus)
    ensures
        r == worst_status(all@),
{
    let mut warning = false;
    let mut i: usize = 0;
    while i < all.len()
        invariant
            i <= all@.len(),
            forall|j: int| 0 <= j < i ==> (#[trigger] all@[j]).status != SloStatus::Violated,
            warning <==> exists|j: int| 0 <= j < i && (#[trigger] all@[j]).status
                == SloStatus::Warning,
        decreases all@.len() - i,
    {
        if all[i].status == SloStatus::Violated {
            return SloStatus::Violated;
        }
        if all[i].status == SloStatus::Warning {
            warning = true;
        }
        i = i + 1;
    }
    if warning {
        SloStatus::Warning
    } else {
        SloStatus::Good
    }
}

/// Registry of the trackers of several endpoints.
pub struct SloRegistry {
    pub trackers: KeyedMap<SloTracker>,
}

impl Default for SloRegistry {
    fn default() -> (r: SloRegistry)
        ensures
            r.trackers@ == Map::<Seq<char>, SloTracker>::empty(),
    {
        SloRegistry::new()
    }
}

impl SloRegistry {
    /// A registry without trackers.
    pub fn new() -> (r: SloRegistry)
        ensures
            r.trackers@ == Map::<Seq<char>, SloTracker>::empty(),
    {
        SloRegistry { trackers: KeyedMap::new() }
    }

    /// Registers targets under their name; an earlier tracker of that name is replaced.
    pub fn register(&mut self, target: SloTarget)
        ensures
            exists|t: SloTracker|
                t.target == target && t.window@ == Seq::<RequestObs>::empty() && final(self).trackers@ == #[trigger] old(self).trackers@.insert(target.name@, t),
    {
        let name = target.name.clone();
        let t = SloTracker::new(target);
        self.trackers.insert(name, t);
    }

    /// Records a request to an endpoint, observed at `timestamp`, where the endpoint is
    /// registered. The time `now` decides what has left the window.
    pub fn record_at(
        &mut self,
        endpoint: &str,
        timestamp: u64,
        now: u64,
        latency_ms: u64,
        is_error: bool,
    )
        ensures
            !old(self).trackers@.contains_key(endpoint@) ==> final(self).trackers@ == old(self).trackers@,
            old(self).trackers@.contains_key(endpoint@) ==> {
                let before = old(self).trackers@[endpoint@];
                let after = final(self).trackers@[endpoint@];
                &&& final(self).trackers@ == old(self).trackers@.insert(endpoint@, after)
                &&& after.target == before.target
                &&& after.origin == before.origin
                &&& after.window@ == recorded(
                    before.window@,
                    timestamp,
                    now,
                    latency_ms,
                    is_error,
                    before.target.window_secs,
                )
            },
    {
        match self.trackers.remove(endpoint) {
            Some(t) => {
                let mut tracker = t;
                tracker.record_at(timestamp, now, latency_ms, is_error);
                self.trackers.insert(endpoint.to_owned(), tracker);
                assert(self.trackers@ =~= old(self).trackers@.insert(endpoint@, tracker));
            },
            None => {
                assert(self.trackers@ =~= old(self).trackers@);
            },
        }
    }

    /// Records a request to an endpoint, where the endpoint is registered.
    pub fn record(&mut self, endpoint: &str, latency_ms: u64, is_error: bool)
        ensures
            !old(self).trackers@.contains_key(endpoint@) ==> final(self).trackers@ == old(self).trackers@,
            old(self).trackers@.contains_key(endpoint@) ==> {
                let before = old(self).trackers@[endpoint@];
                let after = final(self).trackers@[endpoint@];
                &&& final(self).trackers@ == old(self).trackers@.insert(endpoint@, after)
                &&& after.target == before.target
                &&& after.origin == before.origin
                &&& exists|seen: Instant, now: Instant|
                    after.window@ == recorded(
                        before.window@,
                        #[trigger] nanos_at(before.origin, seen),
                        #[trigger] nanos_at(before.origin, now),
                        latency_ms,
                        is_error,
                        before.target.window_secs,
                    )
            },
    {
        match self.trackers.remove(endpoint) {
            Some(t) => {
                let mut tracker = t;
                tracker.record(latency_ms, is_error);
                self.trackers.insert(endpoint.to_owned(), tracker);
                assert(self.trackers@ =~= old(self).trackers@.insert(endpoint@, tracker));
            },
            None => {
                assert(self.trackers@ =~= old(self).trackers@);
            },
        }
    }

    /// The report on an endpoint at time `now`, where the endpoint is registered.
    pub fn report_at(&self, endpoint: &str, now: u64) -> (r: Option<SloReport>)
        ensures
            match r {
                Some(x) => self.trackers@.contains_key(endpoint@) && reports(
                    x,
                    self.trackers@[endpoint@].held(now),
                    self.trackers@[endpoint@].target,
                ),
                None => !self.trackers@.contains_key(endpoint@),
            },
    {
        match self.trackers.get(endpoint) {
            Some(t) => Some(t.report_at(now)),
            None => None,
        }
    }

    /// The present report on an endpoint, where it is registered.
    pub fn report(&self, endpoint: &str) -> (r: Option<SloReport>)
        ensures
            match r {
                Some(x) => self.trackers@.contains_key(endpoint@) && present_report(
                    x,
                    self.trackers@[endpoint@],
                ),
                None => !self.trackers@.contains_key(endpoint@),
            },
    {
        match self.trackers.get(endpoint) {
            Some(t) => Some(t.report()),
            None => None,
        }
    }

    /// The reports on all endpoints at time `now`, in the order of their names.
    pub fn all_reports_at(&self, now: u64) -> (r: Vec<SloReport>)
        ensures
            lists_domain(self.trackers.names(), self.trackers@),
            r@.len() == self.trackers.names().len(),
            forall|i: int|
                0 <= i < r@.len() ==> {
                    let t = self.trackers@[self.trackers.names()[i]];
                    reports(#[trigger] r@[i], t.held(now), t.target)
                },
    {
        let n: usize = self.trackers.len();
        let mut out: Vec<SloReport> = Vec::new();
        let mut i: usize = 0;
        while i < n
            invariant
                i <= n,
                n == self.trackers.names().len(),
                out@.len() == i,
                forall|j: int|
                    0 <= j < i ==> {
                        let t = self.trackers@[self.trackers.names()[j]];
                        reports(#[trigger] out@[j], t.held(now), t.target)
                    },
            decreases n - i,
        {
            out.push(self.trackers.value_at(i).report_at(now));
            i = i + 1;
        }
        out
    }

    /// The present reports on all endpoints, in the order of their names.
    pub fn all_reports(&self) -> (r: Vec<SloReport>)
        ensures
            lists_domain(self.trackers.names(), self.trackers@),
            r@.len() == self.trackers.names().len(),
            forall|i: int|
                0 <= i < r@.len() ==> present_report(
                    #[trigger] r@[i],
                    self.trackers@[self.trackers.names()[i]],
                ),
    {
        let n: usize = self.trackers.len();
        let mut out: Vec<SloReport> = Vec::new();
        let mut i: usize = 0;
        while i < n
            invariant
                i <= n,
                n == self.trackers.names().len(),
                out@.len() == i,
                forall|j: int|
                    0 <= j < i ==> present_report(
                        #[trigger] out@[j],
                        self.trackers@[self.trackers.names()[j]],
                    ),
            decreases n - i,
        {
            out.push(self.trackers.value_at(i).report());
            i = i + 1;
        }
        out
    }

    /// The worst status of all endpoints at time `now`.
    pub fn overall_status_at(&self, now: u64) -> (r: SloStatus)
        ensures
            r == (if exists|e: Seq<char>| #[trigger]
                self.trackers@.contains_key(e) && status_of(
                    self.trackers@[e].held(now),
                    self.trackers@[e].target,
                ) == SloStatus::Violated {
                SloStatus::Violated
            } else if exists|e: Seq<char>| #[trigger]
                self.trackers@.contains_key(e) && status_of(
                    self.trackers@[e].held(now),
                    self.trackers@[e].target,
                ) == SloStatus::Warning {
                SloStatus::Warning
            } else {
                SloStatus::Good
            }),
    {
        let all = self.all_reports_at(now);
        let ghost names = self.trackers.names();
        proof {
            assert forall|e: Seq<char>| #[trigger] self.trackers@.contains_key(e) implies exists|j: int|
                0 <= j < all@.len() && (#[trigger] all@[j]).status == status_of(
                    self.trackers@[e].held(now),
                    self.trackers@[e].target,
                ) by {
                assert(names.contains(e));
                let j = choose|j: int| 0 <= j < names.len() && names[j] == e;
                assert(reports(
                    all@[j],
                    self.trackers@[names[j]].held(now),
                    self.trackers@[names[j]].target,
                ));
            }
            assert forall|j: int| 0 <= j < all@.len() implies self.trackers@.contains_key(names[j])
                && (#[trigger] all@[j]).status == status_of(
                self.trackers@[names[j]].held(now),
                self.trackers@[names[j]].target,
            ) by {
                assert(reports(
                    all@[j],
                    self.trackers@[names[j]].held(now),
                    self.trackers@[names[j]].target,
                ));
                assert(names.contains(names[j]));
            }
        }
        worst_of(&all)
    }

    /// The worst status of all endpoints at present.
    pub fn overall_status(&self) -> (r: SloStatus)
        ensures
            exists|all: Seq<SloReport>|
                {
                    &&& r == #[trigger] worst_status(all)
                    &&& all.len() == self.trackers.names().len()
                    &&& forall|i: int|
                        0 <= i < all.len() ==> present_report(
                            #[trigger] all[i],
                            self.trackers@[self.trackers.names()[i]],
                        )
                },
    {
        let all = self.all_reports();
        let r = worst_of(&all);
        assert(r == worst_status(all@));
        r
    }

    /// The number of endpoints.
    pub fn endpoint_count(&self) -> (r: usize)
        ensures
            r == self.trackers@.dom().len(),
    {
        self.trackers.len()
    }
}

// ---------------------------------------------------------------------------
// Laws

/// A percentile is one of the observed latencies.
pub proof fn percentile_was_observed(w: Seq<RequestObs>, pct: int)
    requires
        w.len() > 0,
        0 <= pct,
    ensures
        exists|i: int|
            0 <= i < w.len() && (#[trigger] w[i]).latency_ms == percentile_of(
                sorted_latencies(w),
                pct,
            ),
{
    let s = latencies(w);
    let t = sorted_latencies(w);
    lemma_sorted_length(w);
    s.lemma_sort_by_ensures(at_most());
    let k = percentile_index(t.len() as int, pct);
    assert(0 <= k < t.len()) by {
        assert(pct * t.len() >= 0) by (nonlinear_arith)
            requires
                pct >= 0,
                t.len() >= 0,
        ;
    }
    assert(t.contains(t[k]));
    assert(s.contains(t[k]));
    let i = choose|i: int| 0 <= i < s.len() && s[i] == t[k];
    assert(w[i].latency_ms == t[k]);
}

proof fn lemma_sorted_length(w: Seq<RequestObs>)
    ensures
        sorted_latencies(w).len() == w.len(),
        vstd::relations::sorted_by(sorted_latencies(w), at_most()),
        vstd::relations::total_ordering(at_most()),
{
    let s = latencies(w);
    lemma_at_most_total();
    s.lemma_sort_by_ensures(at_most());
    let t = s.sort_by(at_most());
    s.to_multiset_ensures();
    t.to_multiset_ensures();
}

/// A higher percentile is never lower.
pub proof fn percentiles_ascend(w: Seq<RequestObs>, low: int, high: int)
    requires
        0 <= low <= high,
    ensures
        percentile_of(sorted_latencies(w), low) <= percentile_of(sorted_latencies(w), high),
{
    let t = sorted_latencies(w);
    lemma_sorted_length(w);
    if t.len() > 0 {
        let n = t.len() as int;
        assert(0 <= low * n <= high * n) by (nonlinear_arith)
            requires
                0 <= low <= high,
                n >= 0,
        ;
        let a = percentile_index(n, low);
        let b = percentile_index(n, high);
        assert(0 <= a <= b < n);
        let leq = at_most();
        if a < b {
            assert(leq(t[a], t[b]));
        }
    }
}

proof fn lemma_errors_bounded(w: Seq<RequestObs>)
    ensures
        count_errors(w) <= w.len(),
    decreases w.len(),
{
    if w.len() > 0 {
        lemma_errors_bounded(w.drop_last());
    }
}

/// Nothing observed is good, within budget and within the latency targets.
pub proof fn empty_window_is_good(t: SloTarget, r: SloReport)
    requires
        reports(r, Seq::empty(), t),
    ensures
        r.status == SloStatus::Good,
        r.total_requests == 0,
        r.latency_ok,
        r.budget_ok,
{
}

/// The status is violated exactly where something was observed and the budget or a latency
/// target is exceeded.
pub proof fn violated_iff_exceeded(w: Seq<RequestObs>, t: SloTarget, r: SloReport)
    requires
        reports(r, w, t),
    ensures
        r.status == SloStatus::Violated <==> !r.budget_ok || !r.latency_ok,
{
}

/// Where errors exceed the budget, nothing of it is left.
pub proof fn exceeded_budget_is_used_up(w: Seq<RequestObs>, t: SloTarget, r: SloReport)
    requires
        reports(r, w, t),
        !r.budget_ok,
        t.error_budget_pct.ppm > 0,
    ensures
        r.error_budget_remaining_pct.part == 0,
{
    lemma_errors_bounded(w);
    assert(t.error_budget_pct.ppm * w.len() > 0) by (nonlinear_arith)
        requires
            t.error_budget_pct.ppm > 0,
            w.len() > 0,
    ;
}

/// The window keeps a suffix of what was observed: what has left it is outdated, and the oldest
/// observation that is left is not.
pub proof fn window_keeps_a_suffix(w: Seq<RequestObs>, now: u64, secs: u64)
    ensures
        ({
            let left = in_window(w, now, secs);
            let gone = w.len() - left.len();
            &&& 0 <= gone <= w.len()
            &&& left == w.skip(gone)
            &&& forall|i: int| 0 <= i < gone ==> outdated(#[trigger] w[i], now, secs)
            &&& left.len() > 0 ==> !outdated(left[0], now, secs)
        }),
    decreases w.len(),
{
    if w.len() > 0 && outdated(w[0], now, secs) {
        let rest = w.skip(1);
        window_keeps_a_suffix(rest, now, secs);
        let left = in_window(w, now, secs);
        let gone = w.len() - left.len();
        assert(rest.skip(gone - 1) =~= w.skip(gone));
        assert forall|i: int| 0 <= i < gone implies outdated(#[trigger] w[i], now, secs) by {
            if i > 0 {
                assert(rest[i - 1] == w[i]);
            }
        }
    } else {
        assert(w.skip(0) =~= w);
    }
}

proof fn lemma_current_of_suffix(w: Seq<RequestObs>, gone: int, now: u64, secs: u64)
    requires
        0 <= gone <= w.len(),
        forall|i: int| 0 <= i < gone ==> outdated(#[trigger] w[i], now, secs),
    ensures
        current(w.skip(gone), now, secs) == current(w, now, secs),
    decreases w.len(),
{
    if w.len() == 0 {
        assert(w.skip(gone) =~= w);
    } else if gone == w.len() {
        let init = w.drop_last();
        assert forall|i: int| 0 <= i < gone - 1 implies outdated(#[trigger] init[i], now, secs) by {
            assert(init[i] == w[i]);
        }
        lemma_current_of_suffix(init, gone - 1, now, secs);
        assert(init.skip(gone - 1) =~= Seq::<RequestObs>::empty());
        assert(w.skip(gone) =~= Seq::<RequestObs>::empty());
        assert(outdated(w[gone - 1], now, secs));
    } else {
        let init = w.drop_last();
        assert forall|i: int| 0 <= i < gone implies outdated(#[trigger] init[i], now, secs) by {
            assert(init[i] == w[i]);
        }
        lemma_current_of_suffix(init, gone, now, secs);
        assert(w.skip(gone).drop_last() =~= init.skip(gone));
    }
}

/// What leaves the window on a recording never counts at that time or later: a report goes over
/// the observations within the window among all that were recorded.
pub proof fn recording_loses_nothing_current(
    w: Seq<RequestObs>,
    obs: RequestObs,
    now: u64,
    later: u64,
    secs: u64,
)
    requires
        now <= later,
    ensures
        current(
            recorded(w, obs.timestamp, now, obs.latency_ms, obs.is_error, secs),
            later,
            secs,
        ) == current(w.push(obs), later, secs),
{
    let all = w.push(obs);
    window_keeps_a_suffix(all, now, secs);
    let gone = all.len() - in_window(all, now, secs).len();
    assert forall|i: int| 0 <= i < gone implies outdated(#[trigger] all[i], later, secs) by {
        assert(outdated(all[i], now, secs));
    }
    lemma_current_of_suffix(all, gone, later, secs);
}

/// The window after several observations, each recorded at its own time, starting from an empty
/// one.
pub open spec fn recorded_all(obs: Seq<RequestObs>, secs: u64) -> Seq<RequestObs>
    decreases obs.len(),
{
    if obs.len() == 0 {
        Seq::empty()
    } else {
        recorded(
            recorded_all(obs.drop_last(), secs),
            obs.last().timestamp,
            obs.last().timestamp,
            obs.last().latency_ms,
            obs.last().is_error,
            secs,
        )
    }
}

/// A report at time `now` goes over exactly those of all observations, recorded one after the
/// other, that are not outdated then.
pub proof fn window_slides(obs: Seq<RequestObs>, now: u64, secs: u64)
    requires
        forall|i: int, j: int|
            0 <= i <= j < obs.len() ==> (#[trigger] obs[i]).timestamp <= (#[trigger] obs[j]).timestamp,
        obs.len() > 0 ==> obs.last().timestamp <= now,
    ensures
        current(recorded_all(obs, secs), now, secs) == current(obs, now, secs),
    decreases obs.len(),
{
    if obs.len() > 0 {
        let init = obs.drop_last();
        let last = obs.last();
        assert forall|i: int, j: int| 0 <= i <= j < init.len() implies (
        #[trigger] init[i]).timestamp <= (#[trigger] init[j]).timestamp by {
            assert(init[i] == obs[i] && init[j] == obs[j]);
        }
        if init.len() > 0 {
            assert(init.last() == obs[obs.len() - 2]);
            assert(last == obs[obs.len() - 1]);
        }
        window_slides(init, now, secs);
        let w = recorded_all(init, secs);
        recording_loses_nothing_current(w, last, last.timestamp, now, secs);
        assert(w.push(last).drop_last() =~= w);
        assert(obs =~= init.push(last));
    }
}

/// What a report goes over are the observations that are not outdated, each of them: an
/// observation is among them exactly where it is in the window.
pub proof fn reports_cover_the_window(w: Seq<RequestObs>, now: u64, secs: u64, obs: RequestObs)
    ensures
        current(w, now, secs).contains(obs) <==> w.contains(obs) && !outdated(obs, now, secs),
        current(w, now, secs).len() <= w.len(),
    decreases w.len(),
{
    if w.len() > 0 {
        let init = w.drop_last();
        let c = current(init, now, secs);
        reports_cover_the_window(init, now, secs, obs);
        assert(w =~= init.push(w.last()));
        assert(w.contains(obs) <==> init.contains(obs) || obs == w.last()) by {
            if init.contains(obs) {
                let i = choose|i: int| 0 <= i < init.len() && init[i] == obs;
                assert(w[i] == obs);
            }
            assert(w[w.len() - 1] == w.last());
        }
        let d = c.push(w.last());
        assert(d.contains(obs) <==> c.contains(obs) || obs == w.last()) by {
            if c.contains(obs) {
                let i = choose|i: int| 0 <= i < c.len() && c[i] == obs;
                assert(d[i] == obs);
            }
            assert(d[d.len() - 1] == w.last());
        }
    }
}

/// No observation that was recorded at the present time leaves the window at once.
pub proof fn fresh_observation_is_kept(w: Seq<RequestObs>, obs: RequestObs, now: u64, secs: u64)
    requires
        obs.timestamp == now,
    ensures
        in_window(w.push(obs), now, secs).len() > 0,
        in_window(w.push(obs), now, secs).last() == obs,
    decreases w.len(),
{
    let all = w.push(obs);
    if w.len() == 0 {
        assert(all[0] == obs);
    } else if outdated(all[0], now, secs) {
        assert(all.skip(1) =~= w.skip(1).push(obs));
        fresh_observation_is_kept(w.skip(1), obs, now, secs);
    }
}

/// The latency of something observed is in order exactly where each of the three percentiles that
/// are reported keeps its target.
pub proof fn every_latency_target_counts(w: Seq<RequestObs>, t: SloTarget, r: SloReport)
    requires
        reports(r, w, t),
        w.len() > 0,
    ensures
        r.latency_ok <==> r.p50_ms <= t.latency_p50_ms && r.p95_ms <= t.latency_p95_ms && r.p99_ms
            <= t.latency_p99_ms,
{
}

/// The budget is kept exactly where the errors that are reported are no more than the budget's share
/// of the requests, in parts per million.
pub proof fn errors_are_held_to_the_budget(w: Seq<RequestObs>, t: SloTarget, r: SloReport)
    requires
        reports(r, w, t),
        w.len() > 0,
    ensures
        r.budget_ok <==> r.error_count * 1_000_000 <= t.error_budget_pct.ppm * r.total_requests,
{
}

} // verus!
