//! What holds of every report on an objective.

use vstd::multiset::*;
use vstd::prelude::*;

use crate::slo::{
    at_most, count_errors, current, latencies, percentile_of, reports, RequestObs, SloReport, SloStatus,
    SloTarget,
};

verus! {

// ---------------------------------------------------------------------------
// Counting

/// How many numbers are lower than `v`.
pub open spec fn lower_than(s: Seq<u64>, v: u64) -> nat {
    s.filter(|x: u64| x < v).len()
}

/// How many numbers are no higher than `v`.
pub open spec fn up_to(s: Seq<u64>, v: u64) -> nat {
    s.filter(|x: u64| x <= v).len()
}

proof fn lemma_filter_count(s: Seq<u64>, p: spec_fn(u64) -> bool)
    ensures
        s.filter(p).len() == s.to_multiset().filter(p).len(),
    decreases s.len(),
{
    broadcast use group_multiset_axioms;

    reveal(Seq::filter);
    s.to_multiset_ensures();
    if s.len() == 0 {
        assert(s.to_multiset() =~= Multiset::empty());
        assert(s.to_multiset().filter(p) =~= Multiset::empty());
    } else {
        let init = s.drop_last();
        let last = s.last();
        lemma_filter_count(init, p);
        init.to_multiset_ensures();
        assert(s =~= init.push(last));
        assert(s.to_multiset() =~= init.to_multiset().insert(last));
        if p(last) {
            assert(s.to_multiset().filter(p) =~= init.to_multiset().filter(p).insert(last));
        } else {
            assert(s.to_multiset().filter(p) =~= init.to_multiset().filter(p));
        }
    }
}

proof fn lemma_filter_at_least(s: Seq<u64>, p: spec_fn(u64) -> bool, n: int)
    requires
        0 <= n <= s.len(),
        forall|i: int| 0 <= i < n ==> p(#[trigger] s[i]),
    ensures
        s.filter(p).len() >= n,
    decreases s.len(),
{
    reveal(Seq::filter);
    if s.len() > 0 {
        let init = s.drop_last();
        assert forall|i: int| 0 <= i < n && i < init.len() implies p(#[trigger] init[i]) by {
            assert(init[i] == s[i]);
        }
        if n == s.len() {
            lemma_filter_at_least(init, p, n - 1);
            assert(p(s[n - 1]));
        } else {
            lemma_filter_at_least(init, p, n);
        }
    }
}

proof fn lemma_filter_at_most(s: Seq<u64>, p: spec_fn(u64) -> bool, n: int)
    requires
        0 <= n <= s.len(),
        forall|i: int| n <= i < s.len() ==> !p(#[trigger] s[i]),
    ensures
        s.filter(p).len() <= n,
    decreases s.len(),
{
    reveal(Seq::filter);
    if s.len() > 0 {
        let init = s.drop_last();
        assert forall|i: int| n <= i < init.len() implies !p(#[trigger] init[i]) by {
            assert(init[i] == s[i]);
        }
        if n == s.len() {
            lemma_filter_at_most(init, p, n - 1);
        } else {
            lemma_filter_at_most(init, p, n);
            assert(!p(s[s.len() - 1]));
        }
    }
}

/// A percentile divides the numbers it is taken of: no more than its share of them is lower, and
/// more than its share is no higher.
pub proof fn percentile_divides(s: Seq<u64>, pct: int)
    requires
        s.len() > 0,
        0 <= pct < 100,
    ensures
        ({
            let v = percentile_of(s.sort_by(at_most()), pct);
            lower_than(s, v) * 100 <= pct * s.len() < up_to(s, v) * 100
        }),
{
    let t = s.sort_by(at_most());
    let leq = at_most();
    assert(vstd::relations::total_ordering(leq));
    s.lemma_sort_by_ensures(leq);
    s.to_multiset_ensures();
    t.to_multiset_ensures();
    let n = t.len() as int;
    assert(n == s.len());
    let x = pct * n;
    assert(0 <= x < 100 * n) by (nonlinear_arith)
        requires
            0 <= pct < 100,
            n > 0,
            x == pct * n,
    ;
    let k = x / 100;
    assert(0 <= k < n);
    let v = percentile_of(t, pct);
    assert(v == t[k]);
    let low = |y: u64| y < v;
    let high = |y: u64| y <= v;
    assert forall|i: int| k <= i < t.len() implies !low(#[trigger] t[i]) by {
        if k < i {
            assert(leq(t[k], t[i]));
        }
    }
    assert forall|i: int| 0 <= i < k + 1 implies high(#[trigger] t[i]) by {
        if i < k {
            assert(leq(t[i], t[k]));
        }
    }
    lemma_filter_at_most(t, low, k);
    lemma_filter_at_least(t, high, k + 1);
    lemma_filter_count(t, low);
    lemma_filter_count(s, low);
    lemma_filter_count(t, high);
    lemma_filter_count(s, high);
}

// ---------------------------------------------------------------------------
// Reports

/// The percentiles of a report divide the latencies that were observed: half of the requests, one in
/// twenty and one in a hundred are slower, as far as whole requests go.
pub proof fn reported_percentiles_divide(w: Seq<RequestObs>, t: SloTarget, r: SloReport)
    requires
        reports(r, w, t),
        w.len() > 0,
    ensures
        lower_than(latencies(w), r.p50_ms) * 100 <= 50 * w.len() < up_to(latencies(w), r.p50_ms)
            * 100,
        lower_than(latencies(w), r.p95_ms) * 100 <= 95 * w.len() < up_to(latencies(w), r.p95_ms)
            * 100,
        lower_than(latencies(w), r.p99_ms) * 100 <= 99 * w.len() < up_to(latencies(w), r.p99_ms)
            * 100,
        r.p50_ms <= r.p95_ms <= r.p99_ms,
{
    percentile_divides(latencies(w), 50);
    percentile_divides(latencies(w), 95);
    percentile_divides(latencies(w), 99);
    crate::slo::percentiles_ascend(w, 50, 95);
    crate::slo::percentiles_ascend(w, 95, 99);
}

/// The errors are those of the observations that failed, and the error rate is their share.
pub proof fn failures_are_counted(w: Seq<RequestObs>, t: SloTarget, r: SloReport)
    requires
        reports(r, w, t),
    ensures
        r.error_count == w.filter(|o: RequestObs| o.is_error).len(),
        r.total_requests == w.len(),
        r.error_count <= r.total_requests,
        r.error_rate_pct.whole > 0,
        w.len() > 0 ==> r.error_rate_pct.part * r.total_requests == r.error_count
            * r.error_rate_pct.whole,
        w.len() == 0 ==> r.error_rate_pct.part == 0,
{
    lemma_count_errors(w);
    assert(w.len() as u128 == w.len());
    assert(count_errors(w) as u128 == count_errors(w));
    assert(count_errors(w) * w.len() == w.len() * count_errors(w)) by (nonlinear_arith);
}

proof fn lemma_count_errors(w: Seq<RequestObs>)
    ensures
        count_errors(w) == w.filter(|o: RequestObs| o.is_error).len(),
        count_errors(w) <= w.len(),
    decreases w.len(),
{
    reveal(Seq::filter);
    if w.len() > 0 {
        lemma_count_errors(w.drop_last());
    }
}

/// The status follows from what is reported: violated where the budget or a latency target is
/// exceeded, else a warning where errors have used more than nine tenths of a budget, else good.
pub proof fn status_follows_the_figures(w: Seq<RequestObs>, t: SloTarget, r: SloReport)
    requires
        reports(r, w, t),
        w.len() > 0,
    ensures
        ({
            let allowed = t.error_budget_pct.ppm * r.total_requests;
            let used = r.error_count * 1_000_000;
            let slow = r.p50_ms > t.latency_p50_ms || r.p95_ms > t.latency_p95_ms || r.p99_ms
                > t.latency_p99_ms;
            &&& r.status == SloStatus::Violated <==> slow || used > allowed
            &&& r.status == SloStatus::Warning <==> !slow && used <= allowed && (allowed - used) * 10
                < allowed
            &&& r.status == SloStatus::Good <==> !slow && used <= allowed && (allowed - used) * 10
                >= allowed
        }),
{
    lemma_count_errors(w);
    lemma_allowed(w, t);
}

proof fn lemma_allowed(w: Seq<RequestObs>, t: SloTarget)
    requires
        w.len() <= u64::MAX,
    ensures
        t.error_budget_pct.ppm * w.len() <= u128::MAX,
        w.len() > 0 && t.error_budget_pct.ppm > 0 ==> t.error_budget_pct.ppm * w.len() > 0,
{
    let n = w.len() as int;
    let p = t.error_budget_pct.ppm as int;
    assert(p * n <= 0xffff_ffff * 0xffff_ffff_ffff_ffff) by (nonlinear_arith)
        requires
            0 <= p <= 0xffff_ffff,
            0 <= n <= 0xffff_ffff_ffff_ffff,
    ;
    if n > 0 && p > 0 {
        assert(p * n > 0) by (nonlinear_arith)
            requires
                p > 0,
                n > 0,
        ;
    }
}

/// What is left of the budget is what errors have not used: as a share of the budget it falls from
/// one, with no errors, to nothing, where they reach the budget.
pub proof fn errors_use_the_budget(w: Seq<RequestObs>, t: SloTarget, r: SloReport)
    requires
        reports(r, w, t),
        w.len() > 0,
        t.error_budget_pct.ppm > 0,
    ensures
        ({
            let allowed = t.error_budget_pct.ppm * r.total_requests;
            let used = r.error_count * 1_000_000;
            let left = r.error_budget_remaining_pct;
            &&& left.whole > 0
            &&& left.part <= left.whole
            &&& used >= allowed ==> left.part == 0
            &&& used <= allowed ==> left.part * allowed == (allowed - used) * left.whole
        }),
{
    lemma_count_errors(w);
    lemma_allowed(w, t);
    let allowed = t.error_budget_pct.ppm * w.len();
    let used = count_errors(w) * 1_000_000;
    assert((allowed - used) * allowed == (allowed - used) * allowed);
    assert(0 * allowed == 0 * allowed);
}

/// What is reported at a time is what is no older than the window then, in order.
pub proof fn window_is_what_is_recent(w: Seq<RequestObs>, now: u64, secs: u64)
    ensures
        current(w, now, secs) == w.filter(
            |o: RequestObs| now - o.timestamp <= secs * 1_000_000_000,
        ),
    decreases w.len(),
{
    reveal(Seq::filter);
    if w.len() > 0 {
        window_is_what_is_recent(w.drop_last(), now, secs);
    }
}

} // verus!
