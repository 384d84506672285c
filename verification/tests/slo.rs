use ulgate::ratio::{Fraction, Ratio};
use ulgate::slo::{percentile, SloRegistry, SloReport, SloStatus, SloTarget, SloTracker};

const SECOND: u64 = 1_000_000_000;

fn percent(x: f64) -> Fraction {
    Fraction { ppm: (x * 10_000.0).round() as u32 }
}

fn pct(r: Ratio) -> f64 {
    100.0 * r.part as f64 / r.whole as f64
}

fn make_tracker(p99: u64, budget: f64) -> SloTracker {
    SloTracker::new(
        SloTarget::new("test")
            .latency_p50(50)
            .latency_p95(200)
            .latency_p99(p99)
            .error_budget_pct(percent(budget))
            .window_secs(3600),
    )
}

#[test]
fn empty_tracker_good() {
    let t = make_tracker(500, 0.1);
    let r = t.report();
    assert_eq!(r.status, SloStatus::Good);
    assert_eq!(r.total_requests, 0);
}

#[test]
fn healthy_requests_good() {
    let mut t = make_tracker(500, 1.0);
    for _ in 0..100 {
        t.record(50, false);
    }
    let r = t.report();
    assert_eq!(r.status, SloStatus::Good);
    assert_eq!(r.total_requests, 100);
    assert_eq!(r.error_count, 0);
    assert!(r.latency_ok);
    assert!(r.budget_ok);
}

#[test]
fn high_latency_violates() {
    let mut t = make_tracker(100, 1.0);
    for _ in 0..100 {
        t.record(500, false);
    }
    let r = t.report();
    assert_eq!(r.status, SloStatus::Violated);
    assert!(!r.latency_ok);
}

#[test]
fn high_error_rate_violates() {
    let mut t = make_tracker(500, 1.0);
    for _ in 0..90 {
        t.record(10, false);
    }
    for _ in 0..10 {
        t.record(10, true);
    }
    let r = t.report();
    assert!(pct(r.error_rate_pct) > 1.0);
    assert_eq!(r.status, SloStatus::Violated);
    assert!(!r.budget_ok);
}

#[test]
fn error_count_tracked() {
    let mut t = make_tracker(500, 10.0);
    for _ in 0..95 {
        t.record(10, false);
    }
    for _ in 0..5 {
        t.record(10, true);
    }
    let r = t.report();
    assert_eq!(r.error_count, 5);
    assert_eq!(r.total_requests, 100);
    assert!((pct(r.error_rate_pct) - 5.0).abs() < 0.1);
}

#[test]
fn latency_percentiles_correct() {
    let mut t = make_tracker(500, 1.0);
    for i in 1..=100 {
        t.record(i as u64, false);
    }
    let r = t.report();
    assert!(r.p50_ms >= 48 && r.p50_ms <= 52);
    assert!(r.p95_ms >= 93 && r.p95_ms <= 97);
    assert!(r.p99_ms >= 97 && r.p99_ms <= 100);
}

#[test]
fn slo_status_display() {
    assert_eq!(SloStatus::Good.text(), "good");
    assert_eq!(SloStatus::Warning.text(), "warning");
    assert_eq!(SloStatus::Violated.text(), "violated");
}

#[test]
fn report_summary() {
    let mut t = make_tracker(500, 1.0);
    t.record(10, false);
    let r = t.report();
    let summary = r.summary();
    assert!(summary.contains("test"));
    assert!(summary.contains("p50"));
    assert!(summary.contains("p99"));
}

#[test]
fn registry_multi_endpoint() {
    let mut reg = SloRegistry::new();
    reg.register(SloTarget::new("api/run").latency_p99(500).error_budget_pct(percent(1.0)));
    reg.register(SloTarget::new("api/chat").latency_p99(1000).error_budget_pct(percent(1.0)));
    assert_eq!(reg.endpoint_count(), 2);

    for _ in 0..100 {
        reg.record("api/run", 50, false);
        reg.record("api/chat", 100, false);
    }

    let run_report = reg.report("api/run").unwrap();
    assert_eq!(run_report.status, SloStatus::Good);

    let all = reg.all_reports();
    assert_eq!(all.len(), 2);
}

#[test]
fn registry_overall_status_violated() {
    let mut reg = SloRegistry::new();
    reg.register(SloTarget::new("good").latency_p99(500).error_budget_pct(percent(1.0)));
    reg.register(SloTarget::new("bad").latency_p99(50).error_budget_pct(percent(1.0)));

    for _ in 0..100 {
        reg.record("good", 10, false);
        reg.record("bad", 500, false);
    }

    assert_eq!(reg.overall_status(), SloStatus::Violated);
}

#[test]
fn registry_missing_endpoint_returns_none() {
    let reg = SloRegistry::new();
    assert!(reg.report("nonexistent").is_none());
}

#[test]
fn slo_target_builder() {
    let t = SloTarget::new("workflow")
        .latency_p50(100)
        .latency_p95(300)
        .latency_p99(500)
        .error_budget_pct(percent(0.1))
        .window_secs(3600);
    assert_eq!(t.latency_p99_ms, 500);
    assert_eq!(t.error_budget_pct, percent(0.1));
}

#[test]
fn is_healthy() {
    let mut t = make_tracker(500, 1.0);
    t.record(10, false);
    assert!(t.report().is_healthy());
}

#[test]
fn error_budget_exhaustion() {
    let mut t = make_tracker(500, 1.0);
    for _ in 0..98 {
        t.record(10, false);
    }
    for _ in 0..2 {
        t.record(10, true);
    }
    let r = t.report();
    assert_eq!(r.status, SloStatus::Violated);
    assert_eq!(pct(r.error_budget_remaining_pct), 0.0);
}

#[test]
fn default_targets() {
    let t = SloTarget::new("x");
    assert_eq!(t.name, "x");
    assert_eq!((t.latency_p50_ms, t.latency_p95_ms, t.latency_p99_ms), (100, 300, 500));
    assert_eq!(t.error_budget_pct, percent(0.1));
    assert_eq!(t.window_secs, 2_592_000);
}

#[test]
fn exact_percentiles() {
    let mut v: Vec<u64> = (1..=200).collect();
    assert_eq!(percentile(&v, 50), 101);
    assert_eq!(percentile(&v, 95), 191);
    assert_eq!(percentile(&v, 99), 199);
    assert_eq!(percentile(&v, 100), 200);
    v.truncate(1);
    assert_eq!(percentile(&v, 99), 1);
    assert_eq!(percentile(&[], 50), 0);
}

#[test]
fn percentile_matches_the_fraction() {
    for n in 1..3000usize {
        let v: Vec<u64> = (0..n as u64).collect();
        for p in [50usize, 95, 99] {
            let idx = ((p as f64 / 100.0) * n as f64) as usize;
            assert_eq!(percentile(&v, p), v[idx.min(n - 1)]);
        }
    }
}

#[test]
fn order_of_observations_does_not_matter() {
    let mut a = make_tracker(500, 1.0);
    let mut b = make_tracker(500, 1.0);
    for i in 0..50u64 {
        a.record((i * 37) % 50, false);
        b.record(49 - i, false);
    }
    let (x, y) = (a.report(), b.report());
    assert_eq!((x.p50_ms, x.p95_ms, x.p99_ms), (25, 47, 49));
    assert_eq!((y.p50_ms, y.p95_ms, y.p99_ms), (25, 47, 49));
}

#[test]
fn observations_leave_the_window() {
    let mut t = SloTracker::new(SloTarget::new("w").window_secs(10));
    t.record_at(0, 0, 1, true);
    t.record_at(5 * SECOND, 5 * SECOND, 2, false);
    t.record_at(10 * SECOND, 10 * SECOND, 3, false);
    assert_eq!(t.report_at(10 * SECOND).total_requests, 3);
    assert_eq!(t.report_at(10 * SECOND + 1).total_requests, 2);
    t.record_at(10 * SECOND + 1, 10 * SECOND + 1, 4, false);
    assert_eq!(t.report_at(10 * SECOND + 1).total_requests, 3);
    assert_eq!(t.report_at(10 * SECOND + 1).error_count, 0);
    let r = t.report_at(20 * SECOND);
    assert_eq!((r.total_requests, r.p50_ms, r.p99_ms), (2, 4, 4));
    assert_eq!(t.report_at(21 * SECOND).total_requests, 0);
    assert_eq!(t.report_at(21 * SECOND).status, SloStatus::Good);
    assert_eq!(t.target().name, "w");
}

#[test]
fn warning_below_a_tenth_of_the_budget() {
    let mut t = make_tracker(500, 1.0);
    for i in 0..1000 {
        t.record(10, i < 8);
    }
    assert_eq!(t.report().status, SloStatus::Good);
    let mut u = make_tracker(500, 1.0);
    for i in 0..2000 {
        u.record(10, i < 19);
    }
    let r = u.report();
    assert_eq!(r.status, SloStatus::Warning);
    assert!(!r.is_healthy());
    assert_eq!(r.error_budget_remaining_pct, Ratio { part: 1_000_000, whole: 20_000_000 });
}

#[test]
fn zero_budget() {
    let mut t = make_tracker(500, 0.0);
    t.record(10, false);
    let r = t.report();
    assert_eq!(r.status, SloStatus::Good);
    assert_eq!(pct(r.error_budget_remaining_pct), 100.0);
    t.record(10, true);
    assert_eq!(t.report().status, SloStatus::Violated);
}

#[test]
fn summary_text() {
    let mut t = make_tracker(500, 1.0);
    for i in 0..1600 {
        t.record(10, i < 1);
    }
    assert_eq!(
        t.report().summary(),
        "test: good | p50=10ms p95=10ms p99=10ms | err=0.062% budget=93.8%"
    );
    let r: SloReport = make_tracker(1, 1.0).report();
    assert_eq!(r.summary(), "test: good | p50=0ms p95=0ms p99=0ms | err=0.000% budget=100.0%");
}

#[test]
fn reports_come_in_order_of_names() {
    let mut reg = SloRegistry::default();
    for n in ["b", "a", "c", "ab"] {
        reg.register(SloTarget::new(n));
    }
    let names: Vec<String> = reg.all_reports().into_iter().map(|r| r.name).collect();
    assert_eq!(names, ["a", "ab", "b", "c"]);
    assert_eq!(reg.overall_status(), SloStatus::Good);
}

#[test]
fn registering_again_starts_afresh() {
    let mut reg = SloRegistry::new();
    reg.register(SloTarget::new("a"));
    reg.record("a", 1, true);
    reg.record("missing", 1, true);
    assert_eq!(reg.report("a").unwrap().total_requests, 1);
    reg.register(SloTarget::new("a"));
    assert_eq!(reg.report("a").unwrap().total_requests, 0);
    assert_eq!(reg.endpoint_count(), 1);
}

#[test]
fn overall_warning() {
    let mut reg = SloRegistry::new();
    reg.register(SloTarget::new("a").error_budget_pct(percent(1.0)));
    for i in 0..2000u64 {
        reg.record_at("a", i, i, 1, i < 19);
    }
    assert_eq!(reg.overall_status(), SloStatus::Warning);
}

#[test]
fn registry_reports_at_a_time() {
    let mut reg = SloRegistry::new();
    reg.register(SloTarget::new("a").window_secs(1));
    reg.register(SloTarget::new("b").window_secs(100));
    reg.record_at("a", 0, 0, 1, true);
    reg.record_at("b", 0, 0, 1, false);
    assert_eq!(reg.overall_status_at(SECOND), SloStatus::Violated);
    assert_eq!(reg.overall_status_at(2 * SECOND), SloStatus::Good);
    let counts: Vec<u64> =
        reg.all_reports_at(2 * SECOND).into_iter().map(|r| r.total_requests).collect();
    assert_eq!(counts, vec![0, 1]);
    assert_eq!(reg.report_at("b", 200 * SECOND).unwrap().total_requests, 0);
    assert!(reg.report_at("c", 0).is_none());
}
