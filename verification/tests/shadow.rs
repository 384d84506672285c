use ulgate::ratio::Fraction;
use ulgate::shadow::{simple_hash, TrafficShadow};

#[test]
fn disabled_by_default() {
    let mut shadow = TrafficShadow::new(100);
    assert!(!shadow.is_enabled());
    shadow.record("GET", "/health", "", 200, "{}", 10, None);
    assert_eq!(shadow.buffer_size(), 0);
}

#[test]
fn record_when_enabled() {
    let mut shadow = TrafficShadow::new(100);
    shadow.set_enabled(true);
    shadow.record("GET", "/health", "", 200, "{}", 10, None);
    assert_eq!(shadow.buffer_size(), 1);
    assert_eq!(shadow.total_recorded(), 1);
}

#[test]
fn ring_buffer_evicts_oldest() {
    let mut shadow = TrafficShadow::new(3);
    shadow.set_enabled(true);
    for i in 0..5 {
        shadow.record("GET", &format!("/path/{}", i), "", 200, "{}", 10, None);
    }
    assert_eq!(shadow.buffer_size(), 3);
    let recent = shadow.recent(10);
    assert!(recent[0].path.contains("4"));
}

#[test]
fn recent_returns_newest_first() {
    let mut shadow = TrafficShadow::new(100);
    shadow.set_enabled(true);
    shadow.record("GET", "/first", "", 200, "{}", 10, None);
    shadow.record("GET", "/second", "", 200, "{}", 10, None);
    let recent = shadow.recent(10);
    assert_eq!(recent[0].path, "/second");
    assert_eq!(recent[1].path, "/first");
}

#[test]
fn filter_by_path() {
    let mut shadow = TrafficShadow::new(100);
    shadow.set_enabled(true);
    shadow.record("POST", "/v1/run", "{}", 200, "{}", 100, None);
    shadow.record("GET", "/v1/health", "", 200, "{}", 5, None);
    shadow.record("POST", "/v1/run", "{}", 200, "{}", 150, None);

    let runs = shadow.filter_by_path("/v1/run");
    assert_eq!(runs.len(), 2);
}

#[test]
fn filter_by_tenant() {
    let mut shadow = TrafficShadow::new(100);
    shadow.set_enabled(true);
    shadow.record("GET", "/", "", 200, "{}", 10, Some("acme"));
    shadow.record("GET", "/", "", 200, "{}", 10, Some("beta"));
    shadow.record("GET", "/", "", 200, "{}", 10, Some("acme"));

    let acme = shadow.filter_by_tenant("acme");
    assert_eq!(acme.len(), 2);
}

#[test]
fn filter_errors() {
    let mut shadow = TrafficShadow::new(100);
    shadow.set_enabled(true);
    shadow.record("GET", "/ok", "", 200, "{}", 10, None);
    shadow.record("POST", "/bad", "{}", 400, "error", 10, None);
    shadow.record("POST", "/fail", "{}", 500, "error", 10, None);

    let errors = shadow.filter_errors();
    assert_eq!(errors.len(), 2);
}

#[test]
fn export_all() {
    let mut shadow = TrafficShadow::new(100);
    shadow.set_enabled(true);
    for i in 0..10 {
        shadow.record("GET", &format!("/{}", i), "", 200, "{}", i as u64, None);
    }
    let all = shadow.export_all();
    assert_eq!(all.len(), 10);
}

#[test]
fn clear_buffer() {
    let mut shadow = TrafficShadow::new(100);
    shadow.set_enabled(true);
    shadow.record("GET", "/", "", 200, "{}", 10, None);
    assert_eq!(shadow.buffer_size(), 1);
    shadow.clear();
    assert_eq!(shadow.buffer_size(), 0);
    assert_eq!(shadow.total_recorded(), 1);
}

#[test]
fn body_truncated() {
    let mut shadow = TrafficShadow::new(100);
    shadow.set_enabled(true);
    let big = "x".repeat(10000);
    shadow.record("POST", "/", &big, 200, &big, 10, None);
    let recent = shadow.recent(1);
    assert!(recent[0].body.len() <= 4096);
    assert!(recent[0].response_body.len() <= 4096);
}

#[test]
fn latency_and_timestamp_recorded() {
    let mut shadow = TrafficShadow::new(100);
    shadow.set_enabled(true);
    shadow.record("GET", "/", "", 200, "{}", 42, None);
    let recent = shadow.recent(1);
    assert_eq!(recent[0].latency_ms, 42);
    assert!(recent[0].timestamp_ms > 0);
}

#[test]
fn hash_known_values() {
    assert_eq!(simple_hash(b""), 0x9e3779b97f4a7c15);
    assert_eq!(simple_hash(b"/v1/run"), 0x2aaa6ce18fb914cc);
    assert_eq!(simple_hash(b"/health"), 0x23133dca2734e03d);
}

#[test]
fn sampling_goes_by_path() {
    let mut shadow = TrafficShadow::new(10).with_sample_rate(Fraction { ppm: 150_000 });
    shadow.set_enabled(true);
    shadow.record("GET", "/v1/run", "", 200, "{}", 1, None);
    assert_eq!(shadow.buffer_size(), 0);
    shadow.record("GET", "/health", "", 200, "{}", 1, None);
    assert_eq!(shadow.buffer_size(), 1);
    assert_eq!(shadow.total_recorded(), 1);
}

#[test]
fn sample_rate_is_clamped() {
    let shadow = TrafficShadow::new(10).with_sample_rate(Fraction { ppm: 2_000_000 });
    assert_eq!(shadow.sample_rate, Fraction { ppm: 1_000_000 });
    let mut none = TrafficShadow::new(10).with_sample_rate(Fraction { ppm: 0 });
    none.set_enabled(true);
    none.record("GET", "/v1/run", "", 200, "", 0, None);
    assert_eq!(none.buffer_size(), 0);
}

#[test]
fn buffer_without_capacity_keeps_nothing() {
    let mut shadow = TrafficShadow::new(0);
    shadow.set_enabled(true);
    shadow.record("GET", "/a", "", 200, "", 0, None);
    shadow.record("GET", "/b", "", 200, "", 0, None);
    assert_eq!(shadow.capacity(), 0);
    assert_eq!(shadow.buffer_size(), 0);
    assert_eq!(shadow.recent(5).len(), 0);
    assert_eq!(shadow.total_recorded(), 2);
}

#[test]
fn entries_are_kept_as_recorded() {
    let mut shadow = TrafficShadow::new(2);
    shadow.set_enabled(true);
    let long = "\u{e9}".repeat(5000);
    shadow.record_at(77, "PUT", "/p?x", &long, 404, "no", 9, Some("t"));
    let q = &shadow.export_all()[0];
    assert_eq!(q.timestamp_ms, 77);
    assert_eq!(q.method, "PUT");
    assert_eq!(q.path, "/p?x");
    assert_eq!(q.body.chars().count(), 4096);
    assert_eq!(q.response_status, 404);
    assert_eq!(q.response_body, "no");
    assert_eq!(q.tenant_id.as_deref(), Some("t"));
    assert_eq!(shadow.recent(0).len(), 0);
}
