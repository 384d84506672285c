use ulgate::degradation::{DegradationController, DegradationMode, DegradationThresholds, Priority};
use ulgate::ratio::{Fraction, Ratio};

fn rate(x: f64) -> Ratio {
    Ratio { part: (x * 1_000_000.0).round() as u128, whole: 1_000_000 }
}

#[test]
fn default_mode_normal() {
    let dc = DegradationController::with_defaults();
    assert_eq!(dc.mode(), DegradationMode::Normal);
    assert!(dc.allows_writes());
    assert!(dc.allows_llm());
    assert!(dc.allows_reads());
    assert!(dc.allows_workflows());
}

#[test]
fn mode_display() {
    assert_eq!(DegradationMode::Normal.text(), "normal");
    assert_eq!(DegradationMode::Degraded.text(), "degraded");
    assert_eq!(DegradationMode::ReadOnly.text(), "read_only");
    assert_eq!(DegradationMode::Emergency.text(), "emergency");
}

#[test]
fn degraded_mode_no_llm() {
    let mut dc = DegradationController::with_defaults();
    dc.evaluate(rate(0.06), 0);
    assert_eq!(dc.mode(), DegradationMode::Degraded);
    assert!(!dc.allows_llm());
    assert!(dc.allows_writes());
    assert!(dc.allows_workflows());
}

#[test]
fn readonly_mode_on_high_errors() {
    let mut dc = DegradationController::with_defaults();
    dc.evaluate(rate(0.16), 0);
    assert_eq!(dc.mode(), DegradationMode::ReadOnly);
    assert!(!dc.allows_writes());
    assert!(!dc.allows_llm());
    assert!(dc.allows_reads());
}

#[test]
fn emergency_mode_on_critical_errors() {
    let mut dc = DegradationController::with_defaults();
    dc.evaluate(rate(0.31), 0);
    assert_eq!(dc.mode(), DegradationMode::Emergency);
    assert!(!dc.allows_reads());
    assert!(!dc.allows_writes());
    assert!(!dc.allows_llm());
}

#[test]
fn high_latency_triggers_degraded() {
    let mut dc = DegradationController::with_defaults();
    dc.evaluate(rate(0.01), 6000);
    assert_eq!(dc.mode(), DegradationMode::Degraded);
}

#[test]
fn very_high_latency_triggers_readonly() {
    let mut dc = DegradationController::with_defaults();
    dc.evaluate(rate(0.01), 16000);
    assert_eq!(dc.mode(), DegradationMode::ReadOnly);
}

#[test]
fn recovery_back_to_normal() {
    let mut dc = DegradationController::with_defaults();
    dc.evaluate(rate(0.20), 0);
    assert_eq!(dc.mode(), DegradationMode::ReadOnly);
    dc.evaluate(rate(0.01), 100);
    assert_eq!(dc.mode(), DegradationMode::Normal);
}

#[test]
fn manual_override() {
    let mut dc = DegradationController::with_defaults();
    dc.set_mode(DegradationMode::ReadOnly);
    assert_eq!(dc.mode(), DegradationMode::ReadOnly);
    dc.evaluate(rate(0.0), 0);
    assert_eq!(dc.mode(), DegradationMode::ReadOnly);
    dc.clear_override();
    assert_eq!(dc.mode(), DegradationMode::Normal);
}

#[test]
fn load_shedding_by_priority() {
    let mut dc = DegradationController::with_defaults();
    dc.evaluate(rate(0.06), 0);
    assert!(dc.should_shed(Priority::Background));
    assert!(!dc.should_shed(Priority::Starter));
    assert!(!dc.should_shed(Priority::Pro));
    assert!(!dc.should_shed(Priority::Enterprise));
    assert!(!dc.should_shed(Priority::Health));
}

#[test]
fn load_shedding_emergency() {
    let mut dc = DegradationController::with_defaults();
    dc.evaluate(rate(0.31), 0);
    assert!(dc.should_shed(Priority::Background));
    assert!(dc.should_shed(Priority::Starter));
    assert!(dc.should_shed(Priority::Pro));
    assert!(!dc.should_shed(Priority::Enterprise));
    assert!(!dc.should_shed(Priority::Health));
}

#[test]
fn priority_from_plan() {
    assert_eq!(Priority::from_plan("enterprise"), Priority::Enterprise);
    assert_eq!(Priority::from_plan("pro"), Priority::Pro);
    assert_eq!(Priority::from_plan("starter"), Priority::Starter);
    assert_eq!(Priority::from_plan("unknown"), Priority::Starter);
}

#[test]
fn priority_ordering() {
    assert!(Priority::Health > Priority::Admin);
    assert!(Priority::Admin > Priority::Enterprise);
    assert!(Priority::Enterprise > Priority::Pro);
    assert!(Priority::Pro > Priority::Starter);
    assert!(Priority::Starter > Priority::Background);
}

#[test]
fn priority_display() {
    assert_eq!(Priority::Enterprise.text(), "enterprise");
    assert_eq!(Priority::Background.text(), "background");
}

#[test]
fn thresholds_are_inclusive() {
    let mut dc = DegradationController::with_defaults();
    dc.evaluate(rate(0.05), 0);
    assert_eq!(dc.mode(), DegradationMode::Degraded);
    dc.evaluate(rate(0.049999), 4999);
    assert_eq!(dc.mode(), DegradationMode::Normal);
    dc.evaluate(rate(0.0), 5000);
    assert_eq!(dc.mode(), DegradationMode::Degraded);
    dc.evaluate(Ratio { part: 3, whole: 10 }, 0);
    assert_eq!(dc.mode(), DegradationMode::Emergency);
}

#[test]
fn configured_thresholds_are_used() {
    let t = DegradationThresholds {
        error_rate_degraded: Fraction { ppm: 500_000 },
        error_rate_readonly: Fraction { ppm: 600_000 },
        error_rate_emergency: Fraction { ppm: 700_000 },
        latency_p99_degraded_ms: 1,
        latency_p99_readonly_ms: 2,
    };
    assert_eq!(DegradationThresholds::default().latency_p99_readonly_ms, 15000);
    let mut dc = DegradationController::new(t);
    dc.evaluate(rate(0.31), 0);
    assert_eq!(dc.mode(), DegradationMode::Normal);
    dc.evaluate(rate(0.31), 2);
    assert_eq!(dc.mode(), DegradationMode::ReadOnly);
    assert!(!dc.allows_workflows());
}

#[test]
fn modes_are_stored_as_numbers() {
    for m in [
        DegradationMode::Normal,
        DegradationMode::Degraded,
        DegradationMode::ReadOnly,
        DegradationMode::Emergency,
    ] {
        assert_eq!(DegradationMode::from_u8(m.as_u8()), m);
    }
    assert_eq!(DegradationMode::from_u8(9), DegradationMode::Normal);
}

#[test]
fn override_does_not_change_shedding() {
    let mut dc = DegradationController::with_defaults();
    dc.set_mode(DegradationMode::Emergency);
    assert!(!dc.should_shed(Priority::Background));
    assert!(!dc.should_shed(Priority::Admin));
}

#[test]
fn all_names() {
    assert_eq!(Priority::Starter.text(), "starter");
    assert_eq!(Priority::Pro.text(), "pro");
    assert_eq!(Priority::Admin.text(), "admin");
    assert_eq!(Priority::Health.text(), "health");
}
