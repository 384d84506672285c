use std::time::{Duration, Instant, SystemTime, UNIX_EPOCH};
use ulgate::clock::{clamp_u64, nanos_since, seconds_since, unix_millis, unix_nanos, unix_seconds};
use ulgate::probes::ProbeState;

fn since_epoch() -> Duration {
    SystemTime::now().duration_since(UNIX_EPOCH).unwrap()
}

#[test]
fn unix_readings_lie_between_two_readings() {
    let before = since_epoch();
    let nanos = unix_nanos();
    let millis = unix_millis();
    let seconds = unix_seconds();
    let after = since_epoch();
    assert!(before.as_nanos() <= nanos && nanos <= after.as_nanos());
    assert!(before.as_millis() as u64 <= millis && millis <= after.as_millis() as u64);
    assert!(before.as_secs() <= seconds && seconds <= after.as_secs());
}

#[test]
fn spans_lie_between_two_readings() {
    let origin = Instant::now();
    let before = origin.elapsed();
    let nanos = nanos_since(&origin);
    let seconds = seconds_since(&origin);
    let after = origin.elapsed();
    assert!(before.as_nanos() as u64 <= nanos && nanos <= after.as_nanos() as u64);
    assert!(before.as_secs() <= seconds && seconds <= after.as_secs());
}

#[test]
fn span_to_a_later_origin_is_zero() {
    let origin = Instant::now() + Duration::from_secs(3600);
    assert_eq!(nanos_since(&origin), 0);
    assert_eq!(seconds_since(&origin), 0);
}

#[test]
fn uptime_counts_from_the_start_time() {
    let mut state = ProbeState::new();
    spin_seconds(1);
    assert!(state.uptime_secs() >= 1);
    state.start_time = Instant::now();
    assert_eq!(state.uptime_secs(), 0);
}

fn spin_seconds(n: u64) {
    let start = Instant::now();
    while start.elapsed() < Duration::from_secs(n) {}
}

#[test]
fn clamping() {
    assert_eq!(clamp_u64(0), 0);
    assert_eq!(clamp_u64(u64::MAX as u128), u64::MAX);
    assert_eq!(clamp_u64(u64::MAX as u128 + 1), u64::MAX);
}
