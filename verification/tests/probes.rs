use std::time::{Duration, Instant};
use ulgate::probes::{DrainStep, ProbeResponse, ProbeState, ShutdownController};

fn spin(d: Duration) {
    let start = Instant::now();
    while start.elapsed() < d {}
}

fn wait_for_drain(sc: &ShutdownController, timeout_ms: u64) -> bool {
    let start = Instant::now();
    loop {
        match sc.drain_step(start.elapsed().as_millis() as u64, timeout_ms) {
            DrainStep::Drained => return true,
            DrainStep::TimedOut => return false,
            DrainStep::Pause(ms) => spin(Duration::from_millis(ms)),
        }
    }
}

#[test]
fn probe_state_initial() {
    let state = ProbeState::new();
    assert!(state.is_alive());
    assert!(!state.is_ready());
    assert!(!state.is_startup_complete());
    assert_eq!(state.heartbeat_count(), 0);
}

#[test]
fn probe_state_ready() {
    let mut state = ProbeState::new();
    state.set_ready();
    assert!(state.is_ready());
    state.set_not_ready();
    assert!(!state.is_ready());
}

#[test]
fn probe_state_startup() {
    let mut state = ProbeState::new();
    assert!(!state.is_startup_complete());
    state.set_startup_complete();
    assert!(state.is_startup_complete());
}

#[test]
fn probe_state_heartbeat() {
    let mut state = ProbeState::new();
    state.heartbeat();
    state.heartbeat();
    assert_eq!(state.heartbeat_count(), 2);
}

#[test]
fn liveness_response_ok() {
    let state = ProbeState::new();
    let resp = state.liveness_response();
    assert!(resp.is_ok());
    assert_eq!(resp.http_status(), 200);
}

#[test]
fn readiness_response_not_ready() {
    let state = ProbeState::new();
    let resp = state.readiness_response(true, true);
    assert!(!resp.is_ok());
    assert_eq!(resp.http_status(), 503);
}

#[test]
fn readiness_response_ok() {
    let mut state = ProbeState::new();
    state.set_ready();
    let resp = state.readiness_response(true, true);
    assert!(resp.is_ok());
}

#[test]
fn readiness_db_down() {
    let mut state = ProbeState::new();
    state.set_ready();
    let resp = state.readiness_response(false, true);
    assert!(!resp.is_ok());
}

#[test]
fn readiness_emergency_mode() {
    let mut state = ProbeState::new();
    state.set_ready();
    let resp = state.readiness_response(true, false);
    assert!(!resp.is_ok());
}

#[test]
fn startup_response() {
    let mut state = ProbeState::new();
    let resp = state.startup_response();
    assert!(!resp.is_ok());
    state.set_startup_complete();
    let resp = state.startup_response();
    assert!(resp.is_ok());
}

#[test]
fn probe_response_json() {
    let resp = ProbeResponse {
        status: "ok",
        checks: vec![("db".into(), true), ("llm".into(), false)],
    };
    let json = resp.to_json();
    assert!(json.contains("ok"));
    assert!(json.contains("db"));
    assert!(json.contains("pass"));
    assert!(json.contains("fail"));
}

#[test]
fn shutdown_controller_initial() {
    let sc = ShutdownController::new();
    assert!(!sc.is_shutting_down());
    assert!(!sc.should_reject_new());
    assert_eq!(sc.active_requests(), 0);
}

#[test]
fn shutdown_controller_initiate() {
    let mut sc = ShutdownController::new();
    sc.initiate_shutdown();
    assert!(sc.is_shutting_down());
    assert!(sc.should_reject_new());
}

#[test]
fn shutdown_controller_drain() {
    let mut sc = ShutdownController::new();
    sc.request_start();
    sc.request_start();
    assert_eq!(sc.active_requests(), 2);
    sc.initiate_shutdown();
    assert!(!sc.is_drained());
    sc.request_end();
    sc.request_end();
    assert!(sc.is_drained());
}

#[test]
fn shutdown_wait_immediate() {
    let mut sc = ShutdownController::new();
    sc.initiate_shutdown();
    assert!(wait_for_drain(&sc, 100));
}

#[test]
fn shutdown_wait_times_out() {
    let mut sc = ShutdownController::new();
    sc.request_start();
    sc.initiate_shutdown();
    assert!(!wait_for_drain(&sc, 20));
}

#[test]
fn uptime_increases() {
    let state = ProbeState::new();
    spin(Duration::from_millis(10));
    assert!(state.uptime_secs() < 2);
}

#[test]
fn drain_steps() {
    let mut sc = ShutdownController::new();
    sc.request_start();
    assert_eq!(sc.drain_step(5, 5), DrainStep::Pause(10));
    assert_eq!(sc.drain_step(6, 5), DrainStep::TimedOut);
    sc.initiate_shutdown();
    sc.request_end();
    assert_eq!(sc.drain_step(6, 5), DrainStep::Drained);
}

#[test]
fn counters_wrap_around() {
    let mut sc = ShutdownController::default();
    sc.request_end();
    assert_eq!(sc.active_requests(), u64::MAX);
    sc.request_start();
    assert_eq!(sc.active_requests(), 0);
    let mut p = ProbeState::default();
    p.heartbeat = u64::MAX;
    p.heartbeat();
    assert_eq!(p.heartbeat_count(), 0);
}

#[test]
fn probe_json_text() {
    let mut state = ProbeState::new();
    state.set_ready();
    assert_eq!(
        state.readiness_response(false, true).to_json(),
        "{\"status\":\"not_ready\",\"checks\":{\"ready_flag\":\"pass\",\"database\":\"fail\",\"not_emergency\":\"pass\"}}"
    );
    assert_eq!(
        state.startup_response().to_json(),
        "{\"status\":\"starting\",\"checks\":{\"startup_complete\":\"fail\"}}"
    );
    let none = ProbeResponse { status: "ok", checks: Vec::new() };
    assert_eq!(none.to_json(), "{\"status\":\"ok\",\"checks\":{}}");
}
