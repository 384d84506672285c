use ulgate::auth::ApiKeyStore;
use ulgate::degradation::{DegradationController, DegradationMode};
use ulgate::oauth::{build_test_jwt_at, OAuthProvider, OAuthValidator};
use ulgate::probes::{ProbeState, ShutdownController};
use ulgate::ratelimit::HttpRateLimiter;
use ulgate::response::{http_response, internal_error, not_found, ok};
use ulgate::server::{
    can_account, can_dispatch, dispatch, parse_request_line, quota_exceeded,
    refused_by_mode, shadow_body, slo_endpoint,
    status_code, Authorization, Clocks, Credential, Dispatch, Gateway, Headers,
};
use ulgate::shadow::TrafficShadow;
use ulgate::slo::{SloRegistry, SloTarget};

fn gateway() -> Gateway {
    let mut slo = SloRegistry::new();
    slo.register(SloTarget::new("api/run").latency_p99(5000));
    let mut shadow = TrafficShadow::new(10);
    shadow.set_enabled(true);
    let mut probes = ProbeState::new();
    probes.set_startup_complete();
    probes.set_ready();
    Gateway {
        limiter: HttpRateLimiter::new(100, 3),
        probes,
        degradation: DegradationController::with_defaults(),
        shutdown: ShutdownController::new(),
        slo,
        shadow,
        auth: ApiKeyStore::single("sk-admin"),
        oauth: OAuthValidator::new(),
    }
}

fn line(s: &str) -> String {
    s.split("\r\n").next().unwrap().to_string()
}

#[test]
fn request_lines() {
    let p = |s: &str| parse_request_line(s);
    assert_eq!(p("GET /a?b HTTP/1.1\r\n"), Some(("GET".into(), "/a?b".into())));
    assert_eq!(p("  GET /a  "), Some(("GET".into(), "/a".into())));
    assert_eq!(p("GET  /a"), Some(("GET".into(), "".into())));
    assert_eq!(p("GET\r\n"), None);
    assert_eq!(p(""), None);
}

#[test]
fn header_lines() {
    let mut h = Headers::new();
    assert!(!h.read_line("Host: a:b \r\n"));
    assert!(!h.read_line("CONTENT-length:  12\r\n"));
    assert!(!h.read_line("no colon\r\n"));
    assert!(!h.read_line("AUTHORIZATION : Bearer  tok \r\n"));
    assert!(!h.read_line("Authorization: Bearer other\r\n"));
    assert!(h.read_line("\r\n"));
    assert_eq!(h.content_length, 12);
    assert_eq!(h.fields.len(), 4);
    assert_eq!(h.fields[0], ("host".to_string(), "a:b".to_string()));
    assert_eq!(h.bearer().as_deref(), Some("tok"));
}

#[test]
fn content_lengths() {
    let read = |s: &str| {
        let mut h = Headers::new();
        h.content_length = 7;
        h.read_line(s);
        h.content_length
    };
    assert_eq!(read("Content-Length: x"), 0);
    assert_eq!(read("Content-Length:"), 0);
    assert_eq!(read("Content-Length: 99999999999999999999999"), 0);
    assert_eq!(read("content-length:content-length: 3"), 3);
    assert_eq!(read(" Content-Length: 3"), 7);
    assert_eq!(read("X-Content-Length: 3"), 7);
}

#[test]
fn other_authorization_is_no_token() {
    let mut h = Headers::new();
    h.read_line("Authorization: Basic abc");
    h.read_line("Authorization: Bearer abc");
    assert_eq!(h.bearer(), None);
    assert_eq!(Headers::new().bearer(), None);
}

#[test]
fn rate_limit_is_checked_first() {
    let mut g = gateway();
    g.shutdown.initiate_shutdown();
    for _ in 0..3 {
        let r = g.admit_at("ip", "GET", "/healthz", true, 0).unwrap();
        assert_eq!(line(&r), "HTTP/1.1 200 OK");
    }
    let r = g.admit_at("ip", "GET", "/healthz", true, 0).unwrap();
    assert_eq!(line(&r), "HTTP/1.1 429 Too Many Requests");
    assert!(r.contains("rate limit exceeded"));
    assert!(g.admit_at("other", "GET", "/healthz", true, 0).unwrap().contains("200"));
}

#[test]
fn admitted_requests_are_counted() {
    let mut g = gateway();
    assert_eq!(g.admit_at("ip", "GET", "/v1/tools", true, 0), None);
    assert_eq!(g.shutdown.active_requests(), 1);
    assert_eq!(g.probes.heartbeat_count(), 1);
    assert!(g.admit_at("ip", "GET", "/startupz?x=1", true, 0).is_some());
    assert_eq!(g.shutdown.active_requests(), 1);
    assert_eq!(g.probes.heartbeat_count(), 1);
}

#[test]
fn probes_answer_what_they_find() {
    let mut g = gateway();
    let ready = g.answer_early("GET", "/readyz", true).unwrap();
    assert_eq!(line(&ready), "HTTP/1.1 200 OK");
    assert!(ready.ends_with("{\"status\":\"ok\",\"checks\":{\"ready_flag\":\"pass\",\"database\":\"pass\",\"not_emergency\":\"pass\"}}"));
    assert_eq!(
        line(&g.answer_early("GET", "/readyz", false).unwrap()),
        "HTTP/1.1 503 Service Unavailable"
    );
    g.degradation.set_mode(DegradationMode::Emergency);
    assert!(g.answer_early("GET", "/readyz", true).unwrap().contains("not_ready"));
    assert_eq!(line(&g.answer_early("GET", "/healthz", false).unwrap()), "HTTP/1.1 200 OK");
    assert_eq!(g.answer_early("POST", "/healthz", true).map(|r| line(&r)).as_deref(), Some("HTTP/1.1 503 Service Unavailable"));
}

#[test]
fn emergency_mode_leaves_health_alone() {
    let mut g = gateway();
    g.degradation.set_mode(DegradationMode::Emergency);
    let r = g.answer_early("GET", "/v1/tools", true).unwrap();
    assert_eq!(line(&r), "HTTP/1.1 503 Service Unavailable");
    assert!(r.contains("system in emergency mode"));
    assert_eq!(g.answer_early("GET", "/v1/health", true), None);
    g.degradation.set_mode(DegradationMode::ReadOnly);
    assert_eq!(g.answer_early("GET", "/v1/tools", true), None);
}

#[test]
fn modes_refuse_what_they_do_not_allow() {
    let no = |mode, m: &str, p: &str| refused_by_mode(mode, m, p, false);
    let (degraded, read_only) = (DegradationMode::Degraded, DegradationMode::ReadOnly);
    let model = Some("language model disabled in degraded mode");
    for p in ["/v1/chat", "/v1/chat/stream", "/v1/sessions/s/message", "/v1/sessions/message"] {
        assert_eq!(no(degraded, "POST", p), model);
        assert_eq!(no(DegradationMode::Normal, "POST", p), None);
        assert_eq!(no(DegradationMode::Emergency, "POST", p), Some("system in emergency mode"));
    }
    assert_eq!(no(read_only, "POST", "/v1/chat"), model);
    for (m, p) in [("POST", "/v1/run"), ("POST", "/v1/db/put"), ("GET", "/v1/sessions/s")] {
        assert_eq!(no(degraded, m, p), None);
    }
    for (m, p) in [
        ("POST", "/v1/db/put?x"),
        ("POST", "/v1/run"),
        ("POST", "/v1/run/stream"),
        ("POST", "/v1/run/nightly"),
        ("POST", "/v1/workflows"),
        ("POST", "/v1/tenants"),
        ("POST", "/v1/gdpr/delete"),
        ("POST", "/v1/sessions/s/message"),
        ("DELETE", "/v1/tenants/t"),
    ] {
        assert_eq!(no(read_only, m, p), Some("system in read-only mode"), "{} {}", m, p);
    }
    for (m, p) in [
        ("GET", "/v1/db/get"),
        ("POST", "/v1/tools/call"),
        ("POST", "/v1/degradation"),
        ("OPTIONS", "/v1/run"),
        ("POST", "/nowhere"),
        ("PUT", "/v1/tenants/t"),
        ("DELETE", "/v1/run"),
    ] {
        assert_eq!(no(read_only, m, p), None, "{} {}", m, p);
    }
    assert_eq!(refused_by_mode(read_only, "POST", "/v1/tenants", true), None);
    assert_eq!(refused_by_mode(read_only, "DELETE", "/v1/tenants/t", true), None);
    let mut g = gateway();
    assert!(g.model_ready(true) && !g.model_ready(false));
    g.degradation.set_mode(degraded);
    assert!(!g.model_ready(true));
    assert_eq!(g.answer_early("POST", "/v1/chat", true), None);
    g.shutdown.initiate_shutdown();
    g.degradation.set_mode(read_only);
    let r = g.answer_early("POST", "/v1/db/put", true).unwrap();
    assert_eq!(line(&r), "HTTP/1.1 500 Internal Server Error");
}

#[test]
fn responses_that_can_be_accounted_for() {
    assert!(can_account(&ok("{}")));
    assert!(can_account("plain"));
    assert!(!can_account("HTTP/1.1 2"));
    assert!(!can_account("HTTP/1.1 2\u{e9}0 OK"));
    assert!(!can_account(&format!("{}\u{e9}", "x".repeat(4095))));
    assert!(!can_account(&format!("{}\r\n\r\n", "x".repeat(4096))));
}

#[test]
fn draining_server_turns_away() {
    let mut g = gateway();
    g.shutdown.initiate_shutdown();
    assert!(g.answer_early("GET", "/v1/health", true).unwrap().contains("server shutting down"));
    assert!(g.answer_early("GET", "/healthz", true).unwrap().contains("alive"));
}

fn headers(token: Option<&str>) -> Headers {
    let mut h = Headers::new();
    if let Some(t) = token {
        h.read_line(&format!("Authorization: Bearer {}", t));
    }
    h
}

#[test]
fn credentials() {
    let g = gateway();
    let none = headers(None);
    assert!(matches!(g.credential("/v1/health", &none, 5), Credential::NotNeeded));
    assert!(matches!(g.credential("/v1/health?x", &none, 5), Credential::NotNeeded));
    for p in ["/health", "/", "/v1/run", "/v1/health/x"] {
        assert!(matches!(g.credential(p, &none, 5), Credential::Missing(_)));
    }
    match g.credential("/v1/tools", &none, 0) {
        Credential::Missing(s) => {
            assert_eq!(line(&s), "HTTP/1.1 401 Unauthorized");
            assert!(s.contains("missing bearer token"));
        }
        other => panic!("{:?}", other),
    }
    match g.credential("/v1/tools", &headers(Some("t")), 0) {
        Credential::Token(t) => assert_eq!(t, "t"),
        other => panic!("{:?}", other),
    }
    let mut open = gateway();
    open.auth = ApiKeyStore::open();
    assert!(matches!(open.credential("/v1/tools", &none, 0), Credential::NotNeeded));
    assert!(matches!(open.credential("/v1/tools", &none, 1), Credential::Missing(_)));
}

#[test]
fn authorizations() {
    let mut g = gateway();
    assert!(matches!(g.authorize_at("sk-admin", false, 0), Authorization::Known));
    assert!(matches!(g.authorize_at("x", true, 0), Authorization::Known));
    match g.authorize_at("x", false, 0) {
        Authorization::Refused(s) => assert!(s.contains("401") && s.contains("invalid API key")),
        other => panic!("{:?}", other),
    }
    g.oauth.add_provider(OAuthProvider::hs256("p", "iss", b"s"));
    let token = build_test_jwt_at("bob", "iss", b"s", 0, 100, None);
    match g.authorize_at(&token, false, 50) {
        Authorization::Validated(a) => {
            assert_eq!(a.issuer.as_deref(), Some("iss"));
            assert_eq!(a.subject, "bob");
        }
        other => panic!("{:?}", other),
    }
    assert!(matches!(g.authorize_at(&token, false, 101), Authorization::Refused(_)));
    g.auth = ApiKeyStore::open();
    assert!(matches!(g.authorize_at("anything", false, 0), Authorization::Refused(_)));
}

#[test]
fn quota_reply() {
    assert!(quota_exceeded("daily tokens").contains("429 Too Many Requests"));
    assert!(quota_exceeded("daily tokens").contains("daily tokens"));
}

#[test]
fn dispatch_table() {
    let d = |m: &str, p: &str| format!("{:?}", dispatch(m, p, false));
    assert_eq!(d("POST", "/v1/chat/stream"), "ChatStream");
    assert_eq!(d("POST", "/v1/run/stream?x=1"), "RunStream");
    assert_eq!(d("GET", "/v1/runs/abc"), "GetRun(\"abc\")");
    assert_eq!(d("GET", "/v1/runs/"), format!("{:?}", dispatch("GET", "/v1/runs/", true)));
    assert!(d("GET", "/v1/runs/").contains("route not found"));
    assert_eq!(d("POST", "/v1/sessions/s1/message"), "SessionMessage(\"s1\")");
    assert_eq!(d("POST", "/v1/sessions//message"), "SessionMessage(\"\")");
    assert_eq!(d("GET", "/v1/sessions/s1/message"), "GetSession(\"s1/message\")");
    assert_eq!(d("POST", "/v1/run/nightly"), "RunNamed(\"nightly\")");
    assert_eq!(d("GET", "/v1/tenants/acme"), "GetTenant(\"acme\")");
    assert_eq!(d("DELETE", "/v1/tenants/acme"), "DeleteTenant(\"acme\")");
    assert!(d("PUT", "/v1/tenants/acme").contains("405 Method Not Allowed"));
    assert_eq!(d("GET", "/v1/tools"), "Routed(Serve(ListTools))");
    assert_eq!(d("GET", "/v1/chat/stream"), d("GET", "/v1/chat/stream?"));
    match dispatch("DELETE", "/v1/tenants/acme", true) {
        Dispatch::Answer(s) => assert!(s.contains("tenant tokens cannot manage tenants")),
        other => panic!("{:?}", other),
    }
}

#[test]
fn overlapping_session_path_is_not_served() {
    assert!(!can_dispatch("POST", "/v1/sessions/message"));
    assert!(can_dispatch("GET", "/v1/sessions/message"));
    assert!(can_dispatch("POST", "/v1/sessions//message"));
    assert!(can_dispatch("POST", "/v1/sessions/x"));
    assert_eq!(
        format!("{:?}", dispatch("GET", "/v1/sessions/message", false)),
        "GetSession(\"message\")"
    );
}

#[test]
fn statuses_are_read_back() {
    for s in [200u16, 201, 400, 401, 404, 429, 500, 503] {
        assert_eq!(status_code(&http_response(s, "text/plain", "x")), s);
    }
    assert_eq!(status_code("nonsense"), 200);
    assert_eq!(status_code("HTTP/1.1 abc"), 200);
}

#[test]
fn shadowed_bodies() {
    assert_eq!(shadow_body(&ok("{\"a\":1}\r\n\r\nx")), "{\"a\":1}\r\n\r\nx");
    assert_eq!(shadow_body("plain"), "plain");
    let long = ok(&"y".repeat(9000));
    assert_eq!(shadow_body(&long).len(), 4096 - (long.len() - 9000));
}

#[test]
fn tracked_endpoints() {
    assert_eq!(slo_endpoint("/v1/run"), "api/run");
    assert_eq!(slo_endpoint("/v1/runs/x"), "api/run");
    assert_eq!(slo_endpoint("/v1/chat"), "api/chat");
    assert_eq!(slo_endpoint("/v1/tools"), "");
}

#[test]
fn accounting() {
    let mut g = gateway();
    g.admit_at("ip", "POST", "/v1/run?x", true, 0);
    let at = Clocks { observed: 1, present: 2, unix_ms: 3 };
    g.account_at("POST", "/v1/run?x", "{}", &internal_error("boom"), 12, Some("t"), &at);
    assert_eq!(g.shutdown.active_requests(), 0);
    let r = g.slo.report_at("api/run", 2).unwrap();
    assert_eq!((r.total_requests, r.error_count, r.p99_ms), (1, 1, 12));
    assert_eq!(g.degradation.mode(), DegradationMode::Emergency);
    let q = &g.shadow.export_all()[0];
    assert_eq!((q.path.as_str(), q.response_status, q.timestamp_ms), ("/v1/run", 500, 3));
    assert_eq!(q.response_body, "{\"error\":\"boom\",\"status\":500}");
    assert_eq!(q.tenant_id.as_deref(), Some("t"));
    g.account_at("GET", "/v1/db/get", "", &not_found("k"), 1, None, &at);
    assert_eq!(g.slo.report_at("api/run", 2).unwrap().total_requests, 1);
    assert_eq!(g.auth.verify("sk-admin"), true);
    assert!(g.shadow.is_enabled());
    assert_eq!(g.shadow.total_recorded(), 2);
    assert_eq!(g.shadow.buffer_size(), 2);
    assert_eq!(g.shutdown.active_requests(), u64::MAX);
    let later = Clocks { observed: 2, present: u64::MAX, unix_ms: 4 };
    g.account_at("GET", "/v1/health", "", &ok("{}"), 1, None, &later);
    assert_eq!(g.degradation.mode(), DegradationMode::Normal);
}
