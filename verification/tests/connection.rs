use ulgate::auth::ApiKeyStore;
use ulgate::connection::{Call, Entry, Identity, Request};
use ulgate::degradation::{DegradationController, DegradationMode};
use ulgate::oauth::{build_test_jwt_at, OAuthProvider, OAuthValidator};
use ulgate::probes::{ProbeState, ShutdownController};
use ulgate::ratelimit::HttpRateLimiter;
use ulgate::response::ok;
use ulgate::server::{Clocks, Gateway};
use ulgate::shadow::TrafficShadow;
use ulgate::slo::SloRegistry;

fn gateway() -> Gateway {
    Gateway {
        limiter: HttpRateLimiter::new(1, 4),
        probes: ProbeState::new(),
        degradation: DegradationController::with_defaults(),
        shutdown: ShutdownController::new(),
        slo: SloRegistry::new(),
        shadow: TrafficShadow::new(4),
        auth: ApiKeyStore::single("sk-admin"),
        oauth: OAuthValidator::new(),
    }
}

fn request(lines: &[&str]) -> Request {
    let mut r = Request::begin(lines[0]).unwrap();
    for l in &lines[1..] {
        assert!(!r.header(l));
    }
    assert!(r.header("\r\n"));
    r
}

fn passed(e: Entry) -> Call {
    match e {
        Entry::Pass(c) => c,
        Entry::Answer(s) => panic!("answered: {}", s),
        Entry::Lookup(p) => panic!("token: {}", p.token()),
    }
}

#[test]
fn open_request_goes_through() {
    let mut g = gateway();
    let r = request(&["GET /v1/health HTTP/1.1\r\n", "Host: x\r\n"]);
    let call = passed(r.enter(&mut g, "ip", true, 3, 0));
    assert_eq!(call.tenant(), None);
    assert_eq!(call.body_len(), 0);
    assert_eq!(format!("{:?}", call.serve()), "Routed(Serve(Health))");
    assert_eq!(g.shutdown.active_requests(), 1);
    g.shadow.set_enabled(true);
    let at = Clocks { observed: 1, present: 1, unix_ms: 1 };
    call.finish(&mut g, "", &ok("{}"), 5, &at);
    assert_eq!(g.shutdown.active_requests(), 0);
    assert_eq!(g.shadow.recent(1)[0].response_body, "{}");
}

#[test]
fn missing_token_is_answered_and_not_counted() {
    let mut g = gateway();
    let r = request(&["GET /v1/tools HTTP/1.1"]);
    match r.enter(&mut g, "ip", true, 0, 0) {
        Entry::Answer(s) => assert!(s.contains("missing bearer token")),
        _ => panic!("not answered"),
    }
    assert_eq!(g.shutdown.active_requests(), 0);
    assert_eq!(g.probes.heartbeat_count(), 1);
    let r = request(&["OPTIONS /v1/tools HTTP/1.1"]);
    assert!(matches!(r.enter(&mut g, "ip", true, 0, 0), Entry::Answer(_)));
    g.shutdown.initiate_shutdown();
    assert!(g.shutdown.is_drained());
}

#[test]
fn every_end_lets_the_drain_finish() {
    let mut g = gateway();
    let token = "Authorization: Bearer t";
    let mut pending = Vec::new();
    for _ in 0..3 {
        let r = request(&["POST /v1/run/stream HTTP/1.1", token]);
        match r.enter(&mut g, "ip", true, 1, 0) {
            Entry::Lookup(p) => pending.push(p),
            _ => panic!("no token"),
        }
    }
    let call = passed(request(&["GET /v1/health HTTP/1.1"]).enter(&mut g, "ip", true, 1, 0));
    g.shutdown.initiate_shutdown();
    assert_eq!(g.shutdown.active_requests(), 4);
    assert!(matches!(pending.pop().unwrap().identify(&mut g, None, 0), Identity::Refused(_)));
    assert_eq!(g.shutdown.active_requests(), 3);
    match pending.pop().unwrap().identify(&mut g, Some("t".into()), 0) {
        Identity::Tenant(c) => assert!(c.within_quota(&mut g, &Err("over".into())).is_err()),
        _ => panic!("tenant refused"),
    }
    assert_eq!(g.shutdown.active_requests(), 2);
    match pending.pop().unwrap().identify(&mut g, Some("t".into()), 0) {
        Identity::Tenant(c) => match c.within_quota(&mut g, &Ok(())) {
            Ok(c) => c.close(&mut g),
            Err(_) => panic!("over quota"),
        },
        _ => panic!("tenant refused"),
    }
    assert_eq!(g.shutdown.active_requests(), 1);
    assert!(!g.shutdown.is_drained());
    let at = Clocks { observed: 1, present: 1, unix_ms: 1 };
    call.finish(&mut g, "", &ok("{}"), 5, &at);
    assert!(g.shutdown.is_drained());
}

#[test]
fn tokens_are_looked_up() {
    let mut g = gateway();
    g.oauth.add_provider(OAuthProvider::hs256("p", "iss", b"s"));
    let jwt = build_test_jwt_at("bob", "iss", b"s", 0, 100, None);
    let header = |t: &str| format!("Authorization: Bearer {}\r\n", t);
    let mut enter = |t: &str| {
        let r = request(&["POST /v1/run HTTP/1.1", &header(t), "Content-Length: 7"]);
        match r.enter(&mut g, "ip", true, 0, 0) {
            Entry::Lookup(p) => p,
            _ => panic!("no token"),
        }
    };
    let (a, b, c, d) = (enter("sk-admin"), enter("tenant-key"), enter(&jwt), enter("other"));
    assert_eq!(b.token(), "tenant-key");
    match a.identify(&mut g, None, 50) {
        Identity::Pass(call) => assert_eq!((call.tenant(), call.body_len()), (None, 7)),
        _ => panic!("administrator refused"),
    }
    match b.identify(&mut g, Some("acme".into()), 50) {
        Identity::Tenant(call) => {
            assert_eq!(call.tenant().as_deref(), Some("acme"));
            let call = call.within_quota(&mut g, &Ok(())).ok().unwrap();
            assert_eq!(call.body_text(b"{\"a\":1}"), "{\"a\":1}");
            assert_eq!(call.request().target, "/v1/run");
            let answer = call.within_quota(&mut g, &Err("too much".into())).err().unwrap();
            assert!(answer.contains("429") && answer.contains("too much"));
        }
        _ => panic!("tenant refused"),
    }
    match c.identify(&mut g, None, 50) {
        Identity::Validated(_, entry) => assert_eq!(entry.subject, "bob"),
        _ => panic!("token refused"),
    }
    match d.identify(&mut g, None, 50) {
        Identity::Refused(answer) => assert!(answer.contains("invalid API key")),
        _ => panic!("stranger let in"),
    }
}

#[test]
fn address_over_its_rate_is_answered() {
    let mut g = gateway();
    for i in 0..6 {
        let r = request(&["GET /v1/health HTTP/1.1"]);
        match r.enter(&mut g, "ip", true, 0, 0) {
            Entry::Pass(_) => assert!(i < 4),
            Entry::Answer(s) => assert!(i >= 4 && s.contains("rate limit exceeded")),
            Entry::Lookup(_) => panic!("token asked for"),
        }
    }
    assert!(Request::begin("GET").is_none());
}

#[test]
fn modes_refuse_once_the_caller_is_known() {
    let mut g = gateway();
    g.degradation.set_mode(DegradationMode::ReadOnly);
    let r = request(&["POST /v1/db/put HTTP/1.1"]);
    match r.enter(&mut g, "ip", true, 0, 0) {
        Entry::Answer(s) => assert!(s.starts_with("HTTP/1.1 401") && s.contains("missing bearer")),
        _ => panic!("not answered"),
    }
    let mut call = |target: &str| {
        let r = request(&[&format!("POST {} HTTP/1.1", target), "Authorization: Bearer sk-admin"]);
        let pending = match r.enter(&mut g, "ip", true, 0, 0) {
            Entry::Lookup(p) => p,
            _ => panic!("no token"),
        };
        match pending.identify(&mut g, None, 0) {
            Identity::Pass(c) => c.allowed(&mut g),
            _ => panic!("refused"),
        }
    };
    let answer = call("/v1/db/put").err().unwrap();
    assert!(answer.starts_with("HTTP/1.1 503 Service Unavailable"));
    assert!(answer.contains("system in read-only mode"));
    assert!(call("/v1/tools/call").is_ok());
    assert_eq!(g.shutdown.active_requests(), 1);
}
