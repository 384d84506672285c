use ulgate::router::{extract_param, route, route_with_tenant, Endpoint, Route};

#[test]
fn extract_query_param() {
    assert_eq!(extract_param("q=hello&limit=10", "q"), Some("hello".into()));
    assert_eq!(extract_param("q=hello&limit=10", "limit"), Some("10".into()));
    assert_eq!(extract_param("q=hello", "missing"), None);
}

#[test]
fn odd_parameters() {
    assert_eq!(extract_param("a=1&a=2", "a"), Some("1".into()));
    assert_eq!(extract_param("flag&x=1", "flag"), Some("".into()));
    assert_eq!(extract_param("x=a=b", "x"), Some("a=b".into()));
    assert_eq!(extract_param("", ""), Some("".into()));
    assert_eq!(extract_param("", "x"), None);
}

fn name(r: Route) -> String {
    match r {
        Route::Serve(e) => format!("{:?}", e),
        Route::Answer(s) => s.split("\r\n").next().unwrap().to_string(),
    }
}

#[test]
fn get_routes() {
    for (path, want) in [
        ("/v1/health", "Health"),
        ("/health", "Health"),
        ("/", "Health"),
        ("/?x=1", "Health"),
        ("/v1/tools", "ListTools"),
        ("/v1/dashboard", "Dashboard"),
        ("/v1/runs", "ListRuns"),
        ("/v1/metrics", "Metrics"),
        ("/v1/logs", "Logs"),
        ("/v1/workflows", "ListWorkflows"),
        ("/v1/sessions", "ListSessions"),
        ("/v1/tenants", "ListTenants"),
        ("/v1/slo", "Slo"),
        ("/v1/degradation", "Degradation"),
        ("/v1/shadow", "Shadow"),
        ("/v1/shadow/errors", "ShadowErrors"),
        ("/v1/probes", "Probes"),
        ("/v1/system", "System"),
        ("/v1/audit", "Audit"),
        ("/v1/audit/verify", "AuditVerify"),
        ("/v1/gdpr/certificates", "GdprCertificates"),
        ("/v1/run", "HTTP/1.1 404 Not Found"),
        ("/V1/health", "HTTP/1.1 404 Not Found"),
    ] {
        assert_eq!(name(route("GET", path)), want, "{}", path);
    }
}

#[test]
fn post_routes() {
    for (path, want) in [
        ("/v1/tools/call", "ToolCall"),
        ("/v1/run", "Run"),
        ("/v1/chat", "Chat"),
        ("/v1/workflows", "RegisterWorkflow"),
        ("/v1/db/put", "Put"),
        ("/v1/tenants", "CreateTenant"),
        ("/v1/degradation", "SetDegradation"),
        ("/v1/gdpr/delete", "GdprDelete"),
        ("/v1/chat/stream", "HTTP/1.1 400 Bad Request"),
        ("/v1/run/stream?x", "HTTP/1.1 400 Bad Request"),
        ("/v1/health", "HTTP/1.1 404 Not Found"),
    ] {
        assert_eq!(name(route("POST", path)), want, "{}", path);
    }
}

#[test]
fn queries_reach_the_endpoint() {
    match route("GET", "/v1/db/get?a=1&key=src/auth/jwt.py") {
        Route::Serve(Endpoint::Get(k)) => assert_eq!(k, "src/auth/jwt.py"),
        other => panic!("{:?}", other),
    }
    match route("GET", "/v1/db/search?query=two&q=one") {
        Route::Serve(Endpoint::Search(q)) => assert_eq!(q, "one"),
        other => panic!("{:?}", other),
    }
    match route("GET", "/v1/db/search?query=two") {
        Route::Serve(Endpoint::Search(q)) => assert_eq!(q, "two"),
        other => panic!("{:?}", other),
    }
    match route("GET", "/v1/db/get") {
        Route::Serve(Endpoint::Get(k)) => assert_eq!(k, ""),
        other => panic!("{:?}", other),
    }
}

#[test]
fn tenants_are_kept_out_of_administration() {
    assert_eq!(name(route_with_tenant("POST", "/v1/tenants", true)), "HTTP/1.1 403 Forbidden");
    assert_eq!(name(route_with_tenant("GET", "/v1/tenants", true)), "HTTP/1.1 403 Forbidden");
    assert_eq!(name(route_with_tenant("GET", "/v1/tools", true)), "ListTools");
    match route_with_tenant("GET", "/v1/tenants", true) {
        Route::Answer(s) => assert!(s.contains("tenant tokens cannot list tenants")),
        other => panic!("{:?}", other),
    }
}

#[test]
fn options_and_unknown_methods() {
    match route("OPTIONS", "/anything") {
        Route::Answer(s) => assert_eq!(
            s,
            "HTTP/1.1 204 No Content\r\nAccess-Control-Allow-Origin: *\r\nAccess-Control-Allow-Methods: GET, POST, DELETE, OPTIONS\r\nAccess-Control-Allow-Headers: Content-Type, Authorization\r\n\r\n"
        ),
        other => panic!("{:?}", other),
    }
    match route("PATCH", "/v1/run?x=1") {
        Route::Answer(s) => assert!(s.contains("route not found: PATCH /v1/run\"")),
        other => panic!("{:?}", other),
    }
}
