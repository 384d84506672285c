use ulgate::response::{
    bad_request, created, forbidden, http_401, http_429, http_response, internal_error,
    method_not_allowed, not_found, ok, service_unavailable,
};

#[test]
fn ok_response() {
    let r = ok("{\"status\":\"ok\"}");
    assert!(r.starts_with("HTTP/1.1 200 OK"));
    assert!(r.contains("application/json"));
    assert!(r.contains("{\"status\":\"ok\"}"));
}

#[test]
fn error_response() {
    let r = bad_request("invalid input");
    assert!(r.contains("400"));
    assert!(r.contains("invalid input"));
}

#[test]
fn cors_headers() {
    let r = ok("{}");
    assert!(r.contains("Access-Control-Allow-Origin: *"));
    assert!(r.contains("DELETE"));
}

#[test]
fn forbidden_response() {
    let r = forbidden("nope");
    assert!(r.contains("403"));
    assert!(r.contains("nope"));
}

#[test]
fn whole_response() {
    assert_eq!(
        created("{\"a\":\"\u{e9}\"}"),
        "HTTP/1.1 201 Created\r\nContent-Type: application/json\r\nContent-Length: 10\r\nAccess-Control-Allow-Origin: *\r\nAccess-Control-Allow-Methods: GET, POST, DELETE, OPTIONS\r\nAccess-Control-Allow-Headers: Content-Type, Authorization\r\n\r\n{\"a\":\"\u{e9}\"}"
    );
}

#[test]
fn error_bodies() {
    let body = |r: String| r.split("\r\n\r\n").nth(1).unwrap().to_string();
    assert_eq!(body(bad_request("a\"b")), "{\"error\":\"a\\\"b\",\"status\":400}");
    assert_eq!(body(http_401("x")), "{\"error\":\"x\",\"status\":401}");
    assert_eq!(body(forbidden("x")), "{\"error\":\"x\",\"status\":403}");
    assert_eq!(body(not_found("x")), "{\"error\":\"x\",\"status\":404}");
    assert_eq!(body(method_not_allowed()), "{\"error\":\"method not allowed\",\"status\":405}");
    assert_eq!(body(http_429("x")), "{\"error\":\"x\",\"status\":429}");
    assert_eq!(body(internal_error("x")), "{\"error\":\"x\",\"status\":500}");
    assert_eq!(body(service_unavailable("x")), "{\"error\":\"x\",\"status\":503}");
}

#[test]
fn reason_phrases() {
    let line = |s: u16| http_response(s, "text/plain", "").split("\r\n").next().unwrap().to_string();
    assert_eq!(line(200), "HTTP/1.1 200 OK");
    assert_eq!(line(201), "HTTP/1.1 201 Created");
    assert_eq!(line(400), "HTTP/1.1 400 Bad Request");
    assert_eq!(line(401), "HTTP/1.1 401 Unauthorized");
    assert_eq!(line(403), "HTTP/1.1 403 Forbidden");
    assert_eq!(line(404), "HTTP/1.1 404 Not Found");
    assert_eq!(line(405), "HTTP/1.1 405 Method Not Allowed");
    assert_eq!(line(429), "HTTP/1.1 429 Too Many Requests");
    assert_eq!(line(500), "HTTP/1.1 500 Internal Server Error");
    assert_eq!(line(418), "HTTP/1.1 418 Unknown");
}

#[test]
fn unavailable_response() {
    assert!(service_unavailable("later").starts_with("HTTP/1.1 503 Service Unavailable\r\n"));
}
