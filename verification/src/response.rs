//! HTTP responses.

use vstd::prelude::*;
use vstd::utf8::*;

use crate::json::{json_text, JsonObject, JsonView};
use crate::text::{dec, u64_text};

verus! {

/// The reason phrase of a status.
pub open spec fn reason(status: u16) -> Seq<char> {
    if status == 200 {
        "OK"@
    } else if status == 201 {
        "Created"@
    } else if status == 400 {
        "Bad Request"@
    } else if status == 401 {
        "Unauthorized"@
    } else if status == 403 {
        "Forbidden"@
    } else if status == 404 {
        "Not Found"@
    } else if status == 405 {
        "Method Not Allowed"@
    } else if status == 429 {
        "Too Many Requests"@
    } else if status == 500 {
        "Internal Server Error"@
    } else if status == 503 {
        "Service Unavailable"@
    } else {
        "Unknown"@
    }
}

/// The header lines of a response, from the status line on, without the empty line at the end.
pub open spec fn http_head(status: u16, content_type: Seq<char>, body: Seq<char>) -> Seq<char> {
    "HTTP/1.1 "@ + dec(status as nat) + " "@ + reason(status) + "\r\nContent-Type: "@ + content_type
        + "\r\nContent-Length: "@ + dec(encode_utf8(body).len())
        + "\r\nAccess-Control-Allow-Origin: *"@
        + "\r\nAccess-Control-Allow-Methods: GET, POST, DELETE, OPTIONS"@
        + "\r\nAccess-Control-Allow-Headers: Content-Type, Authorization"@
}

/// A response with the given status and body. Its length is counted in bytes.
pub open spec fn http_text(status: u16, content_type: Seq<char>, body: Seq<char>) -> Seq<char> {
    http_head(status, content_type, body) + "\r\n\r\n"@ + body
}

/// A JSON response.
pub open spec fn json_response(status: u16, body: Seq<char>) -> Seq<char> {
    http_text(status, "application/json"@, body)
}

/// The body of an error response.
pub open spec fn error_body(status: u16, msg: Seq<char>) -> JsonView {
    JsonView::Object(
        map!["error"@ => JsonView::Str(msg), "status"@ => JsonView::Int(status as int)],
    )
}

/// An error response.
pub open spec fn error_response(status: u16, msg: Seq<char>) -> Seq<char> {
    json_response(status, json_text(error_body(status, msg)))
}

/// A successful response with a JSON value.
pub open spec fn ok_json(v: JsonView) -> Seq<char> {
    json_response(200, json_text(v))
}

/// A response with the given status and body.
pub fn http_response(status: u16, content_type: &str, body: &str) -> (r: String)
    ensures
        r@ == http_text(status, content_type@, body@),
{
    let status_text = match status {
        200 => "OK",
        201 => "Created",
        400 => "Bad Request",
        401 => "Unauthorized",
        403 => "Forbidden",
        404 => "Not Found",
        405 => "Method Not Allowed",
        429 => "Too Many Requests",
        500 => "Internal Server Error",
        503 => "Service Unavailable",
        _ => "Unknown",
    };
    let len: usize = body.as_bytes().len();
    "HTTP/1.1 ".to_owned().concat(u64_text(status as u64).as_str()).concat(" ").concat(
        status_text,
    ).concat("\r\nContent-Type: ").concat(content_type).concat("\r\nContent-Length: ").concat(
        u64_text(len as u64).as_str(),
    ).concat("\r\nAccess-Control-Allow-Origin: *").concat(
        "\r\nAccess-Control-Allow-Methods: GET, POST, DELETE, OPTIONS",
    ).concat("\r\nAccess-Control-Allow-Headers: Content-Type, Authorization").concat(
        "\r\n\r\n",
    ).concat(body)
}

/// An error response with the given status and message.
fn error(status: u16, msg: &str) -> (r: String)
    ensures
        r@ == error_response(status, msg@),
{
    let body = JsonObject::new().text("error", msg).number("status", status as u64).build();
    http_response(status, "application/json", body.to_text().as_str())
}

pub fn ok(body: &str) -> (r: String)
    ensures
        r@ == json_response(200, body@),
{
    http_response(200, "application/json", body)
}

pub fn created(body: &str) -> (r: String)
    ensures
        r@ == json_response(201, body@),
{
    http_response(201, "application/json", body)
}

pub fn bad_request(msg: &str) -> (r: String)
    ensures
        r@ == error_response(400, msg@),
{
    error(400, msg)
}

pub fn forbidden(msg: &str) -> (r: String)
    ensures
        r@ == error_response(403, msg@),
{
    error(403, msg)
}

pub fn not_found(msg: &str) -> (r: String)
    ensures
        r@ == error_response(404, msg@),
{
    error(404, msg)
}

pub fn internal_error(msg: &str) -> (r: String)
    ensures
        r@ == error_response(500, msg@),
{
    error(500, msg)
}

/// The answer while the system is out of service.
pub fn service_unavailable(msg: &str) -> (r: String)
    ensures
        r@ == error_response(503, msg@),
{
    error(503, msg)
}

pub fn method_not_allowed() -> (r: String)
    ensures
        r@ == error_response(405, "method not allowed"@),
{
    error(405, "method not allowed")
}

pub fn http_401(msg: &str) -> (r: String)
    ensures
        r@ == error_response(401, msg@),
{
    error(401, msg)
}

pub fn http_429(msg: &str) -> (r: String)
    ensures
        r@ == error_response(429, msg@),
{
    error(429, msg)
}

} // verus!
