//! Reading requests.

use vstd::prelude::*;

use crate::json::{parsed_json, Json, JsonView};
use crate::response::{bad_request, error_response, forbidden};

verus! {

/// The answer to a body that is not JSON.
pub open spec fn invalid_json(e: Seq<char>) -> Seq<char> {
    error_response(400, "invalid JSON: "@ + e)
}

/// The JSON value of a body, or the answer that refuses it.
pub open spec fn request_value(parsed: Result<JsonView, Seq<char>>) -> Result<JsonView, Seq<char>> {
    match parsed {
        Ok(v) => Ok(v),
        Err(e) => Err(invalid_json(e)),
    }
}

/// The outcome of reading a body, as a value.
pub open spec fn json_outcome(r: Result<Json, String>) -> Result<JsonView, Seq<char>> {
    match r {
        Ok(v) => Ok(v@),
        Err(e) => Err(e@),
    }
}

/// The answer to a body that is not JSON, from the message of the error.
pub fn invalid_json_reply(e: &str) -> (r: String)
    ensures
        r@ == invalid_json(e@),
{
    bad_request("invalid JSON: ".to_owned().concat(e).as_str())
}

/// The JSON value of a body, or the answer that refuses it.
pub fn parse_request(body: &str) -> (r: Result<Json, String>)
    ensures
        json_outcome(r) == request_value(parsed_json(body@)),
{
    match Json::parse(body) {
        Ok(v) => Ok(v),
        Err(e) => Err(invalid_json_reply(e.as_str())),
    }
}

/// A permission: granted, or denied for a reason.
pub open spec fn denial(permit: Result<(), String>) -> Option<Seq<char>> {
    match permit {
        Ok(_) => None,
        Err(e) => Some(error_response(403, e@)),
    }
}

/// The answer to a request that is denied.
pub fn denied(permit: &Result<(), String>) -> (r: Option<String>)
    ensures
        crate::text::opt_view(r) == denial(*permit),
{
    match permit {
        Ok(_) => None,
        Err(e) => Some(forbidden(e.as_str())),
    }
}

/// An answer, and the tokens to put down to the tenant's account, where the request counts.
#[derive(Debug, Clone)]
pub struct Reply {
    pub response: String,
    pub usage: Option<u64>,
}

} // verus!
