//! What holds of every request on its way through the gateway.

use vstd::prelude::*;
use vstd::utf8::*;

use crate::auth::ApiKeyStore;
use crate::degradation::{DegradationController, DegradationMode};
use crate::oauth::{validated, OAuthValidator};
use crate::probes::{ProbeState, ShutdownController};
use crate::response::{error_response, http_head, http_text, reason};
use crate::router::{clean_path, preflight, EndpointView, RouteView};
use crate::server::{
    authorized, bearer_in, body_start, credential_of, dispatched, has_status, is_error_response,
    mode_refusal, probe_answer, status_of, tail_of, turned_away, CredentialView, DispatchView,
};
use crate::text::{
    begins, dec, digit_char, is_digit, lemma_dec_value, lemma_parse_dec, lemma_position_of,
};

verus! {

// ---------------------------------------------------------------------------
// Responses

/// Whether every carriage return in `s` is followed, two characters on and still in `s`, by
/// something else than a carriage return: no empty line ends in `s` or just after it.
spec fn no_gap(s: Seq<char>) -> bool {
    forall|j: int|
        0 <= j < s.len() && #[trigger] s[j] == '\r' ==> j + 2 < s.len() && s[j + 2] != '\r'
}

proof fn lemma_no_gap_join(a: Seq<char>, b: Seq<char>)
    requires
        no_gap(a),
        no_gap(b),
    ensures
        no_gap(a + b),
{
    let s = a + b;
    assert forall|j: int| 0 <= j < s.len() && #[trigger] s[j] == '\r' implies j + 2 < s.len()
        && s[j + 2] != '\r' by {
        if j < a.len() {
            assert(a[j] == '\r');
            assert(s[j + 2] == a[j + 2]);
        } else {
            assert(b[j - a.len()] == '\r');
            assert(s[j + 2] == b[j - a.len() + 2]);
        }
    }
}

proof fn lemma_no_gap_dec(n: nat)
    ensures
        no_gap(dec(n)),
{
    lemma_dec_value(n);
    assert forall|j: int| 0 <= j < dec(n).len() && #[trigger] dec(n)[j] == '\r' implies j + 2
        < dec(n).len() && dec(n)[j + 2] != '\r' by {
        assert(is_digit(dec(n)[j]));
    }
}

proof fn lemma_no_gap_reason(status: u16)
    ensures
        no_gap(reason(status)),
{
    reveal_strlit("OK");
    reveal_strlit("Created");
    reveal_strlit("Bad Request");
    reveal_strlit("Unauthorized");
    reveal_strlit("Forbidden");
    reveal_strlit("Not Found");
    reveal_strlit("Method Not Allowed");
    reveal_strlit("Too Many Requests");
    reveal_strlit("Internal Server Error");
    reveal_strlit("Service Unavailable");
    reveal_strlit("Unknown");
}

proof fn lemma_no_gap_origin()
    ensures
        no_gap("\r\nAccess-Control-Allow-Origin: *"@),
{
    reveal_strlit("\r\nAccess-Control-Allow-Origin: *");
}

proof fn lemma_no_gap_methods()
    ensures
        no_gap("\r\nAccess-Control-Allow-Methods: GET, POST, DELETE, OPTIONS"@),
{
    reveal_strlit("\r\nAccess-Control-Allow-Methods: GET, POST, DELETE, OPTIONS");
}

proof fn lemma_no_gap_headers()
    ensures
        no_gap("\r\nAccess-Control-Allow-Headers: Content-Type, Authorization"@),
{
    reveal_strlit("\r\nAccess-Control-Allow-Headers: Content-Type, Authorization");
}

proof fn lemma_no_gap_head(status: u16, body: Seq<char>)
    ensures
        no_gap(http_head(status, "application/json"@, body)),
{
    reveal_strlit("HTTP/1.1 ");
    reveal_strlit(" ");
    reveal_strlit("\r\nContent-Type: ");
    reveal_strlit("application/json");
    reveal_strlit("\r\nContent-Length: ");
    lemma_no_gap_dec(status as nat);
    lemma_no_gap_dec(encode_utf8(body).len());
    lemma_no_gap_reason(status);
    lemma_no_gap_origin();
    lemma_no_gap_methods();
    lemma_no_gap_headers();
    let s1 = "HTTP/1.1 "@ + dec(status as nat);
    lemma_no_gap_join("HTTP/1.1 "@, dec(status as nat));
    let s2 = s1 + " "@;
    lemma_no_gap_join(s1, " "@);
    let s3 = s2 + reason(status);
    lemma_no_gap_join(s2, reason(status));
    let s4 = s3 + "\r\nContent-Type: "@;
    lemma_no_gap_join(s3, "\r\nContent-Type: "@);
    let s5 = s4 + "application/json"@;
    lemma_no_gap_join(s4, "application/json"@);
    let s6 = s5 + "\r\nContent-Length: "@;
    lemma_no_gap_join(s5, "\r\nContent-Length: "@);
    let s7 = s6 + dec(encode_utf8(body).len());
    lemma_no_gap_join(s6, dec(encode_utf8(body).len()));
    let s8 = s7 + "\r\nAccess-Control-Allow-Origin: *"@;
    lemma_no_gap_join(s7, "\r\nAccess-Control-Allow-Origin: *"@);
    let s9 = s8 + "\r\nAccess-Control-Allow-Methods: GET, POST, DELETE, OPTIONS"@;
    lemma_no_gap_join(s8, "\r\nAccess-Control-Allow-Methods: GET, POST, DELETE, OPTIONS"@);
    lemma_no_gap_join(s9, "\r\nAccess-Control-Allow-Headers: Content-Type, Authorization"@);
}

/// The body of every JSON response is what follows its first empty line, whatever the body holds.
pub proof fn body_follows_the_head(status: u16, body: Seq<char>)
    ensures
        ({
            let response = http_text(status, "application/json"@, body);
            body_start(response) <= response.len() && response.skip(body_start(response)) == body
        }),
{
    let head = http_head(status, "application/json"@, body);
    let gap = "\r\n\r\n"@;
    let response = http_text(status, "application/json"@, body);
    reveal_strlit("\r\n\r\n");
    lemma_no_gap_head(status, body);
    let n = head.len() as int;
    assert(response =~= head + (gap + body));
    assert(response.skip(n) =~= gap + body);
    assert((gap + body).take(4) =~= gap);
    assert forall|j: int| 0 <= j < n implies !begins(#[trigger] response.skip(j), gap) by {
        if begins(response.skip(j), gap) {
            let t = response.skip(j);
            assert(t.take(4)[0] == gap[0] && t.take(4)[2] == gap[2]);
            assert(t[0] == response[j] && t[2] == response[j + 2]);
            assert(head[j] == '\r');
            assert(response[j + 2] == head[j + 2]);
        }
    }
    lemma_position_of(response, gap, n);
    assert(response.skip(n + 4) =~= body);
}

proof fn lemma_three_digits(status: u16)
    requires
        100 <= status <= 999,
    ensures
        dec(status as nat).len() == 3,
        dec(status as nat)[0] == digit_char(status as nat / 100),
        is_digit(dec(status as nat)[0]),
        is_digit(dec(status as nat)[1]),
        is_digit(dec(status as nat)[2]),
{
    let n = status as nat;
    lemma_dec_value(n);
    assert(dec(n) == dec(n / 10).push(digit_char(n % 10)));
    assert(dec(n / 10) == dec(n / 10 / 10).push(digit_char((n / 10) % 10)));
    assert(n / 10 / 10 == n / 100);
    assert(dec(n / 100) == seq![digit_char(n / 100)]);
    assert(dec(n)[0] == dec(n / 10)[0]);
}

/// The status of every response is read back as it was written, and counts as an error exactly in
/// the four and five hundreds.
pub proof fn status_is_read_back(status: u16, content_type: Seq<char>, body: Seq<char>)
    requires
        100 <= status <= 999,
    ensures
        ({
            let response = http_text(status, content_type, body);
            &&& has_status(response)
            &&& status_of(response) == status
            &&& is_error_response(response) <==> 400 <= status < 600
        }),
{
    let response = http_text(status, content_type, body);
    let d = dec(status as nat);
    reveal_strlit("HTTP/1.1 ");
    reveal_strlit("HTTP/1.1 4");
    reveal_strlit("HTTP/1.1 5");
    lemma_three_digits(status);
    lemma_parse_dec(status as nat, 65535);
    let rest = " "@ + reason(status) + "\r\nContent-Type: "@ + content_type
        + "\r\nContent-Length: "@ + dec(encode_utf8(body).len())
        + "\r\nAccess-Control-Allow-Origin: *"@
        + "\r\nAccess-Control-Allow-Methods: GET, POST, DELETE, OPTIONS"@
        + "\r\nAccess-Control-Allow-Headers: Content-Type, Authorization"@ + "\r\n\r\n"@ + body;
    assert(response =~= "HTTP/1.1 "@ + d + rest);
    assert(response.take(9) =~= "HTTP/1.1 "@);
    assert(response.subrange(9, 12) =~= d);
    assert forall|i: int| 0 <= i < 9 implies response[i] == "HTTP/1.1 "@[i] by {
        assert(response.take(9)[i] == response[i]);
    }
    assert(response[9] == d[0] && response[10] == d[1] && response[11] == d[2]) by {
        assert(response.subrange(9, 12)[0] == d[0]);
        assert(response.subrange(9, 12)[1] == d[1]);
        assert(response.subrange(9, 12)[2] == d[2]);
    }
    let t = response.take(12);
    assert forall|i: int| 0 <= i < t.len() implies (#[trigger] t[i]) as u32 <= 0x7f by {
        assert(t[i] == response[i]);
    }
    assert(is_ascii_chars(t));
    let h = digit_char(status as nat / 100);
    assert(response.take(10)[9] == h);
    if status / 100 == 4 {
        assert(response.take(10) =~= "HTTP/1.1 4"@);
    }
    if status / 100 == 5 {
        assert(response.take(10) =~= "HTTP/1.1 5"@);
    }
    if begins(response, "HTTP/1.1 4"@) {
        assert("HTTP/1.1 4"@[9] == '4');
        assert(h == '4');
    }
    if begins(response, "HTTP/1.1 5"@) {
        assert("HTTP/1.1 5"@[9] == '5');
        assert(h == '5');
    }
}

// ---------------------------------------------------------------------------
// Admission and identification

/// Probes are answered in every mode, and while the server drains.
pub proof fn probes_are_always_answered(
    probes: ProbeState,
    degradation: DegradationController,
    shutdown: ShutdownController,
    db_ok: bool,
    path: Seq<char>,
)
    requires
        path == "/healthz"@ || path == "/readyz"@ || path == "/startupz"@,
    ensures
        turned_away(probes, degradation, shutdown, db_ok, "GET"@, path) is Some,
        turned_away(probes, degradation, shutdown, db_ok, "GET"@, path) == probe_answer(
            probes,
            degradation.current() != DegradationMode::Emergency,
            db_ok,
            "GET"@,
            path,
        ),
{
}

/// In emergency mode everything but probes and the health endpoint is answered with status 503.
pub proof fn emergency_serves_health_alone(
    probes: ProbeState,
    degradation: DegradationController,
    shutdown: ShutdownController,
    db_ok: bool,
    method: Seq<char>,
    path: Seq<char>,
)
    requires
        degradation.current() == DegradationMode::Emergency,
        probe_answer(probes, false, db_ok, method, path) is None,
    ensures
        path != "/v1/health"@ ==> turned_away(probes, degradation, shutdown, db_ok, method, path)
            == Some(error_response(503, "system in emergency mode"@)),
        path == "/v1/health"@ && !shutdown.drain_started ==> turned_away(
            probes,
            degradation,
            shutdown,
            db_ok,
            method,
            path,
        ) is None,
{
}

/// Short of emergency mode nothing is turned away for the mode before it has shown its token.
pub proof fn modes_turn_no_stranger_away(
    probes: ProbeState,
    degradation: DegradationController,
    shutdown: ShutdownController,
    db_ok: bool,
    method: Seq<char>,
    path: Seq<char>,
)
    requires
        degradation.current() != DegradationMode::Emergency,
        !shutdown.drain_started,
        probe_answer(probes, true, db_ok, method, path) is None,
    ensures
        turned_away(probes, degradation, shutdown, db_ok, method, path) is None,
{
}

/// In read-only mode everything that stores is refused, and everything else that asks no model is
/// let through.
pub proof fn read_only_refuses_writes(d: DispatchView)
    ensures
        d.stores() ==> mode_refusal(DegradationMode::ReadOnly, d) == Some(
            "system in read-only mode"@,
        ),
        !d.stores() && !d.asks_model() ==> mode_refusal(DegradationMode::ReadOnly, d) is None,
{
}

/// In degraded mode whatever asks a language model is refused, and everything else is let through.
pub proof fn degraded_asks_no_model(d: DispatchView)
    ensures
        d.asks_model() ==> mode_refusal(DegradationMode::Degraded, d) == Some(
            "language model disabled in degraded mode"@,
        ),
        !d.asks_model() ==> mode_refusal(DegradationMode::Degraded, d) is None,
{
}

/// In normal mode nothing is refused, and reading is refused in no mode: a GET request stores
/// nothing and asks no model.
pub proof fn reads_are_let_through(mode: DegradationMode, target: Seq<char>, from_tenant: bool)
    ensures
        mode_refusal(mode, dispatched("GET"@, target, from_tenant)) is None,
        forall|d: DispatchView| mode_refusal(DegradationMode::Normal, d) is None,
{
    reveal_strlit("GET");
    reveal_strlit("POST");
    reveal_strlit("DELETE");
    assert("GET"@.len() == 3 && "POST"@.len() == 4 && "DELETE"@.len() == 6);
}

/// A request that has no route, or comes by a method that its path does not take, is refused in no
/// mode: it is answered as in normal mode.
pub proof fn answers_are_let_through(mode: DegradationMode, answer: Seq<char>)
    ensures
        mode_refusal(mode, DispatchView::Answer(answer)) is None,
        mode_refusal(mode, DispatchView::Routed(RouteView::Answer(answer))) is None,
{
}

/// While the server drains, nothing new is let in.
pub proof fn draining_lets_nothing_in(
    probes: ProbeState,
    degradation: DegradationController,
    shutdown: ShutdownController,
    db_ok: bool,
    method: Seq<char>,
    path: Seq<char>,
)
    requires
        shutdown.drain_started,
    ensures
        turned_away(probes, degradation, shutdown, db_ok, method, path) is Some,
{
}

/// The health endpoint needs no token, whatever is configured.
pub proof fn health_needs_no_token(
    keyed: bool,
    tenant_count: int,
    fields: Seq<(Seq<char>, Seq<char>)>,
)
    ensures
        credential_of(keyed, tenant_count, "/v1/health"@, fields)
            == CredentialView::NotNeeded,
{
}

/// Where keys or tenants are configured, everything but the health endpoint needs a token, by any
/// method: a request that shows none is answered with status 401.
pub proof fn everything_else_needs_a_token(
    keyed: bool,
    tenant_count: int,
    path: Seq<char>,
    fields: Seq<(Seq<char>, Seq<char>)>,
)
    requires
        keyed || tenant_count > 0,
        path != "/v1/health"@,
    ensures
        credential_of(keyed, tenant_count, path, fields) != CredentialView::NotNeeded,
        bearer_in(fields) is None ==> credential_of(keyed, tenant_count, path, fields)
            == CredentialView::Missing(error_response(401, "missing bearer token"@)),
{
}

/// Whoever is let in has an administrator's key, is a tenant, or has a valid token.
pub proof fn access_needs_proof(
    auth: ApiKeyStore,
    oauth: OAuthValidator,
    token: Seq<char>,
    is_tenant: bool,
    now: int,
)
    requires
        authorized(auth, oauth, token, is_tenant, now) is Ok,
    ensures
        is_tenant || (auth.key_hashes@.len() > 0 && auth.admits(token)) || validated(
            oauth.providers@,
            token,
            now,
        ) is Ok,
{
}

// ---------------------------------------------------------------------------
// Dispatch

/// Whether an endpoint or path belongs to the administration of tenants.
pub open spec fn administers_tenants(d: DispatchView) -> bool {
    match d {
        DispatchView::GetTenant(_) => true,
        DispatchView::DeleteTenant(_) => true,
        DispatchView::Routed(r) => r == RouteView::Serve(EndpointView::CreateTenant) || r
            == RouteView::Serve(EndpointView::ListTenants),
        _ => false,
    }
}

/// No request of a tenant reaches the administration of tenants, by any method or path.
pub proof fn tenants_never_administer(method: Seq<char>, target: Seq<char>)
    ensures
        !administers_tenants(dispatched(method, target, true)),
{
    crate::router::tenants_cannot_administer(method, target);
}

/// Every OPTIONS request is answered as a preflight request, unless its path names a tenant.
pub proof fn options_are_preflight(target: Seq<char>, from_tenant: bool)
    requires
        tail_of(clean_path(target), "/v1/tenants/"@) is None,
    ensures
        dispatched("OPTIONS"@, target, from_tenant) == DispatchView::Routed(
            RouteView::Answer(preflight()),
        ),
{
    reveal_strlit("OPTIONS");
    reveal_strlit("GET");
    reveal_strlit("POST");
    assert("OPTIONS"@.len() == 7 && "GET"@.len() == 3 && "POST"@.len() == 4);
    crate::router::preflight_is_always_answered(target, from_tenant);
}

} // verus!
