//! How requests are read, where they lead, and what is kept of their responses.

use vstd::prelude::*;
use vstd::utf8::*;

use crate::auth::{bearer_token, ApiKeyStore};
use crate::degradation::DegradationMode;
use crate::json::JsonView;
use crate::oauth::{validated, JwtErrorView, OAuthValidator};
use crate::probes::ProbeState;
use crate::ratelimit::bucket_of;
use crate::requests::{denial, request_value};
use crate::response::{error_body, error_response, http_text, reason};
use crate::router::{clean_path, preflight, routed, EndpointView, RouteView};
use crate::server::{
    accounted, authorized, bearer_in, counted, credential_of, dispatched, fields_after, header_name,
    is_broken_message_path, length_after, mode_refusal, probe_answer, probe_response, request_line,
    shadowable, shadowed_body, status_of, tail_of, tracked_as, Clocks, CredentialView, DispatchView,
    Gateway, SHADOW_BYTES,
};
use crate::server_laws::{body_follows_the_head, status_is_read_back};
use crate::slo::{in_window, outdated, RequestObs};
use crate::text::{
    begins, cut, dec, ends, first_index, has_char, lemma_cut_join, lemma_first_index, lemma_parse_dec,
    occurs, parse_unsigned, trim_prefix, trim_white,
};

verus! {

// ---------------------------------------------------------------------------
// The head of a request

/// A request line holds the method, the target and the version, divided by spaces; the version may
/// be missing, and white space around the line counts for nothing.
pub proof fn request_lines_are_read(
    line: Seq<char>,
    method: Seq<char>,
    target: Seq<char>,
    version: Seq<char>,
)
    requires
        !has_char(method, ' '),
        !has_char(target, ' '),
    ensures
        trim_white(line) == method + seq![' '] + (target + seq![' '] + version) ==> request_line(line)
            == Some((method, target)),
        trim_white(line) == method + seq![' '] + target ==> request_line(line) == Some(
            (method, target),
        ),
        trim_white(line) == method ==> request_line(line) is None,
{
    lemma_cut_join(method, ' ', target + seq![' '] + version);
    lemma_cut_join(method, ' ', target);
    lemma_cut_join(target, ' ', version);
    lemma_no_cut(method, ' ');
    lemma_no_cut(target, ' ');
}

proof fn lemma_no_cut(s: Seq<char>, c: char)
    requires
        !has_char(s, c),
    ensures
        cut(s, c) is None,
{
    lemma_first_index(s, c);
    let i = first_index(s, c);
    if i < s.len() {
        assert(s[i] == c);
    }
}

/// The length of the body is the number that its header line gives, and 0 where that is none; other
/// lines leave it as it is.
pub proof fn lengths_are_read(before: usize, value: Seq<char>, n: usize, other: Seq<char>)
    requires
        !begins(value, "content-length:"@),
        !begins(other, "content-length:"@),
    ensures
        trim_white(value) == dec(n as nat) ==> length_after(before, "content-length:"@ + value) == n,
        parse_unsigned(trim_white(value), usize::MAX as nat) is None ==> length_after(
            before,
            "content-length:"@ + value,
        ) == 0,
        length_after(before, other) == before,
{
    reveal_strlit("content-length:");
    let name = "content-length:"@;
    let line = name + value;
    assert(line.take(name.len() as int) =~= name);
    assert(line.skip(name.len() as int) =~= value);
    assert(trim_prefix(value, name) == value);
    assert(trim_prefix(line, name) == trim_prefix(value, name));
    lemma_parse_dec(n as nat, usize::MAX as nat);
}

/// A header line is a name and a value around its first colon; the value is entered without the
/// white space around it, after the fields before it. A line without a colon is passed over.
pub proof fn fields_are_read(
    before: Seq<(Seq<char>, Seq<char>)>,
    line: Seq<char>,
    name: Seq<char>,
    value: Seq<char>,
    low_name: Seq<char>,
)
    requires
        !has_char(name, ':'),
    ensures
        trim_white(line) == name + seq![':'] + value ==> {
            let after = fields_after(before, line, low_name);
            &&& header_name(line) == trim_white(name)
            &&& after.len() == before.len() + 1
            &&& after.drop_last() == before
            &&& after.last() == (low_name, trim_white(value))
        },
        trim_white(line) == name ==> fields_after(before, line, low_name) == before,
{
    lemma_cut_join(name, ':', value);
    lemma_no_cut(name, ':');
    assert(before.push((low_name, trim_white(value))).drop_last() =~= before);
}

/// The token is that of the first authorization header; later ones count for nothing.
pub proof fn first_authorization_counts(fields: Seq<(Seq<char>, Seq<char>)>, i: int)
    requires
        0 <= i < fields.len(),
        fields[i].0 == "authorization"@,
        forall|j: int| 0 <= j < i ==> (#[trigger] fields[j]).0 != "authorization"@,
    ensures
        bearer_in(fields) == bearer_token(fields[i].1),
    decreases fields.len(),
{
    if i > 0 {
        assert(fields[0].0 != "authorization"@);
        let rest = fields.skip(1);
        assert forall|j: int| 0 <= j < i - 1 implies (#[trigger] rest[j]).0 != "authorization"@ by {
            assert(fields[j + 1].0 != "authorization"@);
        }
        first_authorization_counts(rest, i - 1);
    }
}

/// Without an authorization header there is no token.
pub proof fn no_token_without_authorization(fields: Seq<(Seq<char>, Seq<char>)>)
    requires
        forall|j: int| 0 <= j < fields.len() ==> (#[trigger] fields[j]).0 != "authorization"@,
    ensures
        bearer_in(fields) is None,
    decreases fields.len(),
{
    if fields.len() > 0 {
        assert(fields[0].0 != "authorization"@);
        let rest = fields.skip(1);
        assert forall|j: int| 0 <= j < rest.len() implies (#[trigger] rest[j]).0 != "authorization"@ by {
            assert(fields[j + 1].0 != "authorization"@);
        }
        no_token_without_authorization(rest);
    }
}

// ---------------------------------------------------------------------------
// Admission and identification

/// A live server answers the liveness probe with status 200; it is ready with status 200 where it
/// has said so, its store answers and the mode is not emergency; it has started with status 200 once
/// it has said so. Otherwise the status is 503.
pub proof fn probes_tell_the_state(probes: ProbeState, readable: bool, db_ok: bool)
    ensures
        probe_answer(probes, readable, db_ok, "GET"@, "/healthz"@) matches Some(a) && status_of(a)
            == 200,
        probe_answer(probes, readable, db_ok, "GET"@, "/readyz"@) matches Some(a) && status_of(a) == (
        if probes.ready && db_ok && readable {
            200int
        } else {
            503
        }),
        probe_answer(probes, readable, db_ok, "GET"@, "/startupz"@) matches Some(a) && status_of(a)
            == (if probes.startup_complete {
            200int
        } else {
            503
        }),
{
    reveal_strlit("/healthz");
    reveal_strlit("/readyz");
    reveal_strlit("/startupz");
    reveal_strlit("ok");
    reveal_strlit("not_ready");
    reveal_strlit("starting");
    assert("/healthz"@.len() == 8 && "/readyz"@.len() == 7 && "/startupz"@.len() == 9);
    assert("ok"@.len() == 2 && "not_ready"@.len() == 9 && "starting"@.len() == 8);
    lemma_probe_status("ok"@, seq![("alive"@, true), ("heartbeat"@, true)]);
    let checks = seq![("ready_flag"@, probes.ready), ("database"@, db_ok), ("not_emergency"@, readable)];
    lemma_probe_status("ok"@, checks);
    lemma_probe_status("not_ready"@, checks);
    let one = seq![("startup_complete"@, probes.startup_complete)];
    lemma_probe_status("ok"@, one);
    lemma_probe_status("starting"@, one);
}

proof fn lemma_probe_status(status: Seq<char>, checks: Seq<(Seq<char>, bool)>)
    ensures
        status_of(probe_response(status, checks)) == (if status == "ok"@ {
            200int
        } else {
            503
        }),
{
    let body = crate::server::probe_json(status, checks);
    status_is_read_back(200, "application/json"@, body);
    status_is_read_back(503, "application/json"@, crate::json::json_text(error_body(503, body)));
}

/// Without keys and without tenants nothing needs a token; with them the token shown is the one
/// that is looked at.
pub proof fn tokens_are_asked_for(
    keyed: bool,
    tenant_count: int,
    path: Seq<char>,
    fields: Seq<(Seq<char>, Seq<char>)>,
)
    ensures
        credential_of(keyed, tenant_count, path, fields) == CredentialView::NotNeeded <==> (!keyed
            && tenant_count <= 0) || path == "/v1/health"@,
        credential_of(keyed, tenant_count, path, fields) matches CredentialView::Token(t)
            ==> bearer_in(fields) == Some(t),
{
}

/// A tenant's token, an administrator's key and a valid token each let in; without any of them
/// the answer is status 401.
pub proof fn proof_gives_access(
    auth: ApiKeyStore,
    oauth: OAuthValidator,
    token: Seq<char>,
    is_tenant: bool,
    now: int,
)
    ensures
        is_tenant ==> authorized(auth, oauth, token, is_tenant, now) is Ok,
        auth.key_hashes@.len() > 0 && auth.admits(token) ==> authorized(
            auth,
            oauth,
            token,
            is_tenant,
            now,
        ) is Ok,
        oauth.providers@.len() > 0 && validated(oauth.providers@, token, now) is Ok ==> authorized(
            auth,
            oauth,
            token,
            is_tenant,
            now,
        ) is Ok,
        authorized(auth, oauth, token, is_tenant, now) matches Ok(Some(claims)) ==> validated(
            oauth.providers@,
            token,
            now,
        ) == Ok::<_, JwtErrorView>(claims),
        authorized(auth, oauth, token, is_tenant, now) matches Err(a) ==> status_of(a) == 401,
{
    status_is_read_back(
        401,
        "application/json"@,
        crate::json::json_text(error_body(401, "invalid API key"@)),
    );
}

/// A request uses up the rate limit of its own address and of no other, and is counted as in
/// flight where it goes on.
pub proof fn requests_are_counted(
    before: Gateway,
    after: Gateway,
    ip: Seq<char>,
    now: u64,
    admitted: bool,
    in_flight: bool,
    other: Seq<char>,
)
    requires
        counted(before, after, ip, now, admitted, in_flight),
        other != ip,
    ensures
        after.limiter.buckets@.contains_key(other) == before.limiter.buckets@.contains_key(other),
        after.limiter.buckets@[other] == before.limiter.buckets@[other],
        before.limiter.rate_per_sec != u32::MAX ==> after.limiter.buckets@.contains_key(ip)
            && after.limiter.buckets@[ip] == bucket_of(
            before.limiter.buckets@,
            before.limiter.rate_per_sec,
            before.limiter.burst,
            ip,
            now,
        ).after(now),
        admitted && before.probes.heartbeat < u64::MAX ==> after.probes.heartbeat
            == before.probes.heartbeat + 1,
        !admitted ==> after.probes == before.probes,
        after.probes.ready == before.probes.ready,
        in_flight && before.shutdown.active_requests < u64::MAX ==> after.shutdown.active_requests
            == before.shutdown.active_requests + 1,
        !in_flight ==> after.shutdown == before.shutdown,
{
}

// ---------------------------------------------------------------------------
// Dispatch

proof fn lemma_tail(path: Seq<char>, prefix: Seq<char>, id: Seq<char>)
    ensures
        tail_of(path, prefix) == Some(id) <==> path == prefix + id && id.len() > 0,
        begins(prefix + id, prefix),
{
    let whole = prefix + id;
    assert(whole.take(prefix.len() as int) =~= prefix);
    assert(whole.skip(prefix.len() as int) =~= id);
    if tail_of(path, prefix) == Some(id) {
        assert(path =~= path.take(prefix.len() as int) + path.skip(prefix.len() as int));
    }
}

proof fn lemma_methods()
    ensures
        "GET"@.len() == 3,
        "POST"@.len() == 4,
        "DELETE"@.len() == 6,
{
    reveal_strlit("GET");
    reveal_strlit("POST");
    reveal_strlit("DELETE");
}

proof fn lemma_prefixes()
    ensures
        "/v1/runs/"@.len() == 9 && "/v1/runs/"@[4] == 'r' && "/v1/runs/"@[7] == 's',
        "/v1/run/"@.len() == 8 && "/v1/run/"@[4] == 'r' && "/v1/run/"@[7] == '/',
        "/v1/sessions/"@.len() == 13 && "/v1/sessions/"@[4] == 's',
        "/v1/tenants/"@.len() == 12 && "/v1/tenants/"@[4] == 't',
        "/message"@.len() == 8,
        "/v1/chat/stream"@.len() == 15 && "/v1/chat/stream"@[4] == 'c',
        "/v1/run/stream"@ == "/v1/run/"@ + "stream"@,
        "stream"@.len() == 6,
{
    reveal_strlit("/v1/runs/");
    reveal_strlit("/v1/run/");
    reveal_strlit("/v1/sessions/");
    reveal_strlit("/v1/tenants/");
    reveal_strlit("/message");
    reveal_strlit("/v1/chat/stream");
    reveal_strlit("/v1/run/stream");
    reveal_strlit("stream");
    assert("/v1/run/stream"@ =~= "/v1/run/"@ + "stream"@);
}

/// What serves a request tells its method and its path.
pub proof fn requests_are_told_by_what_serves_them(
    method: Seq<char>,
    target: Seq<char>,
    from_tenant: bool,
)
    ensures
        ({
            let path = clean_path(target);
            match dispatched(method, target, from_tenant) {
                DispatchView::ChatStream => method == "POST"@ && path == "/v1/chat/stream"@,
                DispatchView::RunStream => method == "POST"@ && path == "/v1/run/stream"@,
                DispatchView::GetRun(id) => method == "GET"@ && path == "/v1/runs/"@ + id && id.len()
                    > 0,
                DispatchView::SessionMessage(id) => method == "POST"@ && (is_broken_message_path(path)
                    || path == "/v1/sessions/"@ + id + "/message"@),
                DispatchView::GetSession(id) => method == "GET"@ && path == "/v1/sessions/"@ + id
                    && id.len() > 0,
                DispatchView::RunNamed(name) => method == "POST"@ && path == "/v1/run/"@ + name
                    && name.len() > 0,
                DispatchView::GetTenant(id) => method == "GET"@ && path == "/v1/tenants/"@ + id
                    && !from_tenant,
                DispatchView::DeleteTenant(id) => method == "DELETE"@ && path == "/v1/tenants/"@ + id
                    && !from_tenant,
                DispatchView::Answer(a) => begins(path, "/v1/tenants/"@) && (status_of(a) == 403
                    || status_of(a) == 405),
                DispatchView::Routed(r) => r == routed(method, target, from_tenant),
            }
        }),
{
    let path = clean_path(target);
    lemma_prefixes();
    status_is_read_back(
        403,
        "application/json"@,
        crate::json::json_text(error_body(403, "tenant tokens cannot manage tenants"@)),
    );
    status_is_read_back(
        405,
        "application/json"@,
        crate::json::json_text(error_body(405, "method not allowed"@)),
    );
    match dispatched(method, target, from_tenant) {
        DispatchView::GetRun(id) => {
            lemma_tail(path, "/v1/runs/"@, id);
        },
        DispatchView::GetSession(id) => {
            lemma_tail(path, "/v1/sessions/"@, id);
        },
        DispatchView::RunNamed(id) => {
            lemma_tail(path, "/v1/run/"@, id);
        },
        DispatchView::GetTenant(id) => {
            lemma_tail(path, "/v1/tenants/"@, id);
        },
        DispatchView::DeleteTenant(id) => {
            lemma_tail(path, "/v1/tenants/"@, id);
        },
        DispatchView::SessionMessage(id) => {
            if !is_broken_message_path(path) {
                let n = path.len() - 8;
                assert(path =~= path.take(13) + path.subrange(13, n) + path.skip(n));
            }
        },
        _ => {},
    }
}

/// Runs, sessions, messages, workflows and tenants are reached by what they are named in the path,
/// whole, whatever the name holds; the name of a workflow is not that of the stream.
pub proof fn names_in_paths_are_served(target: Seq<char>, id: Seq<char>, from_tenant: bool)
    requires
        id.len() > 0,
    ensures
        clean_path(target) == "/v1/runs/"@ + id ==> dispatched("GET"@, target, from_tenant)
            == DispatchView::GetRun(id),
        clean_path(target) == "/v1/sessions/"@ + id ==> dispatched("GET"@, target, from_tenant)
            == DispatchView::GetSession(id),
        clean_path(target) == "/v1/sessions/"@ + id + "/message"@ ==> dispatched(
            "POST"@,
            target,
            from_tenant,
        ) == DispatchView::SessionMessage(id),
        clean_path(target) == "/v1/run/"@ + id && id != "stream"@ ==> dispatched(
            "POST"@,
            target,
            from_tenant,
        ) == DispatchView::RunNamed(id),
        clean_path(target) == "/v1/tenants/"@ + id ==> dispatched("GET"@, target, false)
            == DispatchView::GetTenant(id),
        clean_path(target) == "/v1/tenants/"@ + id ==> dispatched("DELETE"@, target, false)
            == DispatchView::DeleteTenant(id),
{
    let path = clean_path(target);
    lemma_methods();
    lemma_prefixes();
    lemma_tail(path, "/v1/runs/"@, id);
    lemma_tail(path, "/v1/sessions/"@, id);
    lemma_tail(path, "/v1/run/"@, id);
    lemma_tail(path, "/v1/tenants/"@, id);
    let kind = path[4];
    if begins(path, "/v1/runs/"@) {
        assert(path.take(9)[4] == path[4] && path.take(9)[7] == path[7]);
    }
    if begins(path, "/v1/run/"@) {
        assert(path.take(8)[4] == path[4] && path.take(8)[7] == path[7]);
    }
    if begins(path, "/v1/sessions/"@) {
        assert(path.take(13)[4] == path[4]);
    }
    if begins(path, "/v1/tenants/"@) {
        assert(path.take(12)[4] == path[4]);
    }
    if path == "/v1/run/"@ + id {
        if path == "/v1/run/stream"@ {
            assert(path.skip(8) =~= id);
            assert(("/v1/run/"@ + "stream"@).skip(8) =~= "stream"@);
        }
    }
    if path == "/v1/sessions/"@ + id + "/message"@ {
        assert(path.take(13) =~= "/v1/sessions/"@);
        assert(path.skip(path.len() - 8) =~= "/message"@);
        assert(path.subrange(13, path.len() - 8) =~= id);
        assert(path.take(13)[4] == path[4]);
    }
}

/// Of what is posted everything stores but questions, calls of tools and the setting of the mode;
/// a question is told by its route, and deleting stores.
pub proof fn posts_store(target: Seq<char>, from_tenant: bool, id: Seq<char>)
    ensures
        ({
            let d = dispatched("POST"@, target, from_tenant);
            !d.stores() ==> match d {
                DispatchView::ChatStream => true,
                DispatchView::Answer(_) => true,
                DispatchView::Routed(RouteView::Answer(_)) => true,
                DispatchView::Routed(RouteView::Serve(e)) => e == EndpointView::Chat || e
                    == EndpointView::ToolCall || e == EndpointView::SetDegradation,
                _ => false,
            }
        }),
        ({
            let d = dispatched("POST"@, target, from_tenant);
            let path = clean_path(target);
            d.asks_model() ==> path == "/v1/chat/stream"@ || path == "/v1/chat"@ || ends(
                path,
                "/message"@,
            )
        }),
        DispatchView::DeleteTenant(id).stores(),
{
    lemma_methods();
}

/// What is refused in a mode is refused in every mode of more stress.
pub proof fn refusals_grow_with_stress(d: DispatchView)
    ensures
        mode_refusal(DegradationMode::Degraded, d) is Some ==> mode_refusal(
            DegradationMode::ReadOnly,
            d,
        ) is Some,
        mode_refusal(DegradationMode::ReadOnly, d) is Some ==> mode_refusal(
            DegradationMode::Emergency,
            d,
        ) is Some,
        mode_refusal(DegradationMode::Emergency, d) is Some <==> d.stores() || d.asks_model(),
{
}

// ---------------------------------------------------------------------------
// Responses and accounts

/// A response tells its kind, and its length in bytes, on lines of its head.
pub proof fn heads_tell_kind_and_length(status: u16, content_type: Seq<char>, body: Seq<char>)
    ensures
        occurs(
            http_text(status, content_type, body),
            "\r\nContent-Type: "@ + content_type + "\r\n"@,
        ),
        occurs(
            http_text(status, content_type, body),
            "\r\nContent-Length: "@ + dec(encode_utf8(body).len()) + "\r\n"@,
        ),
        ends(http_text(status, content_type, body), "\r\n\r\n"@ + body),
{
    reveal_strlit("\r\n");
    reveal_strlit("\r\nContent-Length: ");
    reveal_strlit("\r\nAccess-Control-Allow-Origin: *");
    let n = dec(encode_utf8(body).len());
    let response = http_text(status, content_type, body);
    let a = "HTTP/1.1 "@ + dec(status as nat) + " "@ + reason(status);
    let b = "\r\nContent-Type: "@ + content_type;
    let c = "\r\nContent-Length: "@ + n;
    let d = "\r\nAccess-Control-Allow-Origin: *"@;
    let e = "\r\nAccess-Control-Allow-Methods: GET, POST, DELETE, OPTIONS"@
        + "\r\nAccess-Control-Allow-Headers: Content-Type, Authorization"@;
    let last = "\r\n\r\n"@ + body;
    assert(response =~= a + b + c + d + e + last);
    let i = a.len() as int;
    let rest = response.skip(i);
    assert(rest =~= b + c + d + e + last);
    let kind = b + "\r\n"@;
    assert(rest.take(kind.len() as int) =~= kind);
    assert(begins(response.skip(i), kind));
    let j = i + b.len();
    let rest2 = response.skip(j);
    assert(rest2 =~= c + d + e + last);
    let length = c + "\r\n"@;
    assert(rest2.take(length.len() as int) =~= length);
    assert(begins(response.skip(j), length));
    assert(response.skip(response.len() - last.len()) =~= last);
}

/// An error tells its status and its message.
pub proof fn errors_tell_what_is_wrong(status: u16, msg: Seq<char>)
    ensures
        error_body(status, msg).member("error"@) == JsonView::Str(msg),
        error_body(status, msg).member("status"@) == JsonView::Int(status as int),
        100 <= status <= 999 ==> status_of(error_response(status, msg)) == status,
{
    reveal_strlit("error");
    reveal_strlit("status");
    assert("error"@.len() == 5 && "status"@.len() == 6);
    if 100 <= status <= 999 {
        status_is_read_back(
            status,
            "application/json"@,
            crate::json::json_text(error_body(status, msg)),
        );
    }
}

/// Runs and chats are tracked, with all that lies under their paths, and nothing else is.
pub proof fn runs_and_chats_are_tracked(path: Seq<char>, rest: Seq<char>)
    ensures
        tracked_as("/v1/run"@ + rest) == "api/run"@,
        tracked_as("/v1/chat"@ + rest) == "api/chat"@,
        tracked_as(path).len() > 0 <==> begins(path, "/v1/run"@) || begins(path, "/v1/chat"@),
{
    reveal_strlit("/v1/run");
    reveal_strlit("/v1/chat");
    reveal_strlit("api/run");
    reveal_strlit("api/chat");
    let run = "/v1/run"@ + rest;
    let chat = "/v1/chat"@ + rest;
    assert(run.take(7) =~= "/v1/run"@);
    assert(chat.take(8) =~= "/v1/chat"@);
    assert(chat.take(7)[4] == 'c');
    assert("/v1/run"@[4] == 'r');
    assert("api/run"@.len() == 7 && "api/chat"@.len() == 8);
}

/// What is shadowed of a response that is short enough is its body, whole.
pub proof fn short_bodies_are_shadowed_whole(status: u16, body: Seq<char>)
    requires
        encode_utf8(http_text(status, "application/json"@, body)).len() <= SHADOW_BYTES,
    ensures
        SHADOW_BYTES == 4096,
        shadowable(http_text(status, "application/json"@, body)),
        shadowed_body(http_text(status, "application/json"@, body)) == body,
{
    body_follows_the_head(status, body);
}

proof fn lemma_recent_is_last(w: Seq<RequestObs>, obs: RequestObs, now: u64, secs: u64)
    requires
        !outdated(obs, now, secs),
    ensures
        in_window(w.push(obs), now, secs).len() > 0,
        in_window(w.push(obs), now, secs).last() == obs,
    decreases w.len(),
{
    let all = w.push(obs);
    if w.len() == 0 {
        assert(all[0] == obs);
    } else if outdated(all[0], now, secs) {
        assert(all.skip(1) =~= w.skip(1).push(obs));
        lemma_recent_is_last(w.skip(1), obs, now, secs);
    }
}

/// The objectives of a tracked path have, after a request that is still recent, its latency and
/// whether its status was an error as their last observation; those of other paths stay.
pub proof fn outcomes_are_observed(
    before: Gateway,
    after: Gateway,
    method: Seq<char>,
    target: Seq<char>,
    body: Seq<char>,
    status: u16,
    payload: Seq<char>,
    latency_ms: u64,
    tenant: Option<Seq<char>>,
    at: Clocks,
    name: Seq<char>,
)
    requires
        100 <= status <= 999,
        accounted(
            before,
            after,
            method,
            target,
            body,
            http_text(status, "application/json"@, payload),
            latency_ms,
            tenant,
            at,
        ),
        before.slo.trackers@.contains_key(name),
        at.present - at.observed <= before.slo.trackers@[name].target.window_secs * 1_000_000_000,
    ensures
        after.slo.trackers@.contains_key(name),
        tracked_as(clean_path(target)) == name && name.len() > 0 ==> {
            let w = after.slo.trackers@[name].window@;
            w.len() > 0 && w.last() == (RequestObs {
                timestamp: at.observed,
                latency_ms,
                is_error: 400 <= status < 600,
            })
        },
        tracked_as(clean_path(target)) != name ==> after.slo.trackers@[name]
            == before.slo.trackers@[name],
        before.shutdown.active_requests > 0 ==> after.shutdown.active_requests
            == before.shutdown.active_requests - 1,
        after.limiter == before.limiter,
{
    status_is_read_back(status, "application/json"@, payload);
    if tracked_as(clean_path(target)) == name && name.len() > 0 {
        let w = before.slo.trackers@[name].window@;
        let obs = RequestObs { timestamp: at.observed, latency_ms, is_error: 400 <= status < 600 };
        lemma_recent_is_last(w, obs, at.present, before.slo.trackers@[name].target.window_secs);
    }
}

/// What is not served is refused, with status 400 where it belongs to a stream, 403 where it is
/// closed to tenants, and 404 where nothing is known of it; only preflight requests are answered
/// otherwise.
pub proof fn unserved_requests_are_refused(method: Seq<char>, target: Seq<char>, from_tenant: bool)
    ensures
        routed(method, target, from_tenant) matches RouteView::Answer(a) ==> {
            let path = clean_path(target);
            let stream = method == "POST"@ && (path == "/v1/chat/stream"@ || path == "/v1/run/stream"@);
            ||| method == "OPTIONS"@ && a == preflight()
            ||| stream && status_of(a) == 400
            ||| from_tenant && path == "/v1/tenants"@ && status_of(a) == 403
            ||| !stream && method != "OPTIONS"@ && a == error_response(
                404,
                "route not found: "@ + method + " "@ + path,
            ) && status_of(a) == 404
        },
{
    reveal_strlit("OPTIONS");
    reveal_strlit("/v1/tenants");
    lemma_methods();
    assert("OPTIONS"@.len() == 7);
    errors_tell_what_is_wrong(400, "use streaming endpoint directly"@);
    errors_tell_what_is_wrong(403, "tenant tokens cannot create tenants"@);
    errors_tell_what_is_wrong(403, "tenant tokens cannot list tenants"@);
    errors_tell_what_is_wrong(404, "route not found: "@ + method + " "@ + clean_path(target));
}

/// A body that is not JSON is answered with status 400, one that is comes through as it is; what is
/// not permitted is answered with status 403, and what is goes on.
pub proof fn unfit_requests_are_refused(
    parsed: Result<JsonView, Seq<char>>,
    permit: Result<(), String>,
)
    ensures
        parsed matches Ok(v) ==> request_value(parsed) == Ok::<_, Seq<char>>(v),
        parsed is Err ==> (request_value(parsed) matches Err(a) && status_of(a) == 400),
        denial(permit) is None <==> permit is Ok,
        denial(permit) matches Some(a) ==> status_of(a) == 403,
        permit matches Err(e) ==> denial(permit) == Some(error_response(403, e@)),
{
    match parsed {
        Err(e) => {
            errors_tell_what_is_wrong(400, "invalid JSON: "@ + e);
        },
        Ok(_) => {},
    }
    match permit {
        Err(e) => {
            errors_tell_what_is_wrong(403, e@);
        },
        Ok(_) => {},
    }
}

} // verus!
