//! The way of a request through the gateway: its head is read, it is admitted or turned away, the
//! caller is identified, the request is dispatched, and what came of it is accounted for.

use vstd::prelude::*;
use vstd::utf8::*;

use crate::auth::{bearer_token, ApiKeyStore};
use crate::degradation::{DegradationController, DegradationMode};
use crate::oauth::{validated, ClaimsView, OAuthValidator};
use crate::probes::{checks_text, checks_view, ProbeResponse, ProbeState, ShutdownController};
use crate::ratelimit::{bucket_of, HttpRateLimiter};
use crate::ratio::Ratio;
use crate::response::{
    error_response, forbidden, http_401, http_429, internal_error, json_response,
    method_not_allowed, ok, service_unavailable,
};
use crate::router::{
    clean_path, route_with_tenant, routed, split_target, Endpoint, EndpointView, Route, RouteView,
};
use crate::shadow::{took_in, TrafficShadow};
use crate::slo::{error_rate, percentile_of, recorded, sorted_latencies, SloRegistry};
use crate::text::{
    begins, can_clip, char_count, clip, clip_bytes, clips_at, clone_opt, cut, cut_at, ends,
    ends_with, find_str, opt_str_view, opt_view, parse_u64, parse_unsigned, position_of, skip_chars,
    starts_with, str_eq, strip_prefix, take_chars, to_chars, trim, trim_prefix, trim_start_str,
    trim_white,
};

verus! {

// ---------------------------------------------------------------------------
// The head of a request

/// The method and the target of a request line; `None` where there is no target.
pub open spec fn request_line(line: Seq<char>) -> Option<(Seq<char>, Seq<char>)> {
    match cut(trim_white(line), ' ') {
        Some((m, rest)) => match cut(rest, ' ') {
            Some((t, _)) => Some((m, t)),
            None => Some((m, rest)),
        },
        None => None,
    }
}

/// The method and the target of a request line; `None` where there is no target.
pub fn parse_request_line(line: &str) -> (r: Option<(String, String)>)
    ensures
        match r {
            Some((m, t)) => request_line(line@) == Some((m@, t@)),
            None => request_line(line@) is None,
        },
{
    match cut_at(trim(line), ' ') {
        Some((m, rest)) => {
            let target = match cut_at(rest, ' ') {
                Some((t, _)) => t,
                None => rest,
            };
            Some((m.to_owned(), target.to_owned()))
        },
        None => None,
    }
}

/// A text in lower case.
pub uninterp spec fn lowercase(s: Seq<char>) -> Seq<char>;

/// The lower case of a one-byte character.
pub open spec fn ascii_lower(c: char) -> char {
    if 'A' <= c <= 'Z' {
        ((c as u8 + 32) as u8) as char
    } else {
        c
    }
}

/// `str::to_lowercase` turns a text into lower case. Claimed: the result depends on the text
/// alone, and of one-byte characters the letters `A` to `Z` change, each to its small letter, and
/// nothing else does.
#[verifier::external_body]
fn lower(s: &str) -> (r: String)
    ensures
        r@ == lowercase(s@),
        is_ascii_chars(s@) ==> r@ == Seq::new(s@.len(), |i: int| ascii_lower(s@[i])),
{
    s.to_lowercase()
}

/// The headers of a request, as far as they were read.
#[derive(Debug, Clone)]
pub struct Headers {
    pub content_length: usize,
    /// Names in lower case, with their values.
    pub fields: Vec<(String, String)>,
}

/// Header fields, as values.
pub open spec fn field_pairs(v: Seq<(String, String)>) -> Seq<(Seq<char>, Seq<char>)> {
    Seq::new(v.len(), |i: int| (v[i].0@, v[i].1@))
}

/// The content length after a header line that reads `low` in lower case.
pub open spec fn length_after(before: usize, low: Seq<char>) -> usize {
    if begins(low, "content-length:"@) {
        parse_unsigned(
            trim_white(trim_prefix(low, "content-length:"@)),
            usize::MAX as nat,
        ).unwrap_or(0) as usize
    } else {
        before
    }
}

/// The name of a header line, without surrounding white space; empty where there is no colon.
pub open spec fn header_name(line: Seq<char>) -> Seq<char> {
    match cut(trim_white(line), ':') {
        Some((k, _)) => trim_white(k),
        None => Seq::empty(),
    }
}

/// The header fields after one more line whose name reads `low_name` in lower case.
pub open spec fn fields_after(
    before: Seq<(Seq<char>, Seq<char>)>,
    line: Seq<char>,
    low_name: Seq<char>,
) -> Seq<(Seq<char>, Seq<char>)> {
    match cut(trim_white(line), ':') {
        Some((_, v)) => before.push((low_name, trim_white(v))),
        None => before,
    }
}

impl Headers {
    /// No headers.
    pub fn new() -> (r: Headers)
        ensures
            r.content_length == 0,
            r.fields@.len() == 0,
    {
        Headers { content_length: 0, fields: Vec::new() }
    }

    /// Takes in one more line, given it and its name in lower case; gives whether it was the empty
    /// line that ends the headers.
    pub fn read_lowered(&mut self, line: &str, low: &str, low_name: &str) -> (r: bool)
        ensures
            r == (trim_white(line@).len() == 0),
            r ==> *final(self) == *old(self),
            !r ==> final(self).content_length == length_after(old(self).content_length, low@),
            !r ==> field_pairs(final(self).fields@) == fields_after(
                field_pairs(old(self).fields@),
                line@,
                low_name@,
            ),
    {
        let trimmed = trim(line);
        if trimmed.is_empty() {
            return true;
        }
        let ghost before = field_pairs(self.fields@);
        if starts_with(low, "content-length:") {
            self.content_length = match parse_u64(
                trim(trim_start_str(low, "content-length:")),
                usize::MAX as u64,
            ) {
                Some(n) => n as usize,
                None => 0,
            };
        }
        match cut_at(trimmed, ':') {
            Some((_, value)) => {
                self.fields.push((low_name.to_owned(), trim(value).to_owned()));
                assert(field_pairs(self.fields@) =~= fields_after(before, line@, low_name@));
            },
            None => {},
        }
        false
    }

    /// Takes in one more line; gives whether it was the empty line that ends the headers.
    pub fn read_line(&mut self, line: &str) -> (r: bool)
        ensures
            r == (trim_white(line@).len() == 0),
            r ==> *final(self) == *old(self),
            !r ==> final(self).content_length == length_after(
                old(self).content_length,
                lowercase(line@),
            ),
            !r ==> field_pairs(final(self).fields@) == fields_after(
                field_pairs(old(self).fields@),
                line@,
                lowercase(header_name(line@)),
            ),
    {
        let low = lower(line);
        let low_name = match cut_at(trim(line), ':') {
            Some((k, _)) => lower(trim(k)),
            None => lower(""),
        };
        proof {
            reveal_strlit("");
            assert(""@ =~= Seq::<char>::empty());
        }
        self.read_lowered(line, low.as_str(), low_name.as_str())
    }

    /// The bearer token of the first `Authorization` header.
    pub fn bearer(&self) -> (r: Option<String>)
        ensures
            opt_view(r) == bearer_in(field_pairs(self.fields@)),
    {
        let ghost all = field_pairs(self.fields@);
        let mut i: usize = 0;
        assert(all.skip(0) =~= all);
        while i < self.fields.len()
            invariant
                i <= self.fields@.len(),
                all == field_pairs(self.fields@),
                bearer_in(all) == bearer_in(all.skip(i as int)),
            decreases self.fields@.len() - i,
        {
            assert(all.skip(i as int)[0] == (self.fields@[i as int].0@, self.fields@[i as int].1@));
            if str_eq(self.fields[i].0.as_str(), "authorization") {
                return match ApiKeyStore::extract_bearer(self.fields[i].1.as_str()) {
                    Some(t) => Some(t.to_owned()),
                    None => None,
                };
            }
            assert(all.skip(i as int).skip(1) =~= all.skip(i + 1));
            i = i + 1;
        }
        None
    }
}

/// The bearer token of the first `Authorization` header.
pub open spec fn bearer_in(fields: Seq<(Seq<char>, Seq<char>)>) -> Option<Seq<char>>
    decreases fields.len(),
{
    if fields.len() == 0 {
        None
    } else if fields[0].0 == "authorization"@ {
        bearer_token(fields[0].1)
    } else {
        bearer_in(fields.skip(1))
    }
}

// ---------------------------------------------------------------------------
// Admission

/// The state that requests pass through.
pub struct Gateway {
    pub limiter: HttpRateLimiter,
    pub probes: ProbeState,
    pub degradation: DegradationController,
    pub shutdown: ShutdownController,
    pub slo: SloRegistry,
    pub shadow: TrafficShadow,
    pub auth: ApiKeyStore,
    pub oauth: OAuthValidator,
}

/// The JSON of a probe's answer.
pub open spec fn probe_json(status: Seq<char>, checks: Seq<(Seq<char>, bool)>) -> Seq<char> {
    "{\"status\":\""@ + status + "\",\"checks\":{"@ + checks_text(checks) + "}}"@
}

/// A probe's answer as a response.
pub open spec fn probe_response(status: Seq<char>, checks: Seq<(Seq<char>, bool)>) -> Seq<char> {
    if status == "ok"@ {
        json_response(200, probe_json(status, checks))
    } else {
        error_response(503, probe_json(status, checks))
    }
}

/// A probe's answer as a response.
pub fn probe_reply(p: &ProbeResponse) -> (r: String)
    ensures
        r@ == probe_response(p.status@, checks_view(p.checks@)),
{
    let body = p.to_json();
    if p.is_ok() {
        ok(body.as_str())
    } else {
        service_unavailable(body.as_str())
    }
}

/// The answer to a probe, where the request is one.
pub open spec fn probe_answer(
    probes: ProbeState,
    readable: bool,
    db_ok: bool,
    method: Seq<char>,
    path: Seq<char>,
) -> Option<Seq<char>> {
    if method != "GET"@ {
        None
    } else if path == "/healthz"@ {
        Some(probe_response("ok"@, seq![("alive"@, true), ("heartbeat"@, true)]))
    } else if path == "/readyz"@ {
        Some(
            probe_response(
                if probes.ready && db_ok && readable {
                    "ok"@
                } else {
                    "not_ready"@
                },
                seq![
                    ("ready_flag"@, probes.ready),
                    ("database"@, db_ok),
                    ("not_emergency"@, readable),
                ],
            ),
        )
    } else if path == "/startupz"@ {
        Some(
            probe_response(
                if probes.startup_complete {
                    "ok"@
                } else {
                    "starting"@
                },
                seq![("startup_complete"@, probes.startup_complete)],
            ),
        )
    } else {
        None
    }
}

/// The answer to a request that is not let in, or that a probe answers: probes are always
/// answered; in emergency mode nothing but the health endpoint is served; while the server
/// drains, nothing new is.
pub open spec fn turned_away(
    probes: ProbeState,
    degradation: DegradationController,
    shutdown: ShutdownController,
    db_ok: bool,
    method: Seq<char>,
    path: Seq<char>,
) -> Option<Seq<char>> {
    let readable = degradation.current() != DegradationMode::Emergency;
    match probe_answer(probes, readable, db_ok, method, path) {
        Some(answer) => Some(answer),
        None => if !readable && path != "/v1/health"@ {
            Some(error_response(503, "system in emergency mode"@))
        } else if shutdown.drain_started {
            Some(error_response(500, "server shutting down"@))
        } else {
            None
        },
    }
}

impl Gateway {
    /// Whether a request from `ip` at time `now` is within the rate limit.
    pub open spec fn allows(self, ip: Seq<char>, now: u64) -> bool {
        let l = self.limiter;
        l.rate_per_sec == u32::MAX || bucket_of(
            l.buckets@,
            l.rate_per_sec,
            l.burst,
            ip,
            now,
        ).grants(now as int)
    }

    /// The answer to a request that is not let in, or that a probe answers.
    pub fn answer_early(&self, method: &str, path: &str, db_ok: bool) -> (r: Option<String>)
        ensures
            opt_view(r) == turned_away(
                self.probes,
                self.degradation,
                self.shutdown,
                db_ok,
                method@,
                path@,
            ),
    {
        if str_eq(method, "GET") {
            if str_eq(path, "/healthz") {
                return Some(probe_reply(&self.probes.liveness_response()));
            }
            if str_eq(path, "/readyz") {
                let readable = self.degradation.allows_reads();
                return Some(probe_reply(&self.probes.readiness_response(db_ok, readable)));
            }
            if str_eq(path, "/startupz") {
                return Some(probe_reply(&self.probes.startup_response()));
            }
        }
        if !self.degradation.allows_reads() && !str_eq(path, "/v1/health") {
            return Some(service_unavailable("system in emergency mode"));
        }
        if self.shutdown.should_reject_new() {
            return Some(internal_error("server shutting down"));
        }
        None
    }

    /// Whether a workflow may ask a language model, given whether one is configured: short of
    /// normal mode none is asked, and workflows go on with their tools alone.
    pub fn model_ready(&self, configured: bool) -> (r: bool)
        ensures
            r == (configured && self.degradation.current() == DegradationMode::Normal),
    {
        configured && self.degradation.mode().allows_llm()
    }

    /// Admits a request from `ip` at time `now`, in nanoseconds, and counts it as in flight, or
    /// gives the answer that ends it here.
    pub fn admit_at(&mut self, ip: &str, method: &str, target: &str, db_ok: bool, now: u64) -> (r:
        Option<String>)
        ensures
            counted(*old(self), *final(self), ip@, now, r is None, r is None),
            opt_view(r) == (if !old(self).allows(ip@, now) {
                Some(error_response(429, "rate limit exceeded"@))
            } else {
                turned_away(
                    old(self).probes,
                    old(self).degradation,
                    old(self).shutdown,
                    db_ok,
                    method@,
                    clean_path(target@),
                )
            }),
    {
        if !self.limiter.allow_at(ip, now) {
            return Some(http_429("rate limit exceeded"));
        }
        let (path, _) = split_target(target);
        match self.answer_early(method, path, db_ok) {
            Some(answer) => Some(answer),
            None => {
                self.shutdown.request_start();
                self.probes.heartbeat();
                None
            },
        }
    }
}

/// Whether `after` is the gateway `before` once a request from `ip` at time `now` came to it: the
/// address has used its rate limit, a request that was admitted has advanced the heartbeat, and
/// one that goes on is in flight.
pub open spec fn counted(
    before: Gateway,
    after: Gateway,
    ip: Seq<char>,
    now: u64,
    admitted: bool,
    in_flight: bool,
) -> bool {
    let l = before.limiter;
    &&& after.limiter.rate_per_sec == l.rate_per_sec
    &&& after.limiter.burst == l.burst
    &&& after.limiter.buckets@ == if l.rate_per_sec == u32::MAX {
        l.buckets@
    } else {
        l.buckets@.insert(
            ip,
            bucket_of(l.buckets@, l.rate_per_sec, l.burst, ip, now).after(now),
        )
    }
    &&& after.shutdown == if in_flight {
        before.shutdown.started()
    } else {
        before.shutdown
    }
    &&& after.probes == (ProbeState {
        heartbeat: if admitted {
            next_beat(before.probes.heartbeat)
        } else {
            before.probes.heartbeat
        },
        ..before.probes
    })
    &&& after.degradation == before.degradation
    &&& after.slo == before.slo
    &&& after.shadow == before.shadow
    &&& after.auth == before.auth
    &&& after.oauth == before.oauth
}

/// The heartbeat counter after one more beat.
pub open spec fn next_beat(n: u64) -> u64 {
    (if n == u64::MAX {
        0
    } else {
        n + 1
    }) as u64
}

// ---------------------------------------------------------------------------
// Identification

/// What a request has to show for itself.
#[derive(Debug, Clone)]
pub enum Credential {
    /// Nothing: the request is open to all.
    NotNeeded,
    /// A token, which it has.
    Token(String),
    /// A token, which it lacks; with the answer that refuses the request.
    Missing(String),
}

/// What a request has to show for itself, as a value.
pub enum CredentialView {
    NotNeeded,
    Token(Seq<char>),
    Missing(Seq<char>),
}

impl View for Credential {
    type V = CredentialView;

    open spec fn view(&self) -> CredentialView {
        match self {
            Credential::NotNeeded => CredentialView::NotNeeded,
            Credential::Token(t) => CredentialView::Token(t@),
            Credential::Missing(s) => CredentialView::Missing(s@),
        }
    }
}

/// Whether a request to a path is open to all: the health endpoint alone is.
pub open spec fn open_to_all(path: Seq<char>) -> bool {
    path == "/v1/health"@
}

/// What a request has to show for itself. Without keys and tenants everything is open.
pub open spec fn credential_of(
    keyed: bool,
    tenant_count: int,
    path: Seq<char>,
    fields: Seq<(Seq<char>, Seq<char>)>,
) -> CredentialView {
    if !(keyed || tenant_count > 0) || open_to_all(path) {
        CredentialView::NotNeeded
    } else {
        match bearer_in(fields) {
            Some(t) => CredentialView::Token(t),
            None => CredentialView::Missing(error_response(401, "missing bearer token"@)),
        }
    }
}

/// A validated identity that is to be entered in the audit log.
#[derive(Debug, Clone)]
pub struct AuditEntry {
    pub issuer: Option<String>,
    pub subject: String,
}

/// Whether a caller is let in.
#[derive(Debug, Clone)]
pub enum Authorization {
    /// By an administrator's key or as a tenant.
    Known,
    /// By a validated token, which is to be entered in the audit log.
    Validated(AuditEntry),
    /// Not at all: the attempt is to be entered in the audit log, and the request is refused with
    /// this answer.
    Refused(String),
}

/// What comes of a token, given whether a tenant has it.
pub open spec fn authorized(
    auth: ApiKeyStore,
    oauth: OAuthValidator,
    token: Seq<char>,
    is_tenant: bool,
    now: int,
) -> Result<Option<ClaimsView>, Seq<char>> {
    if auth.key_hashes@.len() > 0 && auth.admits(token) || is_tenant {
        Ok(None)
    } else if oauth.providers@.len() > 0 {
        match validated(oauth.providers@, token, now) {
            Ok(claims) => Ok(Some(claims)),
            Err(_) => Err(error_response(401, "invalid API key"@)),
        }
    } else {
        Err(error_response(401, "invalid API key"@))
    }
}

impl Gateway {
    /// What a request has to show for itself.
    pub fn credential(&self, target: &str, headers: &Headers, tenant_count: usize) -> (r:
        Credential)
        ensures
            r@ == credential_of(
                self.auth.key_hashes@.len() > 0,
                tenant_count as int,
                clean_path(target@),
                field_pairs(headers.fields@),
            ),
    {
        let (path, _) = split_target(target);
        if !(self.auth.is_enabled() || tenant_count > 0) || str_eq(path, "/v1/health") {
            return Credential::NotNeeded;
        }
        match headers.bearer() {
            Some(t) => Credential::Token(t),
            None => Credential::Missing(http_401("missing bearer token")),
        }
    }

    /// Whether the holder of `token` is let in at time `now`, in Unix seconds, given whether a
    /// tenant has that token. An administrator's key or a tenant's is looked at first.
    pub fn authorize_at(&self, token: &str, is_tenant: bool, now: i64) -> (r: Authorization)
        ensures
            match authorized(self.auth, self.oauth, token@, is_tenant, now as int) {
                Ok(None) => r is Known,
                Ok(Some(claims)) => r matches Authorization::Validated(a) && opt_view(a.issuer)
                    == claims.iss && a.subject@ == claims.sub,
                Err(x) => r matches Authorization::Refused(s) && s@ == x,
            },
    {
        let admin_ok = self.auth.is_enabled() && self.auth.verify(token);
        if admin_ok || is_tenant {
            return Authorization::Known;
        }
        if self.oauth.has_providers() {
            match self.oauth.validate_at(token, now) {
                Ok(claims) => {
                    return Authorization::Validated(
                        AuditEntry { issuer: clone_opt(&claims.iss), subject: claims.sub.clone() },
                    );
                },
                Err(_) => {},
            }
        }
        Authorization::Refused(http_401("invalid API key"))
    }
}

/// The answer to a tenant that has used up its quota.
pub fn quota_exceeded(reason: &str) -> (r: String)
    ensures
        r@ == error_response(429, reason@),
{
    http_429(reason)
}

// ---------------------------------------------------------------------------
// Dispatch

/// What serves a request.
#[derive(Debug, Clone)]
pub enum Dispatch {
    ChatStream,
    RunStream,
    GetRun(String),
    SessionMessage(String),
    GetSession(String),
    RunNamed(String),
    GetTenant(String),
    DeleteTenant(String),
    /// The request is answered at once.
    Answer(String),
    /// The request goes to a plain route, and what comes of it is accounted for.
    Routed(Route),
}

/// What serves a request, as a value.
pub enum DispatchView {
    ChatStream,
    RunStream,
    GetRun(Seq<char>),
    SessionMessage(Seq<char>),
    GetSession(Seq<char>),
    RunNamed(Seq<char>),
    GetTenant(Seq<char>),
    DeleteTenant(Seq<char>),
    Answer(Seq<char>),
    Routed(RouteView),
}

impl View for Dispatch {
    type V = DispatchView;

    open spec fn view(&self) -> DispatchView {
        match self {
            Dispatch::ChatStream => DispatchView::ChatStream,
            Dispatch::RunStream => DispatchView::RunStream,
            Dispatch::GetRun(s) => DispatchView::GetRun(s@),
            Dispatch::SessionMessage(s) => DispatchView::SessionMessage(s@),
            Dispatch::GetSession(s) => DispatchView::GetSession(s@),
            Dispatch::RunNamed(s) => DispatchView::RunNamed(s@),
            Dispatch::GetTenant(s) => DispatchView::GetTenant(s@),
            Dispatch::DeleteTenant(s) => DispatchView::DeleteTenant(s@),
            Dispatch::Answer(s) => DispatchView::Answer(s@),
            Dispatch::Routed(x) => DispatchView::Routed(x@),
        }
    }
}

/// What follows `prefix` in a path; `None` where the path does not begin with it or nothing
/// follows.
pub open spec fn tail_of(path: Seq<char>, prefix: Seq<char>) -> Option<Seq<char>> {
    if begins(path, prefix) && path.len() > prefix.len() {
        Some(path.skip(prefix.len() as int))
    } else {
        None
    }
}

/// Whether a path names the messages of a session.
pub open spec fn is_message_path(path: Seq<char>) -> bool {
    begins(path, "/v1/sessions/"@) && ends(path, "/message"@)
}

/// Whether the parts of a path that names the messages of a session overlap, so that no session
/// is named.
pub open spec fn is_broken_message_path(path: Seq<char>) -> bool {
    is_message_path(path) && path.len() < "/v1/sessions/"@.len() + "/message"@.len()
}

/// The session that the path of its messages names.
pub open spec fn message_session(path: Seq<char>) -> Seq<char> {
    path.subrange("/v1/sessions/"@.len() as int, path.len() - "/message"@.len())
}

/// What serves a request.
pub open spec fn dispatched(method: Seq<char>, target: Seq<char>, from_tenant: bool) -> DispatchView {
    let path = clean_path(target);
    let get = method == "GET"@;
    let post = method == "POST"@;
    if post && path == "/v1/chat/stream"@ {
        DispatchView::ChatStream
    } else if post && path == "/v1/run/stream"@ {
        DispatchView::RunStream
    } else if get && tail_of(path, "/v1/runs/"@) is Some {
        DispatchView::GetRun(tail_of(path, "/v1/runs/"@).unwrap())
    } else if post && is_message_path(path) {
        DispatchView::SessionMessage(message_session(path))
    } else if get && tail_of(path, "/v1/sessions/"@) is Some {
        DispatchView::GetSession(tail_of(path, "/v1/sessions/"@).unwrap())
    } else if post && tail_of(path, "/v1/run/"@) is Some {
        DispatchView::RunNamed(tail_of(path, "/v1/run/"@).unwrap())
    } else {
        match tail_of(path, "/v1/tenants/"@) {
            Some(id) => if from_tenant {
                DispatchView::Answer(
                    error_response(403, "tenant tokens cannot manage tenants"@),
                )
            } else if get {
                DispatchView::GetTenant(id)
            } else if method == "DELETE"@ {
                DispatchView::DeleteTenant(id)
            } else {
                DispatchView::Answer(error_response(405, "method not allowed"@))
            },
            None => DispatchView::Routed(routed(method, target, from_tenant)),
        }
    }
}

/// What follows `prefix` in a path.
fn tail<'a>(path: &'a str, prefix: &str) -> (r: Option<&'a str>)
    ensures
        opt_str_view(r) == tail_of(path@, prefix@),
{
    match strip_prefix(path, prefix) {
        Some(rest) => if rest.is_empty() {
            None
        } else {
            Some(rest)
        },
        None => None,
    }
}

/// What serves a request. A path whose parts overlap names no session and is not served.
pub fn dispatch(method: &str, target: &str, from_tenant: bool) -> (r: Dispatch)
    requires
        method@ == "POST"@ ==> !is_broken_message_path(clean_path(target@)),
    ensures
        r@ == dispatched(method@, target@, from_tenant),
{
    let (path, _) = split_target(target);
    let get = str_eq(method, "GET");
    let post = str_eq(method, "POST");
    if post && str_eq(path, "/v1/chat/stream") {
        return Dispatch::ChatStream;
    }
    if post && str_eq(path, "/v1/run/stream") {
        return Dispatch::RunStream;
    }
    if get {
        match tail(path, "/v1/runs/") {
            Some(id) => {
                return Dispatch::GetRun(id.to_owned());
            },
            None => {},
        }
    }
    if post && starts_with(path, "/v1/sessions/") && ends_with(path, "/message") {
        let from: usize = char_count("/v1/sessions/");
        let to: usize = char_count(path) - char_count("/message");
        let id = skip_chars(take_chars(path, to), from);
        assert(id@ =~= message_session(path@));
        return Dispatch::SessionMessage(id.to_owned());
    }
    if get {
        match tail(path, "/v1/sessions/") {
            Some(id) => {
                return Dispatch::GetSession(id.to_owned());
            },
            None => {},
        }
    }
    if post {
        match tail(path, "/v1/run/") {
            Some(name) => {
                return Dispatch::RunNamed(name.to_owned());
            },
            None => {},
        }
    }
    match tail(path, "/v1/tenants/") {
        Some(id) => {
            if from_tenant {
                Dispatch::Answer(forbidden("tenant tokens cannot manage tenants"))
            } else if get {
                Dispatch::GetTenant(id.to_owned())
            } else if str_eq(method, "DELETE") {
                Dispatch::DeleteTenant(id.to_owned())
            } else {
                Dispatch::Answer(method_not_allowed())
            }
        },
        None => Dispatch::Routed(route_with_tenant(method, target, from_tenant)),
    }
}

/// Whether `dispatch` can serve a request.
pub fn can_dispatch(method: &str, target: &str) -> (r: bool)
    ensures
        r == !(method@ == "POST"@ && is_broken_message_path(clean_path(target@))),
{
    let (path, _) = split_target(target);
    !(str_eq(method, "POST") && starts_with(path, "/v1/sessions/") && ends_with(path, "/message")
        && (char_count(path) as u128) < char_count("/v1/sessions/") as u128 + char_count(
        "/message",
    ) as u128)
}

// ---------------------------------------------------------------------------
// Modes

/// Whether an endpoint stores or deletes something, or runs a workflow, which may.
pub open spec fn endpoint_stores(e: EndpointView) -> bool {
    match e {
        EndpointView::Run => true,
        EndpointView::RegisterWorkflow => true,
        EndpointView::Put => true,
        EndpointView::CreateTenant => true,
        EndpointView::GdprDelete => true,
        _ => false,
    }
}

impl DispatchView {
    /// Whether the request stores or deletes something, or runs a workflow, which may. A call of a
    /// tool does so only where the tool writes, which its body tells.
    pub open spec fn stores(self) -> bool {
        match self {
            DispatchView::RunStream => true,
            DispatchView::SessionMessage(_) => true,
            DispatchView::RunNamed(_) => true,
            DispatchView::DeleteTenant(_) => true,
            DispatchView::Routed(RouteView::Serve(e)) => endpoint_stores(e),
            _ => false,
        }
    }

    /// Whether the request asks a language model: single questions, streams and messages of
    /// sessions.
    pub open spec fn asks_model(self) -> bool {
        match self {
            DispatchView::ChatStream => true,
            DispatchView::SessionMessage(_) => true,
            DispatchView::Routed(RouteView::Serve(EndpointView::Chat)) => true,
            _ => false,
        }
    }
}

/// Why a request that `d` serves is refused in a mode, if it is: in read-only mode nothing is
/// stored, and short of normal mode no model is asked.
pub open spec fn mode_refusal(mode: DegradationMode, d: DispatchView) -> Option<Seq<char>> {
    if mode == DegradationMode::Emergency && (d.stores() || d.asks_model()) {
        Some("system in emergency mode"@)
    } else if mode == DegradationMode::ReadOnly && d.stores() {
        Some("system in read-only mode"@)
    } else if mode != DegradationMode::Normal && d.asks_model() {
        Some("language model disabled in degraded mode"@)
    } else {
        None
    }
}

impl Dispatch {
    /// Whether the request stores or deletes something, or runs a workflow.
    pub fn stores(&self) -> (r: bool)
        ensures
            r == self@.stores(),
    {
        match self {
            Dispatch::RunStream => true,
            Dispatch::SessionMessage(_) => true,
            Dispatch::RunNamed(_) => true,
            Dispatch::DeleteTenant(_) => true,
            Dispatch::Routed(Route::Serve(e)) => match e {
                Endpoint::Run => true,
                Endpoint::RegisterWorkflow => true,
                Endpoint::Put => true,
                Endpoint::CreateTenant => true,
                Endpoint::GdprDelete => true,
                _ => false,
            },
            _ => false,
        }
    }

    /// Whether the request asks a language model.
    pub fn asks_model(&self) -> (r: bool)
        ensures
            r == self@.asks_model(),
    {
        match self {
            Dispatch::ChatStream => true,
            Dispatch::SessionMessage(_) => true,
            Dispatch::Routed(Route::Serve(Endpoint::Chat)) => true,
            _ => false,
        }
    }
}

/// Whatever a path whose parts overlap names, it is a message of a session.
proof fn lemma_broken_path_is_a_message(target: Seq<char>, from_tenant: bool)
    requires
        is_broken_message_path(clean_path(target)),
    ensures
        dispatched("POST"@, target, from_tenant) is SessionMessage,
{
    reveal_strlit("/v1/sessions/");
    reveal_strlit("/v1/chat/stream");
    reveal_strlit("/v1/run/stream");
    reveal_strlit("GET");
    reveal_strlit("POST");
    let path = clean_path(target);
    assert("GET"@.len() == 3 && "POST"@.len() == 4);
    assert(path.take(13)[4] == path[4]);
    assert("/v1/sessions/"@[4] == 's' && "/v1/chat/stream"@[4] == 'c' && "/v1/run/stream"@[4] == 'r');
}

/// Why a request is refused in a mode, if it is.
pub fn refused_by_mode(mode: DegradationMode, method: &str, target: &str, from_tenant: bool) -> (r:
    Option<&'static str>)
    ensures
        opt_str_view(r) == mode_refusal(mode, dispatched(method@, target@, from_tenant)),
{
    let (stores, asks) = if can_dispatch(method, target) {
        let d = dispatch(method, target, from_tenant);
        (d.stores(), d.asks_model())
    } else {
        proof {
            lemma_broken_path_is_a_message(target@, from_tenant);
        }
        (true, true)
    };
    if !mode.allows_reads() && (stores || asks) {
        Some("system in emergency mode")
    } else if !mode.allows_writes() && stores {
        Some("system in read-only mode")
    } else if !mode.allows_llm() && asks {
        Some("language model disabled in degraded mode")
    } else {
        None
    }
}

// ---------------------------------------------------------------------------
// Accounting

/// Whether a response reports an error: its status is in the four or five hundreds.
pub open spec fn is_error_response(response: Seq<char>) -> bool {
    begins(response, "HTTP/1.1 4"@) || begins(response, "HTTP/1.1 5"@)
}

/// Whether the status of a response can be read: what begins as a response has three one-byte
/// characters for it.
pub open spec fn has_status(response: Seq<char>) -> bool {
    begins(response, "HTTP/1.1 "@) ==> response.len() >= 12 && is_ascii_chars(response.take(12))
}

/// The status of a response; 200 where it has none.
pub open spec fn status_of(response: Seq<char>) -> u16 {
    if begins(response, "HTTP/1.1 "@) {
        parse_unsigned(response.subrange(9, 12), 65535).unwrap_or(200) as u16
    } else {
        200
    }
}

/// The status of a response; 200 where it has none.
pub fn status_code(response: &str) -> (r: u16)
    requires
        has_status(response@),
    ensures
        r == status_of(response@),
{
    if starts_with(response, "HTTP/1.1 ") {
        let digits = skip_chars(take_chars(response, 12), 9);
        assert(digits@ =~= response@.subrange(9, 12));
        match parse_u64(digits, 65535) {
            Some(n) => n as u16,
            None => 200,
        }
    } else {
        200
    }
}

/// The name under which the objectives of a path are tracked; empty where they are not.
pub open spec fn tracked_as(path: Seq<char>) -> Seq<char> {
    if begins(path, "/v1/run"@) {
        "api/run"@
    } else if begins(path, "/v1/chat"@) {
        "api/chat"@
    } else {
        Seq::empty()
    }
}

/// The name under which the objectives of a path are tracked; empty where they are not.
pub fn slo_endpoint(path: &str) -> (r: &'static str)
    ensures
        r@ == tracked_as(path@),
{
    if starts_with(path, "/v1/run") {
        "api/run"
    } else if starts_with(path, "/v1/chat") {
        "api/chat"
    } else {
        proof {
            reveal_strlit("");
            assert(""@ =~= Seq::<char>::empty());
        }
        ""
    }
}

/// How many bytes of a response are shadowed, head and all.
pub const SHADOW_BYTES: usize = 4096;

/// Where the body of a response begins: after the first empty line.
pub open spec fn body_start(response: Seq<char>) -> int {
    match position_of(response, "\r\n\r\n"@) {
        Some(i) => i + 4,
        None => 0,
    }
}

/// Whether the body of a response can be shadowed: the first bytes of the response end with a
/// whole character, and the head is among them.
pub open spec fn shadowable(response: Seq<char>) -> bool {
    &&& clips_at(response, SHADOW_BYTES as int)
    &&& body_start(response) <= clip_bytes(response, SHADOW_BYTES as int).len()
}

/// What is shadowed of a response's body: what of it is among the first bytes of the response.
pub open spec fn shadowed_body(response: Seq<char>) -> Seq<char> {
    clip_bytes(response, SHADOW_BYTES as int).skip(body_start(response))
}

/// What is shadowed of a response's body.
pub fn shadow_body<'a>(response: &'a str) -> (r: &'a str)
    requires
        shadowable(response@),
    ensures
        r@ == shadowed_body(response@),
{
    proof {
        reveal_strlit("\r\n\r\n");
    }
    let start: usize = match find_str(response, "\r\n\r\n") {
        Some(i) => i + 4,
        None => 0,
    };
    skip_chars(clip(response, SHADOW_BYTES), start)
}

/// Whether a character takes one byte.
fn is_one_byte(c: char) -> (r: bool)
    ensures
        r == ('\0' <= c <= '\u{7f}'),
{
    '\0' <= c && c <= '\u{7f}'
}

/// Whether a text begins with twelve one-byte characters.
fn begins_plain(response: &str) -> (r: bool)
    ensures
        r == (response@.len() >= 12 && is_ascii_chars(response@.take(12))),
{
    if char_count(response) < 12 {
        return false;
    }
    let head = to_chars(take_chars(response, 12));
    let mut i: usize = 0;
    while i < head.len()
        invariant
            i <= head@.len(),
            head@ == response@.take(12),
            forall|j: int| 0 <= j < i ==> '\0' <= #[trigger] head@[j] <= '\u{7f}',
        decreases head@.len() - i,
    {
        if !is_one_byte(head[i]) {
            return false;
        }
        i = i + 1;
    }
    true
}

/// Whether a response can be accounted for: its status can be read and its body shadowed.
pub fn can_account(response: &str) -> (r: bool)
    ensures
        r == (has_status(response@) && shadowable(response@)),
{
    if starts_with(response, "HTTP/1.1 ") && !begins_plain(response) {
        return false;
    }
    if !can_clip(response, SHADOW_BYTES) {
        return false;
    }
    proof {
        reveal_strlit("\r\n\r\n");
    }
    let start: usize = match find_str(response, "\r\n\r\n") {
        Some(i) => i + 4,
        None => 0,
    };
    start <= char_count(clip(response, SHADOW_BYTES))
}

/// The times that an account is kept by.
#[derive(Debug, Clone, Copy)]
pub struct Clocks {
    /// When the request was observed, in nanoseconds.
    pub observed: u64,
    /// The present, in nanoseconds.
    pub present: u64,
    /// The present, in Unix milliseconds.
    pub unix_ms: u64,
}

/// Whether `after` accounts for a request that came to `before`: one request less is in flight, the
/// objectives of its path have one more observation, the shadow one more entry, and the mode
/// follows the objectives of runs at present. Nothing else changes.
pub open spec fn accounted(
    before: Gateway,
    after: Gateway,
    method: Seq<char>,
    target: Seq<char>,
    body: Seq<char>,
    response: Seq<char>,
    latency_ms: u64,
    tenant: Option<Seq<char>>,
    at: Clocks,
) -> bool {
    let path = clean_path(target);
    let name = tracked_as(path);
    let was = before.slo.trackers@;
    let now = after.slo.trackers@;
    &&& after.limiter == before.limiter
    &&& after.probes == before.probes
    &&& after.auth == before.auth
    &&& after.oauth == before.oauth
    &&& after.shutdown == before.shutdown.ended()
    &&& !was.contains_key(name) || name.len() == 0 ==> now == was
    &&& was.contains_key(name) && name.len() > 0 ==> now == was.insert(name, now[name])
        && now[name].target == was[name].target && now[name].origin == was[name].origin
        && now[name].window@ == recorded(
        was[name].window@,
        at.observed,
        at.present,
        latency_ms,
        is_error_response(response),
        was[name].target.window_secs,
    )
    &&& !before.shadow.records(path) ==> after.shadow == before.shadow
    &&& before.shadow.records(path) ==> took_in(
        before.shadow,
        after.shadow,
        at.unix_ms,
        method,
        path,
        body,
        status_of(response),
        shadowed_body(response),
        latency_ms,
        tenant,
    )
    &&& after.degradation == if now.contains_key("api/run"@) {
        let w = now["api/run"@].held(at.present);
        before.degradation.evaluated(error_rate(w), percentile_of(sorted_latencies(w), 99))
    } else {
        before.degradation
    }
}

impl Gateway {
    /// Accounts for a request that was routed: its latency and outcome go to the objectives, the
    /// request goes to the shadow, the mode follows the objectives of runs, and one request less
    /// is in flight.
    pub fn account_at(
        &mut self,
        method: &str,
        target: &str,
        body: &str,
        response: &str,
        latency_ms: u64,
        tenant: Option<&str>,
        at: &Clocks,
    )
        requires
            has_status(response@),
            shadowable(response@),
        ensures
            accounted(
                *old(self),
                *final(self),
                method@,
                target@,
                body@,
                response@,
                latency_ms,
                opt_str_view(tenant),
                *at,
            ),
    {
        let (path, _) = split_target(target);
        let failed = starts_with(response, "HTTP/1.1 4") || starts_with(response, "HTTP/1.1 5");
        let status: u16 = status_code(response);
        let endpoint = slo_endpoint(path);
        if !endpoint.is_empty() {
            self.slo.record_at(endpoint, at.observed, at.present, latency_ms, failed);
        }
        self.shadow.record_at(
            at.unix_ms,
            method,
            path,
            body,
            status,
            shadow_body(response),
            latency_ms,
            tenant,
        );
        match self.slo.report_at("api/run", at.present) {
            Some(report) => {
                let rate: Ratio = report.error_rate_pct;
                self.degradation.evaluate(rate, report.p99_ms);
            },
            None => {},
        }
        self.shutdown.request_end();
    }
}

} // verus!
