//! What the operations that change something do, and how one call bears on the next.

use vstd::prelude::*;

use crate::bridge::{format_run_summary, parse_run_summary, RunSummary};
use crate::bridge_laws::{summary_round_trip, unbroken};
use crate::config::{Environment, GatewayConfig};
use crate::connection::{Call, Entry, Request};
use crate::degradation::{DegradationController, DegradationMode, Priority};
use crate::dispatch_laws::errors_tell_what_is_wrong;
use crate::encoding::{
    base64_decode, base64_encode, base64_round_trip, base64url_decode, base64url_encode,
    base64url_round_trip, NotBase64,
};
use crate::probes::ShutdownController;
use crate::ratelimit::{HttpRateLimiter, TokenBucket};
use crate::ratio::Ratio;
use crate::response::error_response;
use crate::router::{clean_path, endpoints_have_their_routes, route, route_of, Endpoint, Route};
use crate::server::{dispatch, status_of, Dispatch, Gateway};
use crate::shadow::{clipped, pushed, shadows, ShadowedRequest, TrafficShadow};
use crate::slo::{
    count_errors, current, outdated, recording_loses_nothing_current, RequestObs, SloRegistry,
    SloReport, SloTracker,
};
use crate::tenant::Tenant;
use crate::text::{dec, lemma_parse_dec, opt_view};

verus! {

// ---------------------------------------------------------------------------
// Rate limits

/// A bucket gains its rate's worth for all the time that has passed, up to what it can hold; it
/// gives a token where that makes a whole one, and keeps the rest.
pub proof fn buckets_refill_at_their_rate(b: TokenBucket, now: u64, c: TokenBucket, r: bool)
    requires
        exists|x: &mut TokenBucket|
            *x == b && *final(x) == c && #[trigger] call_ensures(
                TokenBucket::try_acquire_at,
                (x, now),
                r,
            ),
        b.tokens <= b.capacity * 1_000_000_000,
        b.last_refill <= now,
    ensures
        ({
            let filled = b.tokens + (now - b.last_refill) * b.rate;
            let most = b.capacity * 1_000_000_000;
            let held = if filled <= most {
                filled
            } else {
                most
            };
            &&& r <==> held >= 1_000_000_000
            &&& c.tokens == if r {
                held - 1_000_000_000
            } else {
                held
            }
            &&& c.last_refill == now
            &&& c.rate == b.rate
            &&& c.capacity == b.capacity
        }),
{
}

/// Who waits for a token's worth of time is given one, whatever came of the request before.
pub proof fn waiting_earns_a_token(
    b: TokenBucket,
    first: u64,
    c: TokenBucket,
    r: bool,
    second: u64,
    d: TokenBucket,
    s: bool,
)
    requires
        exists|x: &mut TokenBucket|
            *x == b && *final(x) == c && #[trigger] call_ensures(
                TokenBucket::try_acquire_at,
                (x, first),
                r,
            ),
        exists|x: &mut TokenBucket|
            *x == c && *final(x) == d && #[trigger] call_ensures(
                TokenBucket::try_acquire_at,
                (x, second),
                s,
            ),
        b.capacity >= 1,
        first <= second,
        (second - first) * b.rate >= 1_000_000_000,
    ensures
        s,
{
}

/// The first request of an address is allowed, and its bucket is left with the rest of the burst;
/// no other address is touched. Without a limit everything is allowed.
pub proof fn first_requests_are_allowed(
    l: HttpRateLimiter,
    ip: &str,
    now: u64,
    m: HttpRateLimiter,
    r: bool,
    other: Seq<char>,
)
    requires
        exists|x: &mut HttpRateLimiter|
            *x == l && *final(x) == m && #[trigger] call_ensures(
                HttpRateLimiter::allow_at,
                (x, ip, now),
                r,
            ),
        other != ip@,
    ensures
        l.rate_per_sec == u32::MAX ==> r && m.buckets@ == l.buckets@,
        l.rate_per_sec != u32::MAX ==> {
            &&& m.buckets@.contains_key(ip@)
            &&& !l.buckets@.contains_key(ip@) && l.burst >= 1 ==> r && m.buckets@[ip@].tokens == (
            l.burst - 1) * 1_000_000_000
            &&& !l.buckets@.contains_key(ip@) && l.burst == 0 ==> !r
            &&& m.buckets@[ip@].last_refill == now
            &&& m.buckets@.contains_key(other) == l.buckets@.contains_key(other)
            &&& l.buckets@.contains_key(other) ==> m.buckets@[other] == l.buckets@[other]
        },
        m.rate_per_sec == l.rate_per_sec,
        m.burst == l.burst,
{
    let fresh = TokenBucket::fresh(l.rate_per_sec, l.burst, now);
    assert(crate::ratelimit::span(now as int, now as int) * l.rate_per_sec == 0) by (nonlinear_arith)
        requires
            crate::ratelimit::span(now as int, now as int) == 0,
    ;
    assert(fresh.level(now as int) == l.burst * 1_000_000_000);
}

// ---------------------------------------------------------------------------
// Modes

/// After an evaluation requests are shed by the figures and the thresholds: background work from the
/// lowest of them on, the starter plan too from the second, and the pro plan too where the errors
/// reach the highest; work of higher priority never is.
pub proof fn figures_decide_what_is_shed(
    c: DegradationController,
    error_rate: Ratio,
    p99_ms: u64,
    d: DegradationController,
    p: Priority,
    shed: bool,
)
    requires
        exists|x: &mut DegradationController|
            *x == c && *final(x) == d && #[trigger] call_ensures(
                DegradationController::evaluate,
                (x, error_rate, p99_ms),
                (),
            ),
        call_ensures(DegradationController::should_shed, (&d, p), shed),
    ensures
        ({
            let t = c.thresholds;
            let errors = error_rate.part * 1_000_000;
            let emergency = errors >= t.error_rate_emergency.ppm * error_rate.whole;
            let read_only = emergency || errors >= t.error_rate_readonly.ppm * error_rate.whole
                || p99_ms >= t.latency_p99_readonly_ms;
            let degraded = read_only || errors >= t.error_rate_degraded.ppm * error_rate.whole
                || p99_ms >= t.latency_p99_degraded_ms;
            shed <==> match p {
                Priority::Background => degraded,
                Priority::Starter => read_only,
                Priority::Pro => emergency,
                _ => false,
            }
        }),
        d.thresholds == c.thresholds,
        d.manual_override == c.manual_override,
{
}

/// A mode that was set by hand stands whatever is measured after, and once it is given free the
/// measured mode stands again.
pub proof fn modes_set_by_hand_stand(
    a: DegradationController,
    mode: DegradationMode,
    b: DegradationController,
    error_rate: Ratio,
    p99_ms: u64,
    c: DegradationController,
    d: DegradationController,
    shown: DegradationMode,
    free: DegradationMode,
)
    requires
        exists|x: &mut DegradationController|
            *x == a && *final(x) == b && #[trigger] call_ensures(
                DegradationController::set_mode,
                (x, mode),
                (),
            ),
        exists|x: &mut DegradationController|
            *x == b && *final(x) == c && #[trigger] call_ensures(
                DegradationController::evaluate,
                (x, error_rate, p99_ms),
                (),
            ),
        exists|x: &mut DegradationController|
            *x == c && *final(x) == d && #[trigger] call_ensures(
                DegradationController::clear_override,
                (x,),
                (),
            ),
        call_ensures(DegradationController::mode, (&c,), shown),
        call_ensures(DegradationController::mode, (&d,), free),
    ensures
        shown == mode,
        free == crate::degradation::called_for(a.thresholds, error_rate, p99_ms),
{
}

// ---------------------------------------------------------------------------
// Objectives

proof fn lemma_one_more(w: Seq<RequestObs>, obs: RequestObs, now: u64, secs: u64)
    requires
        !outdated(obs, now, secs),
    ensures
        current(w.push(obs), now, secs) == current(w, now, secs).push(obs),
{
    assert(w.push(obs).drop_last() =~= w);
}

/// One observation more is one request more in the report of its endpoint, and one error more where
/// it was one; the reports of other endpoints stay.
pub proof fn observations_are_reported(
    a: SloRegistry,
    endpoint: &str,
    now: u64,
    latency_ms: u64,
    is_error: bool,
    b: SloRegistry,
    other: &str,
    before: Option<SloReport>,
    after: Option<SloReport>,
    other_before: Option<SloReport>,
    other_after: Option<SloReport>,
)
    requires
        exists|x: &mut SloRegistry|
            *x == a && *final(x) == b && #[trigger] call_ensures(
                SloRegistry::record_at,
                (x, endpoint, now, now, latency_ms, is_error),
                (),
            ),
        call_ensures(SloRegistry::report_at, (&a, endpoint, now), before),
        call_ensures(SloRegistry::report_at, (&b, endpoint, now), after),
        call_ensures(SloRegistry::report_at, (&a, other, now), other_before),
        call_ensures(SloRegistry::report_at, (&b, other, now), other_after),
        other@ != endpoint@,
    ensures
        before is Some <==> after is Some,
        before matches Some(x) ==> (after matches Some(y) && {
            &&& y.total_requests == x.total_requests + 1
            &&& y.error_count == x.error_count + (if is_error {
                1int
            } else {
                0
            })
        }),
        other_before is Some <==> other_after is Some,
        other_before matches Some(x) ==> (other_after matches Some(y) && {
            &&& y.total_requests == x.total_requests
            &&& y.error_count == x.error_count
            &&& y.p99_ms == x.p99_ms
            &&& y.status == x.status
        }),
{
    if a.trackers@.contains_key(endpoint@) {
        let t = a.trackers@[endpoint@];
        let secs = t.target.window_secs;
        let obs = RequestObs { timestamp: now, latency_ms, is_error };
        recording_loses_nothing_current(t.window@, obs, now, now, secs);
        lemma_one_more(t.window@, obs, now, secs);
        let w = current(t.window@, now, secs);
        assert(w.push(obs).drop_last() =~= w);
        assert(count_errors(w.push(obs)) == count_errors(w) + (if is_error {
            1nat
        } else {
            0
        }));
    }
}

/// A tracker that is asked for its report counts what it was told and no more: none is reported of
/// what was never observed.
pub proof fn fresh_trackers_report_nothing(t: &SloTracker, now: u64, r: SloReport)
    requires
        call_ensures(SloTracker::report_at, (t, now), r),
        t.window@.len() == 0,
    ensures
        r.total_requests == 0,
        r.error_count == 0,
        r.latency_ok,
        r.budget_ok,
{
}

// ---------------------------------------------------------------------------
// Shadow traffic

/// What a recorder has just been given is the newest that it shows, as it was; while it is off it
/// takes nothing in.
pub proof fn recorded_requests_are_shown(
    a: TrafficShadow,
    q: ShadowedRequest,
    method: &str,
    path: &str,
    body: &str,
    response_body: &str,
    tenant: Option<&str>,
    b: TrafficShadow,
    limit: usize,
    shown: Vec<ShadowedRequest>,
)
    requires
        exists|x: &mut TrafficShadow|
            *x == a && *final(x) == b && #[trigger] call_ensures(
                TrafficShadow::record_at,
                (
                    x,
                    q.timestamp_ms,
                    method,
                    path,
                    body,
                    q.response_status,
                    response_body,
                    q.latency_ms,
                    tenant,
                ),
                (),
            ),
        call_ensures(TrafficShadow::recent, (&b, limit), shown),
    ensures
        !a.enabled ==> b == a,
        shown@.len() <= limit,
        a.enabled && a.sample_rate.ppm >= 1_000_000 && a.capacity >= 1 && limit >= 1 ==> {
            &&& shown@.len() >= 1
            &&& shown@[0].method@ == method@
            &&& shown@[0].path@ == path@
            &&& shown@[0].body@ == clipped(body@)
            &&& shown@[0].response_status == q.response_status
            &&& shown@[0].response_body@ == clipped(response_body@)
            &&& shown@[0].latency_ms == q.latency_ms
            &&& shown@[0].timestamp_ms == q.timestamp_ms
            &&& (tenant matches Some(t) ==> opt_view(shown@[0].tenant_id) == Some(t@))
            &&& (tenant is None ==> shown@[0].tenant_id is None)
            &&& b.buffer@.len() <= a.capacity
            &&& a.total_recorded < u64::MAX ==> b.total_recorded == a.total_recorded + 1
        },
{
    crate::shadow::recording_goes_by_the_path(a, path@);
    if a.enabled && a.sample_rate.ppm >= 1_000_000 {
        let x = choose|x: ShadowedRequest|
            {
                &&& b.buffer@ == #[trigger] pushed(a.buffer@, a.capacity as int, x)
                &&& shadows(
                    x,
                    q.timestamp_ms,
                    method@,
                    path@,
                    body@,
                    q.response_status,
                    response_body@,
                    q.latency_ms,
                    crate::text::opt_str_view(tenant),
                )
            };
        crate::shadow::capacity_is_kept(a.buffer@, a.capacity as int, x);
    }
}

// ---------------------------------------------------------------------------
// Shutdown

/// Once a shutdown was asked for nothing new is taken in, and the server is drained exactly where no
/// request is in flight.
pub proof fn shutdowns_drain(c: ShutdownController, d: ShutdownController, rejects: bool, idle: bool)
    requires
        exists|x: &mut ShutdownController|
            *x == c && *final(x) == d && #[trigger] call_ensures(
                ShutdownController::initiate_shutdown,
                (x,),
                (),
            ),
        call_ensures(ShutdownController::should_reject_new, (&d,), rejects),
        call_ensures(ShutdownController::is_drained, (&d,), idle),
    ensures
        rejects,
        idle <==> c.active_requests == 0,
        d.active_requests == c.active_requests,
{
}

// ---------------------------------------------------------------------------
// Requests

/// A request that goes on is in flight, and one that is answered at once is not. An address that has
/// used up its limit is answered with status 429, and while the server drains, or in emergency mode,
/// nothing but probes and the health endpoint goes on.
pub proof fn admitted_requests_are_in_flight(
    a: Gateway,
    ip: &str,
    method: &str,
    target: &str,
    db_ok: bool,
    now: u64,
    b: Gateway,
    r: Option<String>,
)
    requires
        exists|x: &mut Gateway|
            *x == a && *final(x) == b && #[trigger] call_ensures(
                Gateway::admit_at,
                (x, ip, method, target, db_ok, now),
                r,
            ),
        a.shutdown.active_requests < u64::MAX,
    ensures
        b.shutdown.active_requests == a.shutdown.active_requests + (if r is None {
            1int
        } else {
            0
        }),
        !a.allows(ip@, now) ==> (r matches Some(x) && status_of(x@) == 429),
        a.shutdown.drain_started ==> r is Some,
        a.degradation.current() == DegradationMode::Emergency && clean_path(target@)
            != "/v1/health"@ ==> r is Some,
        r is None ==> a.allows(ip@, now),
        b.degradation == a.degradation,
        b.slo == a.slo,
        b.shadow == a.shadow,
{
    errors_tell_what_is_wrong(429, "rate limit exceeded"@);
}

/// An address that the gateway has not seen yet is within the limit, where there is a burst at all,
/// and without a limit every address is.
pub proof fn new_addresses_are_within_the_limit(g: Gateway, ip: Seq<char>, now: u64)
    ensures
        g.limiter.rate_per_sec == u32::MAX ==> g.allows(ip, now),
        !g.limiter.buckets@.contains_key(ip) && g.limiter.burst >= 1 ==> g.allows(ip, now),
        !g.limiter.buckets@.contains_key(ip) && g.limiter.burst == 0 && g.limiter.rate_per_sec
            != u32::MAX ==> !g.allows(ip, now),
{
    let l = g.limiter;
    assert(crate::ratelimit::span(now as int, now as int) * l.rate_per_sec == 0) by (nonlinear_arith)
        requires
            crate::ratelimit::span(now as int, now as int) == 0,
    ;
    assert(TokenBucket::fresh(l.rate_per_sec, l.burst, now).level(now as int) == l.burst
        * 1_000_000_000);
}

/// What is named in a path reaches what serves it, whole.
pub proof fn names_reach_what_serves_them(target: &str, id: Seq<char>, get: Dispatch, post: Dispatch)
    requires
        call_ensures(dispatch, ("GET", target, false), get),
        call_ensures(dispatch, ("POST", target, false), post),
        id.len() > 0,
    ensures
        clean_path(target@) == "/v1/runs/"@ + id ==> (get matches Dispatch::GetRun(s) && s@ == id),
        clean_path(target@) == "/v1/sessions/"@ + id ==> (get matches Dispatch::GetSession(s) && s@
            == id),
        clean_path(target@) == "/v1/sessions/"@ + id + "/message"@ ==> (
        post matches Dispatch::SessionMessage(s) && s@ == id),
        clean_path(target@) == "/v1/run/"@ + id && id != "stream"@ ==> (
        post matches Dispatch::RunNamed(s) && s@ == id),
        clean_path(target@) == "/v1/tenants/"@ + id ==> (get matches Dispatch::GetTenant(s) && s@
            == id),
{
    crate::dispatch_laws::names_in_paths_are_served(target@, id, false);
}

/// A request that is served came by the method and the path of the endpoint, but for health, which
/// two more paths reach.
pub proof fn served_requests_came_by_their_route(method: &str, target: &str, r: Route, e: Endpoint)
    requires
        call_ensures(route, (method, target), r),
        r == Route::Serve(e),
    ensures
        (method@, clean_path(target@)) == route_of(e@) || (e is Health && method@ == "GET"@ && (
        clean_path(target@) == "/health"@ || clean_path(target@) == "/"@)),
{
    endpoints_have_their_routes(method@, target@, false, e@);
}

// ---------------------------------------------------------------------------
// What is written is read back

/// Reading a summary gives back what was written, for every status and tenant without white space.
pub proof fn summaries_are_read_back(s: &RunSummary, text: String, read: &str, r: RunSummary)
    requires
        call_ensures(format_run_summary, (s,), text),
        read@ == text@,
        call_ensures(parse_run_summary, (read,), r),
        unbroken(s@.status),
        s@.tenant matches Some(t) ==> unbroken(t),
    ensures
        r@ == s@,
{
    summary_round_trip(s@);
}

/// Decoding gives back what was encoded, in either alphabet.
pub proof fn encodings_are_read_back(
    data: &[u8],
    plain: String,
    url: String,
    read_plain: &str,
    read_url: &str,
    a: Result<Vec<u8>, NotBase64>,
    b: Result<Vec<u8>, NotBase64>,
)
    requires
        call_ensures(base64_encode, (data,), plain),
        call_ensures(base64url_encode, (data,), url),
        read_plain@ == plain@,
        read_url@ == url@,
        call_ensures(base64_decode, (read_plain,), a),
        call_ensures(base64url_decode, (read_url,), b),
    ensures
        a matches Ok(v) && v@ == data@,
        b matches Ok(v) && v@ == data@,
{
    base64_round_trip(data@);
    base64url_round_trip(data@);
}

/// The keys of a tenant's documents, runs, sessions and workflows are never the same, whatever they
/// are called.
pub proof fn keys_of_a_tenant_are_apart(
    t: &Tenant,
    a: &str,
    b: &str,
    c: &str,
    d: &str,
    doc: String,
    run: String,
    session: String,
    workflow: String,
)
    requires
        call_ensures(Tenant::doc_key, (t, a), doc),
        call_ensures(Tenant::run_key, (t, b), run),
        call_ensures(Tenant::session_key, (t, c), session),
        call_ensures(Tenant::workflow_key, (t, d), workflow),
    ensures
        doc@ != run@ && doc@ != session@ && doc@ != workflow@,
        run@ != session@ && run@ != workflow@ && session@ != workflow@,
{
    lemma_infixes();
    let n = ("t:"@ + t.id@).len() as int;
    assert(doc@[n + 1] == ":doc:"@[1]);
    assert(run@[n + 1] == ":run:"@[1]);
    assert(session@[n + 1] == ":session:"@[1]);
    assert(workflow@[n + 1] == ":workflow:"@[1]);
}

proof fn lemma_infixes()
    ensures
        ":doc:"@.len() == 5 && ":doc:"@[1] == 'd',
        ":run:"@.len() == 5 && ":run:"@[1] == 'r',
        ":session:"@.len() == 9 && ":session:"@[1] == 's',
        ":workflow:"@.len() == 10 && ":workflow:"@[1] == 'w',
{
    reveal_strlit(":doc:");
    reveal_strlit(":run:");
    reveal_strlit(":session:");
    reveal_strlit(":workflow:");
}

/// What the environment sets is in force, and the defaults are where it sets nothing; a port on the
/// command line comes before one of the environment.
pub proof fn settings_are_in_force(
    env: &Environment,
    c: GatewayConfig,
    port: &Option<String>,
    db_path: &Option<String>,
    model: &Option<String>,
    d: GatewayConfig,
    n: u16,
    m: u16,
)
    requires
        call_ensures(GatewayConfig::from_env, (env,), c),
        call_ensures(GatewayConfig::with_arguments, (c, port, db_path, model), d),
    ensures
        opt_view(env.port) == Some(dec(n as nat)) ==> c.bind_addr.port == n,
        env.port is None ==> c.bind_addr.port == 8080,
        env.db matches Some(s) ==> c.db_path@ == s@,
        env.llm_provider matches Some(s) ==> c.llm_provider@ == s@,
        env.llm_model matches Some(s) ==> c.llm_model@ == s@,
        opt_view(*port) == Some(dec(m as nat)) ==> d.bind_addr.port == m,
        *port is None ==> d.bind_addr == c.bind_addr || (d.bind_addr.port == c.bind_addr.port
            && d.bind_addr.host == c.bind_addr.host),
        *db_path matches Some(s) ==> d.db_path@ == s@,
        *db_path is None ==> d.db_path@ == c.db_path@,
        *model is None ==> d.llm_provider == c.llm_provider && d.llm_model == c.llm_model,
        d.api_key == c.api_key,
{
    lemma_parse_dec(n as nat, 65535);
    lemma_parse_dec(m as nat, 65535);
}

// ---------------------------------------------------------------------------
// Connections

/// A call over its quota is answered with status 429 and its reason, and is no longer in flight; any
/// other goes on as it was, and nothing changes.
pub proof fn quotas_end_calls(
    a: Gateway,
    call: Call,
    quota: &Result<(), String>,
    b: Gateway,
    r: Result<Call, String>,
)
    requires
        exists|x: &mut Gateway|
            *x == a && *final(x) == b && #[trigger] call_ensures(
                Call::within_quota,
                (call, x, quota),
                r,
            ),
        a.shutdown.active_requests > 0,
    ensures
        *quota is Ok ==> r == Ok::<Call, String>(call) && b == a,
        *quota matches Err(e) ==> {
            &&& r matches Err(s) && s@ == error_response(429, e@)
            &&& b.shutdown.active_requests == a.shutdown.active_requests - 1
            &&& b.limiter == a.limiter && b.slo == a.slo && b.shadow == a.shadow
        },
{
}

/// A call that the mode refuses is answered with status 503 and is no longer in flight; in normal
/// mode every call goes on.
pub proof fn modes_end_calls(a: Gateway, call: Call, b: Gateway, r: Result<Call, String>)
    requires
        exists|x: &mut Gateway|
            *x == a && *final(x) == b && #[trigger] call_ensures(Call::allowed, (call, x), r),
        a.shutdown.active_requests > 0,
    ensures
        a.degradation.current() == DegradationMode::Normal ==> r == Ok::<Call, String>(call) && b == a,
        r matches Ok(c) ==> c == call && b == a,
        r matches Err(s) ==> status_of(s@) == 503 && b.shutdown.active_requests
            == a.shutdown.active_requests - 1,
{
    errors_tell_what_is_wrong(503, "system in emergency mode"@);
    errors_tell_what_is_wrong(503, "system in read-only mode"@);
    errors_tell_what_is_wrong(503, "language model disabled in degraded mode"@);
}

/// A call that is closed is no longer in flight, and nothing else changes.
pub proof fn closed_calls_are_not_in_flight(a: Gateway, call: Call, b: Gateway)
    requires
        exists|x: &mut Gateway|
            *x == a && *final(x) == b && #[trigger] call_ensures(Call::close, (call, x), ()),
        a.shutdown.active_requests > 0,
    ensures
        b.shutdown.active_requests == a.shutdown.active_requests - 1,
        b.shutdown.drain_started == a.shutdown.drain_started,
        b.limiter == a.limiter && b.slo == a.slo && b.shadow == a.shadow && b.probes == a.probes,
{
}

/// Whoever enters without a token where one is needed is answered with status 401, and whoever goes
/// on is in flight.
pub proof fn entering_needs_a_token(
    a: Gateway,
    q: Request,
    ip: &str,
    db_ok: bool,
    tenants: usize,
    now: u64,
    b: Gateway,
    r: Entry,
)
    requires
        exists|x: &mut Gateway|
            *x == a && *final(x) == b && #[trigger] call_ensures(
                Request::enter,
                (q, x, ip, db_ok, tenants, now),
                r,
            ),
        a.shutdown.active_requests < u64::MAX,
    ensures
        b.shutdown.active_requests == a.shutdown.active_requests + (if r is Answer {
            0int
        } else {
            1
        }),
        !a.allows(ip@, now) ==> (r matches Entry::Answer(s) && status_of(s@) == 429),
        r is Pass ==> (a.auth.key_hashes@.len() == 0 && tenants == 0) || clean_path(q.target@)
            == "/v1/health"@,
        r matches Entry::Pass(c) ==> c.of() == q && c.tenant_id() is None,
        r matches Entry::Lookup(p) ==> p.of() == q,
        a.shutdown.drain_started ==> r is Answer,
{
    errors_tell_what_is_wrong(429, "rate limit exceeded"@);
}

} // verus!
