//! Routing of requests to endpoints.

use vstd::prelude::*;

use crate::response::{bad_request, error_response, forbidden, not_found};
use crate::text::{
    cut, cut_at, first_index, has_char, lemma_cut_join, lemma_first_index, lemma_first_index_at, opt_view,
    split, split_on, str_eq, str_views,
};

verus! {

/// What serves a request.
#[derive(Debug, Clone)]
pub enum Endpoint {
    Health,
    ListTools,
    ToolCall,
    Run,
    Chat,
    Dashboard,
    ListRuns,
    Metrics,
    Logs,
    RegisterWorkflow,
    ListWorkflows,
    ListSessions,
    Put,
    /// Reads the document of a key.
    Get(String),
    /// Searches for a text.
    Search(String),
    CreateTenant,
    ListTenants,
    Slo,
    Degradation,
    SetDegradation,
    Shadow,
    ShadowErrors,
    Probes,
    System,
    Audit,
    AuditVerify,
    GdprDelete,
    GdprCertificates,
}

/// What serves a request, as a value.
pub enum EndpointView {
    Health,
    ListTools,
    ToolCall,
    Run,
    Chat,
    Dashboard,
    ListRuns,
    Metrics,
    Logs,
    RegisterWorkflow,
    ListWorkflows,
    ListSessions,
    Put,
    Get(Seq<char>),
    Search(Seq<char>),
    CreateTenant,
    ListTenants,
    Slo,
    Degradation,
    SetDegradation,
    Shadow,
    ShadowErrors,
    Probes,
    System,
    Audit,
    AuditVerify,
    GdprDelete,
    GdprCertificates,
}

impl View for Endpoint {
    type V = EndpointView;

    open spec fn view(&self) -> EndpointView {
        match self {
            Endpoint::Health => EndpointView::Health,
            Endpoint::ListTools => EndpointView::ListTools,
            Endpoint::ToolCall => EndpointView::ToolCall,
            Endpoint::Run => EndpointView::Run,
            Endpoint::Chat => EndpointView::Chat,
            Endpoint::Dashboard => EndpointView::Dashboard,
            Endpoint::ListRuns => EndpointView::ListRuns,
            Endpoint::Metrics => EndpointView::Metrics,
            Endpoint::Logs => EndpointView::Logs,
            Endpoint::RegisterWorkflow => EndpointView::RegisterWorkflow,
            Endpoint::ListWorkflows => EndpointView::ListWorkflows,
            Endpoint::ListSessions => EndpointView::ListSessions,
            Endpoint::Put => EndpointView::Put,
            Endpoint::Get(k) => EndpointView::Get(k@),
            Endpoint::Search(q) => EndpointView::Search(q@),
            Endpoint::CreateTenant => EndpointView::CreateTenant,
            Endpoint::ListTenants => EndpointView::ListTenants,
            Endpoint::Slo => EndpointView::Slo,
            Endpoint::Degradation => EndpointView::Degradation,
            Endpoint::SetDegradation => EndpointView::SetDegradation,
            Endpoint::Shadow => EndpointView::Shadow,
            Endpoint::ShadowErrors => EndpointView::ShadowErrors,
            Endpoint::Probes => EndpointView::Probes,
            Endpoint::System => EndpointView::System,
            Endpoint::Audit => EndpointView::Audit,
            Endpoint::AuditVerify => EndpointView::AuditVerify,
            Endpoint::GdprDelete => EndpointView::GdprDelete,
            Endpoint::GdprCertificates => EndpointView::GdprCertificates,
        }
    }
}

/// Where a request goes: to an endpoint, or straight to its answer.
#[derive(Debug, Clone)]
pub enum Route {
    Serve(Endpoint),
    Answer(String),
}

/// Where a request goes, as a value.
pub enum RouteView {
    Serve(EndpointView),
    Answer(Seq<char>),
}

impl View for Route {
    type V = RouteView;

    open spec fn view(&self) -> RouteView {
        match self {
            Route::Serve(e) => RouteView::Serve(e@),
            Route::Answer(s) => RouteView::Answer(s@),
        }
    }
}

// ---------------------------------------------------------------------------
// Paths and queries

/// The path and the query of a request target, around its first question mark.
pub open spec fn path_and_query(target: Seq<char>) -> (Seq<char>, Seq<char>) {
    match cut(target, '?') {
        Some((p, q)) => (p, q),
        None => (target, Seq::empty()),
    }
}

/// The path of a request target.
pub open spec fn clean_path(target: Seq<char>) -> Seq<char> {
    path_and_query(target).0
}

/// The path and the query of a request target.
pub fn split_target<'a>(target: &'a str) -> (r: (&'a str, &'a str))
    ensures
        (r.0@, r.1@) == path_and_query(target@),
{
    match cut_at(target, '?') {
        Some((p, q)) => (p, q),
        None => {
            proof {
                reveal_strlit("");
                assert(""@ =~= Seq::<char>::empty());
            }
            (target, "")
        },
    }
}

/// The name and the value of one parameter; without an equals sign the value is empty.
pub open spec fn param_parts(part: Seq<char>) -> (Seq<char>, Seq<char>) {
    match cut(part, '=') {
        Some((k, v)) => (k, v),
        None => (part, Seq::empty()),
    }
}

/// The value of the first parameter of the name `name` among `parts`.
pub open spec fn first_param(parts: Seq<Seq<char>>, name: Seq<char>) -> Option<Seq<char>>
    decreases parts.len(),
{
    if parts.len() == 0 {
        None
    } else if param_parts(parts[0]).0 == name {
        Some(param_parts(parts[0]).1)
    } else {
        first_param(parts.skip(1), name)
    }
}

/// The value of the parameter `name` in a query.
pub open spec fn query_param(query: Seq<char>, name: Seq<char>) -> Option<Seq<char>> {
    first_param(split(query, '&'), name)
}

/// The value of the parameter `param` in a query; of several the first.
pub fn extract_param(query: &str, param: &str) -> (r: Option<String>)
    ensures
        opt_view(r) == query_param(query@, param@),
{
    let parts = split_on(query, '&');
    let ghost all = str_views(parts@);
    let mut i: usize = 0;
    assert(all.skip(0) =~= all);
    while i < parts.len()
        invariant
            i <= parts@.len(),
            all == str_views(parts@),
            all == split(query@, '&'),
            first_param(all, param@) == first_param(all.skip(i as int), param@),
        decreases parts@.len() - i,
    {
        assert(all.skip(i as int)[0] == parts@[i as int]@);
        match cut_at(parts[i], '=') {
            Some((k, v)) => {
                if str_eq(k, param) {
                    return Some(v.to_owned());
                }
            },
            None => {
                if str_eq(parts[i], param) {
                    return Some(String::new());
                }
            },
        }
        assert(all.skip(i as int).skip(1) =~= all.skip(i + 1));
        i = i + 1;
    }
    None
}

// ---------------------------------------------------------------------------
// Routes

/// The endpoint of a GET request.
pub open spec fn get_endpoint(path: Seq<char>, query: Seq<char>) -> Option<EndpointView> {
    if path == "/v1/health"@ || path == "/health"@ || path == "/"@ {
        Some(EndpointView::Health)
    } else if path == "/v1/tools"@ {
        Some(EndpointView::ListTools)
    } else if path == "/v1/dashboard"@ {
        Some(EndpointView::Dashboard)
    } else if path == "/v1/runs"@ {
        Some(EndpointView::ListRuns)
    } else if path == "/v1/metrics"@ {
        Some(EndpointView::Metrics)
    } else if path == "/v1/logs"@ {
        Some(EndpointView::Logs)
    } else if path == "/v1/workflows"@ {
        Some(EndpointView::ListWorkflows)
    } else if path == "/v1/sessions"@ {
        Some(EndpointView::ListSessions)
    } else if path == "/v1/db/get"@ {
        Some(EndpointView::Get(query_param(query, "key"@).unwrap_or(Seq::empty())))
    } else if path == "/v1/db/search"@ {
        Some(
            EndpointView::Search(
                match query_param(query, "q"@) {
                    Some(s) => s,
                    None => query_param(query, "query"@).unwrap_or(Seq::empty()),
                },
            ),
        )
    } else if path == "/v1/tenants"@ {
        Some(EndpointView::ListTenants)
    } else if path == "/v1/slo"@ {
        Some(EndpointView::Slo)
    } else if path == "/v1/degradation"@ {
        Some(EndpointView::Degradation)
    } else if path == "/v1/shadow"@ {
        Some(EndpointView::Shadow)
    } else if path == "/v1/shadow/errors"@ {
        Some(EndpointView::ShadowErrors)
    } else if path == "/v1/probes"@ {
        Some(EndpointView::Probes)
    } else if path == "/v1/system"@ {
        Some(EndpointView::System)
    } else if path == "/v1/audit"@ {
        Some(EndpointView::Audit)
    } else if path == "/v1/audit/verify"@ {
        Some(EndpointView::AuditVerify)
    } else if path == "/v1/gdpr/certificates"@ {
        Some(EndpointView::GdprCertificates)
    } else {
        None
    }
}

/// The endpoint of a POST request.
pub open spec fn post_endpoint(path: Seq<char>) -> Option<EndpointView> {
    if path == "/v1/tools/call"@ {
        Some(EndpointView::ToolCall)
    } else if path == "/v1/run"@ {
        Some(EndpointView::Run)
    } else if path == "/v1/chat"@ {
        Some(EndpointView::Chat)
    } else if path == "/v1/workflows"@ {
        Some(EndpointView::RegisterWorkflow)
    } else if path == "/v1/db/put"@ {
        Some(EndpointView::Put)
    } else if path == "/v1/tenants"@ {
        Some(EndpointView::CreateTenant)
    } else if path == "/v1/degradation"@ {
        Some(EndpointView::SetDegradation)
    } else if path == "/v1/gdpr/delete"@ {
        Some(EndpointView::GdprDelete)
    } else {
        None
    }
}

/// The answer to a preflight request.
pub open spec fn preflight() -> Seq<char> {
    "HTTP/1.1 204 No Content\r\nAccess-Control-Allow-Origin: *\r\nAccess-Control-Allow-Methods: GET, POST, DELETE, OPTIONS\r\nAccess-Control-Allow-Headers: Content-Type, Authorization\r\n\r\n"@
}

/// Where an endpoint's request goes: the administration of tenants is closed to tenants.
pub open spec fn guarded(e: EndpointView, from_tenant: bool) -> RouteView {
    if from_tenant && e == EndpointView::CreateTenant {
        RouteView::Answer(error_response(403, "tenant tokens cannot create tenants"@))
    } else if from_tenant && e == EndpointView::ListTenants {
        RouteView::Answer(error_response(403, "tenant tokens cannot list tenants"@))
    } else {
        RouteView::Serve(e)
    }
}

/// The answer to a request that nothing serves.
pub open spec fn unknown_route(method: Seq<char>, path: Seq<char>) -> RouteView {
    RouteView::Answer(error_response(404, "route not found: "@ + method + " "@ + path))
}

/// Where a request goes.
pub open spec fn routed(method: Seq<char>, target: Seq<char>, from_tenant: bool) -> RouteView {
    let (path, query) = path_and_query(target);
    if method == "GET"@ {
        match get_endpoint(path, query) {
            Some(e) => guarded(e, from_tenant),
            None => unknown_route(method, path),
        }
    } else if method == "POST"@ {
        if path == "/v1/chat/stream"@ || path == "/v1/run/stream"@ {
            RouteView::Answer(error_response(400, "use streaming endpoint directly"@))
        } else {
            match post_endpoint(path) {
                Some(e) => guarded(e, from_tenant),
                None => unknown_route(method, path),
            }
        }
    } else if method == "OPTIONS"@ {
        RouteView::Answer(preflight())
    } else {
        unknown_route(method, path)
    }
}

/// The text, or an empty one.
fn or_empty(o: Option<String>) -> (r: String)
    ensures
        r@ == opt_view(o).unwrap_or(Seq::empty()),
{
    match o {
        Some(s) => s,
        None => String::new(),
    }
}

/// An optional endpoint, as a value.
pub open spec fn endpoint_view(o: Option<Endpoint>) -> Option<EndpointView> {
    match o {
        Some(e) => Some(e@),
        None => None,
    }
}

/// The endpoint of a GET request.
fn find_get(path: &str, query: &str) -> (r: Option<Endpoint>)
    ensures
        endpoint_view(r) == get_endpoint(path@, query@),
{
    if str_eq(path, "/v1/health") || str_eq(path, "/health") || str_eq(path, "/") {
        Some(Endpoint::Health)
    } else if str_eq(path, "/v1/tools") {
        Some(Endpoint::ListTools)
    } else if str_eq(path, "/v1/dashboard") {
        Some(Endpoint::Dashboard)
    } else if str_eq(path, "/v1/runs") {
        Some(Endpoint::ListRuns)
    } else if str_eq(path, "/v1/metrics") {
        Some(Endpoint::Metrics)
    } else if str_eq(path, "/v1/logs") {
        Some(Endpoint::Logs)
    } else if str_eq(path, "/v1/workflows") {
        Some(Endpoint::ListWorkflows)
    } else if str_eq(path, "/v1/sessions") {
        Some(Endpoint::ListSessions)
    } else if str_eq(path, "/v1/db/get") {
        Some(Endpoint::Get(or_empty(extract_param(query, "key"))))
    } else if str_eq(path, "/v1/db/search") {
        let q = match extract_param(query, "q") {
            Some(s) => s,
            None => or_empty(extract_param(query, "query")),
        };
        Some(Endpoint::Search(q))
    } else if str_eq(path, "/v1/tenants") {
        Some(Endpoint::ListTenants)
    } else if str_eq(path, "/v1/slo") {
        Some(Endpoint::Slo)
    } else if str_eq(path, "/v1/degradation") {
        Some(Endpoint::Degradation)
    } else if str_eq(path, "/v1/shadow") {
        Some(Endpoint::Shadow)
    } else if str_eq(path, "/v1/shadow/errors") {
        Some(Endpoint::ShadowErrors)
    } else if str_eq(path, "/v1/probes") {
        Some(Endpoint::Probes)
    } else if str_eq(path, "/v1/system") {
        Some(Endpoint::System)
    } else if str_eq(path, "/v1/audit") {
        Some(Endpoint::Audit)
    } else if str_eq(path, "/v1/audit/verify") {
        Some(Endpoint::AuditVerify)
    } else if str_eq(path, "/v1/gdpr/certificates") {
        Some(Endpoint::GdprCertificates)
    } else {
        None
    }
}

/// The endpoint of a POST request.
fn find_post(path: &str) -> (r: Option<Endpoint>)
    ensures
        endpoint_view(r) == post_endpoint(path@),
{
    if str_eq(path, "/v1/tools/call") {
        Some(Endpoint::ToolCall)
    } else if str_eq(path, "/v1/run") {
        Some(Endpoint::Run)
    } else if str_eq(path, "/v1/chat") {
        Some(Endpoint::Chat)
    } else if str_eq(path, "/v1/workflows") {
        Some(Endpoint::RegisterWorkflow)
    } else if str_eq(path, "/v1/db/put") {
        Some(Endpoint::Put)
    } else if str_eq(path, "/v1/tenants") {
        Some(Endpoint::CreateTenant)
    } else if str_eq(path, "/v1/degradation") {
        Some(Endpoint::SetDegradation)
    } else if str_eq(path, "/v1/gdpr/delete") {
        Some(Endpoint::GdprDelete)
    } else {
        None
    }
}

/// Where an endpoint's request goes.
fn guard(e: Endpoint, from_tenant: bool) -> (r: Route)
    ensures
        r@ == guarded(e@, from_tenant),
{
    if from_tenant {
        match e {
            Endpoint::CreateTenant => Route::Answer(
                forbidden("tenant tokens cannot create tenants"),
            ),
            Endpoint::ListTenants => Route::Answer(forbidden("tenant tokens cannot list tenants")),
            _ => Route::Serve(e),
        }
    } else {
        Route::Serve(e)
    }
}

/// The answer to a request that nothing serves.
fn no_route(method: &str, path: &str) -> (r: Route)
    ensures
        r@ == unknown_route(method@, path@),
{
    Route::Answer(
        not_found(
            "route not found: ".to_owned().concat(method).concat(" ").concat(path).as_str(),
        ),
    )
}

/// Where a request goes that no tenant makes.
pub fn route(method: &str, target: &str) -> (r: Route)
    ensures
        r@ == routed(method@, target@, false),
{
    route_with_tenant(method, target, false)
}

/// Where a request goes.
pub fn route_with_tenant(method: &str, target: &str, from_tenant: bool) -> (r: Route)
    ensures
        r@ == routed(method@, target@, from_tenant),
{
    let (path, query) = split_target(target);
    if str_eq(method, "GET") {
        match find_get(path, query) {
            Some(e) => guard(e, from_tenant),
            None => no_route(method, path),
        }
    } else if str_eq(method, "POST") {
        if str_eq(path, "/v1/chat/stream") || str_eq(path, "/v1/run/stream") {
            Route::Answer(bad_request("use streaming endpoint directly"))
        } else {
            match find_post(path) {
                Some(e) => guard(e, from_tenant),
                None => no_route(method, path),
            }
        }
    } else if str_eq(method, "OPTIONS") {
        Route::Answer(
            "HTTP/1.1 204 No Content\r\nAccess-Control-Allow-Origin: *\r\nAccess-Control-Allow-Methods: GET, POST, DELETE, OPTIONS\r\nAccess-Control-Allow-Headers: Content-Type, Authorization\r\n\r\n".to_owned(),
        )
    } else {
        no_route(method, path)
    }
}

// ---------------------------------------------------------------------------
// Laws

/// A tenant never reaches the administration of tenants.
pub proof fn tenants_cannot_administer(method: Seq<char>, target: Seq<char>)
    ensures
        routed(method, target, true) != RouteView::Serve(EndpointView::CreateTenant),
        routed(method, target, true) != RouteView::Serve(EndpointView::ListTenants),
{
}

/// Whoever is no tenant reaches everything that a tenant does, and in the same way.
pub proof fn tenants_reach_no_more(method: Seq<char>, target: Seq<char>, e: EndpointView)
    requires
        routed(method, target, true) == RouteView::Serve(e),
    ensures
        routed(method, target, false) == RouteView::Serve(e),
{
}

/// Every OPTIONS request gets the answer to a preflight request.
pub proof fn preflight_is_always_answered(target: Seq<char>, from_tenant: bool)
    ensures
        routed("OPTIONS"@, target, from_tenant) == RouteView::Answer(preflight()),
{
    reveal_strlit("OPTIONS");
    reveal_strlit("GET");
    reveal_strlit("POST");
    assert("OPTIONS"@.len() == 7 && "GET"@.len() == 3 && "POST"@.len() == 4);
}

/// The method and the path of an endpoint.
pub open spec fn route_of(e: EndpointView) -> (Seq<char>, Seq<char>) {
    match e {
        EndpointView::Health => ("GET"@, "/v1/health"@),
        EndpointView::ListTools => ("GET"@, "/v1/tools"@),
        EndpointView::ToolCall => ("POST"@, "/v1/tools/call"@),
        EndpointView::Run => ("POST"@, "/v1/run"@),
        EndpointView::Chat => ("POST"@, "/v1/chat"@),
        EndpointView::Dashboard => ("GET"@, "/v1/dashboard"@),
        EndpointView::ListRuns => ("GET"@, "/v1/runs"@),
        EndpointView::Metrics => ("GET"@, "/v1/metrics"@),
        EndpointView::Logs => ("GET"@, "/v1/logs"@),
        EndpointView::RegisterWorkflow => ("POST"@, "/v1/workflows"@),
        EndpointView::ListWorkflows => ("GET"@, "/v1/workflows"@),
        EndpointView::ListSessions => ("GET"@, "/v1/sessions"@),
        EndpointView::Put => ("POST"@, "/v1/db/put"@),
        EndpointView::Get(_) => ("GET"@, "/v1/db/get"@),
        EndpointView::Search(_) => ("GET"@, "/v1/db/search"@),
        EndpointView::CreateTenant => ("POST"@, "/v1/tenants"@),
        EndpointView::ListTenants => ("GET"@, "/v1/tenants"@),
        EndpointView::Slo => ("GET"@, "/v1/slo"@),
        EndpointView::Degradation => ("GET"@, "/v1/degradation"@),
        EndpointView::SetDegradation => ("POST"@, "/v1/degradation"@),
        EndpointView::Shadow => ("GET"@, "/v1/shadow"@),
        EndpointView::ShadowErrors => ("GET"@, "/v1/shadow/errors"@),
        EndpointView::Probes => ("GET"@, "/v1/probes"@),
        EndpointView::System => ("GET"@, "/v1/system"@),
        EndpointView::Audit => ("GET"@, "/v1/audit"@),
        EndpointView::AuditVerify => ("GET"@, "/v1/audit/verify"@),
        EndpointView::GdprDelete => ("POST"@, "/v1/gdpr/delete"@),
        EndpointView::GdprCertificates => ("GET"@, "/v1/gdpr/certificates"@),
    }
}

/// An endpoint is reached by its own method and path and by no other, but for health, which two more
/// paths reach.
pub proof fn endpoints_have_their_routes(
    method: Seq<char>,
    target: Seq<char>,
    from_tenant: bool,
    e: EndpointView,
)
    requires
        routed(method, target, from_tenant) == RouteView::Serve(e),
    ensures
        (method, clean_path(target)) == route_of(e) || (e == EndpointView::Health && method
            == "GET"@ && (clean_path(target) == "/health"@ || clean_path(target) == "/"@)),
{
}

proof fn lemma_segments()
    ensures
        "/v1/health"@.len() == 10 && "/v1/health"@[4] == 'h',
        "/v1/tools"@.len() == 9 && "/v1/tools"@[4] == 't',
        "/v1/dashboard"@.len() == 13 && "/v1/dashboard"@[4] == 'd' && "/v1/dashboard"@[5] == 'a',
        "/v1/runs"@.len() == 8 && "/v1/runs"@[4] == 'r',
        "/v1/metrics"@.len() == 11 && "/v1/metrics"@[4] == 'm',
        "/v1/logs"@.len() == 8 && "/v1/logs"@[4] == 'l',
        "/v1/workflows"@.len() == 13 && "/v1/workflows"@[4] == 'w',
        "/v1/sessions"@.len() == 12 && "/v1/sessions"@[4] == 's',
        "/v1/db/get"@.len() == 10 && "/v1/db/get"@[4] == 'd' && "/v1/db/get"@[7] == 'g',
        "/v1/db/search"@.len() == 13 && "/v1/db/search"@[4] == 'd' && "/v1/db/search"@[5] == 'b',
        "/v1/tenants"@.len() == 11 && "/v1/tenants"@[4] == 't',
        "/v1/slo"@.len() == 7 && "/v1/slo"@[4] == 's',
        "/v1/degradation"@.len() == 15 && "/v1/degradation"@[4] == 'd',
        "/v1/shadow"@.len() == 10 && "/v1/shadow"@[4] == 's' && "/v1/shadow"@[5] == 'h',
        "/v1/shadow/errors"@.len() == 17,
        "/v1/probes"@.len() == 10 && "/v1/probes"@[4] == 'p',
        "/v1/system"@.len() == 10 && "/v1/system"@[4] == 's' && "/v1/system"@[5] == 'y',
        "/v1/audit"@.len() == 9 && "/v1/audit"@[4] == 'a',
        "/v1/audit/verify"@.len() == 16,
        "/v1/gdpr/certificates"@.len() == 21,
        "/v1/tools/call"@.len() == 14 && "/v1/tools/call"@[4] == 't',
        "/v1/run"@.len() == 7 && "/v1/run"@[4] == 'r',
        "/v1/chat"@.len() == 8 && "/v1/chat"@[4] == 'c',
        "/v1/db/put"@.len() == 10 && "/v1/db/put"@[4] == 'd' && "/v1/db/put"@[7] == 'p',
        "/v1/gdpr/delete"@.len() == 15 && "/v1/gdpr/delete"@[4] == 'g',
        "/v1/chat/stream"@.len() == 15 && "/v1/chat/stream"@[4] == 'c',
        "/v1/run/stream"@.len() == 14 && "/v1/run/stream"@[4] == 'r',
        "/health"@.len() == 7 && "/health"@[1] == 'h',
        "/v1/slo"@[1] == 'v' && "/v1/run"@[1] == 'v',
        "/"@.len() == 1,
        "GET"@.len() == 3,
        "POST"@.len() == 4,
{
    reveal_strlit("/v1/health");
    reveal_strlit("/v1/tools");
    reveal_strlit("/v1/dashboard");
    reveal_strlit("/v1/runs");
    reveal_strlit("/v1/metrics");
    reveal_strlit("/v1/logs");
    reveal_strlit("/v1/workflows");
    reveal_strlit("/v1/sessions");
    reveal_strlit("/v1/db/get");
    reveal_strlit("/v1/db/search");
    reveal_strlit("/v1/tenants");
    reveal_strlit("/v1/slo");
    reveal_strlit("/v1/degradation");
    reveal_strlit("/v1/shadow");
    reveal_strlit("/v1/shadow/errors");
    reveal_strlit("/v1/probes");
    reveal_strlit("/v1/system");
    reveal_strlit("/v1/audit");
    reveal_strlit("/v1/audit/verify");
    reveal_strlit("/v1/gdpr/certificates");
    reveal_strlit("/v1/tools/call");
    reveal_strlit("/v1/run");
    reveal_strlit("/v1/chat");
    reveal_strlit("/v1/db/put");
    reveal_strlit("/v1/gdpr/delete");
    reveal_strlit("/v1/chat/stream");
    reveal_strlit("/v1/run/stream");
    reveal_strlit("/health");
    reveal_strlit("/");
    reveal_strlit("GET");
    reveal_strlit("POST");
}

/// Whether two endpoints are the same but for what a query asks.
pub open spec fn same_endpoint(a: EndpointView, b: EndpointView) -> bool {
    match (a, b) {
        (EndpointView::Get(_), EndpointView::Get(_)) => true,
        (EndpointView::Search(_), EndpointView::Search(_)) => true,
        _ => a == b,
    }
}

/// The route of an endpoint leads to it, whatever the query.
pub proof fn routes_lead_to_their_endpoints(target: Seq<char>, e: EndpointView)
    requires
        clean_path(target) == route_of(e).1,
    ensures
        routed(route_of(e).0, target, false) matches RouteView::Serve(x) && same_endpoint(x, e),
{
    lemma_segments();
}

/// A document is asked for by the key of the query, and a search goes for its text, under either
/// name; without them the key or the text is empty.
pub proof fn queries_say_what_is_asked(target: Seq<char>, query: Seq<char>, from_tenant: bool)
    requires
        path_and_query(target).1 == query,
    ensures
        clean_path(target) == "/v1/db/get"@ ==> routed("GET"@, target, from_tenant)
            == RouteView::Serve(
            EndpointView::Get(
                match query_param(query, "key"@) {
                    Some(k) => k,
                    None => Seq::empty(),
                },
            ),
        ),
        clean_path(target) == "/v1/db/search"@ ==> routed("GET"@, target, from_tenant)
            == RouteView::Serve(
            EndpointView::Search(
                match (query_param(query, "q"@), query_param(query, "query"@)) {
                    (Some(q), _) => q,
                    (None, Some(q)) => q,
                    _ => Seq::empty(),
                },
            ),
        ),
{
    lemma_segments();
}

/// A parameter is found by its name, wherever it stands in a query: the first of that name counts,
/// and its value is what follows its first equals sign.
pub proof fn parameters_are_found(name: Seq<char>, value: Seq<char>, part: Seq<char>, rest: Seq<char>)
    requires
        !has_char(name, '='),
        !has_char(name, '&'),
        !has_char(value, '&'),
        !has_char(part, '&'),
        param_parts(part).0 != name,
    ensures
        query_param(name + seq!['='] + value, name) == Some(value),
        query_param(name + seq!['='] + value + seq!['&'] + rest, name) == Some(value),
        query_param(part + seq!['&'] + rest, name) == query_param(rest, name),
        query_param(part, name) is None,
{
    let p = name + seq!['='] + value;
    assert(!has_char(p, '&')) by {
        if has_char(p, '&') {
            let i = choose|i: int| 0 <= i < p.len() && p[i] == '&';
            if i < name.len() {
                assert(name[i] == '&');
            } else if i > name.len() {
                assert(value[i - name.len() - 1] == '&');
            }
        }
    }
    lemma_cut_join(name, '=', value);
    lemma_query_step(p, rest, name);
    lemma_query_step(part, rest, name);
    lemma_query_one(p, name);
    lemma_query_one(part, name);
}

proof fn lemma_query_one(part: Seq<char>, name: Seq<char>)
    requires
        !has_char(part, '&'),
    ensures
        query_param(part, name) == (if param_parts(part).0 == name {
            Some(param_parts(part).1)
        } else {
            None
        }),
{
    lemma_first_index(part, '&');
    let i = first_index(part, '&');
    if i < part.len() {
        assert(part[i] == '&');
    }
    let parts = split(part, '&');
    assert(parts =~= seq![part]);
    assert(parts.skip(1).len() == 0);
    assert(first_param(parts.skip(1), name) is None);
}

proof fn lemma_query_step(part: Seq<char>, rest: Seq<char>, name: Seq<char>)
    requires
        !has_char(part, '&'),
    ensures
        query_param(part + seq!['&'] + rest, name) == (if param_parts(part).0 == name {
            Some(param_parts(part).1)
        } else {
            query_param(rest, name)
        }),
{
    let s = part + seq!['&'] + rest;
    let n = part.len() as int;
    assert forall|j: int| 0 <= j < n implies s[j] != '&' by {
        if s[j] == '&' {
            assert(part[j] == '&');
        }
    }
    lemma_first_index_at(s, '&', n);
    assert(s.take(n) =~= part);
    assert(s.skip(n + 1) =~= rest);
    let parts = split(s, '&');
    assert(parts[0] == part);
    assert(parts.skip(1) =~= split(rest, '&'));
}

/// The path of a target is what stands before its first question mark, and the query what follows.
pub proof fn targets_are_divided(path: Seq<char>, query: Seq<char>)
    requires
        !has_char(path, '?'),
    ensures
        path_and_query(path + seq!['?'] + query) == (path, query),
        path_and_query(path) == (path, Seq::<char>::empty()),
{
    lemma_cut_join(path, '?', query);
    lemma_first_index(path, '?');
    let i = first_index(path, '?');
    if i < path.len() {
        assert(path[i] == '?');
    }
}

} // verus!
