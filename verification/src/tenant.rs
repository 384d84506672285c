//! Tenants: their keys in the store, what they may call, and their administration.

use vstd::prelude::*;
use vstd::utf8::*;

use crate::json::{
    json_text, json_views, parsed_json, text_array, texts_among, Json, JsonObject, JsonView,
};
use crate::requests::{invalid_json, parse_request};
use crate::response::{
    bad_request, created, error_response, internal_error, json_response, not_found, ok, ok_json,
};
use crate::text::{begins, opt_view, str_eq, strip_prefix, views};

verus! {

/// A tenant.
#[derive(Debug, Clone)]
pub struct Tenant {
    pub id: String,
    pub name: String,
    pub plan: String,
    pub namespace_id: u64,
    pub capabilities: Vec<String>,
    pub quota: TenantQuota,
}

/// The limits of a tenant.
#[derive(Debug, Clone, Copy)]
pub struct TenantQuota {
    pub max_tokens_per_day: u64,
    pub max_requests_per_hour: u64,
    pub max_storage_bytes: u64,
    pub max_sessions: u64,
    pub max_workflows: u64,
}

/// What a tenant has used.
#[derive(Debug, Clone, Copy)]
pub struct TenantUsage {
    pub tokens_today: u64,
    pub requests_this_hour: u64,
    pub storage_bytes: u64,
    pub active_sessions: u64,
    pub registered_workflows: u64,
    pub total_runs: u64,
    pub total_tokens: u64,
}

// ---------------------------------------------------------------------------
// Keys

/// The kinds of things that a tenant stores.
#[derive(Debug, Clone, Copy, PartialEq, Eq, Structural)]
pub enum KeyKind {
    Doc,
    Run,
    Session,
    Workflow,
}

impl KeyKind {
    /// The part of a key that stands between the tenant and the name.
    pub open spec fn infix(self) -> Seq<char> {
        match self {
            KeyKind::Doc => ":doc:"@,
            KeyKind::Run => ":run:"@,
            KeyKind::Session => ":session:"@,
            KeyKind::Workflow => ":workflow:"@,
        }
    }

    /// The part of a key that stands between the tenant and the name.
    pub fn infix_text(&self) -> (r: &'static str)
        ensures
            r@ == self.infix(),
    {
        match self {
            KeyKind::Doc => ":doc:",
            KeyKind::Run => ":run:",
            KeyKind::Session => ":session:",
            KeyKind::Workflow => ":workflow:",
        }
    }
}

/// The key of the thing `name` of a tenant.
pub open spec fn tenant_key(id: Seq<char>, kind: KeyKind, name: Seq<char>) -> Seq<char> {
    "t:"@ + id + kind.infix() + name
}

/// The key of the thing `name` of the tenant `id`.
pub fn key_for(id: &str, kind: KeyKind, name: &str) -> (r: String)
    ensures
        r@ == tenant_key(id@, kind, name@),
{
    "t:".to_owned().concat(id).concat(kind.infix_text()).concat(name)
}

impl Tenant {
    /// The key of a document.
    pub fn doc_key(&self, key: &str) -> (r: String)
        ensures
            r@ == tenant_key(self.id@, KeyKind::Doc, key@),
    {
        key_for(self.id.as_str(), KeyKind::Doc, key)
    }

    /// The key of a run.
    pub fn run_key(&self, run_id: &str) -> (r: String)
        ensures
            r@ == tenant_key(self.id@, KeyKind::Run, run_id@),
    {
        key_for(self.id.as_str(), KeyKind::Run, run_id)
    }

    /// The key of a session.
    pub fn session_key(&self, session_id: &str) -> (r: String)
        ensures
            r@ == tenant_key(self.id@, KeyKind::Session, session_id@),
    {
        key_for(self.id.as_str(), KeyKind::Session, session_id)
    }

    /// The key of a workflow.
    pub fn workflow_key(&self, name: &str) -> (r: String)
        ensures
            r@ == tenant_key(self.id@, KeyKind::Workflow, name@),
    {
        key_for(self.id.as_str(), KeyKind::Workflow, name)
    }
}

/// The end of the range of keys that begin with `prefix`: the prefix and the highest byte.
pub open spec fn range_end(prefix: Seq<char>) -> Seq<u8> {
    encode_utf8(prefix).push(0xff)
}

/// The end of the range of keys that begin with `prefix`.
pub fn prefix_end_bytes(prefix: &str) -> (r: Vec<u8>)
    ensures
        r@ == range_end(prefix@),
{
    let bytes = prefix.as_bytes();
    let mut end: Vec<u8> = Vec::new();
    let mut i: usize = 0;
    while i < bytes.len()
        invariant
            i <= bytes@.len(),
            end@ == bytes@.take(i as int),
        decreases bytes@.len() - i,
    {
        end.push(bytes[i]);
        assert(bytes@.take(i + 1) =~= bytes@.take(i as int).push(bytes@[i as int]));
        i = i + 1;
    }
    assert(bytes@.take(bytes@.len() as int) =~= bytes@);
    end.push(0xff);
    end
}

// ---------------------------------------------------------------------------
// Capabilities

/// The tools that capabilities name, in order.
pub open spec fn named_tools(caps: Seq<Seq<char>>) -> Seq<Seq<char>>
    decreases caps.len(),
{
    if caps.len() == 0 {
        Seq::empty()
    } else if begins(caps.last(), "tool:"@) {
        named_tools(caps.drop_last()).push(caps.last().skip("tool:"@.len() as int))
    } else {
        named_tools(caps.drop_last())
    }
}

/// The tools that a tenant with capabilities `caps` may call; `*` stands for all.
pub open spec fn tool_allowlist(caps: Seq<Seq<char>>) -> Seq<Seq<char>> {
    if caps.contains("tool:*"@) {
        seq!["*"@]
    } else {
        named_tools(caps)
    }
}

/// The tools that a tenant may call.
pub fn tenant_tool_allowlist(tenant: &Tenant) -> (r: Vec<String>)
    ensures
        views(r@) == tool_allowlist(views(tenant.capabilities@)),
{
    let ghost caps = views(tenant.capabilities@);
    let mut i: usize = 0;
    let mut out: Vec<String> = Vec::new();
    assert(views(out@) =~= named_tools(caps.take(0)));
    while i < tenant.capabilities.len()
        invariant
            i <= tenant.capabilities@.len(),
            caps == views(tenant.capabilities@),
            forall|j: int| 0 <= j < i ==> #[trigger] caps[j] != "tool:*"@,
            views(out@) == named_tools(caps.take(i as int)),
        decreases tenant.capabilities@.len() - i,
    {
        assert(caps[i as int] == tenant.capabilities@[i as int]@);
        if str_eq(tenant.capabilities[i].as_str(), "tool:*") {
            let all: Vec<String> = vec!["*".to_owned()];
            assert(views(all@) =~= seq!["*"@]);
            assert(caps.contains("tool:*"@));
            return all;
        }
        assert(caps.take(i + 1).drop_last() =~= caps.take(i as int));
        let ghost before = views(out@);
        match strip_prefix(tenant.capabilities[i].as_str(), "tool:") {
            Some(s) => {
                out.push(s.to_owned());
                assert(views(out@) =~= before.push(s@));
            },
            None => {},
        }
        i = i + 1;
    }
    assert(caps.take(caps.len() as int) =~= caps);
    assert(!caps.contains("tool:*"@));
    out
}

// ---------------------------------------------------------------------------
// Administration

/// What a request to create a tenant asks for.
#[derive(Debug, Clone)]
pub struct NewTenant {
    pub id: String,
    pub name: String,
    pub api_key: String,
    pub plan: Option<String>,
    /// Capabilities in place of the plan's; never an empty list.
    pub capabilities: Option<Vec<String>>,
}

/// What a request to create a tenant asks for, as values.
pub struct NewTenantView {
    pub id: Seq<char>,
    pub name: Seq<char>,
    pub api_key: Seq<char>,
    pub plan: Option<Seq<char>>,
    pub capabilities: Option<Seq<Seq<char>>>,
}

/// An optional list of strings, as values.
pub open spec fn opt_views(o: Option<Vec<String>>) -> Option<Seq<Seq<char>>> {
    match o {
        Some(v) => Some(views(v@)),
        None => None,
    }
}

impl View for NewTenant {
    type V = NewTenantView;

    open spec fn view(&self) -> NewTenantView {
        NewTenantView {
            id: self.id@,
            name: self.name@,
            api_key: self.api_key@,
            plan: opt_view(self.plan),
            capabilities: opt_views(self.capabilities),
        }
    }
}

/// The text of the member `k`, where it is a string that is not empty.
pub open spec fn filled_text(req: JsonView, k: Seq<char>) -> Option<Seq<char>> {
    match req.text_at(k) {
        Some(s) => if s.len() > 0 {
            Some(s)
        } else {
            None
        },
        None => None,
    }
}

/// What a request to create a tenant asks for, or the answer that refuses it.
pub open spec fn new_tenant_fields(req: JsonView) -> Result<NewTenantView, Seq<char>> {
    match filled_text(req, "id"@) {
        None => Err(error_response(400, "missing 'id'"@)),
        Some(id) => match filled_text(req, "api_key"@) {
            None => Err(error_response(400, "missing 'api_key'"@)),
            Some(api_key) => Ok(
                NewTenantView {
                    id,
                    name: req.text_at("name"@).unwrap_or(id),
                    api_key,
                    plan: req.text_at("plan"@),
                    capabilities: match req.member("capabilities"@).as_items() {
                        Some(items) => if texts_among(items).len() > 0 {
                            Some(texts_among(items))
                        } else {
                            None
                        },
                        None => None,
                    },
                },
            ),
        },
    }
}

/// What a body asks for, or the answer that refuses it.
pub open spec fn new_tenant_request(parsed: Result<JsonView, Seq<char>>) -> Result<
    NewTenantView,
    Seq<char>,
> {
    match parsed {
        Ok(req) => new_tenant_fields(req),
        Err(e) => Err(invalid_json(e)),
    }
}

/// The outcome of reading a request, as a value.
pub open spec fn new_tenant_outcome(r: Result<NewTenant, String>) -> Result<
    NewTenantView,
    Seq<char>,
> {
    match r {
        Ok(t) => Ok(t@),
        Err(e) => Err(e@),
    }
}

/// The text, where it is there and not empty.
fn filled(o: Option<String>) -> (r: Option<String>)
    ensures
        opt_view(r) == (match opt_view(o) {
            Some(s) => if s.len() > 0 {
                Some(s)
            } else {
                None
            },
            None => None,
        }),
{
    match o {
        Some(s) => if s.as_str().is_empty() {
            None
        } else {
            Some(s)
        },
        None => None,
    }
}

/// What a request to create a tenant asks for, or the answer that refuses it.
pub fn new_tenant_from(req: &Json) -> (r: Result<NewTenant, String>)
    ensures
        new_tenant_outcome(r) == new_tenant_fields(req@),
{
    let id = match filled(req.text_at("id")) {
        Some(s) => s,
        None => {
            return Err(bad_request("missing 'id'"));
        },
    };
    let name = match req.text_at("name") {
        Some(s) => s,
        None => id.clone(),
    };
    let api_key = match filled(req.text_at("api_key")) {
        Some(s) => s,
        None => {
            return Err(bad_request("missing 'api_key'"));
        },
    };
    let plan = req.text_at("plan");
    let capabilities = match req.texts_at("capabilities") {
        Some(v) => {
            assert(views(v@).len() == v@.len());
            if v.len() > 0 {
                Some(v)
            } else {
                None
            }
        },
        None => None,
    };
    Ok(NewTenant { id, name, api_key, plan, capabilities })
}

/// `POST /v1/tenants`: what the body asks for, or the answer that refuses it.
pub fn handle_create_tenant(body: &str) -> (r: Result<NewTenant, String>)
    ensures
        new_tenant_outcome(r) == new_tenant_request(parsed_json(body@)),
{
    match parse_request(body) {
        Ok(req) => new_tenant_from(&req),
        Err(e) => Err(e),
    }
}

/// A tenant as JSON.
pub open spec fn tenant_members(t: Tenant) -> Map<Seq<char>, JsonView> {
    map![
        "id"@ => JsonView::Str(t.id@),
        "name"@ => JsonView::Str(t.name@),
        "plan"@ => JsonView::Str(t.plan@),
        "namespace_id"@ => JsonView::Int(t.namespace_id as int),
        "capabilities"@ => text_array(views(t.capabilities@)),
    ]
}

/// A tenant as JSON.
fn tenant_object(t: &Tenant) -> (r: JsonObject)
    ensures
        r@ == tenant_members(*t),
{
    JsonObject::new().text("id", t.id.as_str()).text("name", t.name.as_str()).text(
        "plan",
        t.plan.as_str(),
    ).number("namespace_id", t.namespace_id).with("capabilities", Json::texts(&t.capabilities))
}

/// The answer to a request to create a tenant whose name is taken.
pub fn tenant_exists_reply(id: &str) -> (r: String)
    ensures
        r@ == error_response(400, "tenant already exists: "@ + id@),
{
    bad_request("tenant already exists: ".to_owned().concat(id).as_str())
}

/// What comes of a request to create a tenant, given whether its id is registered: a known id is
/// refused with this answer and nothing changes; for any other there is none, and the tenant is
/// to be registered and saved.
pub fn create_tenant_end(new: &NewTenant, registered: bool) -> (r: Option<String>)
    ensures
        opt_view(r) == (if registered {
            Some(error_response(400, "tenant already exists: "@ + new.id@))
        } else {
            None
        }),
{
    if registered {
        Some(tenant_exists_reply(new.id.as_str()))
    } else {
        None
    }
}

/// The answer to a request to create a tenant, once it is registered.
pub fn create_tenant_reply(tenant: &Tenant, saved: &Result<(), String>) -> (r: String)
    ensures
        r@ == (match *saved {
            Ok(_) => json_response(201, json_text(JsonView::Object(tenant_members(*tenant)))),
            Err(e) => error_response(500, "persist tenant failed: "@ + e@),
        }),
{
    match saved {
        Ok(_) => created(tenant_object(tenant).build().to_text().as_str()),
        Err(e) => internal_error("persist tenant failed: ".to_owned().concat(e.as_str()).as_str()),
    }
}

/// `GET /v1/tenants`: all tenants.
pub fn handle_list_tenants(tenants: &Vec<Tenant>) -> (r: String)
    ensures
        r@ == ok_json(
            JsonView::Object(
                map![
                    "tenants"@ => JsonView::Array(
                        Seq::new(
                            tenants@.len(),
                            |i: int| JsonView::Object(tenant_members(tenants@[i])),
                        ),
                    ),
                    "count"@ => JsonView::Int(tenants@.len() as int),
                ],
            ),
        ),
{
    let mut items: Vec<Json> = Vec::new();
    let mut i: usize = 0;
    while i < tenants.len()
        invariant
            i <= tenants@.len(),
            items@.len() == i,
            forall|j: int|
                0 <= j < i ==> (#[trigger] items@[j])@ == JsonView::Object(
                    tenant_members(tenants@[j]),
                ),
        decreases tenants@.len() - i,
    {
        items.push(tenant_object(&tenants[i]).build());
        i = i + 1;
    }
    assert(json_views(items@) =~= Seq::new(
        tenants@.len(),
        |i: int| JsonView::Object(tenant_members(tenants@[i])),
    ));
    let count: usize = tenants.len();
    let body = JsonObject::new().with("tenants", Json::array(items)).number("count", count as u64);
    ok(body.build().to_text().as_str())
}

/// The limits of a tenant as JSON.
pub open spec fn quota_json(q: TenantQuota) -> JsonView {
    JsonView::Object(
        map![
            "max_tokens_per_day"@ => JsonView::Int(q.max_tokens_per_day as int),
            "max_requests_per_hour"@ => JsonView::Int(q.max_requests_per_hour as int),
            "max_storage_bytes"@ => JsonView::Int(q.max_storage_bytes as int),
            "max_sessions"@ => JsonView::Int(q.max_sessions as int),
            "max_workflows"@ => JsonView::Int(q.max_workflows as int),
        ],
    )
}

/// What a tenant has used, as JSON.
pub open spec fn usage_json(u: TenantUsage) -> JsonView {
    JsonView::Object(
        map![
            "tokens_today"@ => JsonView::Int(u.tokens_today as int),
            "requests_this_hour"@ => JsonView::Int(u.requests_this_hour as int),
            "storage_bytes"@ => JsonView::Int(u.storage_bytes as int),
            "active_sessions"@ => JsonView::Int(u.active_sessions as int),
            "registered_workflows"@ => JsonView::Int(u.registered_workflows as int),
            "total_runs"@ => JsonView::Int(u.total_runs as int),
            "total_tokens"@ => JsonView::Int(u.total_tokens as int),
        ],
    )
}

/// `GET /v1/tenants/:id`: one tenant, with its limits and usage.
pub fn handle_get_tenant(tenant_id: &str, found: Option<(&Tenant, &TenantUsage)>) -> (r: String)
    ensures
        r@ == (match found {
            Some((t, u)) => ok_json(
                JsonView::Object(
                    tenant_members(*t).insert("quota"@, quota_json(t.quota)).insert(
                        "usage"@,
                        usage_json(*u),
                    ),
                ),
            ),
            None => error_response(404, "tenant not found: "@ + tenant_id@),
        }),
{
    match found {
        Some((t, u)) => {
            let quota = JsonObject::new().number(
                "max_tokens_per_day",
                t.quota.max_tokens_per_day,
            ).number("max_requests_per_hour", t.quota.max_requests_per_hour).number(
                "max_storage_bytes",
                t.quota.max_storage_bytes,
            ).number("max_sessions", t.quota.max_sessions).number(
                "max_workflows",
                t.quota.max_workflows,
            ).build();
            let usage = JsonObject::new().number("tokens_today", u.tokens_today).number(
                "requests_this_hour",
                u.requests_this_hour,
            ).number("storage_bytes", u.storage_bytes).number(
                "active_sessions",
                u.active_sessions,
            ).number("registered_workflows", u.registered_workflows).number(
                "total_runs",
                u.total_runs,
            ).number("total_tokens", u.total_tokens).build();
            let body = tenant_object(t).with("quota", quota).with("usage", usage).build();
            ok(body.to_text().as_str())
        },
        None => not_found("tenant not found: ".to_owned().concat(tenant_id).as_str()),
    }
}

/// `DELETE /v1/tenants/:id`: the answer, from whether the tenant was registered and whether its
/// data could be deleted.
pub fn handle_delete_tenant(tenant_id: &str, removed: bool, deleted: &Result<(), String>) -> (r:
    String)
    ensures
        r@ == (if !removed {
            error_response(404, "tenant not found: "@ + tenant_id@)
        } else {
            match *deleted {
                Ok(_) => ok_json(
                    JsonView::Object(
                        map![
                            "status"@ => JsonView::Str("deleted"@),
                            "tenant_id"@ => JsonView::Str(tenant_id@),
                        ],
                    ),
                ),
                Err(e) => error_response(500, "delete tenant failed: "@ + e@),
            }
        }),
{
    if !removed {
        return not_found("tenant not found: ".to_owned().concat(tenant_id).as_str());
    }
    match deleted {
        Ok(_) => {
            let body = JsonObject::new().text("status", "deleted").text(
                "tenant_id",
                tenant_id,
            ).build();
            ok(body.to_text().as_str())
        },
        Err(e) => internal_error("delete tenant failed: ".to_owned().concat(e.as_str()).as_str()),
    }
}

// ---------------------------------------------------------------------------
// Laws

/// The part of a key that belongs to a tenant and a kind.
pub open spec fn key_prefix(id: Seq<char>, kind: KeyKind) -> Seq<char> {
    id + kind.infix()
}

/// Two different tenants never share the key of one name, whatever their ids.
pub proof fn one_name_is_kept_apart(a: Seq<char>, b: Seq<char>, kind: KeyKind, name: Seq<char>)
    requires
        a != b,
    ensures
        tenant_key(a, kind, name) != tenant_key(b, kind, name),
{
    let k = tenant_key(a, kind, name);
    if k == tenant_key(b, kind, name) {
        let t = "t:"@.len() as int;
        let rest = kind.infix() + name;
        assert(k =~= "t:"@ + a + rest);
        assert(k =~= "t:"@ + b + rest);
        assert(a.len() == b.len());
        assert(a =~= k.subrange(t, t + a.len()));
        assert(b =~= k.subrange(t, t + a.len()));
    }
}

/// Tenants are isolated: things of one kind of two different tenants never share a key, unless
/// the name of one tenant, with the mark of the kind, is the beginning of the other's.
pub proof fn tenants_are_isolated(
    a: Seq<char>,
    b: Seq<char>,
    kind: KeyKind,
    x: Seq<char>,
    y: Seq<char>,
)
    requires
        a != b,
        !begins(key_prefix(a, kind), key_prefix(b, kind)),
        !begins(key_prefix(b, kind), key_prefix(a, kind)),
    ensures
        tenant_key(a, kind, x) != tenant_key(b, kind, y),
{
    let p = key_prefix(a, kind);
    let q = key_prefix(b, kind);
    let t = "t:"@;
    if tenant_key(a, kind, x) == tenant_key(b, kind, y) {
        let k = tenant_key(a, kind, x);
        assert(k =~= t + p + x);
        assert(k =~= t + q + y);
        let rest = k.skip(t.len() as int);
        assert(rest =~= p + x);
        assert(rest =~= q + y);
        if p.len() <= q.len() {
            assert(q.take(p.len() as int) =~= p) by {
                assert forall|i: int| 0 <= i < p.len() implies q[i] == p[i] by {
                    assert((p + x)[i] == p[i]);
                    assert((q + y)[i] == q[i]);
                }
            }
        } else {
            assert(p.take(q.len() as int) =~= q) by {
                assert forall|i: int| 0 <= i < q.len() implies q[i] == p[i] by {
                    assert((p + x)[i] == p[i]);
                    assert((q + y)[i] == q[i]);
                }
            }
        }
    }
}

/// Names without a colon are enough for isolation.
pub proof fn plain_names_are_isolated(
    a: Seq<char>,
    b: Seq<char>,
    kind: KeyKind,
    x: Seq<char>,
    y: Seq<char>,
)
    requires
        a != b,
        !crate::text::has_char(a, ':'),
        !crate::text::has_char(b, ':'),
    ensures
        tenant_key(a, kind, x) != tenant_key(b, kind, y),
{
    lemma_plain_prefix(a, b, kind);
    lemma_plain_prefix(b, a, kind);
    tenants_are_isolated(a, b, kind, x, y);
}

proof fn lemma_plain_prefix(a: Seq<char>, b: Seq<char>, kind: KeyKind)
    requires
        a != b,
        !crate::text::has_char(a, ':'),
        !crate::text::has_char(b, ':'),
    ensures
        !begins(key_prefix(a, kind), key_prefix(b, kind)),
{
    reveal_strlit(":doc:");
    reveal_strlit(":run:");
    reveal_strlit(":session:");
    reveal_strlit(":workflow:");
    let p = key_prefix(a, kind);
    let q = key_prefix(b, kind);
    if begins(p, q) {
        let n = q.len() as int;
        assert(p.take(n) == q);
        if b.len() < a.len() {
            assert(q[b.len() as int] == ':');
            assert(p.take(n)[b.len() as int] == a[b.len() as int]);
            assert(crate::text::has_char(a, ':'));
        } else if a.len() < b.len() {
            assert(p[a.len() as int] == ':');
            assert(p.take(n)[a.len() as int] == q[a.len() as int]);
            assert(q[a.len() as int] == b[a.len() as int]);
            assert(crate::text::has_char(b, ':'));
        } else {
            assert forall|i: int| 0 <= i < a.len() implies a[i] == b[i] by {
                assert(p.take(n)[i] == p[i]);
            }
            assert(a =~= b);
        }
    }
}

/// Two things of one tenant and one kind share a key only if they share a name.
pub proof fn names_are_kept_apart(id: Seq<char>, kind: KeyKind, x: Seq<char>, y: Seq<char>)
    requires
        tenant_key(id, kind, x) == tenant_key(id, kind, y),
    ensures
        x == y,
{
    let n = ("t:"@ + id + kind.infix()).len() as int;
    assert(tenant_key(id, kind, x).skip(n) =~= x);
    assert(tenant_key(id, kind, y).skip(n) =~= y);
}

/// The order of keys in the store.
pub open spec fn byte_before(a: Seq<u8>, b: Seq<u8>) -> bool
    decreases a.len(),
{
    if b.len() == 0 {
        false
    } else if a.len() == 0 {
        true
    } else if a[0] != b[0] {
        a[0] < b[0]
    } else {
        byte_before(a.skip(1), b.skip(1))
    }
}

/// A scan from a prefix to the end of its range finds exactly the keys that begin with the
/// prefix, as long as no key holds the highest byte; no key that is text does.
pub proof fn scan_finds_the_prefix(prefix: Seq<u8>, key: Seq<u8>)
    requires
        forall|i: int| 0 <= i < key.len() ==> #[trigger] key[i] != 0xff,
    ensures
        !byte_before(key, prefix) && byte_before(key, prefix.push(0xff)) <==> prefix.len()
            <= key.len() && key.take(prefix.len() as int) == prefix,
    decreases prefix.len(),
{
    if prefix.len() == 0 {
        assert(key.take(0) =~= prefix);
        if key.len() > 0 {
            assert(key[0] != 0xff);
        }
    } else if key.len() > 0 {
        let p = prefix.skip(1);
        let k = key.skip(1);
        assert forall|i: int| 0 <= i < k.len() implies #[trigger] k[i] != 0xff by {
            assert(k[i] == key[i + 1]);
        }
        scan_finds_the_prefix(p, k);
        assert(prefix.push(0xff).skip(1) =~= p.push(0xff));
        if key[0] == prefix[0] {
            if prefix.len() <= key.len() {
                if key.take(prefix.len() as int) == prefix {
                    assert(k.take(p.len() as int) =~= p) by {
                        assert forall|i: int| 0 <= i < p.len() implies k[i] == p[i] by {
                            assert(key.take(prefix.len() as int)[i + 1] == prefix[i + 1]);
                        }
                    }
                }
                if k.take(p.len() as int) == p {
                    assert(key.take(prefix.len() as int) =~= prefix) by {
                        assert forall|i: int| 0 <= i < prefix.len() implies key[i] == prefix[i] by {
                            if i > 0 {
                                assert(k.take(p.len() as int)[i - 1] == p[i - 1]);
                            }
                        }
                    }
                }
            }
        } else if prefix.len() <= key.len() {
            assert(key.take(prefix.len() as int)[0] != prefix[0]);
        }
    }
}

/// The tools that a tenant may call are those that its capabilities name, in order; one capability
/// opens all of them.
pub proof fn capabilities_name_tools(a: Seq<Seq<char>>, b: Seq<Seq<char>>, name: Seq<char>, other: Seq<char>)
    requires
        !begins(other, "tool:"@),
    ensures
        named_tools(a + b) == named_tools(a) + named_tools(b),
        named_tools(seq!["tool:"@ + name]) == seq![name],
        named_tools(seq![other]) == Seq::<Seq<char>>::empty(),
        a.contains("tool:*"@) ==> tool_allowlist(a) == seq!["*"@],
        !a.contains("tool:*"@) ==> tool_allowlist(a) == named_tools(a),
    decreases b.len(),
{
    reveal_strlit("tool:");
    assert("tool:"@.len() == 5);
    let cap = "tool:"@ + name;
    let one = seq![cap];
    let none = Seq::<Seq<char>>::empty();
    assert(one.drop_last() =~= none);
    assert(seq![other].drop_last() =~= none);
    assert(named_tools(none) == none);
    assert(cap.take(5) =~= "tool:"@);
    assert(cap.skip(5) =~= name);
    assert(named_tools(one) =~= seq![name]);
    if b.len() == 0 {
        assert(a + b =~= a);
        assert(named_tools(a) + named_tools(b) =~= named_tools(a));
    } else {
        capabilities_name_tools(a, b.drop_last(), name, other);
        assert((a + b).drop_last() =~= a + b.drop_last());
        assert(named_tools(a + b) =~= named_tools(a) + named_tools(b));
    }
}

/// A tenant is created with what the request gives: an id and a key, which must not be missing or
/// empty, a name, which is the id where none is given, and the plan and capabilities, where there
/// are any.
pub proof fn tenants_are_created_as_asked(req: JsonView)
    ensures
        match (req.member("id"@), req.member("api_key"@)) {
            (JsonView::Str(id), JsonView::Str(key)) => if id.len() > 0 && key.len() > 0 {
                new_tenant_fields(req) matches Ok(t) && {
                    &&& t.id == id
                    &&& t.api_key == key
                    &&& match req.member("name"@) {
                        JsonView::Str(name) => t.name == name,
                        _ => t.name == id,
                    }
                    &&& match req.member("plan"@) {
                        JsonView::Str(plan) => t.plan == Some(plan),
                        _ => t.plan is None,
                    }
                    &&& match req.member("capabilities"@) {
                        JsonView::Array(items) => match t.capabilities {
                            Some(caps) => caps == texts_among(items) && caps.len() > 0,
                            None => texts_among(items).len() == 0,
                        },
                        _ => t.capabilities is None,
                    }
                }
            } else {
                new_tenant_fields(req) is Err
            },
            _ => new_tenant_fields(req) is Err,
        },
{
}

/// A tenant is shown with its id, name, plan, namespace and capabilities, its limits and what it has
/// used, and never with its key.
pub proof fn tenants_are_shown(t: Tenant, u: TenantUsage)
    ensures
        ({
            let shown = JsonView::Object(tenant_members(t));
            &&& shown.member("id"@) == JsonView::Str(t.id@)
            &&& shown.member("name"@) == JsonView::Str(t.name@)
            &&& shown.member("plan"@) == JsonView::Str(t.plan@)
            &&& shown.member("namespace_id"@) == JsonView::Int(t.namespace_id as int)
            &&& shown.member("capabilities"@) == text_array(views(t.capabilities@))
            &&& shown.member("api_key"@) is Null
        }),
        ({
            let q = quota_json(t.quota);
            &&& q.member("max_tokens_per_day"@) == JsonView::Int(t.quota.max_tokens_per_day as int)
            &&& q.member("max_requests_per_hour"@) == JsonView::Int(
                t.quota.max_requests_per_hour as int,
            )
            &&& q.member("max_storage_bytes"@) == JsonView::Int(t.quota.max_storage_bytes as int)
            &&& q.member("max_sessions"@) == JsonView::Int(t.quota.max_sessions as int)
            &&& q.member("max_workflows"@) == JsonView::Int(t.quota.max_workflows as int)
        }),
        ({
            let s = usage_json(u);
            &&& s.member("tokens_today"@) == JsonView::Int(u.tokens_today as int)
            &&& s.member("requests_this_hour"@) == JsonView::Int(u.requests_this_hour as int)
            &&& s.member("storage_bytes"@) == JsonView::Int(u.storage_bytes as int)
            &&& s.member("active_sessions"@) == JsonView::Int(u.active_sessions as int)
            &&& s.member("registered_workflows"@) == JsonView::Int(u.registered_workflows as int)
            &&& s.member("total_runs"@) == JsonView::Int(u.total_runs as int)
            &&& s.member("total_tokens"@) == JsonView::Int(u.total_tokens as int)
        }),
{
    reveal_strlit("id");
    reveal_strlit("name");
    reveal_strlit("plan");
    reveal_strlit("namespace_id");
    reveal_strlit("capabilities");
    reveal_strlit("api_key");
    assert("id"@.len() == 2 && "name"@.len() == 4 && "plan"@.len() == 4 && "api_key"@.len() == 7);
    assert("namespace_id"@.len() == 12 && "capabilities"@.len() == 12);
    assert("name"@[0] == 'n' && "plan"@[0] == 'p');
    assert("namespace_id"@[0] == 'n' && "capabilities"@[0] == 'c');
    reveal_strlit("max_tokens_per_day");
    reveal_strlit("max_requests_per_hour");
    reveal_strlit("max_storage_bytes");
    reveal_strlit("max_sessions");
    reveal_strlit("max_workflows");
    assert("max_tokens_per_day"@.len() == 18 && "max_requests_per_hour"@.len() == 21);
    assert("max_storage_bytes"@.len() == 17 && "max_sessions"@.len() == 12);
    assert("max_workflows"@.len() == 13);
    reveal_strlit("tokens_today");
    reveal_strlit("requests_this_hour");
    reveal_strlit("storage_bytes");
    reveal_strlit("active_sessions");
    reveal_strlit("registered_workflows");
    reveal_strlit("total_runs");
    reveal_strlit("total_tokens");
    assert("tokens_today"@.len() == 12 && "requests_this_hour"@.len() == 18);
    assert("storage_bytes"@.len() == 13 && "active_sessions"@.len() == 15);
    assert("registered_workflows"@.len() == 20 && "total_runs"@.len() == 10);
    assert("total_tokens"@.len() == 12 && "total_tokens"@[2] == 't' && "tokens_today"@[2] == 'k');
}

/// A tenant's keys are its own: they begin with its name and with what kind of thing they are of,
/// and those of different kinds never clash where the name is the same.
pub proof fn keys_tell_their_tenant(id: Seq<char>, kind: KeyKind, other: KeyKind, a: Seq<char>, b: Seq<char>)
    ensures
        begins(tenant_key(id, kind, a), "t:"@ + id + ":"@),
        kind != other ==> tenant_key(id, kind, a) != tenant_key(id, other, b),
        tenant_key(id, KeyKind::Doc, a) == "t:"@ + id + ":doc:"@ + a,
        tenant_key(id, KeyKind::Run, a) == "t:"@ + id + ":run:"@ + a,
        tenant_key(id, KeyKind::Session, a) == "t:"@ + id + ":session:"@ + a,
        tenant_key(id, KeyKind::Workflow, a) == "t:"@ + id + ":workflow:"@ + a,
{
    reveal_strlit(":");
    reveal_strlit(":doc:");
    reveal_strlit(":run:");
    reveal_strlit(":session:");
    reveal_strlit(":workflow:");
    let p = "t:"@ + id;
    let n = p.len() as int;
    let x = tenant_key(id, kind, a);
    let y = tenant_key(id, other, b);
    assert(x.take(n + 1) =~= p + ":"@);
    assert(x[n + 1] == kind.infix()[1]);
    assert(y[n + 1] == other.infix()[1]);
}

} // verus!
