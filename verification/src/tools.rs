//! Tools: what is offered, how a call is read, what each tool asks of the store and gives back.

use std::time::SystemTime;
use vstd::prelude::*;
use vstd::utf8::*;

use crate::clock::{millis_at, unix_millis};
use crate::degradation::DegradationMode;
use crate::documents::{add_tenant, with_tenant};
use crate::json::{
    entry_views, json_views, listing, number_or_null, parsed_json, text_array, text_or_null, Json,
    JsonObject, JsonView,
};
use crate::requests::{invalid_json, parse_request, Reply};
use crate::response::{bad_request, error_response, forbidden, ok, ok_json, service_unavailable};
use crate::tenant::{key_for, tenant_key, KeyKind};
use crate::text::{
    begins, can_clip, clip, clip_bytes, clips_at, contains_str, dec, occurs, opt_str_view, opt_view,
    starts_with, str_eq, strip_prefix, u64_text, views,
};

verus! {

/// How many bytes of a document a search tool shows.
pub const TOOL_SNIPPET_BYTES: usize = 500;

// ---------------------------------------------------------------------------
// Offered tools

/// The type of a parameter.
#[derive(Debug, Clone, Copy, PartialEq, Eq, Structural)]
pub enum ParamKind {
    Text,
    Integer,
}

/// A parameter of a tool.
#[derive(Debug, Clone)]
pub struct ParamInfo {
    pub name: String,
    pub description: String,
    pub kind: ParamKind,
    pub required: bool,
}

/// What a tool does.
#[derive(Debug, Clone, Copy, PartialEq, Eq, Structural)]
pub enum ToolAction {
    Search,
    Read,
    Write,
}

/// The definition of a tool.
#[derive(Debug, Clone)]
pub struct ToolDef {
    pub name: String,
    pub description: String,
    pub params: Vec<ParamInfo>,
    pub tag: String,
    pub action: ToolAction,
}

/// A parameter, as values.
pub type ParamView = (Seq<char>, Seq<char>, ParamKind, bool);

/// The definition of a tool, as values.
#[verifier::ext_equal]
pub struct ToolDefView {
    pub name: Seq<char>,
    pub description: Seq<char>,
    pub params: Seq<ParamView>,
    pub tag: Seq<char>,
    pub action: ToolAction,
}

impl View for ParamInfo {
    type V = ParamView;

    open spec fn view(&self) -> ParamView {
        (self.name@, self.description@, self.kind, self.required)
    }
}

impl View for ToolDef {
    type V = ToolDefView;

    open spec fn view(&self) -> ToolDefView {
        ToolDefView {
            name: self.name@,
            description: self.description@,
            params: Seq::new(self.params@.len(), |i: int| self.params@[i]@),
            tag: self.tag@,
            action: self.action,
        }
    }
}

/// The search tool.
pub open spec fn search_tool() -> ToolDefView {
    ToolDefView {
        name: "code_search"@,
        description: "Search indexed content by keyword"@,
        params: seq![
            ("query"@, "Search query"@, ParamKind::Text, true),
            ("limit"@, "Max results (default: 10)"@, ParamKind::Integer, false),
        ],
        tag: "search"@,
        action: ToolAction::Search,
    }
}

/// The tool that reads documents.
pub open spec fn read_tool() -> ToolDefView {
    ToolDefView {
        name: "file_read"@,
        description: "Read a document by key"@,
        params: seq![("key"@, "Document key"@, ParamKind::Text, true)],
        tag: "io"@,
        action: ToolAction::Read,
    }
}

/// The tool that writes documents.
pub open spec fn write_tool() -> ToolDefView {
    ToolDefView {
        name: "file_write"@,
        description: "Write a document"@,
        params: seq![
            ("key"@, "Document key"@, ParamKind::Text, true),
            ("content"@, "Content to write"@, ParamKind::Text, true),
        ],
        tag: "io"@,
        action: ToolAction::Write,
    }
}

/// A parameter.
fn param(name: &str, description: &str, kind: ParamKind, required: bool) -> (r: ParamInfo)
    ensures
        r@ == (name@, description@, kind, required),
{
    ParamInfo { name: name.to_owned(), description: description.to_owned(), kind, required }
}

/// The tools that are offered: search, read and write, to tenants and others alike.
pub fn build_default_registry() -> (r: Vec<ToolDef>)
    ensures
        r@.len() == 3,
        r@[0]@ == search_tool(),
        r@[1]@ == read_tool(),
        r@[2]@ == write_tool(),
{
    let search = ToolDef {
        name: "code_search".to_owned(),
        description: "Search indexed content by keyword".to_owned(),
        params: vec![
            param("query", "Search query", ParamKind::Text, true),
            param("limit", "Max results (default: 10)", ParamKind::Integer, false),
        ],
        tag: "search".to_owned(),
        action: ToolAction::Search,
    };
    assert(search@ =~= search_tool());
    let read = ToolDef {
        name: "file_read".to_owned(),
        description: "Read a document by key".to_owned(),
        params: vec![param("key", "Document key", ParamKind::Text, true)],
        tag: "io".to_owned(),
        action: ToolAction::Read,
    };
    assert(read@ =~= read_tool());
    let write = ToolDef {
        name: "file_write".to_owned(),
        description: "Write a document".to_owned(),
        params: vec![
            param("key", "Document key", ParamKind::Text, true),
            param("content", "Content to write", ParamKind::Text, true),
        ],
        tag: "io".to_owned(),
        action: ToolAction::Write,
    };
    assert(write@ =~= write_tool());
    vec![search, read, write]
}

/// The tools that a tenant is offered, each with the prefix of the tenant's documents.
pub fn build_tenant_registry(tenant_id: &str) -> (r: (Vec<ToolDef>, String))
    ensures
        r.0@.len() == 3,
        r.0@[0]@ == search_tool(),
        r.0@[1]@ == read_tool(),
        r.0@[2]@ == write_tool(),
        r.1@ == tenant_key(tenant_id@, KeyKind::Doc, ""@),
{
    (build_default_registry(), key_for(tenant_id, KeyKind::Doc, ""))
}

/// A tool as it is listed.
#[derive(Debug, Clone)]
pub struct ToolInfo {
    pub name: String,
    pub description: String,
    pub tags: Vec<String>,
    pub timeout_ms: Option<u64>,
    pub params: Vec<ParamInfo>,
}

/// A parameter as JSON.
pub open spec fn param_json(p: ParamInfo) -> JsonView {
    JsonView::Object(
        map![
            "name"@ => JsonView::Str(p.name@),
            "description"@ => JsonView::Str(p.description@),
            "required"@ => JsonView::Bool(p.required),
        ],
    )
}

/// A tool as JSON.
pub open spec fn tool_json(t: ToolInfo) -> JsonView {
    JsonView::Object(
        map![
            "name"@ => JsonView::Str(t.name@),
            "description"@ => JsonView::Str(t.description@),
            "tags"@ => text_array(views(t.tags@)),
            "timeout_ms"@ => number_or_null(t.timeout_ms),
            "params"@ => JsonView::Array(
                Seq::new(t.params@.len(), |i: int| param_json(t.params@[i])),
            ),
        ],
    )
}

/// A tool as JSON.
fn tool_object(t: &ToolInfo) -> (r: Json)
    ensures
        r@ == tool_json(*t),
{
    let mut items: Vec<Json> = Vec::new();
    let mut i: usize = 0;
    while i < t.params.len()
        invariant
            i <= t.params@.len(),
            items@.len() == i,
            forall|j: int| 0 <= j < i ==> (#[trigger] items@[j])@ == param_json(t.params@[j]),
        decreases t.params@.len() - i,
    {
        let p = &t.params[i];
        items.push(
            JsonObject::new().text("name", p.name.as_str()).text(
                "description",
                p.description.as_str(),
            ).with("required", Json::boolean(p.required)).build(),
        );
        i = i + 1;
    }
    assert(json_views(items@) =~= Seq::new(
        t.params@.len(),
        |i: int| param_json(t.params@[i]),
    ));
    JsonObject::new().text("name", t.name.as_str()).text(
        "description",
        t.description.as_str(),
    ).with("tags", Json::texts(&t.tags)).with(
        "timeout_ms",
        Json::optional_number(t.timeout_ms),
    ).with("params", Json::array(items)).build()
}

/// `GET /v1/tools`: the tools that are offered.
pub fn handle_list_tools(tools: &Vec<ToolInfo>) -> (r: String)
    ensures
        r@ == ok_json(
            JsonView::Object(
                map![
                    "tools"@ => JsonView::Array(
                        Seq::new(tools@.len(), |i: int| tool_json(tools@[i])),
                    ),
                    "count"@ => JsonView::Int(tools@.len() as int),
                ],
            ),
        ),
{
    let mut items: Vec<Json> = Vec::new();
    let mut i: usize = 0;
    while i < tools.len()
        invariant
            i <= tools@.len(),
            items@.len() == i,
            forall|j: int| 0 <= j < i ==> (#[trigger] items@[j])@ == tool_json(tools@[j]),
        decreases tools@.len() - i,
    {
        items.push(tool_object(&tools[i]));
        i = i + 1;
    }
    assert(json_views(items@) =~= Seq::new(tools@.len(), |i: int| tool_json(tools@[i])));
    let count: usize = tools.len();
    let body = JsonObject::new().with("tools", Json::array(items)).number("count", count as u64);
    ok(body.build().to_text().as_str())
}

// ---------------------------------------------------------------------------
// Calls

/// A call of a tool.
pub struct ToolCall {
    pub call_id: String,
    pub tool_name: String,
    /// The arguments, each once, in ascending order of names.
    pub arguments: Vec<(String, Json)>,
}

/// A call of a tool, as values.
pub struct ToolCallView {
    pub call_id: Seq<char>,
    pub tool_name: Seq<char>,
    pub arguments: Seq<(Seq<char>, JsonView)>,
}

impl View for ToolCall {
    type V = ToolCallView;

    open spec fn view(&self) -> ToolCallView {
        ToolCallView {
            call_id: self.call_id@,
            tool_name: self.tool_name@,
            arguments: entry_views(self.arguments@),
        }
    }
}

/// The call that a request at time `ms` makes, or the answer that refuses it.
pub open spec fn call_fields(req: JsonView, ms: nat) -> Result<ToolCallView, Seq<char>> {
    match req.text_at("tool"@) {
        None => Err(error_response(400, "missing 'tool' field"@)),
        Some(name) => Ok(
            ToolCallView {
                call_id: "gate_"@ + dec(ms),
                tool_name: name,
                arguments: match req.member("arguments"@).as_members() {
                    Some(m) => listing(m),
                    None => Seq::empty(),
                },
            },
        ),
    }
}

/// The call that a body at time `ms` makes, or the answer that refuses it.
pub open spec fn call_request(parsed: Result<JsonView, Seq<char>>, ms: nat) -> Result<
    ToolCallView,
    Seq<char>,
> {
    match parsed {
        Ok(req) => call_fields(req, ms),
        Err(e) => Err(invalid_json(e)),
    }
}

/// The outcome of reading a call, as a value.
pub open spec fn call_outcome(r: Result<ToolCall, String>) -> Result<ToolCallView, Seq<char>> {
    match r {
        Ok(c) => Ok(c@),
        Err(e) => Err(e@),
    }
}

/// The call that a request at time `ms` makes, or the answer that refuses it.
pub fn tool_call_from(req: &Json, ms: u64) -> (r: Result<ToolCall, String>)
    ensures
        call_outcome(r) == call_fields(req@, ms as nat),
{
    let tool_name = match req.text_at("tool") {
        Some(t) => t,
        None => {
            return Err(bad_request("missing 'tool' field"));
        },
    };
    let arguments = match req.members_at("arguments") {
        Some(v) => v,
        None => Vec::new(),
    };
    assert(req@.member("arguments"@).as_members() is None ==> entry_views(arguments@)
        =~= Seq::empty());
    let call_id = "gate_".to_owned().concat(u64_text(ms).as_str());
    Ok(ToolCall { call_id, tool_name, arguments })
}

/// `POST /v1/tools/call` at time `ms`: the call to make, or the answer that refuses the request.
pub fn tool_call_at(body: &str, ms: u64) -> (r: Result<ToolCall, String>)
    ensures
        call_outcome(r) == call_request(parsed_json(body@), ms as nat),
{
    match parse_request(body) {
        Ok(req) => tool_call_from(&req, ms),
        Err(e) => Err(e),
    }
}

/// `POST /v1/tools/call`: the call to make, or the answer that refuses the request.
pub fn handle_tool_call(body: &str) -> (r: Result<ToolCall, String>)
    ensures
        exists|t: SystemTime|
            call_outcome(r) == call_request(parsed_json(body@), #[trigger] millis_at(t) as nat),
{
    let ms: u64 = unix_millis();
    let r = tool_call_at(body, ms);
    proof {
        let t = choose|t: SystemTime| ms == #[trigger] millis_at(t);
        assert(call_outcome(r) == call_request(parsed_json(body@), millis_at(t) as nat));
    }
    r
}

/// What a call of a tool gave back.
pub struct ToolReply {
    pub call_id: String,
    pub status: String,
    pub is_error: bool,
    pub output: Json,
    pub error: Option<String>,
    pub tokens_used: Option<u64>,
    pub latency_ms: Option<u64>,
}

/// What a call gave back, as JSON.
pub open spec fn tool_reply_json(t: ToolReply, tenant: Option<Seq<char>>) -> JsonView {
    JsonView::Object(
        with_tenant(
            map![
                "call_id"@ => JsonView::Str(t.call_id@),
                "status"@ => JsonView::Str(t.status@),
                "output"@ => t.output@,
                "error"@ => text_or_null(opt_view(t.error)),
                "tokens_used"@ => number_or_null(t.tokens_used),
                "latency_ms"@ => number_or_null(t.latency_ms),
            ],
            tenant,
        ),
    )
}

/// Whether a tenant's call was refused for want of a capability.
pub open spec fn capability_denied(t: ToolReply) -> bool {
    t.is_error && (opt_view(t.error) matches Some(e) && occurs(e, "capability denied"@))
}

/// What a call gave back, as a response.
fn tool_reply_text(t: &ToolReply, tenant: Option<&str>) -> (r: String)
    ensures
        r@ == ok_json(tool_reply_json(*t, opt_str_view(tenant))),
{
    let o = JsonObject::new().text("call_id", t.call_id.as_str()).text(
        "status",
        t.status.as_str(),
    ).with("output", t.output.copy()).with("error", Json::optional_text(&t.error)).with(
        "tokens_used",
        Json::optional_number(t.tokens_used),
    ).with("latency_ms", Json::optional_number(t.latency_ms));
    ok(add_tenant(o, tenant).build().to_text().as_str())
}

/// The answer to a call, once it was made.
pub fn tool_call_reply(t: &ToolReply) -> (r: String)
    ensures
        r@ == ok_json(tool_reply_json(*t, None)),
{
    tool_reply_text(t, None)
}

/// The answer to a tenant's call, once it was made. A call that was refused for want of a
/// capability is forbidden and does not count.
pub fn handle_tool_call_for_tenant(tenant_id: &str, t: &ToolReply) -> (r: Reply)
    ensures
        r.response@ == (if capability_denied(*t) {
            error_response(403, opt_view(t.error).unwrap())
        } else {
            ok_json(tool_reply_json(*t, Some(tenant_id@)))
        }),
        r.usage == (if capability_denied(*t) {
            None
        } else {
            Some(t.tokens_used.unwrap_or(0))
        }),
{
    match &t.error {
        Some(e) => {
            if t.is_error && contains_str(e.as_str(), "capability denied") {
                return Reply { response: forbidden(e.as_str()), usage: None };
            }
        },
        None => {},
    }
    let used: u64 = match t.tokens_used {
        Some(n) => n,
        None => 0,
    };
    Reply { response: tool_reply_text(t, Some(tenant_id)), usage: Some(used) }
}

// ---------------------------------------------------------------------------
// Running tools

/// The arguments of a call, as the tools read them.
#[derive(Debug, Clone)]
pub struct ToolArgs {
    pub query: Option<String>,
    pub limit: Option<i64>,
    pub key: Option<String>,
    pub content: Option<String>,
}

/// What a tool asks of the store.
#[derive(Debug, Clone)]
pub enum StoreRequest {
    /// Search for a text, with so many results at most.
    Search(String, usize),
    /// Read a document.
    Get(String),
    /// Write a document.
    Put(String, String),
}

/// What a tool asks of the store, as values.
pub enum StoreView {
    Search(Seq<char>, usize),
    Get(Seq<char>),
    Put(Seq<char>, Seq<char>),
}

impl View for StoreRequest {
    type V = StoreView;

    open spec fn view(&self) -> StoreView {
        match self {
            StoreRequest::Search(q, n) => StoreView::Search(q@, *n),
            StoreRequest::Get(k) => StoreView::Get(k@),
            StoreRequest::Put(k, c) => StoreView::Put(k@, c@),
        }
    }
}

/// How many results a search tool gives: ten where the call does not say.
pub open spec fn result_limit(a: ToolArgs) -> usize {
    a.limit.unwrap_or(10) as usize
}

/// A document's key in the store: the tenant's, where there is one.
pub open spec fn store_key(tenant: Option<Seq<char>>, key: Seq<char>) -> Seq<char> {
    match tenant {
        Some(t) => tenant_key(t, KeyKind::Doc, key),
        None => key,
    }
}

/// What a tool asks of the store. A tenant's search looks at four times as many results as it
/// gives, since those of others are left out.
pub open spec fn store_request(action: ToolAction, tenant: Option<Seq<char>>, a: ToolArgs) -> StoreView {
    match action {
        ToolAction::Search => StoreView::Search(
            opt_view(a.query).unwrap_or(Seq::empty()),
            match tenant {
                Some(_) => (result_limit(a) * 4) as usize,
                None => result_limit(a),
            },
        ),
        ToolAction::Read => StoreView::Get(
            store_key(tenant, opt_view(a.key).unwrap_or(Seq::empty())),
        ),
        ToolAction::Write => StoreView::Put(
            store_key(tenant, opt_view(a.key).unwrap_or(Seq::empty())),
            opt_view(a.content).unwrap_or(Seq::empty()),
        ),
    }
}

/// The text; an empty one where there is none.
fn text_or_empty(o: &Option<String>) -> (r: String)
    ensures
        r@ == opt_view(*o).unwrap_or(Seq::empty()),
{
    match o {
        Some(s) => s.clone(),
        None => String::new(),
    }
}

/// How many results a search tool gives.
fn limit_of(a: &ToolArgs) -> (r: usize)
    ensures
        r == result_limit(*a),
{
    let n: i64 = match a.limit {
        Some(n) => n,
        None => 10,
    };
    n as usize
}

/// A document's key in the store.
fn scoped_key(tenant: Option<&str>, key: &str) -> (r: String)
    ensures
        r@ == store_key(opt_str_view(tenant), key@),
{
    match tenant {
        Some(t) => key_for(t, KeyKind::Doc, key),
        None => key.to_owned(),
    }
}

/// What a tool asks of the store. Four times the limit of a tenant's search must fit.
pub fn plan_tool(action: ToolAction, tenant: Option<&str>, args: &ToolArgs) -> (r: StoreRequest)
    requires
        can_ask(action, opt_str_view(tenant), *args),
    ensures
        r@ == store_request(action, opt_str_view(tenant), *args),
{
    match action {
        ToolAction::Search => {
            let limit: usize = limit_of(args);
            let depth: usize = match tenant {
                Some(_) => limit * 4,
                None => limit,
            };
            StoreRequest::Search(text_or_empty(&args.query), depth)
        },
        ToolAction::Read => StoreRequest::Get(
            scoped_key(tenant, text_or_empty(&args.key).as_str()),
        ),
        ToolAction::Write => StoreRequest::Put(
            scoped_key(tenant, text_or_empty(&args.key).as_str()),
            text_or_empty(&args.content),
        ),
    }
}

/// Whether four times the limit of a tenant's search fits.
pub open spec fn can_ask(action: ToolAction, tenant: Option<Seq<char>>, a: ToolArgs) -> bool {
    tenant is Some && action == ToolAction::Search ==> result_limit(a) * 4 <= usize::MAX
}

/// Whether `plan_tool` can say what a tool asks of the store.
pub fn can_plan(action: ToolAction, tenant: Option<&str>, args: &ToolArgs) -> (r: bool)
    ensures
        r == can_ask(action, opt_str_view(tenant), *args),
{
    !(tenant.is_some() && action == ToolAction::Search) || limit_of(args) <= usize::MAX / 4
}

/// What a tool gives back. Without an output there is an error.
#[derive(Debug, Clone)]
pub struct ToolResult {
    pub call_id: String,
    pub output: Option<String>,
    pub error: Option<String>,
    pub tokens_used: Option<u64>,
}

/// What a tool gives back, as values.
pub struct ToolResultView {
    pub call_id: Seq<char>,
    pub output: Option<Seq<char>>,
    pub error: Option<Seq<char>>,
    pub tokens_used: Option<u64>,
}

impl View for ToolResult {
    type V = ToolResultView;

    open spec fn view(&self) -> ToolResultView {
        ToolResultView {
            call_id: self.call_id@,
            output: opt_view(self.output),
            error: opt_view(self.error),
            tokens_used: self.tokens_used,
        }
    }
}

/// A document that a search found: its key and its text (empty where it is gone).
#[derive(Debug, Clone)]
pub struct FoundDoc {
    pub key: String,
    pub content: String,
}

/// Documents, as values.
pub open spec fn found_views(v: Seq<FoundDoc>) -> Seq<(Seq<char>, Seq<char>)> {
    Seq::new(v.len(), |i: int| (v[i].key@, v[i].content@))
}

/// The documents that a search tool shows, under the names it shows them by: all of them, or a
/// tenant's own ones, up to the limit.
pub open spec fn shown_docs(
    docs: Seq<(Seq<char>, Seq<char>)>,
    tenant: Option<Seq<char>>,
    limit: int,
) -> Seq<(Seq<char>, Seq<char>)>
    decreases docs.len(),
{
    if docs.len() == 0 {
        Seq::empty()
    } else {
        let before = shown_docs(docs.drop_last(), tenant, limit);
        let (k, v) = docs.last();
        match tenant {
            Some(t) => {
                let prefix = tenant_key(t, KeyKind::Doc, Seq::empty());
                if before.len() < limit && begins(k, prefix) {
                    before.push((k.skip(prefix.len() as int), v))
                } else {
                    before
                }
            },
            None => before.push((k, v)),
        }
    }
}

/// How a search tool shows a document.
pub open spec fn shown_text(d: (Seq<char>, Seq<char>)) -> Seq<char> {
    "["@ + d.0 + "]\n"@ + clip_bytes(d.1, TOOL_SNIPPET_BYTES as int)
}

/// How a search tool shows documents, with empty lines between them.
pub open spec fn shown_texts(docs: Seq<(Seq<char>, Seq<char>)>) -> Seq<char>
    decreases docs.len(),
{
    if docs.len() == 0 {
        Seq::empty()
    } else if docs.len() == 1 {
        shown_text(docs[0])
    } else {
        shown_texts(docs.drop_last()) + "\n\n"@ + shown_text(docs.last())
    }
}

/// What the search tool gives back: fifty tokens are counted for each document shown.
pub open spec fn search_view(call_id: Seq<char>, shown: Seq<(Seq<char>, Seq<char>)>) -> ToolResultView {
    ToolResultView {
        call_id,
        output: Some(shown_texts(shown)),
        error: None,
        tokens_used: Some((shown.len() * 50) as u64),
    }
}

/// Whether the documents that a search found can be shown: the first bytes of every one that is
/// end with a whole character, and their tokens can be counted.
pub open spec fn can_show(
    docs: Seq<(Seq<char>, Seq<char>)>,
    tenant: Option<Seq<char>>,
    limit: int,
) -> bool {
    let shown = shown_docs(docs, tenant, limit);
    &&& forall|i: int|
        0 <= i < shown.len() ==> clips_at((#[trigger] shown[i]).1, TOOL_SNIPPET_BYTES as int)
    &&& docs.len() * 50 <= u64::MAX
}

/// What the search tool gives back.
pub fn search_result(call_id: &str, tenant: Option<&str>, limit: usize, docs: &Vec<FoundDoc>) -> (r:
    ToolResult)
    requires
        can_show(found_views(docs@), opt_str_view(tenant), limit as int),
    ensures
        r@ == search_view(
            call_id@,
            shown_docs(found_views(docs@), opt_str_view(tenant), limit as int),
        ),
{
    let ghost all = found_views(docs@);
    let ghost who = opt_str_view(tenant);
    let ghost shown = shown_docs(all, who, limit as int);
    let prefix = match tenant {
        Some(t) => key_for(t, KeyKind::Doc, ""),
        None => String::new(),
    };
    proof {
        reveal_strlit("");
        assert(""@ =~= Seq::<char>::empty());
    }
    let mut out = String::new();
    let mut count: u64 = 0;
    let mut i: usize = 0;
    assert(all.take(0) =~= Seq::<(Seq<char>, Seq<char>)>::empty());
    while i < docs.len()
        invariant
            i <= docs@.len(),
            docs@.len() * 50 <= u64::MAX,
            all == found_views(docs@),
            who == opt_str_view(tenant),
            shown == shown_docs(all, who, limit as int),
            tenant matches Some(t) ==> prefix@ == tenant_key(t@, KeyKind::Doc, Seq::empty()),
            count == shown_docs(all.take(i as int), who, limit as int).len(),
            count <= i,
            out@ == shown_texts(shown_docs(all.take(i as int), who, limit as int)),
            forall|j: int|
                0 <= j < shown.len() ==> clips_at(
                    (#[trigger] shown[j]).1,
                    TOOL_SNIPPET_BYTES as int,
                ),
        decreases docs@.len() - i,
    {
        let ghost before = shown_docs(all.take(i as int), who, limit as int);
        let ghost after = shown_docs(all.take(i + 1), who, limit as int);
        proof {
            assert(all.take(i + 1).drop_last() =~= all.take(i as int));
            assert(all.take(i + 1).last() == (docs@[i as int].key@, docs@[i as int].content@));
            lemma_shown_grow(all, who, limit as int, i + 1);
        }
        let name = match tenant {
            Some(_) => {
                if count < limit as u64 {
                    strip_prefix(docs[i].key.as_str(), prefix.as_str())
                } else {
                    None
                }
            },
            None => Some(docs[i].key.as_str()),
        };
        match name {
            Some(display) => {
                proof {
                    let n = before.len() as int;
                    assert(after == before.push((display@, docs@[i as int].content@)));
                    assert(shown.take(n + 1)[n] == shown[n]);
                    assert(shown[n] == after[n]);
                    assert(after.drop_last() =~= before);
                }
                if count > 0 {
                    out.append("\n\n");
                }
                let item = "[".to_owned().concat(display).concat("]\n").concat(
                    clip(docs[i].content.as_str(), TOOL_SNIPPET_BYTES),
                );
                let ghost prior = out@;
                out.append(item.as_str());
                proof {
                    if count == 0 {
                        assert(prior =~= Seq::<char>::empty());
                        assert(out@ =~= item@);
                        assert(after[0] == after.last());
                    }
                }
                count = count + 1;
            },
            None => {},
        }
        i = i + 1;
    }
    assert(all.take(all.len() as int) =~= all);
    ToolResult {
        call_id: call_id.to_owned(),
        output: Some(out),
        error: None,
        tokens_used: Some(count * 50),
    }
}

proof fn lemma_shown_grow(
    docs: Seq<(Seq<char>, Seq<char>)>,
    tenant: Option<Seq<char>>,
    limit: int,
    i: int,
)
    requires
        0 <= i <= docs.len(),
    ensures
        shown_docs(docs.take(i), tenant, limit).len() <= shown_docs(docs, tenant, limit).len(),
        shown_docs(docs, tenant, limit).take(shown_docs(docs.take(i), tenant, limit).len() as int)
            == shown_docs(docs.take(i), tenant, limit),
    decreases docs.len() - i,
{
    let all = shown_docs(docs, tenant, limit);
    if i == docs.len() {
        assert(docs.take(i) =~= docs);
        assert(all.take(all.len() as int) =~= all);
    } else {
        lemma_shown_grow(docs, tenant, limit, i + 1);
        let a = shown_docs(docs.take(i), tenant, limit);
        let b = shown_docs(docs.take(i + 1), tenant, limit);
        assert(docs.take(i + 1).drop_last() =~= docs.take(i));
        assert(b.take(a.len() as int) =~= a);
        assert(all.take(a.len() as int) =~= all.take(b.len() as int).take(a.len() as int));
    }
}

/// What the reading tool gives back: the document's text, or an error where there is none. One
/// token is counted for four bytes.
pub open spec fn read_view(call_id: Seq<char>, key: Seq<char>, found: Option<Seq<char>>) -> ToolResultView {
    match found {
        Some(text) => ToolResultView {
            call_id,
            output: Some(text),
            error: None,
            tokens_used: Some((encode_utf8(text).len() / 4) as u64),
        },
        None => ToolResultView {
            call_id,
            output: None,
            error: Some("not found: "@ + key),
            tokens_used: None,
        },
    }
}

/// What the reading tool gives back.
pub fn read_result(call_id: &str, key: &str, found: Option<&str>) -> (r: ToolResult)
    ensures
        r@ == read_view(call_id@, key@, opt_str_view(found)),
{
    match found {
        Some(text) => {
            let len: usize = text.as_bytes().len();
            ToolResult {
                call_id: call_id.to_owned(),
                output: Some(text.to_owned()),
                error: None,
                tokens_used: Some((len / 4) as u64),
            }
        },
        None => ToolResult {
            call_id: call_id.to_owned(),
            output: None,
            error: Some("not found: ".to_owned().concat(key)),
            tokens_used: None,
        },
    }
}

/// What the writing tool gives back: how many bytes were written, or the store's error.
pub open spec fn write_view(
    call_id: Seq<char>,
    key: Seq<char>,
    content: Seq<char>,
    stored: Result<(), String>,
) -> ToolResultView {
    match stored {
        Ok(_) => ToolResultView {
            call_id,
            output: Some("wrote "@ + dec(encode_utf8(content).len()) + " bytes to "@ + key),
            error: None,
            tokens_used: Some(5),
        },
        Err(e) => ToolResultView { call_id, output: None, error: Some(e@), tokens_used: None },
    }
}

/// What the writing tool gives back.
pub fn write_result(call_id: &str, key: &str, content: &str, stored: &Result<(), String>) -> (r:
    ToolResult)
    ensures
        r@ == write_view(call_id@, key@, content@, *stored),
{
    match stored {
        Ok(_) => {
            let len: usize = content.as_bytes().len();
            ToolResult {
                call_id: call_id.to_owned(),
                output: Some(
                    "wrote ".to_owned().concat(u64_text(len as u64).as_str()).concat(
                        " bytes to ",
                    ).concat(key),
                ),
                error: None,
                tokens_used: Some(5),
            }
        },
        Err(e) => ToolResult {
            call_id: call_id.to_owned(),
            output: None,
            error: Some(e.clone()),
            tokens_used: None,
        },
    }
}

/// What the store gave back to a tool.
#[derive(Debug)]
pub enum StoreReply {
    /// What a search found.
    Found(Vec<FoundDoc>),
    /// The text of a document, where there is one.
    Document(Option<String>),
    /// Whether a document was written, or why not.
    Stored(Result<(), String>),
}

/// Whether the store gave back what a tool asked for, and it can be shown.
pub open spec fn answers(
    action: ToolAction,
    tenant: Option<Seq<char>>,
    a: ToolArgs,
    reply: StoreReply,
) -> bool {
    match (action, reply) {
        (ToolAction::Search, StoreReply::Found(docs)) => can_show(
            found_views(docs@),
            tenant,
            result_limit(a) as int,
        ),
        (ToolAction::Read, StoreReply::Document(_)) => true,
        (ToolAction::Write, StoreReply::Stored(_)) => true,
        _ => false,
    }
}

/// Whether the documents that a search found can be shown.
fn shows_whole(docs: &Vec<FoundDoc>, tenant: Option<&str>, limit: usize) -> (r: bool)
    ensures
        r == can_show(found_views(docs@), opt_str_view(tenant), limit as int),
{
    let ghost all = found_views(docs@);
    let ghost who = opt_str_view(tenant);
    let ghost shown = shown_docs(all, who, limit as int);
    if docs.len() as u128 * 50 > u64::MAX as u128 {
        return false;
    }
    let prefix = match tenant {
        Some(t) => key_for(t, KeyKind::Doc, ""),
        None => String::new(),
    };
    proof {
        reveal_strlit("");
        assert(""@ =~= Seq::<char>::empty());
    }
    let mut count: usize = 0;
    let mut i: usize = 0;
    assert(all.take(0) =~= Seq::<(Seq<char>, Seq<char>)>::empty());
    while i < docs.len()
        invariant
            i <= docs@.len(),
            all == found_views(docs@),
            who == opt_str_view(tenant),
            shown == shown_docs(all, who, limit as int),
            tenant matches Some(t) ==> prefix@ == tenant_key(t@, KeyKind::Doc, Seq::empty()),
            count == shown_docs(all.take(i as int), who, limit as int).len(),
            count <= i,
            forall|j: int|
                0 <= j < count ==> clips_at(
                    (#[trigger] shown_docs(all.take(i as int), who, limit as int)[j]).1,
                    TOOL_SNIPPET_BYTES as int,
                ),
        decreases docs@.len() - i,
    {
        let ghost before = shown_docs(all.take(i as int), who, limit as int);
        let ghost after = shown_docs(all.take(i + 1), who, limit as int);
        proof {
            assert(all.take(i + 1).drop_last() =~= all.take(i as int));
            assert(all.take(i + 1).last() == (docs@[i as int].key@, docs@[i as int].content@));
            lemma_shown_grow(all, who, limit as int, i + 1);
        }
        let is_shown = match tenant {
            Some(_) => count < limit && starts_with(docs[i].key.as_str(), prefix.as_str()),
            None => true,
        };
        if is_shown {
            proof {
                let n = before.len() as int;
                assert(after.len() == n + 1);
                assert(after[n].1 == docs@[i as int].content@);
                assert(shown.take(n + 1)[n] == shown[n]);
                assert forall|j: int| 0 <= j < n implies after[j] == before[j] by {}
            }
            if !can_clip(docs[i].content.as_str(), TOOL_SNIPPET_BYTES) {
                assert(!clips_at(shown[before.len() as int].1, TOOL_SNIPPET_BYTES as int));
                return false;
            }
            count = count + 1;
        }
        i = i + 1;
    }
    assert(all.take(all.len() as int) =~= all);
    true
}

/// Whether `tool_result` can tell what a call gives back.
pub fn can_tell(action: ToolAction, tenant: Option<&str>, args: &ToolArgs, reply: &StoreReply) -> (r:
    bool)
    ensures
        r == answers(action, opt_str_view(tenant), *args, *reply),
{
    match (action, reply) {
        (ToolAction::Search, StoreReply::Found(docs)) => shows_whole(docs, tenant, limit_of(args)),
        (ToolAction::Read, StoreReply::Document(_)) => true,
        (ToolAction::Write, StoreReply::Stored(_)) => true,
        _ => false,
    }
}

/// What a call of a tool gives back, by its own arguments: a search shows as many documents as it
/// asked for, and the key of an answer is the one that was given.
pub open spec fn tool_view(
    tenant: Option<Seq<char>>,
    call_id: Seq<char>,
    a: ToolArgs,
    reply: StoreReply,
) -> ToolResultView {
    let key = opt_view(a.key).unwrap_or(Seq::empty());
    match reply {
        StoreReply::Found(docs) => search_view(
            call_id,
            shown_docs(found_views(docs@), tenant, result_limit(a) as int),
        ),
        StoreReply::Document(found) => read_view(call_id, key, opt_view(found)),
        StoreReply::Stored(stored) => write_view(
            call_id,
            key,
            opt_view(a.content).unwrap_or(Seq::empty()),
            stored,
        ),
    }
}

/// What a call of a tool gives back, once the store has answered what the tool asked for.
pub fn tool_result(
    action: ToolAction,
    tenant: Option<&str>,
    call_id: &str,
    args: &ToolArgs,
    reply: &StoreReply,
) -> (r: ToolResult)
    requires
        answers(action, opt_str_view(tenant), *args, *reply),
    ensures
        r@ == tool_view(opt_str_view(tenant), call_id@, *args, *reply),
{
    let key = text_or_empty(&args.key);
    match reply {
        StoreReply::Found(docs) => search_result(call_id, tenant, limit_of(args), docs),
        StoreReply::Document(found) => {
            let text = match found {
                Some(s) => Some(s.as_str()),
                None => None,
            };
            read_result(call_id, key.as_str(), text)
        },
        StoreReply::Stored(stored) => {
            let content = text_or_empty(&args.content);
            write_result(call_id, key.as_str(), content.as_str(), stored)
        },
    }
}

// ---------------------------------------------------------------------------
// Modes

/// What the tool of a name does; `None` where there is no such tool.
pub open spec fn action_named(name: Seq<char>) -> Option<ToolAction> {
    if name == search_tool().name {
        Some(search_tool().action)
    } else if name == read_tool().name {
        Some(read_tool().action)
    } else if name == write_tool().name {
        Some(write_tool().action)
    } else {
        None
    }
}

/// The answer that refuses a call of a tool in a mode, if it is refused: where writes are not
/// allowed, the tool that writes is not called.
pub fn tool_refusal(mode: DegradationMode, call: &ToolCall) -> (r: Option<String>)
    ensures
        opt_view(r) == (if (mode == DegradationMode::ReadOnly || mode == DegradationMode::Emergency)
            && action_named(call.tool_name@) == Some(ToolAction::Write) {
            Some(error_response(503, "system in read-only mode"@))
        } else {
            None
        }),
{
    proof {
        reveal_strlit("code_search");
        reveal_strlit("file_read");
        reveal_strlit("file_write");
        assert("code_search"@.len() == 11 && "file_read"@.len() == 9 && "file_write"@.len() == 10);
    }
    if !mode.allows_writes() && str_eq(call.tool_name.as_str(), "file_write") {
        Some(service_unavailable("system in read-only mode"))
    } else {
        None
    }
}

// ---------------------------------------------------------------------------
// Laws

/// A tenant's tools reach the tenant's own documents alone: every key they read or write is one
/// of the tenant's.
pub proof fn tenant_tools_stay_inside(action: ToolAction, tenant: Seq<char>, a: ToolArgs)
    ensures
        match store_request(action, Some(tenant), a) {
            StoreView::Get(k) => begins(k, tenant_key(tenant, KeyKind::Doc, Seq::empty())),
            StoreView::Put(k, _) => begins(k, tenant_key(tenant, KeyKind::Doc, Seq::empty())),
            StoreView::Search(_, _) => true,
        },
{
    let name = opt_view(a.key).unwrap_or(Seq::empty());
    let p = tenant_key(tenant, KeyKind::Doc, Seq::empty());
    let k = tenant_key(tenant, KeyKind::Doc, name);
    assert(k.take(p.len() as int) =~= p);
}

/// A tenant's search tool shows no more documents than the limit.
pub proof fn tenant_search_keeps_the_limit(
    docs: Seq<(Seq<char>, Seq<char>)>,
    tenant: Seq<char>,
    limit: int,
)
    requires
        limit >= 0,
    ensures
        shown_docs(docs, Some(tenant), limit).len() <= limit,
    decreases docs.len(),
{
    if docs.len() > 0 {
        tenant_search_keeps_the_limit(docs.drop_last(), tenant, limit);
    }
}

/// A search asks the store for as many results as the call's limit says, for ten where it says
/// none, and for a tenant for four times as many; always for what the call's query says.
pub proof fn search_asks_for_the_limit(a: ToolArgs, tenant: Option<Seq<char>>, n: usize)
    requires
        a.limit matches Some(l) ==> l == n && n <= i64::MAX,
        a.limit is None ==> n == 10,
        n * 4 <= usize::MAX,
    ensures
        match store_request(ToolAction::Search, tenant, a) {
            StoreView::Search(query, depth) => {
                &&& depth == if tenant is Some {
                    n * 4
                } else {
                    n as int
                }
                &&& a.query matches Some(q) ==> query == q@
                &&& a.query is None ==> query.len() == 0
            },
            _ => false,
        },
{
}

/// What is written is found again: a call that reads the key of a call that writes asks for the very
/// document that was written, and what was written is the call's content. Outside of tenants a
/// document's key is the one that the call gives.
pub proof fn written_documents_are_found(
    w: ToolArgs,
    r: ToolArgs,
    tenant: Option<Seq<char>>,
    key: Seq<char>,
    content: Seq<char>,
)
    requires
        opt_view(w.key) == Some(key),
        opt_view(r.key) == Some(key),
        opt_view(w.content) == Some(content),
    ensures
        match (
            store_request(ToolAction::Write, tenant, w),
            store_request(ToolAction::Read, tenant, r),
        ) {
            (StoreView::Put(k, c), StoreView::Get(g)) => {
                &&& k == g
                &&& c == content
                &&& tenant is None ==> k == key
                &&& tenant matches Some(t) ==> k == "t:"@ + t + ":doc:"@ + key
            },
            _ => false,
        },
{
}

} // verus!
