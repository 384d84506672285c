//! Documents: storing, reading and searching them.

use vstd::prelude::*;
use vstd::utf8::*;

use crate::json::{json_views, parsed_json, Json, JsonObject, JsonView};
use crate::requests::{denial, denied, invalid_json, parse_request, Reply};
use crate::response::{bad_request, error_response, internal_error, not_found, ok, ok_json};
use crate::tenant::{key_for, tenant_key, KeyKind};
use crate::text::{
    begins, can_clip, clip, clip_bytes, clips_at, opt_str_view, starts_with, strip_prefix,
};

verus! {

/// How many results a search of one tenant looks at.
pub const TENANT_SEARCH_DEPTH: usize = 25;

/// How many results a search gives at most.
pub const SEARCH_LIMIT: usize = 10;

/// How many bytes of a document a search result shows.
pub const SNIPPET_BYTES: usize = 200;

/// The text that bytes stand for, with a mark in place of what is not UTF-8.
pub uninterp spec fn lossy_text(bytes: Seq<u8>) -> Seq<char>;

/// `String::from_utf8_lossy` reads bytes as text. Claimed: the text depends on the bytes alone,
/// and valid UTF-8 gives the characters that it encodes.
#[verifier::external_body]
fn lossy(bytes: &[u8]) -> (r: String)
    ensures
        r@ == lossy_text(bytes@),
        valid_utf8(bytes@) ==> r@ == decode_utf8(bytes@),
{
    String::from_utf8_lossy(bytes).into_owned()
}

/// The text of a stored document or key.
pub fn document_text(bytes: &[u8]) -> (r: String)
    ensures
        r@ == lossy_text(bytes@),
        valid_utf8(bytes@) ==> r@ == decode_utf8(bytes@),
{
    lossy(bytes)
}

/// `m` with the tenant, where there is one.
pub open spec fn with_tenant(m: Map<Seq<char>, JsonView>, tenant: Option<Seq<char>>) -> Map<
    Seq<char>,
    JsonView,
> {
    match tenant {
        Some(t) => m.insert("tenant_id"@, JsonView::Str(t)),
        None => m,
    }
}

/// The object with the tenant, where there is one.
pub fn add_tenant(o: JsonObject, tenant: Option<&str>) -> (r: JsonObject)
    ensures
        r@ == with_tenant(o@, opt_str_view(tenant)),
{
    match tenant {
        Some(t) => o.text("tenant_id", t),
        None => o,
    }
}

/// What a successful request puts down to a tenant's account.
pub open spec fn tenant_usage(tenant: Option<Seq<char>>, tokens: u64) -> Option<u64> {
    match tenant {
        Some(_) => Some(tokens),
        None => None,
    }
}

/// What a successful request puts down to a tenant's account.
pub fn usage_of(tenant: Option<&str>, tokens: u64) -> (r: Option<u64>)
    ensures
        r == tenant_usage(opt_str_view(tenant), tokens),
{
    match tenant {
        Some(_) => Some(tokens),
        None => None,
    }
}

// ---------------------------------------------------------------------------
// Storing

/// A request to store a document.
#[derive(Debug, Clone)]
pub struct PutRequest {
    pub key: String,
    pub value: String,
}

impl View for PutRequest {
    type V = (Seq<char>, Seq<char>);

    open spec fn view(&self) -> (Seq<char>, Seq<char>) {
        (self.key@, self.value@)
    }
}

/// The key and the value of a request to store, or the answer that refuses it.
pub open spec fn put_fields(req: JsonView) -> Result<(Seq<char>, Seq<char>), Seq<char>> {
    match req.text_at("key"@) {
        None => Err(error_response(400, "missing 'key'"@)),
        Some(k) => match req.text_at("value"@) {
            None => Err(error_response(400, "missing 'value'"@)),
            Some(v) => Ok((k, v)),
        },
    }
}

/// The key and the value of a body, or the answer that refuses it.
pub open spec fn put_request(parsed: Result<JsonView, Seq<char>>) -> Result<
    (Seq<char>, Seq<char>),
    Seq<char>,
> {
    match parsed {
        Ok(req) => put_fields(req),
        Err(e) => Err(invalid_json(e)),
    }
}

/// The outcome of reading a request, as a value.
pub open spec fn put_outcome(r: Result<PutRequest, String>) -> Result<
    (Seq<char>, Seq<char>),
    Seq<char>,
> {
    match r {
        Ok(p) => Ok(p@),
        Err(e) => Err(e@),
    }
}

/// The key and the value of a request to store, or the answer that refuses it.
pub fn put_request_from(req: &Json) -> (r: Result<PutRequest, String>)
    ensures
        put_outcome(r) == put_fields(req@),
{
    let key = match req.text_at("key") {
        Some(k) => k,
        None => {
            return Err(bad_request("missing 'key'"));
        },
    };
    let value = match req.text_at("value") {
        Some(v) => v,
        None => {
            return Err(bad_request("missing 'value'"));
        },
    };
    Ok(PutRequest { key, value })
}

/// `POST /v1/db/put`: what to store, or the answer that refuses the request.
pub fn handle_put(body: &str) -> (r: Result<PutRequest, String>)
    ensures
        put_outcome(r) == put_request(parsed_json(body@)),
{
    match parse_request(body) {
        Ok(req) => put_request_from(&req),
        Err(e) => Err(e),
    }
}

/// `POST /v1/db/put` of a tenant: what to store under which key, or the answer that refuses the
/// request.
pub fn handle_put_for_tenant(tenant_id: &str, permit: &Result<(), String>, body: &str) -> (r: Result<
    (PutRequest, String),
    String,
>)
    ensures
        match denial(*permit) {
            Some(d) => r matches Err(e) && e@ == d,
            None => match put_request(parsed_json(body@)) {
                Ok((k, v)) => r matches Ok((p, scoped)) && p@ == (k, v) && scoped@ == tenant_key(
                    tenant_id@,
                    KeyKind::Doc,
                    k,
                ),
                Err(x) => r matches Err(e) && e@ == x,
            },
        },
{
    match denied(permit) {
        Some(d) => {
            return Err(d);
        },
        None => {},
    }
    match handle_put(body) {
        Ok(p) => {
            let scoped = key_for(tenant_id, KeyKind::Doc, p.key.as_str());
            Ok((p, scoped))
        },
        Err(e) => Err(e),
    }
}

/// The answer to a request to store, once it was tried.
pub fn put_reply(key: &str, tenant: Option<&str>, stored: &Result<(), String>) -> (r: Reply)
    ensures
        r.response@ == (match *stored {
            Ok(_) => ok_json(
                JsonView::Object(
                    with_tenant(
                        map!["status"@ => JsonView::Str("ok"@), "key"@ => JsonView::Str(key@)],
                        opt_str_view(tenant),
                    ),
                ),
            ),
            Err(e) => error_response(500, e@),
        }),
        r.usage == (match *stored {
            Ok(_) => tenant_usage(opt_str_view(tenant), 0),
            Err(_) => None,
        }),
{
    match stored {
        Ok(_) => {
            let o = JsonObject::new().text("status", "ok").text("key", key);
            Reply {
                response: ok(add_tenant(o, tenant).build().to_text().as_str()),
                usage: usage_of(tenant, 0),
            }
        },
        Err(e) => Reply { response: internal_error(e.as_str()), usage: None },
    }
}

// ---------------------------------------------------------------------------
// Reading

/// The answer to a request for a document: its text and its size in bytes.
pub open spec fn get_response(
    key: Seq<char>,
    tenant: Option<Seq<char>>,
    text: Seq<char>,
    size: nat,
) -> Seq<char> {
    ok_json(
        JsonView::Object(
            with_tenant(
                map![
                    "key"@ => JsonView::Str(key),
                    "value"@ => JsonView::Str(text),
                    "size"@ => JsonView::Int(size as int),
                ],
                tenant,
            ),
        ),
    )
}

/// The answer to a request for a document whose text is known.
pub fn get_reply(key: &str, tenant: Option<&str>, text: &str, size: usize) -> (r: String)
    ensures
        r@ == get_response(key@, opt_str_view(tenant), text@, size as nat),
{
    let o = JsonObject::new().text("key", key).text("value", text).number("size", size as u64);
    ok(add_tenant(o, tenant).build().to_text().as_str())
}

/// `GET /v1/db/get`: the document of a key, as it was found in the store.
pub fn handle_get(key: &str, found: Option<&[u8]>) -> (r: String)
    ensures
        r@ == (match found {
            Some(v) => get_response(key@, None, lossy_text(v@), v@.len()),
            None => error_response(404, "key not found: "@ + key@),
        }),
        found is Some && valid_utf8(found.unwrap()@) ==> r@ == get_response(
            key@,
            None,
            decode_utf8(found.unwrap()@),
            found.unwrap()@.len(),
        ),
{
    match found {
        Some(v) => get_reply(key, None, document_text(v).as_str(), v.len()),
        None => not_found("key not found: ".to_owned().concat(key).as_str()),
    }
}

/// `GET /v1/db/get` of a tenant: the document of a key, as it was found under the tenant's key.
pub fn handle_get_for_tenant(
    tenant_id: &str,
    permit: &Result<(), String>,
    key: &str,
    found: Option<&[u8]>,
) -> (r: Reply)
    ensures
        r.response@ == (match denial(*permit) {
            Some(d) => d,
            None => match found {
                Some(v) => get_response(key@, Some(tenant_id@), lossy_text(v@), v@.len()),
                None => error_response(404, "key not found: "@ + key@),
            },
        }),
        denial(*permit) is None && found is Some && valid_utf8(found.unwrap()@) ==> r.response@
            == get_response(
            key@,
            Some(tenant_id@),
            decode_utf8(found.unwrap()@),
            found.unwrap()@.len(),
        ),
        r.usage == (if denial(*permit) is None && found is Some {
            Some(0u64)
        } else {
            None
        }),
{
    match denied(permit) {
        Some(d) => {
            return Reply { response: d, usage: None };
        },
        None => {},
    }
    match found {
        Some(v) => Reply {
            response: get_reply(key, Some(tenant_id), document_text(v).as_str(), v.len()),
            usage: Some(0),
        },
        None => Reply {
            response: not_found("key not found: ".to_owned().concat(key).as_str()),
            usage: None,
        },
    }
}

// ---------------------------------------------------------------------------
// Searching

/// A result of a search: a key, how well it matches, and the document's text (empty where the
/// document is gone).
pub struct SearchHit {
    pub key: String,
    pub score: Json,
    pub content: String,
}

/// A result of a search, as values.
pub struct HitView {
    pub key: Seq<char>,
    pub score: JsonView,
    pub content: Seq<char>,
}

impl View for SearchHit {
    type V = HitView;

    open spec fn view(&self) -> HitView {
        HitView { key: self.key@, score: self.score@, content: self.content@ }
    }
}

/// The results of a search, as values.
pub open spec fn hit_views(v: Seq<SearchHit>) -> Seq<HitView> {
    Seq::new(v.len(), |i: int| v[i]@)
}

/// A result as JSON, under the key `key`.
pub open spec fn hit_json(key: Seq<char>, h: HitView) -> JsonView {
    JsonView::Object(
        map![
            "key"@ => JsonView::Str(key),
            "score"@ => h.score,
            "content"@ => JsonView::Str(clip_bytes(h.content, SNIPPET_BYTES as int)),
        ],
    )
}

/// The results as JSON.
pub open spec fn hits_json(hits: Seq<HitView>) -> Seq<JsonView> {
    Seq::new(hits.len(), |i: int| hit_json(hits[i].key, hits[i]))
}

/// A result as JSON, under the key `key`.
fn hit_object(key: &str, h: &SearchHit) -> (r: Json)
    requires
        clips_at(h.content@, SNIPPET_BYTES as int),
    ensures
        r@ == hit_json(key@, h@),
{
    JsonObject::new().text("key", key).with("score", h.score.copy()).text(
        "content",
        clip(h.content.as_str(), SNIPPET_BYTES),
    ).build()
}

/// `GET /v1/db/search`: the results of a search. The first bytes of every document must end with
/// a whole character.
pub fn handle_search(query: &str, hits: &Vec<SearchHit>) -> (r: String)
    requires
        forall|i: int|
            0 <= i < hits@.len() ==> clips_at((#[trigger] hits@[i]).content@, SNIPPET_BYTES as int),
    ensures
        r@ == ok_json(
            JsonView::Object(
                map![
                    "query"@ => JsonView::Str(query@),
                    "results"@ => JsonView::Array(hits_json(hit_views(hits@))),
                    "count"@ => JsonView::Int(hits@.len() as int),
                ],
            ),
        ),
{
    let mut items: Vec<Json> = Vec::new();
    let mut i: usize = 0;
    while i < hits.len()
        invariant
            i <= hits@.len(),
            items@.len() == i,
            forall|j: int|
                0 <= j < hits@.len() ==> clips_at(
                    (#[trigger] hits@[j]).content@,
                    SNIPPET_BYTES as int,
                ),
            forall|j: int| 0 <= j < i ==> (#[trigger] items@[j])@ == hit_json(hits@[j].key@, hits@[j]@),
        decreases hits@.len() - i,
    {
        items.push(hit_object(hits[i].key.as_str(), &hits[i]));
        i = i + 1;
    }
    assert(json_views(items@) =~= hits_json(hit_views(hits@)));
    let count: usize = hits.len();
    let body = JsonObject::new().text("query", query).with("results", Json::array(items)).number(
        "count",
        count as u64,
    ).build();
    ok(body.to_text().as_str())
}

/// The results whose key begins with `prefix`, in order.
pub open spec fn own_hits(hits: Seq<HitView>, prefix: Seq<char>) -> Seq<HitView>
    decreases hits.len(),
{
    if hits.len() == 0 {
        Seq::empty()
    } else if begins(hits.last().key, prefix) {
        own_hits(hits.drop_last(), prefix).push(hits.last())
    } else {
        own_hits(hits.drop_last(), prefix)
    }
}

/// The first `n` of a sequence; all of it where it has no more.
pub open spec fn at_most_first<A>(s: Seq<A>, n: int) -> Seq<A> {
    if s.len() <= n {
        s
    } else {
        s.take(n)
    }
}

/// The results of a tenant's search: its own documents, under the names it gave them, at most
/// ten.
pub open spec fn tenant_hits_json(hits: Seq<HitView>, prefix: Seq<char>) -> Seq<JsonView> {
    let own = at_most_first(own_hits(hits, prefix), SEARCH_LIMIT as int);
    Seq::new(own.len(), |i: int| hit_json(own[i].key.skip(prefix.len() as int), own[i]))
}

proof fn lemma_own_grow(hits: Seq<HitView>, prefix: Seq<char>, i: int)
    requires
        0 <= i <= hits.len(),
    ensures
        own_hits(hits.take(i), prefix).len() <= own_hits(hits, prefix).len(),
        own_hits(hits, prefix).take(own_hits(hits.take(i), prefix).len() as int) == own_hits(
            hits.take(i),
            prefix,
        ),
    decreases hits.len() - i,
{
    if i == hits.len() {
        assert(hits.take(i) =~= hits);
        assert(own_hits(hits, prefix).take(own_hits(hits, prefix).len() as int) =~= own_hits(
            hits,
            prefix,
        ));
    } else {
        lemma_own_grow(hits, prefix, i + 1);
        let a = own_hits(hits.take(i), prefix);
        let b = own_hits(hits.take(i + 1), prefix);
        assert(hits.take(i + 1).drop_last() =~= hits.take(i));
        assert(b.take(a.len() as int) =~= a);
        let all = own_hits(hits, prefix);
        assert(all.take(a.len() as int) =~= all.take(b.len() as int).take(a.len() as int));
    }
}

/// Whether a tenant's own documents among the results can be shown: the first bytes of each that is
/// end with a whole character.
pub open spec fn can_show_own(hits: Seq<HitView>, prefix: Seq<char>) -> bool {
    let own = at_most_first(own_hits(hits, prefix), SEARCH_LIMIT as int);
    forall|i: int|
        0 <= i < own.len() ==> clips_at((#[trigger] own[i]).content, SNIPPET_BYTES as int)
}

/// Whether a search of a tenant, or of all documents, can show its results.
pub fn can_show_hits(tenant: Option<&str>, hits: &Vec<SearchHit>) -> (r: bool)
    ensures
        r == (match opt_str_view(tenant) {
            Some(t) => can_show_own(hit_views(hits@), tenant_key(t, KeyKind::Doc, Seq::empty())),
            None => forall|i: int|
                0 <= i < hits@.len() ==> clips_at(
                    (#[trigger] hits@[i]).content@,
                    SNIPPET_BYTES as int,
                ),
        }),
{
    match tenant {
        Some(t) => {
            proof {
                reveal_strlit("");
                assert(""@ =~= Seq::<char>::empty());
            }
            let prefix = key_for(t, KeyKind::Doc, "");
            let ghost all = hit_views(hits@);
            let ghost p = prefix@;
            let ghost own = own_hits(all, p);
            let mut count: usize = 0;
            let mut i: usize = 0;
            assert(all.take(0) =~= Seq::<HitView>::empty());
            while i < hits.len() && count < SEARCH_LIMIT
                invariant
                    i <= hits@.len(),
                    count <= SEARCH_LIMIT,
                    count <= i,
                    all == hit_views(hits@),
                    p == prefix@,
                    p == tenant_key(t@, KeyKind::Doc, Seq::empty()),
                    tenant == Some(t),
                    own == own_hits(all, p),
                    count == own_hits(all.take(i as int), p).len(),
                    count <= own.len(),
                    forall|j: int|
                        0 <= j < count ==> clips_at(
                            (#[trigger] own[j]).content,
                            SNIPPET_BYTES as int,
                        ),
                decreases hits@.len() - i,
            {
                proof {
                    lemma_own_grow(all, p, i + 1);
                    assert(all.take(i + 1).drop_last() =~= all.take(i as int));
                    assert(all.take(i + 1).last() == hits@[i as int]@);
                }
                if starts_with(hits[i].key.as_str(), prefix.as_str()) {
                    proof {
                        let n = count as int;
                        assert(own.take(n + 1)[n] == own[n]);
                        assert(own[n] == hits@[i as int]@);
                        assert(at_most_first(own, SEARCH_LIMIT as int)[n] == own[n]);
                    }
                    if !can_clip(hits[i].content.as_str(), SNIPPET_BYTES) {
                        assert(!clips_at(
                            at_most_first(own, SEARCH_LIMIT as int)[count as int].content,
                            SNIPPET_BYTES as int,
                        ));
                        return false;
                    }
                    count = count + 1;
                }
                i = i + 1;
            }
            proof {
                if count < SEARCH_LIMIT {
                    assert(all.take(i as int) =~= all);
                }
            }
            true
        },
        None => {
            let mut i: usize = 0;
            while i < hits.len()
                invariant
                    i <= hits@.len(),
                    tenant is None,
                    forall|j: int|
                        0 <= j < i ==> clips_at(
                            (#[trigger] hits@[j]).content@,
                            SNIPPET_BYTES as int,
                        ),
                decreases hits@.len() - i,
            {
                if !can_clip(hits[i].content.as_str(), SNIPPET_BYTES) {
                    assert(!clips_at(hits@[i as int].content@, SNIPPET_BYTES as int));
                    return false;
                }
                i = i + 1;
            }
            true
        },
    }
}

/// `GET /v1/db/search` of a tenant: the tenant's own documents among the results. The first bytes
/// of every document shown must end with a whole character.
pub fn handle_search_for_tenant(
    tenant_id: &str,
    permit: &Result<(), String>,
    query: &str,
    hits: &Vec<SearchHit>,
) -> (r: Reply)
    requires
        denial(*permit) is None ==> can_show_own(
            hit_views(hits@),
            tenant_key(tenant_id@, KeyKind::Doc, Seq::empty()),
        ),
    ensures
        ({
            let items = tenant_hits_json(
                hit_views(hits@),
                tenant_key(tenant_id@, KeyKind::Doc, Seq::empty()),
            );
            r.response@ == (match denial(*permit) {
                Some(d) => d,
                None => ok_json(
                    JsonView::Object(
                        map![
                            "tenant_id"@ => JsonView::Str(tenant_id@),
                            "query"@ => JsonView::Str(query@),
                            "results"@ => JsonView::Array(items),
                            "count"@ => JsonView::Int(items.len() as int),
                        ],
                    ),
                ),
            })
        }),
        r.usage == (if denial(*permit) is None {
            Some(0u64)
        } else {
            None
        }),
{
    match denied(permit) {
        Some(d) => {
            return Reply { response: d, usage: None };
        },
        None => {},
    }
    let prefix = key_for(tenant_id, KeyKind::Doc, "");
    proof {
        reveal_strlit("");
        assert(""@ =~= Seq::<char>::empty());
    }
    let ghost all = hit_views(hits@);
    let ghost p = prefix@;
    let ghost own = own_hits(all, p);
    let mut items: Vec<Json> = Vec::new();
    let mut i: usize = 0;
    assert(all.take(0) =~= Seq::<HitView>::empty());
    while i < hits.len() && items.len() < SEARCH_LIMIT
        invariant
            i <= hits@.len(),
            all == hit_views(hits@),
            p == prefix@,
            own == own_hits(all, p),
            items@.len() <= SEARCH_LIMIT,
            items@.len() == own_hits(all.take(i as int), p).len(),
            items@.len() <= own.len(),
            forall|j: int|
                0 <= j < items@.len() ==> (#[trigger] items@[j])@ == hit_json(
                    own[j].key.skip(p.len() as int),
                    own[j],
                ),
            forall|j: int|
                0 <= j < at_most_first(own, SEARCH_LIMIT as int).len() ==> clips_at(
                    (#[trigger] at_most_first(own, SEARCH_LIMIT as int)[j]).content,
                    SNIPPET_BYTES as int,
                ),
        decreases hits@.len() - i,
    {
        proof {
            lemma_own_grow(all, p, i + 1);
            assert(all.take(i + 1).drop_last() =~= all.take(i as int));
            assert(all.take(i + 1).last() == hits@[i as int]@);
        }
        match strip_prefix(hits[i].key.as_str(), prefix.as_str()) {
            Some(display) => {
                proof {
                    let n = items@.len() as int;
                    assert(own.take(n + 1)[n] == own[n]);
                    assert(own[n] == hits@[i as int]@);
                    assert(at_most_first(own, SEARCH_LIMIT as int)[n] == own[n]);
                }
                items.push(hit_object(display, &hits[i]));
            },
            None => {},
        }
        i = i + 1;
    }
    proof {
        if items@.len() < SEARCH_LIMIT {
            assert(all.take(i as int) =~= all);
        }
        assert(json_views(items@) =~= tenant_hits_json(all, p));
    }
    let count: usize = items.len();
    let body = JsonObject::new().text("tenant_id", tenant_id).text("query", query).with(
        "results",
        Json::array(items),
    ).number("count", count as u64).build();
    Reply { response: ok(body.to_text().as_str()), usage: Some(0) }
}

// ---------------------------------------------------------------------------
// Laws

/// A tenant's search shows the tenant's own documents alone.
pub proof fn search_shows_own_documents(hits: Seq<HitView>, prefix: Seq<char>, i: int)
    requires
        0 <= i < own_hits(hits, prefix).len(),
    ensures
        begins(own_hits(hits, prefix)[i].key, prefix),
    decreases hits.len(),
{
    if hits.len() > 0 {
        let init = own_hits(hits.drop_last(), prefix);
        if i < init.len() {
            search_shows_own_documents(hits.drop_last(), prefix, i);
        }
    }
}

/// A document that was stored as text is read back as the same text.
pub proof fn stored_text_is_read_back(text: Seq<char>)
    ensures
        valid_utf8(encode_utf8(text)),
        decode_utf8(encode_utf8(text)) == text,
{
    encode_utf8_valid_utf8(text);
    encode_utf8_decode_utf8(text);
}

/// A tenant's own documents among the results are those whose key has the tenant's prefix, in order.
pub proof fn own_hits_are_by_prefix(hits: Seq<HitView>, prefix: Seq<char>)
    ensures
        own_hits(hits, prefix) == hits.filter(|h: HitView| begins(h.key, prefix)),
    decreases hits.len(),
{
    reveal(Seq::filter);
    if hits.len() > 0 {
        own_hits_are_by_prefix(hits.drop_last(), prefix);
    }
}

/// A search shows every result with its key, its score and the first 200 bytes of its text; a tenant
/// is shown the first ten of its own, each under the name that it gave it.
pub proof fn results_are_shown(hits: Seq<HitView>, prefix: Seq<char>, i: int)
    requires
        0 <= i,
    ensures
        hits_json(hits).len() == hits.len(),
        i < hits.len() ==> {
            let row = hits_json(hits)[i];
            &&& row.member("key"@) == JsonView::Str(hits[i].key)
            &&& row.member("score"@) == hits[i].score
            &&& row.member("content"@) == JsonView::Str(clip_bytes(hits[i].content, 200))
        },
        ({
            let own = hits.filter(|h: HitView| begins(h.key, prefix));
            &&& tenant_hits_json(hits, prefix).len() == if own.len() <= 10 {
                own.len() as int
            } else {
                10
            }
            &&& i < tenant_hits_json(hits, prefix).len() ==> {
                let row = tenant_hits_json(hits, prefix)[i];
                &&& row.member("key"@) matches JsonView::Str(name) && prefix + name == own[i].key
                &&& row.member("score"@) == own[i].score
                &&& row.member("content"@) == JsonView::Str(clip_bytes(own[i].content, 200))
            }
        }),
{
    reveal_strlit("key");
    reveal_strlit("score");
    reveal_strlit("content");
    assert("key"@.len() == 3 && "score"@.len() == 5 && "content"@.len() == 7);
    own_hits_are_by_prefix(hits, prefix);
    let own = own_hits(hits, prefix);
    if i < tenant_hits_json(hits, prefix).len() {
        search_shows_own_documents(hits, prefix, i);
        let k = own[i].key;
        assert(k.take(prefix.len() as int) == prefix);
        assert(prefix + k.skip(prefix.len() as int) =~= k);
        assert(at_most_first(own, SEARCH_LIMIT as int)[i] == own[i]);
    }
}

/// What is to be stored is the key and the value of the request; without either it is refused.
pub proof fn puts_store_what_was_sent(req: JsonView)
    ensures
        match (req.member("key"@), req.member("value"@)) {
            (JsonView::Str(k), JsonView::Str(v)) => put_fields(req) == Ok::<
                (Seq<char>, Seq<char>),
                Seq<char>,
            >((k, v)),
            _ => put_fields(req) is Err,
        },
{
}

/// A document that is found is answered under its key, with its text and its size, and to a tenant
/// with the tenant's name.
pub proof fn gets_answer_the_document(
    key: Seq<char>,
    tenant: Option<Seq<char>>,
    text: Seq<char>,
    size: nat,
)
    ensures
        exists|v: JsonView|
            {
                &&& get_response(key, tenant, text, size) == #[trigger] ok_json(v)
                &&& v.member("key"@) == JsonView::Str(key)
                &&& v.member("value"@) == JsonView::Str(text)
                &&& v.member("size"@) == JsonView::Int(size as int)
                &&& match tenant {
                    Some(t) => v.member("tenant_id"@) == JsonView::Str(t),
                    None => v.member("tenant_id"@) is Null,
                }
            },
{
    reveal_strlit("key");
    reveal_strlit("value");
    reveal_strlit("size");
    reveal_strlit("tenant_id");
    assert("key"@.len() == 3 && "value"@.len() == 5 && "size"@.len() == 4 && "tenant_id"@.len() == 9);
    let v = JsonView::Object(
        with_tenant(
            map![
                "key"@ => JsonView::Str(key),
                "value"@ => JsonView::Str(text),
                "size"@ => JsonView::Int(size as int),
            ],
            tenant,
        ),
    );
    assert(get_response(key, tenant, text, size) == ok_json(v));
}

} // verus!
