//! What holds of every tool call: what it asks for, and what is made of what the store gives back.

use vstd::prelude::*;
use vstd::utf8::*;

use crate::json::{is_listing, lemma_listing, JsonView};
use crate::tenant::{tenant_key, KeyKind};
use crate::text::{begins, clip_bytes, dec, opt_view};
use crate::tools::{
    action_named, call_fields, found_views, result_limit, shown_docs, shown_text, shown_texts,
    store_request, tool_json, tool_reply_json, tool_view, FoundDoc, StoreReply, StoreView,
    ToolAction, ToolArgs, ToolInfo, ToolReply,
};

verus! {

// ---------------------------------------------------------------------------
// Calls

/// A call names the tool of the request and carries its arguments, each by its name; a request that
/// names none is refused.
pub proof fn calls_carry_their_arguments(
    req: JsonView,
    ms: nat,
    arguments: Map<Seq<char>, JsonView>,
    k: Seq<char>,
    v: JsonView,
)
    requires
        req.member("arguments"@) == JsonView::Object(arguments),
        arguments.dom().finite(),
    ensures
        match req.member("tool"@) {
            JsonView::Str(name) => call_fields(req, ms) matches Ok(call) && {
                &&& call.tool_name == name
                &&& call.arguments.contains((k, v)) <==> arguments.contains_key(k) && arguments[k]
                    == v
                &&& call.call_id == "gate_"@ + dec(ms)
            },
            _ => call_fields(req, ms) is Err,
        },
{
    lemma_listing(arguments);
    match call_fields(req, ms) {
        Ok(call) => {
            let e = call.arguments;
            assert(is_listing(e, arguments));
            if e.contains((k, v)) {
                let i = choose|i: int| 0 <= i < e.len() && e[i] == (k, v);
                assert(arguments.contains_key(e[i].0) && arguments[e[i].0] == e[i].1);
            }
            if arguments.contains_key(k) && arguments[k] == v {
                let i = choose|i: int| 0 <= i < e.len() && (#[trigger] e[i]).0 == k;
                assert(arguments[e[i].0] == e[i].1);
                assert(e[i] == (k, v));
            }
        },
        Err(_) => {},
    }
}

/// The three tools search, read and write, each by its own name.
pub proof fn tools_do_what_they_are_named_for()
    ensures
        forall|name: Seq<char>| #[trigger]
            action_named(name) == Some(ToolAction::Search) <==> name == "code_search"@,
        forall|name: Seq<char>| #[trigger]
            action_named(name) == Some(ToolAction::Read) <==> name == "file_read"@,
        forall|name: Seq<char>| #[trigger]
            action_named(name) == Some(ToolAction::Write) <==> name == "file_write"@,
{
    reveal_strlit("code_search");
    reveal_strlit("file_read");
    reveal_strlit("file_write");
    assert("code_search"@.len() == 11 && "file_read"@.len() == 9 && "file_write"@.len() == 10);
}

/// The answer to a call tells what it gave back.
pub proof fn replies_tell_the_result(t: ToolReply, tenant: Option<Seq<char>>)
    ensures
        ({
            let r = tool_reply_json(t, tenant);
            &&& r.member("call_id"@) == JsonView::Str(t.call_id@)
            &&& r.member("status"@) == JsonView::Str(t.status@)
            &&& r.member("output"@) == t.output@
            &&& match t.error {
                Some(e) => r.member("error"@) == JsonView::Str(e@),
                None => r.member("error"@) is Null,
            }
            &&& match t.tokens_used {
                Some(n) => r.member("tokens_used"@) == JsonView::Int(n as int),
                None => r.member("tokens_used"@) is Null,
            }
            &&& match t.latency_ms {
                Some(n) => r.member("latency_ms"@) == JsonView::Int(n as int),
                None => r.member("latency_ms"@) is Null,
            }
            &&& match tenant {
                Some(id) => r.member("tenant_id"@) == JsonView::Str(id),
                None => r.member("tenant_id"@) is Null,
            }
        }),
{
    reveal_strlit("call_id");
    reveal_strlit("status");
    reveal_strlit("output");
    reveal_strlit("error");
    reveal_strlit("tokens_used");
    reveal_strlit("latency_ms");
    reveal_strlit("tenant_id");
    assert("call_id"@.len() == 7 && "status"@.len() == 6 && "output"@.len() == 6);
    assert("status"@[0] == 's' && "output"@[0] == 'o' && "error"@.len() == 5);
    assert("tokens_used"@.len() == 11 && "latency_ms"@.len() == 10 && "tenant_id"@.len() == 9);
}

// ---------------------------------------------------------------------------
// Searches

/// Without a tenant every document that was found is shown, under its key, in order.
pub proof fn all_documents_are_shown(docs: Seq<(Seq<char>, Seq<char>)>, limit: int)
    ensures
        shown_docs(docs, None, limit) == docs,
    decreases docs.len(),
{
    if docs.len() > 0 {
        all_documents_are_shown(docs.drop_last(), limit);
        assert(docs.drop_last().push(docs.last()) =~= docs);
    } else {
        assert(shown_docs(docs, None, limit) =~= docs);
    }
}

/// A tenant is shown its own documents among those found, in order and up to the limit, each under
/// the name that it gave it.
pub proof fn own_documents_are_shown(
    docs: Seq<(Seq<char>, Seq<char>)>,
    tenant: Seq<char>,
    limit: int,
)
    requires
        limit >= 0,
    ensures
        ({
            let prefix = "t:"@ + tenant + ":doc:"@;
            let own = docs.filter(|d: (Seq<char>, Seq<char>)| begins(d.0, prefix));
            let shown = shown_docs(docs, Some(tenant), limit);
            &&& shown.len() == if own.len() <= limit {
                own.len() as int
            } else {
                limit
            }
            &&& forall|i: int|
                0 <= i < shown.len() ==> prefix + (#[trigger] shown[i]).0 == own[i].0 && shown[i].1
                    == own[i].1
        }),
    decreases docs.len(),
{
    reveal(Seq::filter);
    let prefix = "t:"@ + tenant + ":doc:"@;
    let p = tenant_key(tenant, KeyKind::Doc, Seq::empty());
    assert(p =~= prefix);
    let f = |d: (Seq<char>, Seq<char>)| begins(d.0, prefix);
    let own = docs.filter(f);
    let shown = shown_docs(docs, Some(tenant), limit);
    if docs.len() > 0 {
        let init = docs.drop_last();
        own_documents_are_shown(init, tenant, limit);
        let before = init.filter(f);
        let was = shown_docs(init, Some(tenant), limit);
        let (k, v) = docs.last();
        assert forall|i: int| 0 <= i < shown.len() implies prefix + (#[trigger] shown[i]).0
            == own[i].0 && shown[i].1 == own[i].1 by {
            if i < was.len() {
                assert(shown[i] == was[i]);
                assert(prefix + was[i].0 == before[i].0);
                assert(own[i] == before[i]);
            } else {
                assert(k =~= prefix + k.skip(prefix.len() as int)) by {
                    assert(k.take(prefix.len() as int) == prefix);
                }
                assert(own[i] == docs.last());
            }
        }
    }
}

/// No more documents are shown than the call's limit, with or without a tenant, as long as the store
/// gives back no more than it was asked for; fifty tokens are counted for each.
pub proof fn searches_keep_the_limit(
    a: ToolArgs,
    tenant: Option<Seq<char>>,
    call_id: Seq<char>,
    docs: Vec<FoundDoc>,
    limit: usize,
    query: Seq<char>,
    depth: usize,
)
    requires
        a.limit matches Some(n) ==> n == limit && n >= 0,
        a.limit is None ==> limit == 10,
        limit * 4 <= usize::MAX,
        limit * 50 <= u64::MAX,
        store_request(ToolAction::Search, tenant, a) == StoreView::Search(query, depth),
        docs@.len() <= depth,
    ensures
        ({
            let r = tool_view(tenant, call_id, a, StoreReply::Found(docs));
            &&& r.call_id == call_id
            &&& r.error is None
            &&& r.tokens_used matches Some(t) && t <= limit * 50 && t % 50 == 0
            &&& tenant is None ==> r.tokens_used == Some((docs@.len() * 50) as u64)
        }),
{
    let all = found_views(docs@);
    assert(result_limit(a) == limit);
    match tenant {
        None => {
            all_documents_are_shown(all, limit as int);
        },
        Some(t) => {
            own_documents_are_shown(all, t, limit as int);
        },
    }
    let n = shown_docs(all, tenant, limit as int).len();
    assert(n <= limit);
    assert(n * 50 <= limit * 50 <= u64::MAX);
    assert((n * 50) as u64 == n * 50);
}

/// A document is shown under its name in brackets, on a line of its own, and then by its first 500
/// bytes.
pub proof fn documents_are_shown_by_name(d: (Seq<char>, Seq<char>))
    ensures
        begins(shown_text(d), "["@ + d.0 + "]\n"@),
        shown_text(d).skip(d.0.len() as int + 3) == clip_bytes(d.1, 500),
{
    reveal_strlit("[");
    reveal_strlit("]\n");
    let head = "["@ + d.0 + "]\n"@;
    assert("["@.len() == 1 && "]\n"@.len() == 2);
    assert(head.len() == d.0.len() + 3);
    assert(shown_text(d).take(head.len() as int) =~= head);
    assert(shown_text(d).skip(head.len() as int) =~= clip_bytes(d.1, 500));
}

/// Documents are shown one after another, with an empty line between any two.
pub proof fn documents_are_shown_apart(a: Seq<(Seq<char>, Seq<char>)>, b: Seq<(Seq<char>, Seq<char>)>)
    requires
        a.len() > 0,
        b.len() > 0,
    ensures
        shown_texts(a + b) == shown_texts(a) + "\n\n"@ + shown_texts(b),
    decreases b.len(),
{
    assert((a + b).drop_last() =~= a + b.drop_last());
    if b.len() == 1 {
        assert(a + b.drop_last() =~= a);
    } else {
        documents_are_shown_apart(a, b.drop_last());
        assert(shown_texts(a + b) =~= shown_texts(a) + "\n\n"@ + shown_texts(b));
    }
}

// ---------------------------------------------------------------------------
// Reads and writes

/// Reading gives back the document's own text, and counts a token for every four bytes; where there
/// is none, the error names the key that the call gave.
pub proof fn reads_give_the_document(
    a: ToolArgs,
    tenant: Option<Seq<char>>,
    call_id: Seq<char>,
    key: Seq<char>,
    text: String,
)
    requires
        opt_view(a.key) == Some(key),
        encode_utf8(text@).len() <= u64::MAX,
    ensures
        ({
            let r = tool_view(tenant, call_id, a, StoreReply::Document(Some(text)));
            &&& r.call_id == call_id
            &&& r.output == Some(text@)
            &&& r.error is None
            &&& r.tokens_used matches Some(t) && t * 4 <= encode_utf8(text@).len() < t * 4 + 4
        }),
        ({
            let r = tool_view(tenant, call_id, a, StoreReply::Document(None));
            &&& r.call_id == call_id
            &&& r.output is None
            &&& r.error == Some("not found: "@ + key)
        }),
{
}

/// Writing tells how many bytes of the call's own content went to the call's own key, or the store's
/// error.
pub proof fn writes_tell_what_was_written(
    a: ToolArgs,
    tenant: Option<Seq<char>>,
    call_id: Seq<char>,
    key: Seq<char>,
    content: Seq<char>,
    e: String,
)
    requires
        opt_view(a.key) == Some(key),
        opt_view(a.content) == Some(content),
    ensures
        ({
            let r = tool_view(tenant, call_id, a, StoreReply::Stored(Ok(())));
            &&& r.call_id == call_id
            &&& r.output == Some(
                "wrote "@ + dec(encode_utf8(content).len()) + " bytes to "@ + key,
            )
            &&& r.error is None
            &&& r.tokens_used == Some(5u64)
        }),
        ({
            let r = tool_view(tenant, call_id, a, StoreReply::Stored(Err(e)));
            r.call_id == call_id && r.output is None && r.error == Some(e@)
        }),
{
}

/// A tool is described by its name, its purpose, its tags, its time and its parameters, each of them
/// by its name, its purpose and whether it is required.
pub proof fn tools_are_described(t: ToolInfo, i: int)
    ensures
        ({
            let j = tool_json(t);
            &&& j.member("name"@) == JsonView::Str(t.name@)
            &&& j.member("description"@) == JsonView::Str(t.description@)
            &&& (t.timeout_ms matches Some(n) ==> j.member("timeout_ms"@) == JsonView::Int(n as int))
            &&& (t.timeout_ms is None ==> j.member("timeout_ms"@) is Null)
            &&& (j.member("tags"@) matches JsonView::Array(tags) && tags.len() == t.tags@.len() && (0
                <= i < tags.len() ==> tags[i] == JsonView::Str(t.tags@[i]@)))
            &&& (j.member("params"@) matches JsonView::Array(ps) && ps.len() == t.params@.len() && (0
                <= i < ps.len() ==> {
                &&& ps[i].member("name"@) == JsonView::Str(t.params@[i].name@)
                &&& ps[i].member("description"@) == JsonView::Str(t.params@[i].description@)
                &&& ps[i].member("required"@) == JsonView::Bool(t.params@[i].required)
            }))
        }),
{
    reveal_strlit("name");
    reveal_strlit("description");
    reveal_strlit("tags");
    reveal_strlit("timeout_ms");
    reveal_strlit("params");
    reveal_strlit("required");
    assert("name"@.len() == 4 && "name"@[0] == 'n' && "tags"@.len() == 4 && "tags"@[0] == 't');
    assert("description"@.len() == 11 && "timeout_ms"@.len() == 10 && "params"@.len() == 6);
    assert("required"@.len() == 8);
}

} // verus!
