//! What holds of every chat: what is asked, what is sent, what is answered and what is listed.

use vstd::prelude::*;

use crate::bridge::{chat_list, msg_view, run_list, RecordType, RecordView};
use crate::chat::{
    answer_members, chat_done_json, chat_fields, chat_start_json, error_event_json, event_text,
    history, last_event_text, question_messages, replayed, session_answer_json, session_fields,
    session_json, session_rows, session_store_key, stream_question, token_events, token_json,
    tokens_of, ChatView, LlmReply, Role,
};
use crate::documents::{tenant_usage, with_tenant};
use crate::json::{json_text, JsonView};
use crate::tenant::{tenant_key, KeyKind};
use crate::text::begins;

verus! {

proof fn lemma_names()
    ensures
        "content"@.len() == 7 && "content"@[0] == 'c',
        "model"@.len() == 5 && "model"@[0] == 'm',
        "input_tokens"@.len() == 12 && "input_tokens"@[0] == 'i',
        "output_tokens"@.len() == 13 && "output_tokens"@[0] == 'o',
        "finish_reason"@.len() == 13 && "finish_reason"@[0] == 'f',
        "latency_ms"@.len() == 10 && "latency_ms"@[0] == 'l',
        "session_id"@.len() == 10 && "session_id"@[0] == 's',
        "history_length"@.len() == 14,
        "tenant_id"@.len() == 9,
        "type"@.len() == 4 && "type"@[0] == 't',
        "role"@.len() == 4 && "role"@[0] == 'r',
        "message"@.len() == 7 && "message"@[0] == 'm',
        "messages"@.len() == 8,
        "length"@.len() == 6,
        "id"@.len() == 2,
        "source"@.len() == 6,
{
    reveal_strlit("content");
    reveal_strlit("model");
    reveal_strlit("input_tokens");
    reveal_strlit("output_tokens");
    reveal_strlit("finish_reason");
    reveal_strlit("latency_ms");
    reveal_strlit("session_id");
    reveal_strlit("history_length");
    reveal_strlit("tenant_id");
    reveal_strlit("type");
    reveal_strlit("role");
    reveal_strlit("message");
    reveal_strlit("messages");
    reveal_strlit("length");
    reveal_strlit("id");
    reveal_strlit("source");
}

// ---------------------------------------------------------------------------
// Questions

/// A question is the message of the request, or its prompt where it has no message, and comes with
/// the system text of the request; a request is refused exactly where it has neither.
pub proof fn questions_are_what_was_asked(req: JsonView, missing: Seq<char>)
    ensures
        match (req.member("message"@), req.member("prompt"@)) {
            (JsonView::Str(m), _) => chat_fields(req, missing) matches Ok(q) && q.1 == m,
            (_, JsonView::Str(p)) => chat_fields(req, missing) matches Ok(q) && q.1 == p,
            _ => chat_fields(req, missing) is Err,
        },
        chat_fields(req, missing) matches Ok(q) ==> match req.member("system"@) {
            JsonView::Str(s) => q.0 == Some(s),
            _ => q.0 is None,
        },
{
}

/// What is sent to the model is the question, last and as the user's, after the system text, where
/// there is one, and nothing else.
pub proof fn questions_are_sent(q: ChatView)
    ensures
        ({
            let m = question_messages(q);
            &&& m.len() == if q.0 is Some {
                2int
            } else {
                1
            }
            &&& m.last() == (Role::User, q.1)
            &&& q.0 matches Some(s) ==> m[0] == (Role::System, s)
        }),
{
}

/// A stream is refused where there is no model, where the tenant may not ask one, or where nothing
/// is asked, in this order; else the question is the one of the request.
pub proof fn streams_need_a_model(
    model: Option<Seq<char>>,
    denied: Option<Seq<char>>,
    req: JsonView,
)
    ensures
        model is None ==> stream_question(model, denied, Ok(req)) is Err,
        model is Some && denied is Some ==> stream_question(model, denied, Ok(req)) == Err::<
            ChatView,
            Seq<char>,
        >(denied.unwrap()),
        model is Some && denied is None ==> stream_question(model, denied, Ok(req)) == chat_fields(
            req,
            "missing 'message' field"@,
        ),
{
}

/// The message of a session is the one of the request; without a message, or without a model, there
/// is none.
pub proof fn session_messages_are_what_was_said(req: JsonView, llm_ready: bool)
    ensures
        match req.member("message"@) {
            JsonView::Str(m) => if llm_ready {
                session_fields(req, llm_ready) == Ok::<Seq<char>, Seq<char>>(m)
            } else {
                session_fields(req, llm_ready) is Err
            },
            _ => session_fields(req, llm_ready) is Err,
        },
{
}

// ---------------------------------------------------------------------------
// History

/// The history of a session is what was said in it, in order: that of records one after another is
/// theirs one after another.
pub proof fn history_goes_on(a: Seq<RecordView>, b: Seq<RecordView>)
    ensures
        history(a + b) == history(a) + history(b),
        chat_list(a + b) == chat_list(a) + chat_list(b),
        run_list(a + b) == run_list(a) + run_list(b),
    decreases b.len(),
{
    if b.len() == 0 {
        assert(a + b =~= a);
        assert(history(a) + history(b) =~= history(a));
        assert(chat_list(a) + chat_list(b) =~= chat_list(a));
        assert(run_list(a) + run_list(b) =~= run_list(a));
    } else {
        history_goes_on(a, b.drop_last());
        assert((a + b).drop_last() =~= a + b.drop_last());
        assert(history(a + b) =~= history(a) + history(b));
        assert(chat_list(a + b) =~= chat_list(a) + chat_list(b));
        assert(run_list(a + b) =~= run_list(a) + run_list(b));
    }
}

/// Of one record, a message is sent again as its writer's, with its own text, and shown with its
/// role and text; any other record is neither sent nor shown.
pub proof fn messages_are_replayed(
    id: Seq<char>,
    thread: Seq<char>,
    step: i64,
    role: Seq<char>,
    content: Seq<char>,
    tokens: i64,
    other: RecordView,
)
    requires
        other.record_type != RecordType::Msg,
    ensures
        ({
            let m = seq![msg_view(id, thread, step, role, content, tokens)];
            &&& history(m).len() == 1
            &&& history(m)[0].1 == content
            &&& history(m)[0].0 == Role::Assistant <==> role == "assistant"@
            &&& history(m)[0].0 == Role::System <==> role == "system"@
            &&& chat_list(m).len() == 1
            &&& chat_list(m)[0].member("role"@) == JsonView::Str(role)
            &&& chat_list(m)[0].member("content"@) == JsonView::Str(content)
        }),
        history(seq![other]).len() == 0,
        chat_list(seq![other]).len() == 0,
{
    lemma_names();
    reveal_strlit("assistant");
    reveal_strlit("system");
    assert("assistant"@.len() == 9 && "system"@.len() == 6);
    let rec = msg_view(id, thread, step, role, content, tokens);
    let m = seq![rec];
    let none = Seq::<RecordView>::empty();
    assert(m.drop_last() =~= none);
    assert(seq![other].drop_last() =~= none);
    assert(history(none).len() == 0 && chat_list(none).len() == 0);
    assert(rec.text_field(RecordType::Msg, 0) == Some(role));
    assert(rec.text_field(RecordType::Msg, 2) == Some(content));
    assert(history(m)[0] == replayed(rec));
}

/// Of one record, an observation is shown with its source and text, and any other record is not.
pub proof fn observations_are_shown(rec: RecordView, source: Seq<char>, content: Seq<char>)
    requires
        rec.text_field(RecordType::Obs, 0) == Some(source),
        rec.text_field(RecordType::Obs, 1) == Some(content),
    ensures
        run_list(seq![rec]).len() == 1,
        run_list(seq![rec])[0].member("source"@) == JsonView::Str(source),
        run_list(seq![rec])[0].member("content"@) == JsonView::Str(content),
{
    lemma_names();
    let none = Seq::<RecordView>::empty();
    assert(seq![rec].drop_last() =~= none);
    assert(run_list(none).len() == 0);
}

// ---------------------------------------------------------------------------
// Answers

/// Whether an answer tells what the model said and what it took.
pub open spec fn tells_reply(answer: JsonView, a: LlmReply, latency_ms: u64) -> bool {
    &&& answer.member("model"@) == JsonView::Str(a.model@)
    &&& answer.member("input_tokens"@) == JsonView::Int(a.input_tokens as int)
    &&& answer.member("output_tokens"@) == JsonView::Int(a.output_tokens as int)
    &&& answer.member("latency_ms"@) == JsonView::Int(latency_ms as int)
}

/// Every answer tells what the model said and what it took: that of a single question, that of a
/// session, and the end of a stream.
pub proof fn answers_tell_the_reply(
    a: LlmReply,
    latency_ms: u64,
    session_id: Seq<char>,
    history_len: int,
    tenant: Option<Seq<char>>,
)
    ensures
        ({
            let single = JsonView::Object(with_tenant(answer_members(a, latency_ms), tenant));
            let session = session_answer_json(session_id, a, latency_ms, history_len, tenant);
            let done = chat_done_json(a, latency_ms, tenant);
            &&& tells_reply(single, a, latency_ms)
            &&& tells_reply(session, a, latency_ms)
            &&& tells_reply(done, a, latency_ms)
            &&& single.member("content"@) == JsonView::Str(a.content@)
            &&& session.member("content"@) == JsonView::Str(a.content@)
            &&& single.member("finish_reason"@) == JsonView::Str(a.finish_reason@)
            &&& done.member("finish_reason"@) == JsonView::Str(a.finish_reason@)
            &&& done.member("type"@) == JsonView::Str("done"@)
            &&& session.member("session_id"@) == JsonView::Str(session_id)
            &&& session.member("history_length"@) == JsonView::Int(history_len)
            &&& match tenant {
                Some(t) => {
                    &&& single.member("tenant_id"@) == JsonView::Str(t)
                    &&& session.member("tenant_id"@) == JsonView::Str(t)
                    &&& done.member("tenant_id"@) == JsonView::Str(t)
                },
                None => {
                    &&& single.member("tenant_id"@) is Null
                    &&& session.member("tenant_id"@) is Null
                    &&& done.member("tenant_id"@) is Null
                },
            }
        }),
{
    lemma_names();
}

/// A tenant is charged what the model took in and gave out, together; nobody else is charged.
pub proof fn tenants_are_charged_all_tokens(a: LlmReply, tenant: Option<Seq<char>>)
    requires
        a.input_tokens + a.output_tokens <= u64::MAX,
    ensures
        tenant is Some ==> tenant_usage(tenant, tokens_of(a) as u64) == Some(
            (a.input_tokens + a.output_tokens) as u64,
        ),
        tenant is None ==> tenant_usage(tenant, tokens_of(a) as u64) is None,
{
}

/// The events of a stream tell what they are about: its start the model, each piece its own text, an
/// error its message; and there is one event for each piece, in order.
pub proof fn stream_events_tell(
    model: Seq<char>,
    tenant: Option<Seq<char>>,
    message: Seq<char>,
    chunks: Seq<Seq<char>>,
    i: int,
)
    requires
        0 <= i < chunks.len(),
    ensures
        chat_start_json(model, tenant).member("type"@) == JsonView::Str("start"@),
        chat_start_json(model, tenant).member("model"@) == JsonView::Str(model),
        error_event_json(message).member("type"@) == JsonView::Str("error"@),
        error_event_json(message).member("message"@) == JsonView::Str(message),
        token_json(chunks[i]).member("type"@) == JsonView::Str("token"@),
        token_json(chunks[i]).member("content"@) == JsonView::Str(chunks[i]),
        token_events(chunks).len() == chunks.len(),
        token_events(chunks)[i] == event_text(token_json(chunks[i])),
{
    lemma_names();
}

/// An event is one line of data and an empty line; the last one is followed by the mark of the end.
pub proof fn events_are_lines_of_data(v: JsonView)
    ensures
        begins(event_text(v), "data: "@),
        event_text(v).skip(6).take(json_text(v).len() as int) == json_text(v),
        last_event_text(v) == event_text(v) + "data: [DONE]\n\n"@,
{
    reveal_strlit("data: ");
    reveal_strlit("\n\n");
    reveal_strlit("data: [DONE]\n\n");
    reveal_strlit("\n\ndata: [DONE]\n\n");
    assert("data: "@.len() == 6);
    assert(event_text(v).take(6) =~= "data: "@);
    assert(event_text(v).skip(6).take(json_text(v).len() as int) =~= json_text(v));
    assert("\n\n"@ + "data: [DONE]\n\n"@ =~= "\n\ndata: [DONE]\n\n"@);
    assert(last_event_text(v) =~= event_text(v) + "data: [DONE]\n\n"@);
}

// ---------------------------------------------------------------------------
// Sessions

/// A session is shown with all that was said in it, and how much that is.
pub proof fn sessions_are_shown(session_id: Seq<char>, records: Seq<RecordView>, tenant: Option<Seq<char>>)
    ensures
        ({
            let shown = session_json(session_id, records, tenant);
            &&& shown.member("session_id"@) == JsonView::Str(session_id)
            &&& shown.member("messages"@) == JsonView::Array(chat_list(records))
            &&& shown.member("length"@) == JsonView::Int(chat_list(records).len() as int)
            &&& tenant matches Some(t) ==> shown.member("tenant_id"@) == JsonView::Str(t)
        }),
{
    lemma_names();
}

/// The sessions of one store after another are listed one after another; of a session its name and
/// how many records it has, where its key has the prefix, and of others nothing.
pub proof fn sessions_are_listed(
    a: Seq<(Seq<char>, usize)>,
    b: Seq<(Seq<char>, usize)>,
    prefix: Seq<char>,
    name: Seq<char>,
    count: usize,
    other: Seq<char>,
)
    requires
        !begins(other, prefix),
    ensures
        session_rows(a + b, prefix) == session_rows(a, prefix) + session_rows(b, prefix),
        ({
            let rows = session_rows(seq![(prefix + name, count)], prefix);
            &&& rows.len() == 1
            &&& rows[0].member("id"@) == JsonView::Str(name)
            &&& rows[0].member("messages"@) == JsonView::Int(count as int)
        }),
        session_rows(seq![(other, count)], prefix).len() == 0,
    decreases b.len(),
{
    lemma_names();
    let one = seq![(prefix + name, count)];
    let none = Seq::<(Seq<char>, usize)>::empty();
    assert(one.drop_last() =~= none);
    assert(seq![(other, count)].drop_last() =~= none);
    assert(session_rows(none, prefix).len() == 0);
    assert((prefix + name).take(prefix.len() as int) =~= prefix);
    assert((prefix + name).skip(prefix.len() as int) =~= name);
    if b.len() == 0 {
        assert(a + b =~= a);
        assert(session_rows(a, prefix) + session_rows(b, prefix) =~= session_rows(a, prefix));
    } else {
        sessions_are_listed(a, b.drop_last(), prefix, name, count, other);
        assert((a + b).drop_last() =~= a + b.drop_last());
        assert(session_rows(a + b, prefix) =~= session_rows(a, prefix) + session_rows(b, prefix));
    }
}

/// A session is stored under the prefix that its list goes by, followed by its name; two sessions of
/// one holder share a key only where they share a name.
pub proof fn session_keys_begin_with_their_prefix(
    tenant: Option<Seq<char>>,
    a: Seq<char>,
    b: Seq<char>,
)
    ensures
        tenant matches Some(t) ==> session_store_key(tenant, a) == tenant_key(
            t,
            KeyKind::Session,
            ""@,
        ) + a,
        tenant is None ==> session_store_key(tenant, a) == "session:"@ + a,
        a != b ==> session_store_key(tenant, a) != session_store_key(tenant, b),
{
    reveal_strlit("");
    match tenant {
        Some(t) => {
            let p = tenant_key(t, KeyKind::Session, ""@);
            assert(session_store_key(tenant, a) =~= p + a);
            assert(session_store_key(tenant, b) =~= p + b);
            assert((p + a).skip(p.len() as int) =~= a);
            assert((p + b).skip(p.len() as int) =~= b);
        },
        None => {
            let p = "session:"@;
            assert((p + a).skip(p.len() as int) =~= a);
            assert((p + b).skip(p.len() as int) =~= b);
        },
    }
}

} // verus!
