//! Chat with a language model: single requests, streams and sessions.

use vstd::prelude::*;

use crate::bridge::{
    chat_list, count_tokens, gen_id_at, id_text, msg_content, msg_record, msg_role, msg_view,
    payload_to_chat_json, record_views, token_count, AgentPayload, AgentRecord, RecordType,
    RecordView,
};
use crate::documents::{add_tenant, tenant_usage, usage_of, with_tenant};
use crate::json::{json_text, json_views, parsed_json, Json, JsonObject, JsonView};
use crate::requests::{denial, denied, invalid_json, parse_request, Reply};
use crate::response::{bad_request, error_response, internal_error, not_found, ok, ok_json};
use crate::tenant::{key_for, tenant_key, KeyKind};
use crate::text::{begins, opt_str_view, opt_view, str_eq, strip_prefix, views};

verus! {

// ---------------------------------------------------------------------------
// Requests

/// Who speaks in a conversation.
#[derive(Debug, Clone, Copy, PartialEq, Eq, Structural)]
pub enum Role {
    System,
    User,
    Assistant,
}

/// A message to a language model.
#[derive(Debug, Clone)]
pub struct Message {
    pub role: Role,
    pub content: String,
}

/// Messages, as values.
pub open spec fn message_views(v: Seq<Message>) -> Seq<(Role, Seq<char>)> {
    Seq::new(v.len(), |i: int| (v[i].role, v[i].content@))
}

/// A question to a language model.
#[derive(Debug, Clone)]
pub struct ChatRequest {
    pub system: Option<String>,
    pub prompt: String,
}

/// A question, as values: what the system is told, if anything, and the prompt.
pub type ChatView = (Option<Seq<char>>, Seq<char>);

impl View for ChatRequest {
    type V = ChatView;

    open spec fn view(&self) -> ChatView {
        (opt_view(self.system), self.prompt@)
    }
}

/// The prompt of a request: its message, else its prompt.
pub open spec fn prompt_of(req: JsonView) -> Option<Seq<char>> {
    match req.text_at("message"@) {
        Some(s) => Some(s),
        None => req.text_at("prompt"@),
    }
}

/// The question that a request asks; without a prompt, the answer that refuses it with `missing`.
pub open spec fn chat_fields(req: JsonView, missing: Seq<char>) -> Result<ChatView, Seq<char>> {
    match prompt_of(req) {
        None => Err(error_response(400, missing)),
        Some(p) => Ok((req.text_at("system"@), p)),
    }
}

/// The question that a body asks, or the answer that refuses it.
pub open spec fn chat_request(parsed: Result<JsonView, Seq<char>>, missing: Seq<char>) -> Result<
    ChatView,
    Seq<char>,
> {
    match parsed {
        Ok(req) => chat_fields(req, missing),
        Err(e) => Err(invalid_json(e)),
    }
}

/// The outcome of reading a question, as a value.
pub open spec fn chat_outcome(r: Result<ChatRequest, String>) -> Result<ChatView, Seq<char>> {
    match r {
        Ok(q) => Ok(q@),
        Err(e) => Err(e@),
    }
}

/// The question that a request asks, or the answer that refuses it with `missing`.
pub fn chat_request_from(req: &Json, missing: &str) -> (r: Result<ChatRequest, String>)
    ensures
        chat_outcome(r) == chat_fields(req@, missing@),
{
    let prompt = match req.text_at("message") {
        Some(s) => s,
        None => match req.text_at("prompt") {
            Some(s) => s,
            None => {
                return Err(bad_request(missing));
            },
        },
    };
    Ok(ChatRequest { system: req.text_at("system"), prompt })
}

/// The question that a body asks, or the answer that refuses it with `missing`.
fn read_chat(body: &str, missing: &str) -> (r: Result<ChatRequest, String>)
    ensures
        chat_outcome(r) == chat_request(parsed_json(body@), missing@),
{
    match parse_request(body) {
        Ok(req) => chat_request_from(&req, missing),
        Err(e) => Err(e),
    }
}

/// The answer where no model is configured.
pub open spec fn no_model() -> Seq<char> {
    error_response(400, "no LLM configured. Set LLM_PROVIDER and API key."@)
}

/// `POST /v1/chat`: the question to ask, or the answer that refuses the request.
pub fn handle_chat(llm_ready: bool, body: &str) -> (r: Result<ChatRequest, String>)
    ensures
        chat_outcome(r) == (if !llm_ready {
            Err(no_model())
        } else {
            chat_request(parsed_json(body@), "missing 'message' or 'prompt' field"@)
        }),
{
    if !llm_ready {
        return Err(bad_request("no LLM configured. Set LLM_PROVIDER and API key."));
    }
    read_chat(body, "missing 'message' or 'prompt' field")
}

/// `POST /v1/chat` of a tenant: the question to ask, or the answer that refuses the request.
pub fn handle_chat_for_tenant(llm_ready: bool, permit: &Result<(), String>, body: &str) -> (r:
    Result<ChatRequest, String>)
    ensures
        chat_outcome(r) == (if !llm_ready {
            Err(no_model())
        } else {
            match denial(*permit) {
                Some(d) => Err(d),
                None => chat_request(parsed_json(body@), "missing 'message' or 'prompt' field"@),
            }
        }),
{
    if !llm_ready {
        return Err(bad_request("no LLM configured. Set LLM_PROVIDER and API key."));
    }
    match denied(permit) {
        Some(d) => {
            return Err(d);
        },
        None => {},
    }
    read_chat(body, "missing 'message' or 'prompt' field")
}

// ---------------------------------------------------------------------------
// Answers

/// What a language model answered.
#[derive(Debug, Clone)]
pub struct LlmReply {
    pub content: String,
    pub model: String,
    pub input_tokens: u64,
    pub output_tokens: u64,
    pub finish_reason: String,
}

/// What an answer took in all.
pub open spec fn tokens_of(a: LlmReply) -> int {
    a.input_tokens + a.output_tokens
}

/// Whether what an answer took in all can be counted.
pub open spec fn countable(result: Result<LlmReply, String>) -> bool {
    result matches Ok(a) ==> tokens_of(a) <= u64::MAX
}

/// An answer as JSON.
pub open spec fn answer_members(a: LlmReply, latency_ms: u64) -> Map<Seq<char>, JsonView> {
    map![
        "content"@ => JsonView::Str(a.content@),
        "model"@ => JsonView::Str(a.model@),
        "input_tokens"@ => JsonView::Int(a.input_tokens as int),
        "output_tokens"@ => JsonView::Int(a.output_tokens as int),
        "finish_reason"@ => JsonView::Str(a.finish_reason@),
        "latency_ms"@ => JsonView::Int(latency_ms as int),
    ]
}

/// The answer to a chat request, once the model was asked.
pub fn chat_reply(result: &Result<LlmReply, String>, latency_ms: u64, tenant: Option<&str>) -> (r:
    Reply)
    requires
        countable(*result),
    ensures
        r.response@ == (match *result {
            Ok(a) => ok_json(
                JsonView::Object(with_tenant(answer_members(a, latency_ms), opt_str_view(tenant))),
            ),
            Err(e) => error_response(500, e@),
        }),
        r.usage == (match *result {
            Ok(a) => tenant_usage(opt_str_view(tenant), tokens_of(a) as u64),
            Err(_) => None,
        }),
{
    match result {
        Ok(a) => {
            let o = JsonObject::new().text("content", a.content.as_str()).text(
                "model",
                a.model.as_str(),
            ).number("input_tokens", a.input_tokens).number(
                "output_tokens",
                a.output_tokens,
            ).text("finish_reason", a.finish_reason.as_str()).number("latency_ms", latency_ms);
            Reply {
                response: ok(add_tenant(o, tenant).build().to_text().as_str()),
                usage: usage_of(tenant, a.input_tokens + a.output_tokens),
            }
        },
        Err(e) => Reply { response: internal_error(e.as_str()), usage: None },
    }
}

// ---------------------------------------------------------------------------
// Streams

/// The head of a stream of events.
pub open spec fn stream_head() -> Seq<char> {
    "HTTP/1.1 200 OK\r\nContent-Type: text/event-stream\r\nCache-Control: no-cache\r\nConnection: keep-alive\r\nAccess-Control-Allow-Origin: *\r\n\r\n"@
}

/// An event of a stream.
pub open spec fn event_text(v: JsonView) -> Seq<char> {
    "data: "@ + json_text(v) + "\n\n"@
}

/// The last event of a stream, and the mark of its end.
pub open spec fn last_event_text(v: JsonView) -> Seq<char> {
    "data: "@ + json_text(v) + "\n\ndata: [DONE]\n\n"@
}

/// The head of a stream of events.
pub fn stream_head_text() -> (r: String)
    ensures
        r@ == stream_head(),
{
    "HTTP/1.1 200 OK\r\nContent-Type: text/event-stream\r\nCache-Control: no-cache\r\nConnection: keep-alive\r\nAccess-Control-Allow-Origin: *\r\n\r\n".to_owned()
}

/// An event of a stream.
pub fn event(v: &Json) -> (r: String)
    ensures
        r@ == event_text(v@),
{
    "data: ".to_owned().concat(v.to_text().as_str()).concat("\n\n")
}

/// The last event of a stream, and the mark of its end.
pub fn last_event(v: &Json) -> (r: String)
    ensures
        r@ == last_event_text(v@),
{
    "data: ".to_owned().concat(v.to_text().as_str()).concat("\n\ndata: [DONE]\n\n")
}

/// The event that reports an error.
pub open spec fn error_event_json(message: Seq<char>) -> JsonView {
    JsonView::Object(
        map!["type"@ => JsonView::Str("error"@), "message"@ => JsonView::Str(message)],
    )
}

/// The event that reports an error and ends the stream.
pub fn error_event(message: &str) -> (r: String)
    ensures
        r@ == last_event_text(error_event_json(message@)),
{
    last_event(&JsonObject::new().text("type", "error").text("message", message).build())
}

/// The beginning of a stream: its head, its first event, and the messages to send to the model.
#[derive(Debug, Clone)]
pub struct ChatStream {
    pub head: String,
    pub start: String,
    pub messages: Vec<Message>,
}

/// The first event of a chat stream.
pub open spec fn chat_start_json(model: Seq<char>, tenant: Option<Seq<char>>) -> JsonView {
    JsonView::Object(
        with_tenant(
            map!["type"@ => JsonView::Str("start"@), "model"@ => JsonView::Str(model)],
            tenant,
        ),
    )
}

/// The messages of a question: what the system is told, then the prompt.
pub open spec fn question_messages(q: ChatView) -> Seq<(Role, Seq<char>)> {
    match q.0 {
        Some(s) => seq![(Role::System, s), (Role::User, q.1)],
        None => seq![(Role::User, q.1)],
    }
}

/// The messages of a question.
pub fn messages_of(q: &ChatRequest) -> (r: Vec<Message>)
    ensures
        message_views(r@) == question_messages(q@),
{
    let mut out: Vec<Message> = Vec::new();
    match &q.system {
        Some(s) => {
            out.push(Message { role: Role::System, content: s.clone() });
        },
        None => {},
    }
    out.push(Message { role: Role::User, content: q.prompt.clone() });
    assert(message_views(out@) =~= question_messages(q@));
    out
}

/// The beginning of a stream for a question.
pub fn chat_stream_from(q: &ChatRequest, model: &str, tenant: Option<&str>) -> (r: ChatStream)
    ensures
        r.head@ == stream_head(),
        r.start@ == event_text(chat_start_json(model@, opt_str_view(tenant))),
        message_views(r.messages@) == question_messages(q@),
{
    let o = JsonObject::new().text("type", "start").text("model", model);
    ChatStream {
        head: stream_head_text(),
        start: event(&add_tenant(o, tenant).build()),
        messages: messages_of(q),
    }
}

/// What a request for a stream comes to: a question to a model, or the answer that refuses it.
pub open spec fn stream_question(
    model: Option<Seq<char>>,
    denied: Option<Seq<char>>,
    parsed: Result<JsonView, Seq<char>>,
) -> Result<ChatView, Seq<char>> {
    if model is None {
        Err(error_response(400, "no LLM configured"@))
    } else {
        match denied {
            Some(d) => Err(d),
            None => chat_request(parsed, "missing 'message' field"@),
        }
    }
}

/// Whether `r` begins the stream for what `question` came to.
pub open spec fn begins_stream(
    r: Result<ChatStream, String>,
    question: Result<ChatView, Seq<char>>,
    model: Option<Seq<char>>,
    tenant: Option<Seq<char>>,
) -> bool {
    match question {
        Ok(q) => r matches Ok(s) && {
            &&& s.head@ == stream_head()
            &&& s.start@ == event_text(chat_start_json(model.unwrap(), tenant))
            &&& message_views(s.messages@) == question_messages(q)
        },
        Err(x) => r matches Err(e) && e@ == x,
    }
}

/// `POST /v1/chat/stream`: the beginning of the stream, or the answer that refuses the request.
pub fn handle_chat_stream(model: Option<&str>, body: &str) -> (r: Result<ChatStream, String>)
    ensures
        begins_stream(
            r,
            stream_question(opt_str_view(model), None, parsed_json(body@)),
            opt_str_view(model),
            None,
        ),
{
    let m = match model {
        Some(m) => m,
        None => {
            return Err(bad_request("no LLM configured"));
        },
    };
    match read_chat(body, "missing 'message' field") {
        Ok(q) => Ok(chat_stream_from(&q, m, None)),
        Err(e) => Err(e),
    }
}

/// `POST /v1/chat/stream` of a tenant: the beginning of the stream, or the answer that refuses
/// the request.
pub fn handle_chat_stream_for_tenant(
    tenant_id: &str,
    model: Option<&str>,
    permit: &Result<(), String>,
    body: &str,
) -> (r: Result<ChatStream, String>)
    ensures
        begins_stream(
            r,
            stream_question(opt_str_view(model), denial(*permit), parsed_json(body@)),
            opt_str_view(model),
            Some(tenant_id@),
        ),
{
    let m = match model {
        Some(m) => m,
        None => {
            return Err(bad_request("no LLM configured"));
        },
    };
    match denied(permit) {
        Some(d) => {
            return Err(d);
        },
        None => {},
    }
    match read_chat(body, "missing 'message' field") {
        Ok(q) => Ok(chat_stream_from(&q, m, Some(tenant_id))),
        Err(e) => Err(e),
    }
}

/// The event of one piece of an answer.
pub open spec fn token_json(chunk: Seq<char>) -> JsonView {
    JsonView::Object(map!["type"@ => JsonView::Str("token"@), "content"@ => JsonView::Str(chunk)])
}

/// The event of one piece of an answer.
pub fn token_event(chunk: &str) -> (r: String)
    ensures
        r@ == event_text(token_json(chunk@)),
{
    event(&JsonObject::new().text("type", "token").text("content", chunk).build())
}

/// The last event of a chat stream.
pub open spec fn chat_done_json(a: LlmReply, latency_ms: u64, tenant: Option<Seq<char>>) -> JsonView {
    JsonView::Object(
        with_tenant(
            map![
                "type"@ => JsonView::Str("done"@),
                "model"@ => JsonView::Str(a.model@),
                "input_tokens"@ => JsonView::Int(a.input_tokens as int),
                "output_tokens"@ => JsonView::Int(a.output_tokens as int),
                "finish_reason"@ => JsonView::Str(a.finish_reason@),
                "latency_ms"@ => JsonView::Int(latency_ms as int),
            ],
            tenant,
        ),
    )
}

/// The end of a chat stream, once the model has answered.
pub fn chat_stream_end(result: &Result<LlmReply, String>, latency_ms: u64, tenant: Option<&str>) -> (r:
    Reply)
    requires
        countable(*result),
    ensures
        r.response@ == (match *result {
            Ok(a) => last_event_text(chat_done_json(a, latency_ms, opt_str_view(tenant))),
            Err(e) => last_event_text(error_event_json(e@)),
        }),
        r.usage == (match *result {
            Ok(a) => tenant_usage(opt_str_view(tenant), tokens_of(a) as u64),
            Err(_) => None,
        }),
{
    match result {
        Ok(a) => {
            let o = JsonObject::new().text("type", "done").text("model", a.model.as_str()).number(
                "input_tokens",
                a.input_tokens,
            ).number("output_tokens", a.output_tokens).text(
                "finish_reason",
                a.finish_reason.as_str(),
            ).number("latency_ms", latency_ms);
            Reply {
                response: last_event(&add_tenant(o, tenant).build()),
                usage: usage_of(tenant, a.input_tokens + a.output_tokens),
            }
        },
        Err(e) => Reply { response: error_event(e.as_str()), usage: None },
    }
}

/// What is left of a stream once the work is done: its events, in order, and what they put down to
/// a tenant's account.
#[derive(Debug, Clone)]
pub struct StreamEnd {
    pub events: Vec<String>,
    pub usage: Option<u64>,
}

/// The events of the pieces of an answer, in order.
pub open spec fn token_events(chunks: Seq<Seq<char>>) -> Seq<Seq<char>> {
    Seq::new(chunks.len(), |i: int| event_text(token_json(chunks[i])))
}

/// What is left of a chat stream once the model has answered: an event for each piece of the
/// answer, and the last one.
pub fn chat_stream_rest(
    chunks: &Vec<String>,
    result: &Result<LlmReply, String>,
    latency_ms: u64,
    tenant: Option<&str>,
) -> (r: StreamEnd)
    requires
        countable(*result),
    ensures
        views(r.events@) == token_events(views(chunks@)).push(
            match *result {
                Ok(a) => last_event_text(chat_done_json(a, latency_ms, opt_str_view(tenant))),
                Err(e) => last_event_text(error_event_json(e@)),
            },
        ),
        r.usage == (match *result {
            Ok(a) => tenant_usage(opt_str_view(tenant), tokens_of(a) as u64),
            Err(_) => None,
        }),
{
    let mut events: Vec<String> = Vec::new();
    let mut i: usize = 0;
    while i < chunks.len()
        invariant
            i <= chunks@.len(),
            events@.len() == i,
            forall|j: int|
                0 <= j < i ==> (#[trigger] events@[j])@ == event_text(token_json(chunks@[j]@)),
        decreases chunks@.len() - i,
    {
        events.push(token_event(chunks[i].as_str()));
        i = i + 1;
    }
    assert(views(events@) =~= token_events(views(chunks@)));
    let ghost before = views(events@);
    let end = chat_stream_end(result, latency_ms, tenant);
    let ghost last = end.response@;
    events.push(end.response);
    assert(views(events@) =~= before.push(last));
    StreamEnd { events, usage: end.usage }
}

// ---------------------------------------------------------------------------
// Sessions

/// The key of a session in the store: the tenant's, where there is one.
pub open spec fn session_store_key(tenant: Option<Seq<char>>, id: Seq<char>) -> Seq<char> {
    match tenant {
        Some(t) => tenant_key(t, KeyKind::Session, id),
        None => "session:"@ + id,
    }
}

/// The key of a session in the store.
pub fn session_key(tenant: Option<&str>, id: &str) -> (r: String)
    ensures
        r@ == session_store_key(opt_str_view(tenant), id@),
{
    match tenant {
        Some(t) => key_for(t, KeyKind::Session, id),
        None => "session:".to_owned().concat(id),
    }
}

/// The message of a request to a session, or the answer that refuses it.
pub open spec fn session_fields(req: JsonView, llm_ready: bool) -> Result<Seq<char>, Seq<char>> {
    match req.text_at("message"@) {
        None => Err(error_response(400, "missing 'message' field"@)),
        Some(m) => if llm_ready {
            Ok(m)
        } else {
            Err(error_response(400, "no LLM configured"@))
        },
    }
}

/// The message of a body, or the answer that refuses it.
pub open spec fn session_request(parsed: Result<JsonView, Seq<char>>, llm_ready: bool) -> Result<
    Seq<char>,
    Seq<char>,
> {
    match parsed {
        Ok(req) => session_fields(req, llm_ready),
        Err(e) => Err(invalid_json(e)),
    }
}

/// The outcome of reading a text, as a value.
pub open spec fn text_outcome(r: Result<String, String>) -> Result<Seq<char>, Seq<char>> {
    match r {
        Ok(s) => Ok(s@),
        Err(e) => Err(e@),
    }
}

/// The message of a request to a session, or the answer that refuses it.
pub fn session_request_from(req: &Json, llm_ready: bool) -> (r: Result<String, String>)
    ensures
        text_outcome(r) == session_fields(req@, llm_ready),
{
    match req.text_at("message") {
        Some(m) => {
            if llm_ready {
                Ok(m)
            } else {
                Err(bad_request("no LLM configured"))
            }
        },
        None => Err(bad_request("missing 'message' field")),
    }
}

/// `POST /v1/sessions/:id/message`: the message, or the answer that refuses the request.
pub fn handle_session_message(llm_ready: bool, body: &str) -> (r: Result<String, String>)
    ensures
        text_outcome(r) == session_request(parsed_json(body@), llm_ready),
{
    match parse_request(body) {
        Ok(req) => session_request_from(&req, llm_ready),
        Err(e) => Err(e),
    }
}

/// `POST /v1/sessions/:id/message` of a tenant: the message, or the answer that refuses the
/// request. The tenant needs permission for sessions, and for the model.
pub fn handle_session_message_for_tenant(
    llm_ready: bool,
    session_permit: &Result<(), String>,
    llm_permit: &Result<(), String>,
    body: &str,
) -> (r: Result<String, String>)
    ensures
        text_outcome(r) == (match denial(*session_permit) {
            Some(d) => Err(d),
            None => match session_request(parsed_json(body@), llm_ready) {
                Ok(m) => match denial(*llm_permit) {
                    Some(d) => Err(d),
                    None => Ok(m),
                },
                Err(e) => Err(e),
            },
        }),
{
    match denied(session_permit) {
        Some(d) => {
            return Err(d);
        },
        None => {},
    }
    match handle_session_message(llm_ready, body) {
        Ok(m) => match denied(llm_permit) {
            Some(d) => Err(d),
            None => Ok(m),
        },
        Err(e) => Err(e),
    }
}

/// The role that a stored message speaks in; an unknown one counts as the user's.
pub open spec fn role_named(s: Seq<char>) -> Role {
    if s == "assistant"@ {
        Role::Assistant
    } else if s == "system"@ {
        Role::System
    } else {
        Role::User
    }
}

/// A stored message, as it is sent to the model.
pub open spec fn replayed(rec: RecordView) -> (Role, Seq<char>) {
    (
        role_named(rec.text_field(RecordType::Msg, 0).unwrap_or("user"@)),
        rec.text_field(RecordType::Msg, 2).unwrap_or(""@),
    )
}

/// The messages among stored records, as they are sent to the model, in order.
pub open spec fn history(records: Seq<RecordView>) -> Seq<(Role, Seq<char>)>
    decreases records.len(),
{
    if records.len() == 0 {
        Seq::empty()
    } else if records.last().record_type == RecordType::Msg {
        history(records.drop_last()).push(replayed(records.last()))
    } else {
        history(records.drop_last())
    }
}

/// The records of a session so far; none where there is no session yet.
pub open spec fn session_records(existing: Option<&AgentPayload>) -> Seq<RecordView> {
    match existing {
        Some(p) => record_views(p.records@),
        None => Seq::empty(),
    }
}

/// One turn of a session, before the model is asked.
#[derive(Debug, Clone)]
pub struct SessionTurn {
    /// The position of the user's message in the session.
    pub step: i64,
    /// How many records the session had.
    pub history_len: usize,
    /// The record of the user's message.
    pub user_record: AgentRecord,
    /// What is sent to the model: the session so far, then the message.
    pub messages: Vec<Message>,
}

/// The text, or `otherwise`.
fn str_or<'a>(o: Option<&'a str>, otherwise: &'a str) -> (r: &'a str)
    ensures
        r@ == opt_str_view(o).unwrap_or(otherwise@),
{
    match o {
        Some(s) => s,
        None => otherwise,
    }
}

/// A stored message, as it is sent to the model.
fn replay(rec: &AgentRecord) -> (r: Message)
    ensures
        (r.role, r.content@) == replayed(rec@),
{
    let name = str_or(msg_role(rec), "user");
    let content = str_or(msg_content(rec), "");
    let role = if str_eq(name, "assistant") {
        Role::Assistant
    } else if str_eq(name, "system") {
        Role::System
    } else {
        Role::User
    };
    Message { role, content: content.to_owned() }
}

/// One turn of a session, whose message is numbered `stamp`, with the number of tokens that the
/// message takes. The session must leave room for two more steps.
pub fn session_turn_at(
    session_id: &str,
    existing: Option<&AgentPayload>,
    message: &str,
    tokens: i64,
    stamp: u64,
) -> (r: SessionTurn)
    requires
        session_records(existing).len() + 2 <= i64::MAX,
    ensures
        ({
            let records = session_records(existing);
            &&& r.step == records.len() + 1
            &&& r.history_len == records.len()
            &&& r.user_record@ == msg_view(
                id_text("msg"@, stamp as nat),
                session_id@,
                r.step,
                "user"@,
                message@,
                tokens,
            )
            &&& message_views(r.messages@) == history(records).push((Role::User, message@))
        }),
{
    let mut messages: Vec<Message> = Vec::new();
    let ghost records = session_records(existing);
    let history_len: usize = match existing {
        Some(payload) => {
            let mut i: usize = 0;
            assert(message_views(messages@) =~= history(records.take(0)));
            while i < payload.records.len()
                invariant
                    i <= payload.records@.len(),
                    records == record_views(payload.records@),
                    message_views(messages@) == history(records.take(i as int)),
                decreases payload.records@.len() - i,
            {
                assert(records.take(i + 1).drop_last() =~= records.take(i as int));
                let rec = &payload.records[i];
                if rec.record_type == RecordType::Msg {
                    let ghost before = message_views(messages@);
                    let m = replay(rec);
                    messages.push(m);
                    assert(message_views(messages@) =~= before.push((m.role, m.content@)));
                }
                i = i + 1;
            }
            assert(records.take(records.len() as int) =~= records);
            payload.records.len()
        },
        None => {
            assert(message_views(messages@) =~= history(records));
            0
        },
    };
    let step: i64 = history_len as i64 + 1;
    let id = gen_id_at("msg", stamp as u128);
    let user_record = msg_record(id.as_str(), session_id, step, "user", message, tokens);
    let ghost before = message_views(messages@);
    messages.push(Message { role: Role::User, content: message.to_owned() });
    assert(message_views(messages@) =~= before.push((Role::User, message@)));
    SessionTurn { step, history_len, user_record, messages }
}

/// One turn of a session, whose message is numbered `stamp`; the tokens of the message are counted.
pub fn session_turn(session_id: &str, existing: Option<&AgentPayload>, message: &str, stamp: u64) -> (r:
    SessionTurn)
    requires
        session_records(existing).len() + 2 <= i64::MAX,
    ensures
        ({
            let records = session_records(existing);
            &&& r.step == records.len() + 1
            &&& r.history_len == records.len()
            &&& r.user_record@ == msg_view(
                id_text("msg"@, stamp as nat),
                session_id@,
                r.step,
                "user"@,
                message@,
                token_count(message@) as i64,
            )
            &&& message_views(r.messages@) == history(records).push((Role::User, message@))
        }),
{
    let tokens: usize = count_tokens(message);
    session_turn_at(session_id, existing, message, tokens as i64, stamp)
}

/// What becomes of a turn once the model has answered: the answer to the request, and the records
/// to append to the session, the user's message first. Without a model's answer nothing is
/// appended.
#[derive(Debug, Clone)]
pub struct SessionEnd {
    pub reply: Reply,
    pub records: Vec<AgentRecord>,
}

/// The answer to a request to a session.
pub open spec fn session_answer_json(
    session_id: Seq<char>,
    a: LlmReply,
    latency_ms: u64,
    history_len: int,
    tenant: Option<Seq<char>>,
) -> JsonView {
    JsonView::Object(
        with_tenant(
            map![
                "session_id"@ => JsonView::Str(session_id),
                "content"@ => JsonView::Str(a.content@),
                "model"@ => JsonView::Str(a.model@),
                "input_tokens"@ => JsonView::Int(a.input_tokens as int),
                "output_tokens"@ => JsonView::Int(a.output_tokens as int),
                "latency_ms"@ => JsonView::Int(latency_ms as int),
                "history_length"@ => JsonView::Int(history_len),
            ],
            tenant,
        ),
    )
}

/// What becomes of a turn, once the model has answered; the answer is numbered `stamp`.
pub fn session_end(
    session_id: &str,
    turn: SessionTurn,
    result: &Result<LlmReply, String>,
    latency_ms: u64,
    stamp: u64,
    tenant: Option<&str>,
) -> (r: SessionEnd)
    requires
        countable(*result),
        turn.step < i64::MAX,
        turn.history_len + 2 <= usize::MAX,
    ensures
        r.reply.response@ == (match *result {
            Ok(a) => ok_json(
                session_answer_json(
                    session_id@,
                    a,
                    latency_ms,
                    turn.history_len + 2,
                    opt_str_view(tenant),
                ),
            ),
            Err(e) => error_response(500, e@),
        }),
        r.reply.usage == (match *result {
            Ok(a) => tenant_usage(opt_str_view(tenant), tokens_of(a) as u64),
            Err(_) => None,
        }),
        record_views(r.records@) == (match *result {
            Ok(a) => seq![
                turn.user_record@,
                msg_view(
                    id_text("msg"@, stamp as nat),
                    session_id@,
                    (turn.step + 1) as i64,
                    "assistant"@,
                    a.content@,
                    tokens_of(a) as i64,
                ),
            ],
            Err(_) => Seq::empty(),
        }),
{
    match result {
        Ok(a) => {
            let total: u64 = a.input_tokens + a.output_tokens;
            let id = gen_id_at("msg", stamp as u128);
            let rec = msg_record(
                id.as_str(),
                session_id,
                turn.step + 1,
                "assistant",
                a.content.as_str(),
                total as i64,
            );
            let len: usize = turn.history_len + 2;
            let o = JsonObject::new().text("session_id", session_id).text(
                "content",
                a.content.as_str(),
            ).text("model", a.model.as_str()).number("input_tokens", a.input_tokens).number(
                "output_tokens",
                a.output_tokens,
            ).number("latency_ms", latency_ms).number("history_length", len as u64);
            let ghost user = turn.user_record@;
            let ghost assistant = rec@;
            let records: Vec<AgentRecord> = vec![turn.user_record, rec];
            assert(record_views(records@) =~= seq![user, assistant]);
            SessionEnd {
                reply: Reply {
                    response: ok(add_tenant(o, tenant).build().to_text().as_str()),
                    usage: usage_of(tenant, total),
                },
                records,
            }
        },
        Err(e) => {
            let records: Vec<AgentRecord> = Vec::new();
            assert(record_views(records@) =~= Seq::empty());
            SessionEnd {
                reply: Reply { response: internal_error(e.as_str()), usage: None },
                records,
            }
        },
    }
}

/// The messages of a session as JSON.
pub open spec fn session_json(
    session_id: Seq<char>,
    records: Seq<RecordView>,
    tenant: Option<Seq<char>>,
) -> JsonView {
    JsonView::Object(
        with_tenant(
            map![
                "session_id"@ => JsonView::Str(session_id),
                "messages"@ => JsonView::Array(chat_list(records)),
                "length"@ => JsonView::Int(chat_list(records).len() as int),
            ],
            tenant,
        ),
    )
}

/// The messages of a session, as a response.
fn session_text(session_id: &str, payload: &AgentPayload, tenant: Option<&str>) -> (r: String)
    ensures
        r@ == ok_json(
            session_json(session_id@, record_views(payload.records@), opt_str_view(tenant)),
        ),
{
    let messages = payload_to_chat_json(payload);
    let len: usize = messages.len();
    assert(json_views(messages@).len() == len);
    let o = JsonObject::new().text("session_id", session_id).with(
        "messages",
        Json::array(messages),
    ).number("length", len as u64);
    ok(add_tenant(o, tenant).build().to_text().as_str())
}

/// `GET /v1/sessions/:id`: the messages of a session, as it was found in the store.
pub fn handle_get_session(session_id: &str, found: Option<&AgentPayload>) -> (r: String)
    ensures
        r@ == (match found {
            Some(p) => ok_json(session_json(session_id@, record_views(p.records@), None)),
            None => error_response(404, "session not found: "@ + session_id@),
        }),
{
    match found {
        Some(p) => session_text(session_id, p, None),
        None => not_found("session not found: ".to_owned().concat(session_id).as_str()),
    }
}

/// `GET /v1/sessions/:id` of a tenant: the messages of a session, as it was found under the
/// tenant's key.
pub fn handle_get_session_for_tenant(
    tenant_id: &str,
    permit: &Result<(), String>,
    session_id: &str,
    found: Option<&AgentPayload>,
) -> (r: Reply)
    ensures
        r.response@ == (match denial(*permit) {
            Some(d) => d,
            None => match found {
                Some(p) => ok_json(
                    session_json(session_id@, record_views(p.records@), Some(tenant_id@)),
                ),
                None => error_response(404, "session not found: "@ + session_id@),
            },
        }),
        r.usage == (if denial(*permit) is None && found is Some {
            Some(0u64)
        } else {
            None
        }),
{
    match denied(permit) {
        Some(d) => {
            return Reply { response: d, usage: None };
        },
        None => {},
    }
    match found {
        Some(p) => Reply {
            response: session_text(session_id, p, Some(tenant_id)),
            usage: Some(0),
        },
        None => Reply {
            response: not_found("session not found: ".to_owned().concat(session_id).as_str()),
            usage: None,
        },
    }
}

/// A stored session: its key, and how many records it has.
#[derive(Debug, Clone)]
pub struct StoredSession {
    pub key: String,
    pub records: usize,
}

/// Stored sessions, as values.
pub open spec fn stored_views(v: Seq<StoredSession>) -> Seq<(Seq<char>, usize)> {
    Seq::new(v.len(), |i: int| (v[i].key@, v[i].records))
}

/// The sessions whose key begins with `prefix`, as JSON, in order.
pub open spec fn session_rows(v: Seq<(Seq<char>, usize)>, prefix: Seq<char>) -> Seq<JsonView>
    decreases v.len(),
{
    if v.len() == 0 {
        Seq::empty()
    } else if begins(v.last().0, prefix) {
        session_rows(v.drop_last(), prefix).push(
            JsonView::Object(
                map![
                    "id"@ => JsonView::Str(v.last().0.skip(prefix.len() as int)),
                    "messages"@ => JsonView::Int(v.last().1 as int),
                ],
            ),
        )
    } else {
        session_rows(v.drop_last(), prefix)
    }
}

/// The sessions whose key begins with `prefix`, as a response.
fn sessions_text(sessions: &Vec<StoredSession>, prefix: &str, tenant: Option<&str>) -> (r: String)
    ensures
        ({
            let rows = session_rows(stored_views(sessions@), prefix@);
            r@ == ok_json(
                JsonView::Object(
                    with_tenant(
                        map![
                            "sessions"@ => JsonView::Array(rows),
                            "count"@ => JsonView::Int(rows.len() as int),
                        ],
                        opt_str_view(tenant),
                    ),
                ),
            )
        }),
{
    let ghost all = stored_views(sessions@);
    let mut rows: Vec<Json> = Vec::new();
    let mut i: usize = 0;
    assert(json_views(rows@) =~= session_rows(all.take(0), prefix@));
    while i < sessions.len()
        invariant
            i <= sessions@.len(),
            all == stored_views(sessions@),
            json_views(rows@) == session_rows(all.take(i as int), prefix@),
        decreases sessions@.len() - i,
    {
        assert(all.take(i + 1).drop_last() =~= all.take(i as int));
        assert(all.take(i + 1).last() == (sessions@[i as int].key@, sessions@[i as int].records));
        let ghost before = json_views(rows@);
        match strip_prefix(sessions[i].key.as_str(), prefix) {
            Some(id) => {
                let row = JsonObject::new().text("id", id).number(
                    "messages",
                    sessions[i].records as u64,
                ).build();
                rows.push(row);
                assert(json_views(rows@) =~= before.push(row@));
            },
            None => {},
        }
        i = i + 1;
    }
    assert(all.take(all.len() as int) =~= all);
    let count: usize = rows.len();
    assert(json_views(rows@).len() == count);
    let o = JsonObject::new().with("sessions", Json::array(rows)).number("count", count as u64);
    ok(add_tenant(o, tenant).build().to_text().as_str())
}

/// `GET /v1/sessions`: the sessions that belong to no tenant.
pub fn handle_list_sessions(sessions: &Vec<StoredSession>) -> (r: String)
    ensures
        ({
            let rows = session_rows(stored_views(sessions@), "session:"@);
            r@ == ok_json(
                JsonView::Object(
                    map![
                        "sessions"@ => JsonView::Array(rows),
                        "count"@ => JsonView::Int(rows.len() as int),
                    ],
                ),
            )
        }),
{
    sessions_text(sessions, "session:", None)
}

/// `GET /v1/sessions` of a tenant: the tenant's sessions.
pub fn handle_list_sessions_for_tenant(
    tenant_id: &str,
    permit: &Result<(), String>,
    sessions: &Vec<StoredSession>,
) -> (r: Reply)
    ensures
        ({
            let rows = session_rows(
                stored_views(sessions@),
                tenant_key(tenant_id@, KeyKind::Session, ""@),
            );
            r.response@ == (match denial(*permit) {
                Some(d) => d,
                None => ok_json(
                    JsonView::Object(
                        with_tenant(
                            map![
                                "sessions"@ => JsonView::Array(rows),
                                "count"@ => JsonView::Int(rows.len() as int),
                            ],
                            Some(tenant_id@),
                        ),
                    ),
                ),
            })
        }),
        r.usage == (if denial(*permit) is None {
            Some(0u64)
        } else {
            None
        }),
{
    match denied(permit) {
        Some(d) => {
            return Reply { response: d, usage: None };
        },
        None => {},
    }
    let prefix = key_for(tenant_id, KeyKind::Session, "");
    Reply { response: sessions_text(sessions, prefix.as_str(), Some(tenant_id)), usage: Some(0) }
}

// ---------------------------------------------------------------------------
// Laws

/// What was said in a session is sent to the model again at the next turn: after the user's
/// message and the model's answer are appended, both follow the earlier history, in order.
pub proof fn session_remembers(
    records: Seq<RecordView>,
    user: RecordView,
    assistant: RecordView,
    session_id: Seq<char>,
    id: Seq<char>,
    step: i64,
    message: Seq<char>,
    answer: Seq<char>,
    tokens: i64,
    answer_tokens: i64,
)
    requires
        user == msg_view(id, session_id, step, "user"@, message, tokens),
        assistant == msg_view(id, session_id, step, "assistant"@, answer, answer_tokens),
    ensures
        history(records.push(user).push(assistant)) == history(records).push(
            (Role::User, message),
        ).push((Role::Assistant, answer)),
{
    reveal_strlit("user");
    reveal_strlit("assistant");
    reveal_strlit("system");
    assert("user"@.len() == 4);
    assert("assistant"@.len() == 9);
    assert("system"@.len() == 6);
    assert(records.push(user).drop_last() =~= records);
    assert(records.push(user).push(assistant).drop_last() =~= records.push(user));
    assert(replayed(user) == (Role::User, message));
    assert(replayed(assistant) == (Role::Assistant, answer));
    assert(history(records.push(user)) == history(records).push(replayed(user)));
}

/// What was said in a session is shown with it: both messages of a turn follow the earlier ones,
/// in order.
pub proof fn session_shows_what_was_said(
    records: Seq<RecordView>,
    session_id: Seq<char>,
    id: Seq<char>,
    step: i64,
    message: Seq<char>,
    answer: Seq<char>,
    tokens: i64,
    answer_tokens: i64,
)
    ensures
        ({
            let user = msg_view(id, session_id, step, "user"@, message, tokens);
            let assistant = msg_view(id, session_id, step, "assistant"@, answer, answer_tokens);
            chat_list(records.push(user).push(assistant)) == chat_list(records).push(
                JsonView::Object(
                    map!["role"@ => JsonView::Str("user"@), "content"@ => JsonView::Str(message)],
                ),
            ).push(
                JsonView::Object(
                    map![
                        "role"@ => JsonView::Str("assistant"@),
                        "content"@ => JsonView::Str(answer),
                    ],
                ),
            )
        }),
{
    let user = msg_view(id, session_id, step, "user"@, message, tokens);
    let assistant = msg_view(id, session_id, step, "assistant"@, answer, answer_tokens);
    assert(records.push(user).drop_last() =~= records);
    assert(records.push(user).push(assistant).drop_last() =~= records.push(user));
    assert(chat_list(records.push(user)) == chat_list(records).push(
        crate::bridge::chat_json(user),
    ));
}

/// A session key of a tenant is never that of a session without tenant.
pub proof fn tenant_sessions_are_apart(t: Seq<char>, a: Seq<char>, b: Seq<char>)
    ensures
        session_store_key(Some(t), a) != session_store_key(None, b),
{
    reveal_strlit("t:");
    reveal_strlit("session:");
    assert(session_store_key(Some(t), a)[0] == 't');
    assert(session_store_key(None, b)[0] == 's');
}

} // verus!
