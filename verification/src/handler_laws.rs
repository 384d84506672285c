//! What every answer of a handler tells, whatever it is asked.

use vstd::prelude::*;
use vstd::utf8::*;

use crate::bridge::{
    chat_list, id_text, msg_record, obs_record, record_views, res_record, run_list, tool_record,
    AgentPayload, AgentRecord, FieldView, RecordType,
};
use crate::chat::{
    chat_reply, chat_stream_end, chat_stream_rest, event_text, handle_chat, handle_chat_for_tenant,
    handle_get_session, handle_get_session_for_tenant, handle_list_sessions,
    handle_list_sessions_for_tenant, handle_session_message, handle_session_message_for_tenant,
    message_views, session_end, session_rows, session_turn_at, stored_views, token_json, ChatRequest,
    LlmReply, Role, SessionEnd, SessionTurn, StoredSession, StreamEnd,
};
use crate::degradation::DegradationMode;
use crate::dispatch_laws::errors_tell_what_is_wrong;
use crate::documents::{
    handle_get, handle_get_for_tenant, handle_put, handle_put_for_tenant, handle_search, handle_search_for_tenant,
    put_reply, PutRequest, SearchHit,
};
use crate::handlers::{handle_health, AppState};
use crate::json::{pair_views, parsed_json, parsed_json_bytes, Json, JsonView};
use crate::observe::{
    byte_views, count_succeeded, handle_get_run, handle_get_run_for_tenant, handle_list_runs,
    handle_list_runs_for_tenant, handle_metrics, handle_metrics_for_tenant, newest, newest_rows,
    own_runs, stats_of, stored_run_rows, sum_latency, sum_tokens, RowKind, StoredRun,
};
use crate::requests::Reply;
use crate::response::{error_response, ok_json};
use crate::server::status_of;
use crate::slo::{SloReport, SloTracker};
use crate::tenant::{
    byte_before, create_tenant_end, handle_create_tenant, handle_delete_tenant, handle_get_tenant,
    handle_list_tenants, prefix_end_bytes, quota_json, scan_finds_the_prefix, tenant_key,
    tenant_members, usage_json, KeyKind, NewTenant, Tenant, TenantUsage,
};
use crate::text::{clip_bytes, opt_str_view, opt_view, views};
use crate::tools::{
    action_named, handle_list_tools, handle_tool_call_for_tenant, plan_tool, tool_json, tool_refusal,
    StoreRequest, ToolAction, ToolArgs, ToolCall, ToolInfo, ToolReply,
};
use crate::workflows::{
    every_output_is_kept, handle_list_workflows, handle_list_workflows_for_tenant,
    handle_register_workflow, handle_run, handle_run_named,
    handle_run_named_for_tenant, keeps_output, output_json, register_reply, run_payload_at, settle_run,
    settle_run_stream, settle_tenant_run, workflow_rows, workflow_views, ModelCost, RunFault,
    RunOutcome, RunRequest, RunSettled, StoredWorkflow,
};

verus! {

proof fn lemma_names()
    ensures
        "status"@.len() == 6 && "status"@[0] == 's' && "status"@[2] == 'a',
        "version"@.len() == 7 && "version"@[0] == 'v' && "version"@[2] == 'r',
        "uptime_seconds"@.len() == 14 && "uptime_seconds"@[0] == 'u' && "uptime_seconds"@[2] == 't',
        "tools"@.len() == 5 && "tools"@[0] == 't' && "tools"@[2] == 'o',
        "resources"@.len() == 9 && "resources"@[0] == 'r' && "resources"@[2] == 's',
        "llm"@.len() == 3 && "llm"@[0] == 'l' && "llm"@[2] == 'm',
        "content"@.len() == 7 && "content"@[0] == 'c' && "content"@[2] == 'n',
        "model"@.len() == 5 && "model"@[0] == 'm' && "model"@[2] == 'd',
        "input_tokens"@.len() == 12 && "input_tokens"@[0] == 'i' && "input_tokens"@[2] == 'p',
        "output_tokens"@.len() == 13 && "output_tokens"@[0] == 'o' && "output_tokens"@[2] == 't',
        "finish_reason"@.len() == 13 && "finish_reason"@[0] == 'f' && "finish_reason"@[2] == 'n',
        "latency_ms"@.len() == 10 && "latency_ms"@[0] == 'l' && "latency_ms"@[2] == 't',
        "session_id"@.len() == 10 && "session_id"@[0] == 's' && "session_id"@[2] == 's',
        "history_length"@.len() == 14 && "history_length"@[0] == 'h' && "history_length"@[2] == 's',
        "tenant_id"@.len() == 9 && "tenant_id"@[0] == 't' && "tenant_id"@[2] == 'n',
        "sessions"@.len() == 8 && "sessions"@[0] == 's' && "sessions"@[2] == 's',
        "count"@.len() == 5 && "count"@[0] == 'c' && "count"@[2] == 'u',
        "key"@.len() == 3 && "key"@[0] == 'k' && "key"@[2] == 'y',
        "query"@.len() == 5 && "query"@[0] == 'q' && "query"@[2] == 'e',
        "results"@.len() == 7 && "results"@[0] == 'r' && "results"@[2] == 's',
        "value"@.len() == 5 && "value"@[0] == 'v' && "value"@[2] == 'l',
        "size"@.len() == 4 && "size"@[0] == 's' && "size"@[2] == 'z',
        "runs"@.len() == 4 && "runs"@[0] == 'r' && "runs"@[2] == 'n',
        "run_id"@.len() == 6 && "run_id"@[0] == 'r' && "run_id"@[2] == 'n',
        "records"@.len() == 7 && "records"@[0] == 'r' && "records"@[2] == 'c',
        "record_count"@.len() == 12 && "record_count"@[0] == 'r' && "record_count"@[2] == 'c',
        "quota"@.len() == 5 && "quota"@[0] == 'q' && "quota"@[2] == 'o',
        "usage"@.len() == 5 && "usage"@[0] == 'u' && "usage"@[2] == 'a',
        "name"@.len() == 4 && "name"@[0] == 'n' && "name"@[2] == 'm',
        "steps"@.len() == 5 && "steps"@[0] == 's' && "steps"@[2] == 'e',
        "workflows"@.len() == 9 && "workflows"@[0] == 'w' && "workflows"@[2] == 'r',
        "tenants"@.len() == 7 && "tenants"@[0] == 't' && "tenants"@[2] == 'n',
        "messages"@.len() == 8 && "messages"@[0] == 'm' && "messages"@[2] == 's',
        "length"@.len() == 6 && "length"@[0] == 'l' && "length"@[2] == 'n',
{
    reveal_strlit("status");
    reveal_strlit("version");
    reveal_strlit("uptime_seconds");
    reveal_strlit("tools");
    reveal_strlit("resources");
    reveal_strlit("llm");
    reveal_strlit("content");
    reveal_strlit("model");
    reveal_strlit("input_tokens");
    reveal_strlit("output_tokens");
    reveal_strlit("finish_reason");
    reveal_strlit("latency_ms");
    reveal_strlit("session_id");
    reveal_strlit("history_length");
    reveal_strlit("tenant_id");
    reveal_strlit("sessions");
    reveal_strlit("count");
    reveal_strlit("key");
    reveal_strlit("query");
    reveal_strlit("results");
    reveal_strlit("value");
    reveal_strlit("size");
    reveal_strlit("runs");
    reveal_strlit("run_id");
    reveal_strlit("records");
    reveal_strlit("record_count");
    reveal_strlit("quota");
    reveal_strlit("usage");
    reveal_strlit("name");
    reveal_strlit("steps");
    reveal_strlit("workflows");
    reveal_strlit("tenants");
    reveal_strlit("messages");
    reveal_strlit("length");
}

/// Whether a response is a success that tells `v` under the name `k`.
pub open spec fn tells(response: Seq<char>, k: Seq<char>, v: JsonView) -> bool {
    exists|body: JsonView| response == #[trigger] ok_json(body) && body.member(k) == v
}

/// Whether a response is a success that lists `items` under the name `k`, and how many there are.
pub open spec fn lists(response: Seq<char>, k: Seq<char>, items: Seq<JsonView>) -> bool {
    exists|body: JsonView|
        {
            &&& response == #[trigger] ok_json(body)
            &&& body.member(k) == JsonView::Array(items)
            &&& body.member("count"@) == JsonView::Int(items.len() as int)
        }
}

// ---------------------------------------------------------------------------
// The gateway itself

/// The health of the gateway tells its version, for how long it runs, how many tools and resources
/// it has, and its model.
pub proof fn health_is_told(state: &AppState, uptime: u64, r: String)
    requires
        call_ensures(handle_health, (state, uptime), r),
    ensures
        tells(r@, "status"@, JsonView::Str("ok"@)),
        tells(r@, "version"@, JsonView::Str(state.version@)),
        tells(r@, "uptime_seconds"@, JsonView::Int(uptime as int)),
        tells(r@, "tools"@, JsonView::Int(state.tool_count as int)),
        tells(r@, "resources"@, JsonView::Int(state.resource_count as int)),
        state.llm matches Some(l) ==> tells(
            r@,
            "llm"@,
            JsonView::Str(l.provider@ + ":"@ + l.model@),
        ),
        state.llm is None ==> tells(r@, "llm"@, JsonView::Null),
{
    lemma_names();
}

// ---------------------------------------------------------------------------
// Chats and sessions

/// A reply of the model is answered with what it said, by which model, and with what it took; a
/// tenant is charged with all of it. A failure is answered with status 500, and nobody is charged.
pub proof fn replies_are_passed_on(
    result: &Result<LlmReply, String>,
    latency_ms: u64,
    tenant: Option<&str>,
    r: Reply,
)
    requires
        call_ensures(chat_reply, (result, latency_ms, tenant), r),
        *result matches Ok(a) ==> a.input_tokens + a.output_tokens <= u64::MAX,
    ensures
        *result matches Ok(a) ==> {
            &&& tells(r.response@, "content"@, JsonView::Str(a.content@))
            &&& tells(r.response@, "model"@, JsonView::Str(a.model@))
            &&& tells(r.response@, "input_tokens"@, JsonView::Int(a.input_tokens as int))
            &&& tells(r.response@, "output_tokens"@, JsonView::Int(a.output_tokens as int))
            &&& tells(r.response@, "finish_reason"@, JsonView::Str(a.finish_reason@))
            &&& tells(r.response@, "latency_ms"@, JsonView::Int(latency_ms as int))
            &&& tenant matches Some(t) ==> tells(r.response@, "tenant_id"@, JsonView::Str(t@))
                && r.usage == Some((a.input_tokens + a.output_tokens) as u64)
            &&& tenant is None ==> r.usage is None
        },
        *result matches Err(e) ==> r.response@ == error_response(500, e@) && status_of(r.response@) == 500
            && r.usage is None,
{
    lemma_names();
    match *result {
        Err(e) => {
            errors_tell_what_is_wrong(500, e@);
        },
        Ok(_) => {},
    }
}

/// A stream charges a tenant with all that the reply took, and with nothing where it failed.
pub proof fn streams_are_charged(
    result: &Result<LlmReply, String>,
    latency_ms: u64,
    tenant: Option<&str>,
    r: Reply,
)
    requires
        call_ensures(chat_stream_end, (result, latency_ms, tenant), r),
        *result matches Ok(a) ==> a.input_tokens + a.output_tokens <= u64::MAX,
    ensures
        r.usage == (match (*result, tenant) {
            (Ok(a), Some(_)) => Some((a.input_tokens + a.output_tokens) as u64),
            _ => None,
        }),
{
}

/// A turn comes after all that the session has so far: its message is numbered on, kept as the
/// user's and sent last.
pub proof fn turns_come_last(
    session_id: &str,
    existing: Option<&AgentPayload>,
    message: &str,
    tokens: i64,
    stamp: u64,
    r: SessionTurn,
)
    requires
        call_ensures(session_turn_at, (session_id, existing, message, tokens, stamp), r),
    ensures
        ({
            let n = match existing {
                Some(p) => p.records@.len(),
                None => 0,
            };
            let sent = message_views(r.messages@);
            &&& r.step == n + 1
            &&& r.history_len == n
            &&& sent.len() > 0 && sent.last() == (Role::User, message@)
            &&& r.user_record@.thread_id == session_id@
            &&& r.user_record@.id == id_text("msg"@, stamp as nat)
            &&& r.user_record@.step == n + 1
            &&& r.user_record@.text_field(RecordType::Msg, 0) == Some("user"@)
            &&& r.user_record@.text_field(RecordType::Msg, 2) == Some(message@)
        }),
{
}

/// A turn that was answered adds the user's record and the answer's to the session, numbered one
/// after the other, and tells that the session is longer by both; one that failed adds nothing.
pub proof fn answers_are_added(
    session_id: &str,
    turn: SessionTurn,
    result: &Result<LlmReply, String>,
    latency_ms: u64,
    stamp: u64,
    tenant: Option<&str>,
    r: SessionEnd,
)
    requires
        call_ensures(session_end, (session_id, turn, result, latency_ms, stamp, tenant), r),
        turn.step < i64::MAX,
        *result matches Ok(a) ==> a.input_tokens + a.output_tokens <= u64::MAX,
    ensures
        *result matches Ok(a) ==> {
            let added = record_views(r.records@);
            &&& added.len() == 2
            &&& added[0] == turn.user_record@
            &&& added[1].step == turn.step + 1
            &&& added[1].thread_id == session_id@
            &&& added[1].text_field(RecordType::Msg, 0) == Some("assistant"@)
            &&& added[1].text_field(RecordType::Msg, 2) == Some(a.content@)
            &&& tells(r.reply.response@, "session_id"@, JsonView::Str(session_id@))
            &&& tells(r.reply.response@, "content"@, JsonView::Str(a.content@))
            &&& tells(r.reply.response@, "model"@, JsonView::Str(a.model@))
            &&& tells(r.reply.response@, "latency_ms"@, JsonView::Int(latency_ms as int))
            &&& tells(r.reply.response@, "history_length"@, JsonView::Int(turn.history_len + 2))
            &&& r.reply.usage == (match tenant {
                Some(_) => Some((a.input_tokens + a.output_tokens) as u64),
                None => None,
            })
        },
        *result matches Err(e) ==> r.reply.response@ == error_response(500, e@) && status_of(
            r.reply.response@,
        ) == 500 && r.reply.usage is None && r.records@.len() == 0,
{
    lemma_names();
    match *result {
        Err(e) => {
            errors_tell_what_is_wrong(500, e@);
            assert(record_views(r.records@).len() == 0);
        },
        Ok(_) => {},
    }
}

/// A session that is there is shown with its messages and their number; one that is not is answered
/// with status 404.
pub proof fn sessions_are_answered(session_id: &str, found: Option<&AgentPayload>, r: String)
    requires
        call_ensures(handle_get_session, (session_id, found), r),
    ensures
        found matches Some(p) ==> {
            let messages = chat_list(record_views(p.records@));
            &&& tells(r@, "session_id"@, JsonView::Str(session_id@))
            &&& tells(r@, "messages"@, JsonView::Array(messages))
            &&& tells(r@, "length"@, JsonView::Int(messages.len() as int))
        },
        found is None ==> status_of(r@) == 404,
{
    lemma_names();
    errors_tell_what_is_wrong(404, "session not found: "@ + session_id@);
}

/// A tenant that may see a session is answered as anyone is, with its own name; one that may not is
/// refused with status 403. Only what is shown is put down to its account.
pub proof fn tenant_sessions_are_answered(
    tenant_id: &str,
    permit: &Result<(), String>,
    session_id: &str,
    found: Option<&AgentPayload>,
    r: Reply,
)
    requires
        call_ensures(handle_get_session_for_tenant, (tenant_id, permit, session_id, found), r),
    ensures
        *permit is Err ==> status_of(r.response@) == 403 && r.usage is None,
        *permit is Ok && found is None ==> status_of(r.response@) == 404 && r.usage is None,
        *permit is Ok ==> (found matches Some(p) ==> {
            let messages = chat_list(record_views(p.records@));
            &&& tells(r.response@, "session_id"@, JsonView::Str(session_id@))
            &&& tells(r.response@, "messages"@, JsonView::Array(messages))
            &&& tells(r.response@, "length"@, JsonView::Int(messages.len() as int))
            &&& tells(r.response@, "tenant_id"@, JsonView::Str(tenant_id@))
            &&& r.usage == Some(0u64)
        }),
{
    lemma_names();
    errors_tell_what_is_wrong(404, "session not found: "@ + session_id@);
    match *permit {
        Err(e) => {
            errors_tell_what_is_wrong(403, e@);
        },
        Ok(_) => {},
    }
}

/// Sessions are listed with their number, and for a tenant its own alone.
pub proof fn session_lists_are_counted(
    sessions: &Vec<StoredSession>,
    tenant_id: &str,
    permit: &Result<(), String>,
    all: String,
    own: Reply,
)
    requires
        call_ensures(handle_list_sessions, (sessions,), all),
        call_ensures(handle_list_sessions_for_tenant, (tenant_id, permit, sessions), own),
    ensures
        lists(all@, "sessions"@, session_rows(stored_views(sessions@), "session:"@)),
        *permit is Ok ==> lists(
            own.response@,
            "sessions"@,
            session_rows(stored_views(sessions@), tenant_key(tenant_id@, KeyKind::Session, ""@)),
        ) && tells(own.response@, "tenant_id"@, JsonView::Str(tenant_id@)) && own.usage == Some(0u64),
        *permit is Err ==> status_of(own.response@) == 403 && own.usage is None,
{
    lemma_names();
    match *permit {
        Err(e) => {
            errors_tell_what_is_wrong(403, e@);
        },
        Ok(_) => {},
    }
}

// ---------------------------------------------------------------------------
// Documents

/// A document that was stored is answered with its key, one that was not with status 500; a tenant
/// is named, and what was stored counts.
pub proof fn puts_are_answered(key: &str, tenant: Option<&str>, stored: &Result<(), String>, r: Reply)
    requires
        call_ensures(put_reply, (key, tenant, stored), r),
    ensures
        *stored is Ok ==> {
            &&& tells(r.response@, "status"@, JsonView::Str("ok"@))
            &&& tells(r.response@, "key"@, JsonView::Str(key@))
            &&& tenant matches Some(t) ==> tells(r.response@, "tenant_id"@, JsonView::Str(t@))
            &&& r.usage == (match tenant {
                Some(_) => Some(0u64),
                None => None,
            })
        },
        *stored matches Err(e) ==> r.response@ == error_response(500, e@) && status_of(r.response@) == 500
            && r.usage is None,
{
    lemma_names();
    match *stored {
        Err(e) => {
            errors_tell_what_is_wrong(500, e@);
        },
        Ok(_) => {},
    }
}

/// A tenant's document goes under the tenant's key, and none goes anywhere where the tenant may not
/// write.
pub proof fn tenant_puts_stay_inside(
    tenant_id: &str,
    permit: &Result<(), String>,
    body: &str,
    r: Result<(PutRequest, String), String>,
)
    requires
        call_ensures(handle_put_for_tenant, (tenant_id, permit, body), r),
    ensures
        r matches Ok((p, scoped)) ==> *permit is Ok && scoped@ == tenant_key(
            tenant_id@,
            KeyKind::Doc,
            p@.0,
        ),
        *permit is Err ==> (r matches Err(a) && status_of(a@) == 403),
{
    match *permit {
        Err(e) => {
            errors_tell_what_is_wrong(403, e@);
        },
        Ok(_) => {},
    }
}

/// A stored text is given back as it is, with its length in bytes; what is not there is answered
/// with status 404, to a tenant too, and what a tenant may not see with status 403.
pub proof fn documents_are_given_back(
    tenant_id: &str,
    permit: &Result<(), String>,
    key: &str,
    found: Option<&[u8]>,
    r: String,
    own: Reply,
)
    requires
        call_ensures(handle_get, (key, found), r),
        call_ensures(handle_get_for_tenant, (tenant_id, permit, key, found), own),
    ensures
        found matches Some(v) ==> (valid_utf8(v@) ==> {
            &&& tells(r@, "key"@, JsonView::Str(key@))
            &&& tells(r@, "value"@, JsonView::Str(decode_utf8(v@)))
            &&& tells(r@, "size"@, JsonView::Int(v@.len() as int))
            &&& *permit is Ok ==> tells(own.response@, "key"@, JsonView::Str(key@)) && tells(
                own.response@,
                "value"@,
                JsonView::Str(decode_utf8(v@)),
            ) && tells(own.response@, "size"@, JsonView::Int(v@.len() as int)) && tells(
                own.response@,
                "tenant_id"@,
                JsonView::Str(tenant_id@),
            ) && own.usage == Some(0u64)
        }),
        found is None ==> status_of(r@) == 404,
        *permit is Ok && found is None ==> status_of(own.response@) == 404 && own.usage is None,
        *permit is Err ==> status_of(own.response@) == 403 && own.usage is None,
{
    lemma_names();
    errors_tell_what_is_wrong(404, "key not found: "@ + key@);
    match *permit {
        Err(e) => {
            errors_tell_what_is_wrong(403, e@);
        },
        Ok(_) => {},
    }
}

/// A search tells what was searched for, and how many results there are of those that it lists.
pub proof fn searches_are_answered(
    tenant_id: &str,
    permit: &Result<(), String>,
    query: &str,
    hits: &Vec<SearchHit>,
    r: String,
    own: Reply,
)
    requires
        call_ensures(handle_search, (query, hits), r),
        call_ensures(handle_search_for_tenant, (tenant_id, permit, query, hits), own),
    ensures
        tells(r@, "query"@, JsonView::Str(query@)),
        tells(r@, "count"@, JsonView::Int(hits@.len() as int)),
        *permit is Ok ==> {
            &&& tells(own.response@, "query"@, JsonView::Str(query@))
            &&& tells(own.response@, "tenant_id"@, JsonView::Str(tenant_id@))
            &&& exists|items: Seq<JsonView>| #[trigger] lists(own.response@, "results"@, items)
            &&& own.usage == Some(0u64)
        },
        *permit is Err ==> status_of(own.response@) == 403 && own.usage is None,
{
    lemma_names();
    match *permit {
        Err(e) => {
            errors_tell_what_is_wrong(403, e@);
        },
        Ok(_) => {
            let items = crate::documents::tenant_hits_json(
                crate::documents::hit_views(hits@),
                tenant_key(tenant_id@, KeyKind::Doc, Seq::empty()),
            );
            assert(lists(own.response@, "results"@, items));
        },
    }
}

// ---------------------------------------------------------------------------
// Runs and workflows

/// Runs are listed with their number: of all runs the newest hundred, and of a tenant's own as many.
pub proof fn run_lists_are_counted(
    values: &Vec<Vec<u8>>,
    tenant_id: &str,
    stored: &Vec<StoredRun>,
    all: String,
    own: Reply,
)
    requires
        call_ensures(handle_list_runs, (values,), all),
        call_ensures(handle_list_runs_for_tenant, (tenant_id, stored), own),
    ensures
        lists(all@, "runs"@, newest_rows(byte_views(values@), 100, RowKind::Listed)),
        ({
            let prefix = tenant_key(tenant_id@, KeyKind::Run, ""@);
            lists(
                own.response@,
                "runs"@,
                stored_run_rows(newest(own_runs(stored@, prefix), 100), prefix),
            )
        }),
        tells(own.response@, "tenant_id"@, JsonView::Str(tenant_id@)),
        own.usage == Some(0u64),
{
    lemma_names();
}

/// A run that is not there is answered with status 404; a tenant's that is, with its observations
/// and the number of its records.
pub proof fn runs_are_answered(
    tenant_id: &str,
    run_id: &str,
    bytes: Option<&[u8]>,
    found: Option<&AgentPayload>,
    r: String,
    own: Reply,
)
    requires
        call_ensures(handle_get_run, (run_id, bytes), r),
        call_ensures(handle_get_run_for_tenant, (tenant_id, run_id, found), own),
    ensures
        bytes is None ==> status_of(r@) == 404,
        bytes matches Some(b) ==> (parsed_json_bytes(b@) matches Ok(v) ==> r@ == ok_json(v)),
        found is None ==> status_of(own.response@) == 404 && own.usage is None,
        found matches Some(p) ==> {
            &&& tells(own.response@, "run_id"@, JsonView::Str(run_id@))
            &&& tells(
                own.response@,
                "records"@,
                JsonView::Array(run_list(record_views(p.records@))),
            )
            &&& tells(own.response@, "record_count"@, JsonView::Int(p.records@.len() as int))
            &&& tells(own.response@, "tenant_id"@, JsonView::Str(tenant_id@))
            &&& own.usage == Some(0u64)
        },
{
    lemma_names();
    errors_tell_what_is_wrong(404, "run not found: "@ + run_id@);
}

/// A payload of a run goes under the key of the run, names the run as its thread, counts its
/// records, and keeps every output that is a text in a record of its own.
pub proof fn payloads_keep_their_run(
    report: &Json,
    tenant: Option<&str>,
    stamp: u64,
    r: (String, AgentPayload),
    run_id: Seq<char>,
    outputs: Map<Seq<char>, JsonView>,
    name: Seq<char>,
    text: Seq<char>,
)
    requires
        call_ensures(run_payload_at, (report, tenant, stamp), r),
        report@.member("run_id"@) == JsonView::Str(run_id),
        report@.member("outputs"@) == JsonView::Object(outputs),
        outputs.dom().finite(),
        outputs.contains_key(name),
        outputs[name] == JsonView::Str(text),
    ensures
        r.0@ == (match tenant {
            Some(t) => tenant_key(t@, KeyKind::Run, run_id),
            None => "run:"@ + run_id,
        }),
        opt_view(r.1.header.thread_id) == Some(run_id),
        r.1.header.record_count == r.1.records@.len(),
        exists|i: int|
            0 < i < r.1.records@.len() && keeps_output((#[trigger] r.1.records@[i])@, name, text),
{
    every_output_is_kept(report@, opt_str_view(tenant), stamp as nat, outputs, name, text);
    let all = crate::workflows::run_records(report@, opt_str_view(tenant), stamp as nat);
    let i = choose|i: int| 0 < i < all.len() && keeps_output(#[trigger] all[i], name, text);
    assert(record_views(r.1.records@)[i] == all[i]);
    assert(keeps_output(r.1.records@[i]@, name, text));
}

/// A run that came through is stored under its key; one that failed is answered with status 500,
/// and nothing is stored. A tenant is charged with the tokens of the run.
pub proof fn runs_are_settled(
    tenant_id: &str,
    name: Option<&str>,
    result: &Result<RunOutcome, RunFault>,
    latency_ms: u64,
    trace_id: &str,
    cost: &Vec<ModelCost>,
    ms: u64,
    stamp: u64,
    r: RunSettled,
    own: RunSettled,
)
    requires
        call_ensures(settle_run, (result, latency_ms, trace_id, cost, ms, stamp), r),
        call_ensures(settle_tenant_run, (tenant_id, name, result, latency_ms, ms, stamp), own),
    ensures
        r.reply.usage is None,
        *result matches Ok(o) ==> {
            &&& r.stored matches Some(x) && x.0@ == "run:"@ + o.run_id@
            &&& own.stored matches Some(x) && x.0@ == tenant_key(tenant_id@, KeyKind::Run, o.run_id@)
            &&& own.reply.usage == Some(o.tokens_used)
            &&& status_of(r.reply.response@) == 200 && status_of(own.reply.response@) == 200
        },
        *result is Err ==> {
            &&& r.stored is None && own.stored is None
            &&& own.reply.usage is None
            &&& status_of(r.reply.response@) == 500 && status_of(own.reply.response@) == 500
        },
{
    match *result {
        Ok(o) => {
            let report = crate::workflows::run_report(o, latency_ms, ms, trace_id@, cost@);
            let workflow = opt_str_view(name).unwrap_or("default"@);
            let other = crate::workflows::tenant_run_report(o, latency_ms, ms, workflow, tenant_id@);
            crate::workflow_laws::reports_tell_the_outcome(o, latency_ms, ms, trace_id@, cost@);
            crate::workflow_laws::tenant_reports_tell_the_outcome(
                o,
                latency_ms,
                ms,
                workflow,
                tenant_id@,
            );
            crate::server_laws::status_is_read_back(
                200,
                "application/json"@,
                crate::json::json_text(report),
            );
            crate::server_laws::status_is_read_back(
                200,
                "application/json"@,
                crate::json::json_text(other),
            );
        },
        Err(f) => {
            crate::workflow_laws::faults_are_server_errors(f, "flow build failed: "@);
            crate::workflow_laws::faults_are_server_errors(f, "build flow: "@);
        },
    }
}

/// A workflow that was registered is answered with its name and its steps.
pub proof fn registrations_are_answered(
    name: &str,
    steps: usize,
    stored: &Result<(), String>,
    tenant: Option<&str>,
    r: Reply,
)
    requires
        call_ensures(register_reply, (name, steps, stored, tenant), r),
    ensures
        *stored is Ok ==> {
            &&& tells(r.response@, "status"@, JsonView::Str("registered"@))
            &&& tells(r.response@, "name"@, JsonView::Str(name@))
            &&& tells(r.response@, "steps"@, JsonView::Int(steps as int))
            &&& tenant matches Some(t) ==> tells(r.response@, "tenant_id"@, JsonView::Str(t@))
            &&& r.usage == (match tenant {
                Some(_) => Some(0u64),
                None => None,
            })
        },
        *stored matches Err(e) ==> r.response@ == error_response(500, e@) && status_of(r.response@) == 500
            && r.usage is None,
{
    lemma_names();
    match *stored {
        Err(e) => {
            errors_tell_what_is_wrong(500, e@);
        },
        Ok(_) => {},
    }
}

// ---------------------------------------------------------------------------
// Tools

/// Every tool is listed in its place, and they are counted.
pub proof fn tools_are_listed(tools: &Vec<ToolInfo>, r: String, i: int)
    requires
        call_ensures(handle_list_tools, (tools,), r),
        0 <= i < tools@.len(),
    ensures
        exists|items: Seq<JsonView>| #[trigger]
            lists(r@, "tools"@, items) && items.len() == tools@.len() && items[i].member("name"@)
                == JsonView::Str(tools@[i].name@) && items[i].member("description"@)
                == JsonView::Str(tools@[i].description@),
{
    lemma_names();
    reveal_strlit("description");
    reveal_strlit("tags");
    reveal_strlit("timeout_ms");
    reveal_strlit("params");
    assert("description"@.len() == 11 && "tags"@.len() == 4 && "tags"@[0] == 't');
    assert("timeout_ms"@.len() == 10 && "params"@.len() == 6);
    let items = Seq::new(tools@.len(), |j: int| tool_json(tools@[j]));
    assert(lists(r@, "tools"@, items));
    assert(items[i] == tool_json(tools@[i]));
}

/// A tenant is charged with what a call took, unless the call was refused for want of a capability:
/// then the answer is status 403, with the reason, and nothing is charged.
pub proof fn calls_are_charged(tenant_id: &str, t: &ToolReply, r: Reply)
    requires
        call_ensures(handle_tool_call_for_tenant, (tenant_id, t), r),
    ensures
        !t.is_error ==> r.usage == Some(t.tokens_used.unwrap_or(0)) && tells(
            r.response@,
            "tenant_id"@,
            JsonView::Str(tenant_id@),
        ),
        t.is_error ==> (opt_view(t.error) matches Some(e) ==> (crate::text::occurs(
            e,
            "capability denied"@,
        ) <==> r.usage is None) && (r.usage is None ==> r.response@ == error_response(
            403,
            e,
        ))),
{
    lemma_names();
}

/// A plan of a search asks for the call's query and as many results as its limit says, and for a
/// tenant for four times as many.
pub proof fn searches_are_planned(
    tenant: Option<&str>,
    args: &ToolArgs,
    r: StoreRequest,
    query: String,
    n: usize,
)
    requires
        call_ensures(plan_tool, (ToolAction::Search, tenant, args), r),
        args.query == Some(query),
        args.limit matches Some(l) && l == n,
        n <= i64::MAX,
        n * 4 <= usize::MAX,
    ensures
        r matches StoreRequest::Search(q, depth) && q@ == query@ && depth == (if tenant is Some {
            n * 4
        } else {
            n as int
        }),
{
}

// ---------------------------------------------------------------------------
// Tenants

/// A tenant that is there is shown with its quota and its usage; one that is not is answered with
/// status 404.
pub proof fn tenants_are_answered(
    tenant_id: &str,
    found: Option<(&Tenant, &TenantUsage)>,
    r: String,
)
    requires
        call_ensures(handle_get_tenant, (tenant_id, found), r),
    ensures
        found matches Some((t, u)) ==> tells(r@, "quota"@, quota_json(t.quota)) && tells(
            r@,
            "usage"@,
            usage_json(*u),
        ),
        found is None ==> status_of(r@) == 404,
{
    lemma_names();
    errors_tell_what_is_wrong(404, "tenant not found: "@ + tenant_id@);
}

/// Deleting a tenant is answered with its name; where there was none with status 404, and where it
/// failed with status 500. A tenant that is there already is not created again.
pub proof fn deletions_are_answered(
    tenant_id: &str,
    removed: bool,
    deleted: &Result<(), String>,
    new: &NewTenant,
    registered: bool,
    r: String,
    refusal: Option<String>,
)
    requires
        call_ensures(handle_delete_tenant, (tenant_id, removed, deleted), r),
        call_ensures(create_tenant_end, (new, registered), refusal),
    ensures
        !removed ==> status_of(r@) == 404,
        removed && *deleted is Err ==> status_of(r@) == 500,
        removed && *deleted is Ok ==> tells(r@, "tenant_id"@, JsonView::Str(tenant_id@)) && tells(
            r@,
            "status"@,
            JsonView::Str("deleted"@),
        ),
        refusal is Some <==> registered,
        refusal matches Some(a) ==> status_of(a@) == 400,
{
    lemma_names();
    errors_tell_what_is_wrong(404, "tenant not found: "@ + tenant_id@);
    errors_tell_what_is_wrong(400, "tenant already exists: "@ + new.id@);
    match *deleted {
        Err(e) => {
            errors_tell_what_is_wrong(500, "delete tenant failed: "@ + e@);
        },
        Ok(_) => {},
    }
}

/// Every tenant is listed in its place, and they are counted.
pub proof fn tenants_are_listed(tenants: &Vec<Tenant>, r: String, i: int)
    requires
        call_ensures(handle_list_tenants, (tenants,), r),
        0 <= i < tenants@.len(),
    ensures
        exists|items: Seq<JsonView>| #[trigger]
            lists(r@, "tenants"@, items) && items.len() == tenants@.len() && items[i]
                == JsonView::Object(tenant_members(tenants@[i])),
{
    lemma_names();
    let items = Seq::new(tenants@.len(), |j: int| JsonView::Object(tenant_members(tenants@[j])));
    assert(lists(r@, "tenants"@, items));
}

// ---------------------------------------------------------------------------
// Objectives

/// A report holds the latency of something observed to be in order exactly where each of its three
/// percentiles keeps its target, and never where one does not.
pub proof fn reports_hold_every_target(t: &SloTracker, now: u64, r: SloReport)
    requires
        call_ensures(SloTracker::report_at, (t, now), r),
        t.held(now).len() > 0,
    ensures
        r.latency_ok <==> r.p50_ms <= t.target.latency_p50_ms && r.p95_ms <= t.target.latency_p95_ms
            && r.p99_ms <= t.target.latency_p99_ms,
        r.total_requests == t.held(now).len(),
{
    crate::slo::every_latency_target_counts(t.held(now), t.target, r);
}

// ---------------------------------------------------------------------------
// Records

/// A record of a tool's call or response keeps what it was built with.
pub proof fn tool_records_keep_their_texts(
    id: &str,
    thread_id: &str,
    step: i64,
    name: &str,
    text: &str,
    status: &str,
    latency_ms: i64,
    call: AgentRecord,
    response: AgentRecord,
)
    requires
        call_ensures(tool_record, (id, thread_id, step, name, text, status), call),
        call_ensures(res_record, (id, thread_id, step, name, text, status, latency_ms), response),
    ensures
        call@.id == id@ && call@.thread_id == thread_id@ && call@.step == step,
        call@.text_field(RecordType::Tool, 0) == Some(name@),
        call@.text_field(RecordType::Tool, 1) == Some(text@),
        call@.text_field(RecordType::Tool, 2) == Some(status@),
        response@.id == id@ && response@.thread_id == thread_id@ && response@.step == step,
        response@.text_field(RecordType::Res, 0) == Some(name@),
        response@.text_field(RecordType::Res, 1) == Some(text@),
        response@.text_field(RecordType::Res, 2) == Some(status@),
        response@.fields[3] == FieldView::Int(latency_ms),
{
}

/// A record of a message or of an observation keeps what it was built with.
pub proof fn chat_records_keep_their_texts(
    id: &str,
    thread_id: &str,
    step: i64,
    text: &str,
    content: &str,
    tokens: i64,
    confidence: u64,
    message: AgentRecord,
    observation: AgentRecord,
)
    requires
        call_ensures(msg_record, (id, thread_id, step, text, content, tokens), message),
        call_ensures(obs_record, (id, thread_id, step, text, content, confidence), observation),
    ensures
        message@.id == id@ && message@.thread_id == thread_id@ && message@.step == step,
        message@.text_field(RecordType::Msg, 0) == Some(text@),
        message@.text_field(RecordType::Msg, 2) == Some(content@),
        observation@.id == id@ && observation@.thread_id == thread_id@ && observation@.step == step,
        observation@.text_field(RecordType::Obs, 0) == Some(text@),
        observation@.text_field(RecordType::Obs, 1) == Some(content@),
        observation@.fields[2] == FieldView::Float(confidence),
{
}

// ---------------------------------------------------------------------------
// Refusals and streams

/// Without a model a question is answered with status 400; a tenant that may not ask is answered
/// with status 403, and its question is not put.
pub proof fn questions_need_a_model(
    llm_ready: bool,
    permit: &Result<(), String>,
    body: &str,
    r: Result<ChatRequest, String>,
    own: Result<ChatRequest, String>,
)
    requires
        call_ensures(handle_chat, (llm_ready, body), r),
        call_ensures(handle_chat_for_tenant, (llm_ready, permit, body), own),
    ensures
        !llm_ready ==> (r matches Err(a) && status_of(a@) == 400),
        !llm_ready ==> (own matches Err(a) && status_of(a@) == 400),
        llm_ready && *permit is Err ==> (own matches Err(a) && status_of(a@) == 403),
        r is Ok || own is Ok ==> llm_ready,
        own is Ok ==> r is Ok && *permit is Ok,
{
    errors_tell_what_is_wrong(400, "no LLM configured. Set LLM_PROVIDER and API key."@);
    match *permit {
        Err(e) => {
            errors_tell_what_is_wrong(403, e@);
        },
        Ok(_) => {},
    }
}

/// A message of a tenant's session needs both permits.
pub proof fn session_messages_need_permits(
    llm_ready: bool,
    session_permit: &Result<(), String>,
    llm_permit: &Result<(), String>,
    body: &str,
    r: Result<String, String>,
    own: Result<String, String>,
)
    requires
        call_ensures(handle_session_message, (llm_ready, body), r),
        call_ensures(
            handle_session_message_for_tenant,
            (llm_ready, session_permit, llm_permit, body),
            own,
        ),
    ensures
        own is Ok <==> r is Ok && *session_permit is Ok && *llm_permit is Ok,
        own matches Ok(m) ==> (r matches Ok(n) && m@ == n@),
        *session_permit is Err ==> (own matches Err(a) && status_of(a@) == 403),
{
    match *session_permit {
        Err(e) => {
            errors_tell_what_is_wrong(403, e@);
        },
        Ok(_) => {},
    }
}

/// A run's stream has an event for each output, in order and each with its own name and text, and
/// one at the end; a run that failed has that one alone.
pub proof fn streams_show_every_output(
    result: &Result<RunOutcome, RunFault>,
    latency_ms: u64,
    r: Vec<String>,
    i: int,
)
    requires
        call_ensures(settle_run_stream, (result, latency_ms), r),
    ensures
        *result matches Ok(o) ==> {
            &&& r@.len() == o.outputs@.len() + 1
            &&& 0 <= i < o.outputs@.len() ==> exists|event: JsonView|
                {
                    &&& r@[i]@ == #[trigger] event_text(event)
                    &&& event.member("key"@) == JsonView::Str(o.outputs@[i].0@)
                    &&& event.member("content"@) == JsonView::Str(
                        clip_bytes(o.outputs@[i].1@, 2000),
                    )
                }
        },
        *result is Err ==> r@.len() == 1,
{
    lemma_names();
    reveal_strlit("type");
    assert("type"@.len() == 4);
    let all = views(r@);
    assert(all.len() == r@.len());
    match *result {
        Ok(o) => {
            if 0 <= i < o.outputs@.len() {
                let event = output_json(o.outputs@[i].0@, o.outputs@[i].1@);
                assert(all[i] == r@[i]@);
                assert(pair_views(o.outputs@)[i] == (o.outputs@[i].0@, o.outputs@[i].1@));
                assert(r@[i]@ == event_text(event));
            }
        },
        Err(_) => {},
    }
}

/// A chat's stream has an event for each piece of the answer, in order, and one at the end.
pub proof fn streams_show_every_piece(
    chunks: &Vec<String>,
    result: &Result<LlmReply, String>,
    latency_ms: u64,
    tenant: Option<&str>,
    r: StreamEnd,
    i: int,
)
    requires
        call_ensures(chat_stream_rest, (chunks, result, latency_ms, tenant), r),
        *result matches Ok(a) ==> a.input_tokens + a.output_tokens <= u64::MAX,
    ensures
        r.events@.len() == chunks@.len() + 1,
        0 <= i < chunks@.len() ==> exists|event: JsonView|
            {
                &&& r.events@[i]@ == #[trigger] event_text(event)
                &&& event.member("content"@) == JsonView::Str(chunks@[i]@)
            },
        r.usage == (match (*result, tenant) {
            (Ok(a), Some(_)) => Some((a.input_tokens + a.output_tokens) as u64),
            _ => None,
        }),
{
    lemma_names();
    reveal_strlit("type");
    assert("type"@.len() == 4);
    let all = views(r.events@);
    assert(all.len() == r.events@.len());
    if 0 <= i < chunks@.len() {
        assert(views(chunks@)[i] == chunks@[i]@);
        assert(all[i] == r.events@[i]@);
        assert(r.events@[i]@ == event_text(token_json(chunks@[i]@)));
    }
}

/// A workflow that is not there is answered with status 404, and one that cannot be read with status
/// 500; a tenant that may not run it is answered with status 403.
pub proof fn stored_workflows_are_found(
    permit: &Result<(), String>,
    name: &str,
    stored: Option<&[u8]>,
    r: Result<Json, String>,
    own: Result<Json, String>,
)
    requires
        call_ensures(handle_run_named, (name, stored), r),
        call_ensures(handle_run_named_for_tenant, (permit, name, stored), own),
    ensures
        stored is None ==> (r matches Err(a) && status_of(a@) == 404),
        stored matches Some(b) ==> match parsed_json_bytes(b@) {
            Ok(v) => r matches Ok(j) && j@ == v,
            Err(_) => r matches Err(a) && status_of(a@) == 500,
        },
        *permit is Err ==> (own matches Err(a) && status_of(a@) == 403),
        own is Ok <==> r is Ok && *permit is Ok,
{
    errors_tell_what_is_wrong(404, "workflow not found: "@ + name@);
    match stored {
        Some(b) => {
            match parsed_json_bytes(b@) {
                Err(e) => {
                    errors_tell_what_is_wrong(500, "corrupt workflow: "@ + e);
                },
                Ok(_) => {},
            }
        },
        None => {},
    }
    match *permit {
        Err(e) => {
            errors_tell_what_is_wrong(403, e@);
        },
        Ok(_) => {},
    }
}

/// Workflows are listed with their number, and for a tenant its own alone.
pub proof fn workflow_lists_are_counted(
    stored: &Vec<StoredWorkflow>,
    tenant_id: &str,
    all: String,
    own: Reply,
)
    requires
        call_ensures(handle_list_workflows, (stored,), all),
        call_ensures(handle_list_workflows_for_tenant, (tenant_id, stored), own),
    ensures
        lists(all@, "workflows"@, workflow_rows(workflow_views(stored@), "workflow:"@)),
        lists(
            own.response@,
            "workflows"@,
            workflow_rows(workflow_views(stored@), tenant_key(tenant_id@, KeyKind::Workflow, ""@)),
        ),
        tells(own.response@, "tenant_id"@, JsonView::Str(tenant_id@)),
        own.usage == Some(0u64),
{
    lemma_names();
}

/// A call of a tool is refused by the mode exactly where it writes and the mode keeps from writing;
/// the answer is status 503.
pub proof fn modes_keep_tools_from_writing(mode: DegradationMode, call: &ToolCall, r: Option<String>)
    requires
        call_ensures(tool_refusal, (mode, call), r),
    ensures
        mode == DegradationMode::Normal || mode == DegradationMode::Degraded ==> r is None,
        mode == DegradationMode::ReadOnly || mode == DegradationMode::Emergency ==> (r is Some
            <==> action_named(call.tool_name@) == Some(ToolAction::Write)),
        r matches Some(a) ==> status_of(a@) == 503,
{
    errors_tell_what_is_wrong(503, "system in read-only mode"@);
}

/// The metrics of all runs tell how many there are, how many of those that could be read succeeded,
/// and how many did not; those of a tenant tell whose they are.
pub proof fn metrics_are_answered(
    values: &Vec<Vec<u8>>,
    uptime: u64,
    state: &AppState,
    tenant_id: &str,
    r: Option<String>,
    own: Option<Reply>,
)
    requires
        call_ensures(handle_metrics, (values, uptime, state), r),
        call_ensures(handle_metrics_for_tenant, (tenant_id, values), own),
        stats_of(byte_views(values@)).len() > 0,
    ensures
        ({
            let v = stats_of(byte_views(values@));
            &&& r is Some <==> own is Some
            &&& r is Some <==> sum_tokens(v) <= u64::MAX && sum_latency(v) <= u64::MAX
            &&& r matches Some(s) ==> {
                &&& tells(s@, "total_runs"@, JsonView::Int(values@.len() as int))
                &&& tells(s@, "succeeded"@, JsonView::Int(count_succeeded(v) as int))
                &&& tells(s@, "failed"@, JsonView::Int(v.len() - count_succeeded(v)))
                &&& tells(s@, "total_tokens"@, JsonView::Int(sum_tokens(v) as int))
                &&& tells(s@, "uptime_seconds"@, JsonView::Int(uptime as int))
            }
            &&& own matches Some(x) ==> tells(x.response@, "tenant_id"@, JsonView::Str(tenant_id@))
                && x.usage == Some(0u64)
        }),
{
    let v = stats_of(byte_views(values@));
    crate::observe_laws::metrics_tell_the_totals(v, values@.len(), uptime as nat, *state);
}

/// A body that is not JSON is answered with status 400, whatever it was sent to.
pub proof fn bodies_have_to_be_json(
    body: &str,
    put: Result<PutRequest, String>,
    run: Result<RunRequest, String>,
    tenant: Result<NewTenant, String>,
    workflow: Result<Json, String>,
    chat: Result<ChatRequest, String>,
    message: Result<String, String>,
)
    requires
        call_ensures(handle_put, (body,), put),
        call_ensures(handle_run, (body,), run),
        call_ensures(handle_create_tenant, (body,), tenant),
        call_ensures(handle_register_workflow, (body,), workflow),
        call_ensures(handle_chat, (true, body), chat),
        call_ensures(handle_session_message, (true, body), message),
    ensures
        parsed_json(body@) is Err ==> {
            &&& put matches Err(a) && status_of(a@) == 400
            &&& run matches Err(a) && status_of(a@) == 400
            &&& tenant matches Err(a) && status_of(a@) == 400
            &&& workflow matches Err(a) && status_of(a@) == 400
            &&& chat matches Err(a) && status_of(a@) == 400
            &&& message matches Err(a) && status_of(a@) == 400
        },
        parsed_json(body@) matches Ok(v) ==> run is Ok && (workflow matches Ok(w) && w@ == v),
{
    match parsed_json(body@) {
        Err(e) => {
            errors_tell_what_is_wrong(400, "invalid JSON: "@ + e);
        },
        Ok(_) => {},
    }
}

/// A scan to the end of a prefix's range takes in exactly the keys that begin with the prefix.
pub proof fn ranges_hold_their_prefix(prefix: &str, r: Vec<u8>, key: Seq<u8>)
    requires
        call_ensures(prefix_end_bytes, (prefix,), r),
        forall|i: int| 0 <= i < key.len() ==> #[trigger] key[i] != 0xff,
    ensures
        ({
            let from = encode_utf8(prefix@);
            !byte_before(key, from) && byte_before(key, r@) <==> from.len() <= key.len() && key.take(
                from.len() as int,
            ) == from
        }),
{
    scan_finds_the_prefix(encode_utf8(prefix@), key);
}

} // verus!
