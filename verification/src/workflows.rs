//! Workflows: running them, registering them, and keeping a record of every run.

use vstd::prelude::*;
use vstd::utf8::*;

use crate::bridge::{
    format_run_summary, gen_id_at, id_text, ids_tell_their_numbers, new_payload, obs_record,
    obs_view, record_views, run_json, run_list, summary_text, AgentHeader, AgentPayload,
    AgentRecord, RecordType, RecordView, RunSummary, SummaryView,
};
use crate::chat::{
    error_event, error_event_json, event, event_text, last_event, last_event_text, stream_head,
    stream_head_text, StreamEnd,
};
use crate::documents::{add_tenant, tenant_usage, usage_of, with_tenant};
use crate::json::{
    entry_views, is_listing, json_views, lemma_listing, listing, no_members, pair_views, parsed_json,
    parsed_json_bytes, text_members_among, texts_among, Json, JsonObject, JsonView,
};
use crate::requests::{
    denial, denied, invalid_json, json_outcome, parse_request, request_value, Reply,
};
use crate::response::{bad_request, error_response, internal_error, not_found, ok, ok_json};
use crate::tenant::{key_for, opt_views, tenant_key, KeyKind};
use crate::text::{
    begins, clip, clip_bytes, clips_at, opt_str_view, opt_view, str_eq, strip_prefix,
    views,
};

verus! {

/// How many bytes of an output a record keeps.
pub const RECORD_BYTES: usize = 4000;

/// How many bytes of an output a stream shows.
pub const STREAM_BYTES: usize = 2000;

/// The context budget of a run that does not ask for another.
pub const DEFAULT_BUDGET: u64 = 8192;

/// The bits of the number one, the confidence of what succeeded.
pub const CONFIDENT: u64 = 0x3ff0_0000_0000_0000;

// ---------------------------------------------------------------------------
// Requests

/// A request to run a workflow.
#[derive(Debug, Clone)]
pub struct RunRequest {
    /// The variables of the run, each once, in ascending order of names.
    pub vars: Vec<(String, String)>,
    pub context_budget: u64,
    /// The capabilities that the run is limited to, if any.
    pub capabilities: Option<Vec<String>>,
}

/// A request to run a workflow, as values.
pub struct RunView {
    pub vars: Seq<(Seq<char>, Seq<char>)>,
    pub context_budget: int,
    pub capabilities: Option<Seq<Seq<char>>>,
}

impl View for RunRequest {
    type V = RunView;

    open spec fn view(&self) -> RunView {
        RunView {
            vars: pair_views(self.vars@),
            context_budget: self.context_budget as int,
            capabilities: opt_views(self.capabilities),
        }
    }
}

/// The run that a request asks for. Input that is no text is passed over.
pub open spec fn run_fields(req: JsonView) -> RunView {
    RunView {
        vars: match req.member("input"@).as_members() {
            Some(m) => text_members_among(listing(m)),
            None => Seq::empty(),
        },
        context_budget: req.number_at("context_budget"@, DEFAULT_BUDGET as int),
        capabilities: match req.member("capabilities"@).as_items() {
            Some(items) => Some(texts_among(items)),
            None => None,
        },
    }
}

/// The run that a body asks for, or the answer that refuses it.
pub open spec fn run_request(parsed: Result<JsonView, Seq<char>>) -> Result<RunView, Seq<char>> {
    match parsed {
        Ok(req) => Ok(run_fields(req)),
        Err(e) => Err(invalid_json(e)),
    }
}

/// The outcome of reading a request, as a value.
pub open spec fn run_outcome(r: Result<RunRequest, String>) -> Result<RunView, Seq<char>> {
    match r {
        Ok(q) => Ok(q@),
        Err(e) => Err(e@),
    }
}

/// The run that a request asks for.
pub fn run_request_from(req: &Json) -> (r: RunRequest)
    ensures
        r@ == run_fields(req@),
{
    RunRequest {
        vars: req.text_members_at("input"),
        context_budget: req.number_at("context_budget", DEFAULT_BUDGET),
        capabilities: req.texts_at("capabilities"),
    }
}

/// `POST /v1/run`: the run to start, or the answer that refuses the request.
pub fn handle_run(body: &str) -> (r: Result<RunRequest, String>)
    ensures
        run_outcome(r) == run_request(parsed_json(body@)),
{
    match parse_request(body) {
        Ok(req) => Ok(run_request_from(&req)),
        Err(e) => Err(e),
    }
}

/// `POST /v1/run` of a tenant: the run to start, or the answer that refuses the request. The run
/// goes by the tenant's capabilities, whatever the request says.
pub fn handle_run_for_tenant(permit: &Result<(), String>, body: &str) -> (r: Result<
    RunRequest,
    String,
>)
    ensures
        run_outcome(r) == (match denial(*permit) {
            Some(d) => Err(d),
            None => run_request(parsed_json(body@)),
        }),
{
    match denied(permit) {
        Some(d) => Err(d),
        None => handle_run(body),
    }
}

/// The run that the body of a request for a named workflow asks for: a body that is not JSON asks
/// for nothing in particular.
pub fn named_run_input(body: &str) -> (r: RunRequest)
    ensures
        r@ == run_fields(
            match parsed_json(body@) {
                Ok(v) => v,
                Err(_) => JsonView::Object(no_members()),
            },
        ),
{
    match Json::parse(body) {
        Ok(req) => run_request_from(&req),
        Err(_) => run_request_from(&JsonObject::new().build()),
    }
}

/// The key of a workflow in the store: the tenant's, where there is one.
pub open spec fn workflow_store_key(tenant: Option<Seq<char>>, name: Seq<char>) -> Seq<char> {
    match tenant {
        Some(t) => tenant_key(t, KeyKind::Workflow, name),
        None => "workflow:"@ + name,
    }
}

/// The key of a workflow in the store.
pub fn workflow_key(tenant: Option<&str>, name: &str) -> (r: String)
    ensures
        r@ == workflow_store_key(opt_str_view(tenant), name@),
{
    match tenant {
        Some(t) => key_for(t, KeyKind::Workflow, name),
        None => "workflow:".to_owned().concat(name),
    }
}

/// The definition of a stored workflow, or the answer that refuses the request.
pub open spec fn stored_workflow(
    name: Seq<char>,
    stored: Option<Result<JsonView, Seq<char>>>,
) -> Result<JsonView, Seq<char>> {
    match stored {
        None => Err(error_response(404, "workflow not found: "@ + name)),
        Some(Ok(v)) => Ok(v),
        Some(Err(e)) => Err(error_response(500, "corrupt workflow: "@ + e)),
    }
}

/// What a stored definition denotes as JSON.
pub open spec fn stored_json(stored: Option<&[u8]>) -> Option<Result<JsonView, Seq<char>>> {
    match stored {
        Some(b) => Some(parsed_json_bytes(b@)),
        None => None,
    }
}

/// The answer to a request for a workflow whose definition cannot be read.
pub fn corrupt_workflow_reply(e: &str) -> (r: String)
    ensures
        r@ == error_response(500, "corrupt workflow: "@ + e@),
{
    internal_error("corrupt workflow: ".to_owned().concat(e).as_str())
}

/// `POST /v1/run/:name`: the definition of the workflow, as it was found in the store, or the
/// answer that refuses the request.
pub fn handle_run_named(name: &str, stored: Option<&[u8]>) -> (r: Result<Json, String>)
    ensures
        json_outcome(r) == stored_workflow(name@, stored_json(stored)),
        stored is Some && valid_utf8(stored.unwrap()@) ==> json_outcome(r) == stored_workflow(
            name@,
            Some(parsed_json(decode_utf8(stored.unwrap()@))),
        ),
{
    match stored {
        Some(b) => match Json::parse_bytes(b) {
            Ok(v) => Ok(v),
            Err(e) => Err(corrupt_workflow_reply(e.as_str())),
        },
        None => Err(not_found("workflow not found: ".to_owned().concat(name).as_str())),
    }
}

/// `POST /v1/run/:name` of a tenant: the definition of the workflow, as it was found under the
/// tenant's key, or the answer that refuses the request.
pub fn handle_run_named_for_tenant(
    permit: &Result<(), String>,
    name: &str,
    stored: Option<&[u8]>,
) -> (r: Result<Json, String>)
    ensures
        json_outcome(r) == (match denial(*permit) {
            Some(d) => Err(d),
            None => stored_workflow(name@, stored_json(stored)),
        }),
        denial(*permit) is None && stored is Some && valid_utf8(stored.unwrap()@) ==> json_outcome(r)
            == stored_workflow(name@, Some(parsed_json(decode_utf8(stored.unwrap()@)))),
{
    match denied(permit) {
        Some(d) => Err(d),
        None => handle_run_named(name, stored),
    }
}

// ---------------------------------------------------------------------------
// The default workflow

/// The workflow of a run that names none: a search for the task, then an analysis of what was
/// found.
#[derive(Debug, Clone)]
pub struct FlowPlan {
    pub name: String,
    pub search_step: String,
    pub search_tool: String,
    pub search_input: String,
    pub search_variable: String,
    pub agent_step: String,
    pub agent_prompt: String,
}

/// The workflow of a run that names none.
pub fn default_flow() -> (r: FlowPlan)
    ensures
        r.name@ == "gate_run"@,
        r.search_step@ == "search"@,
        r.search_tool@ == "code_search"@,
        r.search_input@ == "query"@,
        r.search_variable@ == "task"@,
        r.agent_step@ == "analyze"@,
        r.agent_prompt@
            == "You are an expert software engineer.\n\nCode found:\n{{search.output}}\n\nTask: {{task}}\n\nProvide a clear, actionable response."@,
{
    FlowPlan {
        name: "gate_run".to_owned(),
        search_step: "search".to_owned(),
        search_tool: "code_search".to_owned(),
        search_input: "query".to_owned(),
        search_variable: "task".to_owned(),
        agent_step: "analyze".to_owned(),
        agent_prompt: "You are an expert software engineer.\n\nCode found:\n{{search.output}}\n\nTask: {{task}}\n\nProvide a clear, actionable response.".to_owned(),
    }
}

// ---------------------------------------------------------------------------
// Results of runs

/// What came of a run.
pub struct RunOutcome {
    pub run_id: String,
    pub status: String,
    pub steps_completed: u64,
    pub tokens_used: u64,
    /// The outputs that are text.
    pub outputs: Vec<(String, String)>,
    /// The recording of the run, if there is one.
    pub recording: Option<Json>,
}

/// What a run used of one model.
#[derive(Debug, Clone)]
pub struct ModelCost {
    pub model: String,
    pub calls: u64,
    pub input_tokens: u64,
    pub output_tokens: u64,
    pub total_tokens: u64,
}

/// Texts as members of an object; of two with one name the later counts.
pub open spec fn text_map(v: Seq<(Seq<char>, Seq<char>)>) -> Map<Seq<char>, JsonView>
    decreases v.len(),
{
    if v.len() == 0 {
        no_members()
    } else {
        text_map(v.drop_last()).insert(v.last().0, JsonView::Str(v.last().1))
    }
}

/// What a run used of one model, as JSON.
pub open spec fn cost_json(c: ModelCost) -> JsonView {
    JsonView::Object(
        map![
            "calls"@ => JsonView::Int(c.calls as int),
            "input_tokens"@ => JsonView::Int(c.input_tokens as int),
            "output_tokens"@ => JsonView::Int(c.output_tokens as int),
            "total_tokens"@ => JsonView::Int(c.total_tokens as int),
        ],
    )
}

/// What a run used, by model, as members of an object.
pub open spec fn cost_map(v: Seq<ModelCost>) -> Map<Seq<char>, JsonView>
    decreases v.len(),
{
    if v.len() == 0 {
        no_members()
    } else {
        cost_map(v.drop_last()).insert(v.last().model@, cost_json(v.last()))
    }
}

/// Texts as an object.
fn text_object(v: &Vec<(String, String)>) -> (r: Json)
    ensures
        r@ == JsonView::Object(text_map(pair_views(v@))),
{
    let ghost all = pair_views(v@);
    let mut o = JsonObject::new();
    let mut i: usize = 0;
    assert(all.take(0) =~= Seq::empty());
    while i < v.len()
        invariant
            i <= v@.len(),
            all == pair_views(v@),
            o@ == text_map(all.take(i as int)),
        decreases v@.len() - i,
    {
        assert(all.take(i + 1).drop_last() =~= all.take(i as int));
        o = o.text(v[i].0.as_str(), v[i].1.as_str());
        i = i + 1;
    }
    assert(all.take(all.len() as int) =~= all);
    o.build()
}

/// What a run used, by model, as an object.
fn cost_object(v: &Vec<ModelCost>) -> (r: Json)
    ensures
        r@ == JsonView::Object(cost_map(v@)),
{
    let mut o = JsonObject::new();
    let mut i: usize = 0;
    assert(v@.take(0) =~= Seq::empty());
    while i < v.len()
        invariant
            i <= v@.len(),
            o@ == cost_map(v@.take(i as int)),
        decreases v@.len() - i,
    {
        assert(v@.take(i + 1).drop_last() =~= v@.take(i as int));
        let c = &v[i];
        let item = JsonObject::new().number("calls", c.calls).number(
            "input_tokens",
            c.input_tokens,
        ).number("output_tokens", c.output_tokens).number("total_tokens", c.total_tokens).build();
        o = o.with(c.model.as_str(), item);
        i = i + 1;
    }
    assert(v@.take(v@.len() as int) =~= v@);
    o.build()
}

/// What every report of a run says.
pub open spec fn outcome_members(o: RunOutcome, latency_ms: u64) -> Map<Seq<char>, JsonView> {
    map![
        "run_id"@ => JsonView::Str(o.run_id@),
        "status"@ => JsonView::Str(o.status@),
        "steps_completed"@ => JsonView::Int(o.steps_completed as int),
        "tokens_used"@ => JsonView::Int(o.tokens_used as int),
        "latency_ms"@ => JsonView::Int(latency_ms as int),
        "outputs"@ => JsonView::Object(text_map(pair_views(o.outputs@))),
    ]
}

/// `m` with the recording of the run, where there is one.
pub open spec fn with_recording(m: Map<Seq<char>, JsonView>, recording: Option<Json>) -> Map<
    Seq<char>,
    JsonView,
> {
    match recording {
        Some(rec) => m.insert("recording"@, rec@),
        None => m,
    }
}

/// The report of a run of the default workflow.
pub open spec fn run_report(
    o: RunOutcome,
    latency_ms: u64,
    timestamp: u64,
    trace_id: Seq<char>,
    cost: Seq<ModelCost>,
) -> JsonView {
    JsonView::Object(
        with_recording(
            outcome_members(o, latency_ms).insert("workflow"@, JsonView::Str("default"@)).insert(
                "timestamp"@,
                JsonView::Int(timestamp as int),
            ).insert("trace_id"@, JsonView::Str(trace_id)).insert(
                "cost"@,
                JsonView::Object(cost_map(cost)),
            ),
            o.recording,
        ),
    )
}

/// The report of a tenant's run.
pub open spec fn tenant_run_report(
    o: RunOutcome,
    latency_ms: u64,
    timestamp: u64,
    workflow: Seq<char>,
    tenant_id: Seq<char>,
) -> JsonView {
    JsonView::Object(
        with_recording(
            outcome_members(o, latency_ms).insert("workflow"@, JsonView::Str(workflow)).insert(
                "timestamp"@,
                JsonView::Int(timestamp as int),
            ).insert("tenant_id"@, JsonView::Str(tenant_id)),
            o.recording,
        ),
    )
}

/// What every report of a run says.
fn outcome_object(o: &RunOutcome, latency_ms: u64) -> (r: JsonObject)
    ensures
        r@ == outcome_members(*o, latency_ms),
{
    JsonObject::new().text("run_id", o.run_id.as_str()).text("status", o.status.as_str()).number(
        "steps_completed",
        o.steps_completed,
    ).number("tokens_used", o.tokens_used).number("latency_ms", latency_ms).with(
        "outputs",
        text_object(&o.outputs),
    )
}

/// The object with the recording of the run, where there is one.
fn add_recording(m: JsonObject, recording: &Option<Json>) -> (r: JsonObject)
    ensures
        r@ == with_recording(m@, *recording),
{
    match recording {
        Some(rec) => m.with("recording", rec.copy()),
        None => m,
    }
}

/// What is left to do once a run has ended: the answer to the request, and the payload to store,
/// under its key.
pub struct RunEnd {
    pub reply: Reply,
    pub store_key: String,
    pub payload: AgentPayload,
}

/// Whether every output can be kept in a record: its first bytes end with a whole character.
pub open spec fn keepable(o: RunOutcome) -> bool {
    forall|i: int|
        0 <= i < o.outputs@.len() ==> clips_at((#[trigger] o.outputs@[i]).1@, RECORD_BYTES as int)
}

proof fn lemma_text_map_from(v: Seq<(Seq<char>, Seq<char>)>, k: Seq<char>)
    requires
        text_map(v).contains_key(k),
    ensures
        exists|i: int| 0 <= i < v.len() && text_map(v)[k] == JsonView::Str((#[trigger] v[i]).1),
    decreases v.len(),
{
    if v.len() > 0 {
        if k == v.last().0 {
            assert(text_map(v)[k] == JsonView::Str(v[v.len() - 1].1));
        } else {
            lemma_text_map_from(v.drop_last(), k);
            let i = choose|i: int|
                0 <= i < v.drop_last().len() && text_map(v.drop_last())[k] == JsonView::Str(
                    (#[trigger] v.drop_last()[i]).1,
                );
            assert(v[i] == v.drop_last()[i]);
        }
    }
}

proof fn lemma_keepable(o: RunOutcome, report: JsonView)
    requires
        keepable(o),
        report.member("outputs"@) == JsonView::Object(text_map(pair_views(o.outputs@))),
    ensures
        recordable(report),
{
    let m = text_map(pair_views(o.outputs@));
    assert forall|k: Seq<char>| #[trigger] m.contains_key(k) implies (m[k].as_text() matches Some(s)
        ==> clips_at(s, RECORD_BYTES as int)) by {
        lemma_text_map_from(pair_views(o.outputs@), k);
        let i = choose|i: int|
            0 <= i < pair_views(o.outputs@).len() && m[k] == JsonView::Str(
                (#[trigger] pair_views(o.outputs@)[i]).1,
            );
        assert(clips_at(o.outputs@[i].1@, RECORD_BYTES as int));
    }
}

proof fn lemma_report_names()
    ensures
        "outputs"@ != "workflow"@,
        "outputs"@ != "timestamp"@,
        "outputs"@ != "trace_id"@,
        "outputs"@ != "cost"@,
        "outputs"@ != "tenant_id"@,
        "outputs"@ != "recording"@,
{
    reveal_strlit("outputs");
    reveal_strlit("workflow");
    reveal_strlit("timestamp");
    reveal_strlit("trace_id");
    reveal_strlit("cost");
    reveal_strlit("tenant_id");
    reveal_strlit("recording");
    assert("outputs"@.len() == 7);
    assert("workflow"@.len() == 8);
    assert("timestamp"@.len() == 9);
    assert("trace_id"@.len() == 8);
    assert("cost"@.len() == 4);
    assert("tenant_id"@.len() == 9);
    assert("recording"@.len() == 9);
}

/// What is left to do once a run of the default workflow has ended, at time `ms`. Its records are
/// numbered from `stamp` on.
pub fn run_end(
    o: &RunOutcome,
    latency_ms: u64,
    trace_id: &str,
    cost: &Vec<ModelCost>,
    ms: u64,
    stamp: u64,
) -> (r: RunEnd)
    requires
        keepable(*o),
    ensures
        r.reply.response@ == ok_json(run_report(*o, latency_ms, ms, trace_id@, cost@)),
        r.reply.usage is None,
        stores_run(
            r,
            run_report(*o, latency_ms, ms, trace_id@, cost@),
            None,
            stamp as nat,
        ),
{
    let m = outcome_object(o, latency_ms).text("workflow", "default").number(
        "timestamp",
        ms,
    ).text("trace_id", trace_id).with("cost", cost_object(cost));
    let body = add_recording(m, &o.recording).build();
    proof {
        lemma_report_names();
        lemma_keepable(*o, body@);
    }
    let (store_key, payload) = run_payload_at(&body, None, stamp);
    RunEnd {
        reply: Reply { response: ok(body.to_text().as_str()), usage: None },
        store_key,
        payload,
    }
}

/// What is left to do once a tenant's run has ended, at time `ms`. Its records are numbered from
/// `stamp` on.
pub fn tenant_run_end(
    tenant_id: &str,
    o: &RunOutcome,
    latency_ms: u64,
    workflow: &str,
    ms: u64,
    stamp: u64,
) -> (r: RunEnd)
    requires
        keepable(*o),
    ensures
        r.reply.response@ == ok_json(
            tenant_run_report(*o, latency_ms, ms, workflow@, tenant_id@),
        ),
        r.reply.usage == Some(o.tokens_used),
        stores_run(
            r,
            tenant_run_report(*o, latency_ms, ms, workflow@, tenant_id@),
            Some(tenant_id@),
            stamp as nat,
        ),
{
    let m = outcome_object(o, latency_ms).text("workflow", workflow).number("timestamp", ms).text(
        "tenant_id",
        tenant_id,
    );
    let body = add_recording(m, &o.recording).build();
    proof {
        lemma_report_names();
        lemma_keepable(*o, body@);
    }
    let (store_key, payload) = run_payload_at(&body, Some(tenant_id), stamp);
    RunEnd {
        reply: Reply { response: ok(body.to_text().as_str()), usage: Some(o.tokens_used) },
        store_key,
        payload,
    }
}

/// The answer to a request for a named workflow, once it has run.
pub fn named_run_reply(o: &RunOutcome, latency_ms: u64) -> (r: String)
    ensures
        r@ == ok_json(JsonView::Object(outcome_members(*o, latency_ms))),
{
    ok(outcome_object(o, latency_ms).build().to_text().as_str())
}

/// The answer to a run whose workflow could not be built.
pub fn flow_build_failed(e: &str) -> (r: String)
    ensures
        r@ == error_response(500, "flow build failed: "@ + e@),
{
    internal_error("flow build failed: ".to_owned().concat(e).as_str())
}

/// The answer to a run whose named workflow could not be built.
pub fn named_build_failed(e: &str) -> (r: String)
    ensures
        r@ == error_response(500, "build flow: "@ + e@),
{
    internal_error("build flow: ".to_owned().concat(e).as_str())
}

/// The answer to a run that failed.
pub fn workflow_failed(e: &str) -> (r: String)
    ensures
        r@ == error_response(500, "workflow failed: "@ + e@),
{
    internal_error("workflow failed: ".to_owned().concat(e).as_str())
}

/// Why a run came to nothing: its workflow could not be built, or it failed.
#[derive(Debug, Clone)]
pub enum RunFault {
    Build(String),
    Run(String),
}

/// The answer to a run that came to nothing; `built` says what building is called.
pub open spec fn fault_answer(f: RunFault, built: Seq<char>) -> Seq<char> {
    match f {
        RunFault::Build(e) => error_response(500, built + e@),
        RunFault::Run(e) => error_response(500, "workflow failed: "@ + e@),
    }
}

/// The answer to a run of the default workflow that came to nothing.
pub fn run_fault_reply(f: &RunFault) -> (r: String)
    ensures
        r@ == fault_answer(*f, "flow build failed: "@),
{
    match f {
        RunFault::Build(e) => flow_build_failed(e.as_str()),
        RunFault::Run(e) => workflow_failed(e.as_str()),
    }
}

/// The answer to a run of a named workflow that came to nothing.
pub fn named_fault_reply(f: &RunFault) -> (r: String)
    ensures
        r@ == fault_answer(*f, "build flow: "@),
{
    match f {
        RunFault::Build(e) => named_build_failed(e.as_str()),
        RunFault::Run(e) => workflow_failed(e.as_str()),
    }
}

/// What is left to do once a run was tried: the answer, and what to store under which key, where
/// there is something.
pub struct RunSettled {
    pub reply: Reply,
    pub stored: Option<(String, AgentPayload)>,
}

/// Whether `r` answers a run that came to nothing: nothing is stored and no tokens are counted.
pub open spec fn settles_fault(r: RunSettled, answer: Seq<char>) -> bool {
    r.reply.response@ == answer && r.reply.usage is None && r.stored is None
}

/// Whether the outputs of a run, where there is one, can be kept in records.
pub open spec fn can_settle(result: Result<RunOutcome, RunFault>) -> bool {
    result matches Ok(o) ==> keepable(o)
}

/// What becomes of a run of the default workflow, once it was tried: it is answered and stored, or
/// its fault is answered.
pub fn settle_run(
    result: &Result<RunOutcome, RunFault>,
    latency_ms: u64,
    trace_id: &str,
    cost: &Vec<ModelCost>,
    ms: u64,
    stamp: u64,
) -> (r: RunSettled)
    requires
        can_settle(*result),
    ensures
        match *result {
            Ok(o) => {
                let report = run_report(o, latency_ms, ms, trace_id@, cost@);
                &&& r.reply.response@ == ok_json(report)
                &&& r.reply.usage is None
                &&& r.stored matches Some(x)
                &&& x.0@ == run_store_key(None, report_run_id(report))
                &&& records_run(x.1, report, None, stamp as nat)
            },
            Err(f) => settles_fault(r, fault_answer(f, "flow build failed: "@)),
        },
{
    match result {
        Ok(o) => {
            let end = run_end(o, latency_ms, trace_id, cost, ms, stamp);
            RunSettled { reply: end.reply, stored: Some((end.store_key, end.payload)) }
        },
        Err(f) => RunSettled {
            reply: Reply { response: run_fault_reply(f), usage: None },
            stored: None,
        },
    }
}

/// What becomes of a tenant's run, once it was tried, of the default workflow or, where `name` is
/// given, of the workflow of that name.
pub fn settle_tenant_run(
    tenant_id: &str,
    name: Option<&str>,
    result: &Result<RunOutcome, RunFault>,
    latency_ms: u64,
    ms: u64,
    stamp: u64,
) -> (r: RunSettled)
    requires
        can_settle(*result),
    ensures
        match *result {
            Ok(o) => {
                let workflow = opt_str_view(name).unwrap_or("default"@);
                let report = tenant_run_report(o, latency_ms, ms, workflow, tenant_id@);
                &&& r.reply.response@ == ok_json(report)
                &&& r.reply.usage == Some(o.tokens_used)
                &&& r.stored matches Some(x)
                &&& x.0@ == run_store_key(Some(tenant_id@), report_run_id(report))
                &&& records_run(x.1, report, Some(tenant_id@), stamp as nat)
            },
            Err(f) => settles_fault(
                r,
                fault_answer(
                    f,
                    if name is Some {
                        "build flow: "@
                    } else {
                        "flow build failed: "@
                    },
                ),
            ),
        },
{
    match result {
        Ok(o) => {
            let workflow = match name {
                Some(n) => n,
                None => "default",
            };
            let end = tenant_run_end(tenant_id, o, latency_ms, workflow, ms, stamp);
            RunSettled { reply: end.reply, stored: Some((end.store_key, end.payload)) }
        },
        Err(f) => {
            let response = match name {
                Some(_) => named_fault_reply(f),
                None => run_fault_reply(f),
            };
            RunSettled { reply: Reply { response, usage: None }, stored: None }
        },
    }
}

/// The answer to a run of a named workflow, once it was tried; nothing is stored of it.
pub fn settle_named_run(result: &Result<RunOutcome, RunFault>, latency_ms: u64) -> (r: String)
    ensures
        r@ == (match *result {
            Ok(o) => ok_json(JsonView::Object(outcome_members(o, latency_ms))),
            Err(f) => fault_answer(f, "build flow: "@),
        }),
{
    match result {
        Ok(o) => named_run_reply(o, latency_ms),
        Err(f) => named_fault_reply(f),
    }
}

// ---------------------------------------------------------------------------
// Records of runs

/// The key of a run in the store: the tenant's, where there is one.
pub open spec fn run_store_key(tenant: Option<Seq<char>>, run_id: Seq<char>) -> Seq<char> {
    match tenant {
        Some(t) => tenant_key(t, KeyKind::Run, run_id),
        None => "run:"@ + run_id,
    }
}

/// The key of a run in the store.
pub fn run_key(tenant: Option<&str>, run_id: &str) -> (r: String)
    ensures
        r@ == run_store_key(opt_str_view(tenant), run_id@),
{
    match tenant {
        Some(t) => key_for(t, KeyKind::Run, run_id),
        None => "run:".to_owned().concat(run_id),
    }
}

/// The identifier of the run that a report is about.
pub open spec fn report_run_id(report: JsonView) -> Seq<char> {
    report.text_at("run_id"@).unwrap_or("unknown"@)
}

/// The summary of a report.
pub open spec fn report_summary(report: JsonView, tenant: Option<Seq<char>>) -> SummaryView {
    SummaryView {
        status: report.text_at("status"@).unwrap_or("unknown"@),
        steps: report.number_at("steps_completed"@, 0) as nat,
        tokens: report.number_at("tokens_used"@, 0) as nat,
        latency_ms: report.number_at("latency_ms"@, 0) as nat,
        tenant,
    }
}

/// The first record of a run: its workflow and its summary. Success is recorded with full
/// confidence, everything else with none.
pub open spec fn run_record(report: JsonView, tenant: Option<Seq<char>>, stamp: nat) -> RecordView {
    obs_view(
        id_text("run"@, stamp),
        report_run_id(report),
        1,
        report.text_at("workflow"@).unwrap_or("default"@),
        summary_text(report_summary(report, tenant)),
        if report.text_at("status"@) == Some("succeeded"@) {
            CONFIDENT
        } else {
            0
        },
    )
}

/// The records of a run's outputs: one for each that is a text, numbered by its place among all
/// outputs, in its step and, from `stamp` on, in its identifier.
pub open spec fn output_records(
    outputs: Seq<(Seq<char>, JsonView)>,
    run_id: Seq<char>,
    stamp: nat,
) -> Seq<RecordView>
    decreases outputs.len(),
{
    if outputs.len() == 0 {
        Seq::empty()
    } else {
        let before = output_records(outputs.drop_last(), run_id, stamp);
        match outputs.last().1.as_text() {
            Some(s) => before.push(
                obs_view(
                    id_text("obs"@, stamp + outputs.len()),
                    run_id,
                    (outputs.len() + 1) as i64,
                    outputs.last().0,
                    clip_bytes(s, RECORD_BYTES as int),
                    CONFIDENT,
                ),
            ),
            None => before,
        }
    }
}

/// The records of a run.
pub open spec fn run_records(report: JsonView, tenant: Option<Seq<char>>, stamp: nat) -> Seq<RecordView> {
    seq![run_record(report, tenant, stamp)] + (match report.member("outputs"@).as_members() {
        Some(m) => output_records(listing(m), report_run_id(report), stamp),
        None => Seq::empty(),
    })
}

/// Whether every output of a report can be kept in a record: its first bytes end with a whole
/// character.
pub open spec fn recordable(report: JsonView) -> bool {
    report.member("outputs"@).as_members() matches Some(m) ==> forall|k: Seq<char>| #[trigger]
        m.contains_key(k) ==> (m[k].as_text() matches Some(s) ==> clips_at(s, RECORD_BYTES as int))
}

/// Whether a header is that of a run's payload with so many records: it names the run as thread and
/// session, and nothing else.
pub open spec fn heads_run(h: AgentHeader, run_id: Seq<char>, count: nat) -> bool {
    &&& opt_view(h.thread_id) == Some(run_id)
    &&& opt_view(h.session_id) == Some(run_id)
    &&& h.context_window is None
    &&& h.context_used is None
    &&& h.payload_id is None
    &&& h.parent_payload_id is None
    &&& h.agent_id is None
    &&& h.schema_version is None
    &&& h.meta_fields@.len() == 0
    &&& h.record_count == count
}

/// Whether `p` holds the records of a run.
pub open spec fn records_run(
    p: AgentPayload,
    report: JsonView,
    tenant: Option<Seq<char>>,
    stamp: nat,
) -> bool {
    &&& heads_run(p.header, report_run_id(report), p.records@.len())
    &&& record_views(p.records@) == run_records(report, tenant, stamp)
}

/// Whether `r` stores the records of a run under its key.
pub open spec fn stores_run(
    r: RunEnd,
    report: JsonView,
    tenant: Option<Seq<char>>,
    stamp: nat,
) -> bool {
    &&& r.store_key@ == run_store_key(tenant, report_run_id(report))
    &&& records_run(r.payload, report, tenant, stamp)
}

/// The text of a member, or `otherwise`.
fn text_or(report: &Json, key: &str, otherwise: &str) -> (r: String)
    ensures
        r@ == report@.text_at(key@).unwrap_or(otherwise@),
{
    match report.text_at(key) {
        Some(s) => s,
        None => otherwise.to_owned(),
    }
}

/// The records of a run, numbered from `stamp` on, and the key to store them under.
pub fn run_payload_at(report: &Json, tenant: Option<&str>, stamp: u64) -> (r: (String, AgentPayload))
    requires
        recordable(report@),
    ensures
        r.0@ == run_store_key(opt_str_view(tenant), report_run_id(report@)),
        records_run(r.1, report@, opt_str_view(tenant), stamp as nat),
{
    let run_id = text_or(report, "run_id", "unknown");
    let store_key = run_key(tenant, run_id.as_str());
    let mut payload = new_payload(run_id.as_str(), Some(run_id.as_str()));
    let status = text_or(report, "status", "unknown");
    let workflow = text_or(report, "workflow", "default");
    let confidence: u64 = if str_eq(status.as_str(), "succeeded") {
        CONFIDENT
    } else {
        0
    };
    proof {
        reveal_strlit("unknown");
        reveal_strlit("succeeded");
        assert("unknown"@.len() != "succeeded"@.len());
    }
    let summary = RunSummary {
        status,
        steps: report.number_at("steps_completed", 0),
        tokens: report.number_at("tokens_used", 0),
        latency_ms: report.number_at("latency_ms", 0),
        tenant: match tenant {
            Some(t) => Some(t.to_owned()),
            None => None,
        },
    };
    let first = obs_record(
        gen_id_at("run", stamp as u128).as_str(),
        run_id.as_str(),
        1,
        workflow.as_str(),
        format_run_summary(&summary).as_str(),
        confidence,
    );
    let ghost head = run_record(report@, opt_str_view(tenant), stamp as nat);
    assert(summary@ == report_summary(report@, opt_str_view(tenant)));
    assert(first@ == head);
    let mut records: Vec<AgentRecord> = Vec::new();
    records.push(first);
    assert(record_views(records@) =~= seq![head]);
    match report.members_at("outputs") {
        Some(e) => {
            let ghost m = report@.member("outputs"@).as_members().unwrap();
            let ghost all = listing(m);
            let ghost id = run_id@;
            let mut i: usize = 0;
            assert(all.take(0) =~= Seq::empty());
            assert(record_views(records@) =~= seq![head] + output_records(
                all.take(0),
                id,
                stamp as nat,
            ));
            while i < e.len()
                invariant
                    i <= e@.len(),
                    all == entry_views(e@),
                    is_listing(all, m),
                    id == run_id@,
                    forall|k: Seq<char>| #[trigger]
                        m.contains_key(k) ==> (m[k].as_text() matches Some(s) ==> clips_at(
                            s,
                            RECORD_BYTES as int,
                        )),
                    record_views(records@) == seq![head] + output_records(
                        all.take(i as int),
                        id,
                        stamp as nat,
                    ),
                decreases e@.len() - i,
            {
                assert(all.take(i + 1).drop_last() =~= all.take(i as int));
                assert(all.take(i + 1).last() == (e@[i as int].0@, e@[i as int].1@));
                assert(m.contains_key(all[i as int].0));
                let ghost before = record_views(records@);
                let ghost outs = output_records(all.take(i as int), id, stamp as nat);
                match e[i].1.as_text() {
                    Some(s) => {
                        let step: i64 = (i as u128 + 2) as i64;
                        assert(step == (all.take(i + 1).len() + 1) as i64);
                        let number: u128 = stamp as u128 + i as u128 + 1;
                        let rec = obs_record(
                            gen_id_at("obs", number).as_str(),
                            run_id.as_str(),
                            step,
                            e[i].0.as_str(),
                            clip(s.as_str(), RECORD_BYTES),
                            CONFIDENT,
                        );
                        records.push(rec);
                        assert(record_views(records@) =~= before.push(rec@));
                        assert(seq![head] + outs.push(rec@) =~= (seq![head] + outs).push(rec@));
                    },
                    None => {},
                }
                i = i + 1;
            }
            assert(all.take(all.len() as int) =~= all);
        },
        None => {
            assert(seq![head] + Seq::<RecordView>::empty() =~= seq![head]);
        },
    }
    let count: usize = records.len();
    payload.records = records;
    payload.header.record_count = count;
    (store_key, payload)
}

// ---------------------------------------------------------------------------
// Streams

/// The first event of a run's stream.
pub open spec fn run_start_json(tenant: Option<Seq<char>>) -> JsonView {
    JsonView::Object(
        with_tenant(
            map!["type"@ => JsonView::Str("start"@), "workflow"@ => JsonView::Str("gate_run"@)],
            tenant,
        ),
    )
}

/// `POST /v1/run/stream`: the head of the stream and the run to start, or the answer that refuses
/// the request.
pub fn handle_run_stream(body: &str) -> (r: Result<(String, RunRequest), String>)
    ensures
        match run_request(parsed_json(body@)) {
            Ok(v) => r matches Ok((head, q)) && head@ == stream_head() && q@ == v,
            Err(x) => r matches Err(e) && e@ == x,
        },
{
    match handle_run(body) {
        Ok(q) => Ok((stream_head_text(), q)),
        Err(e) => Err(e),
    }
}

/// `POST /v1/run/stream` of a tenant: the head of the stream and the run to start, or the answer
/// that refuses the request.
pub fn handle_run_stream_for_tenant(permit: &Result<(), String>, body: &str) -> (r: Result<
    (String, RunRequest),
    String,
>)
    ensures
        match denial(*permit) {
            Some(d) => r matches Err(e) && e@ == d,
            None => match run_request(parsed_json(body@)) {
                Ok(v) => r matches Ok((head, q)) && head@ == stream_head() && q@ == v,
                Err(x) => r matches Err(e) && e@ == x,
            },
        },
{
    match denied(permit) {
        Some(d) => Err(d),
        None => handle_run_stream(body),
    }
}

/// The first event of a run's stream.
pub fn run_start_event(tenant: Option<&str>) -> (r: String)
    ensures
        r@ == event_text(run_start_json(opt_str_view(tenant))),
{
    let o = JsonObject::new().text("type", "start").text("workflow", "gate_run");
    event(&add_tenant(o, tenant).build())
}

/// The event of one output.
pub open spec fn output_json(key: Seq<char>, content: Seq<char>) -> JsonView {
    JsonView::Object(
        map![
            "type"@ => JsonView::Str("output"@),
            "key"@ => JsonView::Str(key),
            "content"@ => JsonView::Str(clip_bytes(content, STREAM_BYTES as int)),
        ],
    )
}

/// The event of one output. Its first bytes must end with a whole character.
pub fn output_event(key: &str, content: &str) -> (r: String)
    requires
        clips_at(content@, STREAM_BYTES as int),
    ensures
        r@ == event_text(output_json(key@, content@)),
{
    event(
        &JsonObject::new().text("type", "output").text("key", key).text(
            "content",
            clip(content, STREAM_BYTES),
        ).build(),
    )
}

/// The last event of a run's stream.
pub open spec fn run_done_json(o: RunOutcome, latency_ms: u64, tenant: Option<Seq<char>>) -> JsonView {
    JsonView::Object(
        with_tenant(
            map![
                "type"@ => JsonView::Str("done"@),
                "status"@ => JsonView::Str(o.status@),
                "steps_completed"@ => JsonView::Int(o.steps_completed as int),
                "tokens_used"@ => JsonView::Int(o.tokens_used as int),
                "latency_ms"@ => JsonView::Int(latency_ms as int),
            ],
            tenant,
        ),
    )
}

/// The last event of a run's stream.
pub fn run_done_event(o: &RunOutcome, latency_ms: u64, tenant: Option<&str>) -> (r: String)
    ensures
        r@ == last_event_text(run_done_json(*o, latency_ms, opt_str_view(tenant))),
{
    let m = JsonObject::new().text("type", "done").text("status", o.status.as_str()).number(
        "steps_completed",
        o.steps_completed,
    ).number("tokens_used", o.tokens_used).number("latency_ms", latency_ms);
    last_event(&add_tenant(m, tenant).build())
}

/// The events of outputs, in order.
pub open spec fn output_events(outputs: Seq<(Seq<char>, Seq<char>)>) -> Seq<Seq<char>> {
    Seq::new(outputs.len(), |i: int| event_text(output_json(outputs[i].0, outputs[i].1)))
}

/// Whether every output can be shown in a stream: its first bytes end with a whole character.
pub open spec fn streamable(o: RunOutcome) -> bool {
    forall|i: int|
        0 <= i < o.outputs@.len() ==> clips_at((#[trigger] o.outputs@[i]).1@, STREAM_BYTES as int)
}

/// What is left of a run's stream once the run has ended: an event for each output, and the last
/// one.
pub fn run_stream_rest(o: &RunOutcome, latency_ms: u64, tenant: Option<&str>) -> (r: Vec<String>)
    requires
        streamable(*o),
    ensures
        views(r@) == output_events(pair_views(o.outputs@)).push(
            last_event_text(run_done_json(*o, latency_ms, opt_str_view(tenant))),
        ),
{
    let mut events: Vec<String> = Vec::new();
    let mut i: usize = 0;
    while i < o.outputs.len()
        invariant
            i <= o.outputs@.len(),
            streamable(*o),
            events@.len() == i,
            forall|j: int|
                0 <= j < i ==> (#[trigger] events@[j])@ == event_text(
                    output_json(o.outputs@[j].0@, o.outputs@[j].1@),
                ),
        decreases o.outputs@.len() - i,
    {
        assert(clips_at(o.outputs@[i as int].1@, STREAM_BYTES as int));
        events.push(output_event(o.outputs[i].0.as_str(), o.outputs[i].1.as_str()));
        i = i + 1;
    }
    assert(views(events@) =~= output_events(pair_views(o.outputs@)));
    let ghost before = views(events@);
    let last = run_done_event(o, latency_ms, tenant);
    let ghost text = last@;
    events.push(last);
    assert(views(events@) =~= before.push(text));
    events
}

/// What is left of a tenant's stream once the run has ended: the events to send, the payload to
/// store under its key, and the tokens to put down to the tenant's account.
pub struct TenantStreamEnd {
    pub stream: StreamEnd,
    pub store_key: String,
    pub payload: AgentPayload,
}

/// What is left of a tenant's stream once the run has ended, at time `ms`. Its records are numbered
/// from `stamp` on.
pub fn tenant_run_stream_rest(
    tenant_id: &str,
    o: &RunOutcome,
    latency_ms: u64,
    ms: u64,
    stamp: u64,
) -> (r: TenantStreamEnd)
    requires
        streamable(*o),
        keepable(*o),
    ensures
        views(r.stream.events@) == output_events(pair_views(o.outputs@)).push(
            last_event_text(run_done_json(*o, latency_ms, Some(tenant_id@))),
        ),
        r.stream.usage == Some(o.tokens_used),
        ({
            let report = tenant_run_report(*o, latency_ms, ms, "default"@, tenant_id@);
            &&& r.store_key@ == run_store_key(Some(tenant_id@), report_run_id(report))
            &&& records_run(r.payload, report, Some(tenant_id@), stamp as nat)
        }),
{
    let end = tenant_run_end(tenant_id, o, latency_ms, "default", ms, stamp);
    TenantStreamEnd {
        stream: StreamEnd {
            events: run_stream_rest(o, latency_ms, Some(tenant_id)),
            usage: end.reply.usage,
        },
        store_key: end.store_key,
        payload: end.payload,
    }
}

/// What is wrong with a run, in words.
pub open spec fn fault_text(f: RunFault) -> Seq<char> {
    match f {
        RunFault::Build(e) => e@,
        RunFault::Run(e) => e@,
    }
}

/// The events that end the stream of a run that came to nothing: one error event.
fn fault_events(f: &RunFault) -> (r: Vec<String>)
    ensures
        views(r@) == seq![last_event_text(error_event_json(fault_text(*f)))],
{
    let event = match f {
        RunFault::Build(e) => error_event(e.as_str()),
        RunFault::Run(e) => error_event(e.as_str()),
    };
    let events: Vec<String> = vec![event];
    assert(views(events@) =~= seq![last_event_text(error_event_json(fault_text(*f)))]);
    events
}

/// Whether the outputs of a run, where there is one, can be shown in a stream.
pub open spec fn can_stream(result: Result<RunOutcome, RunFault>) -> bool {
    result matches Ok(o) ==> streamable(o)
}

/// What is left of a run's stream once the run was tried: its outputs and the last event, or an
/// error event.
pub fn settle_run_stream(result: &Result<RunOutcome, RunFault>, latency_ms: u64) -> (r: Vec<String>)
    requires
        can_stream(*result),
    ensures
        views(r@) == (match *result {
            Ok(o) => output_events(pair_views(o.outputs@)).push(
                last_event_text(run_done_json(o, latency_ms, None)),
            ),
            Err(f) => seq![last_event_text(error_event_json(fault_text(f)))],
        }),
{
    match result {
        Ok(o) => run_stream_rest(o, latency_ms, None),
        Err(f) => fault_events(f),
    }
}

/// What is left to do once a tenant's run with a stream was tried: the events to send, the tokens to
/// put down to the tenant's account, and what to store under which key, where there is something.
pub struct StreamSettled {
    pub stream: StreamEnd,
    pub stored: Option<(String, AgentPayload)>,
}

/// What is left to do once a tenant's run with a stream was tried.
pub fn settle_tenant_run_stream(
    tenant_id: &str,
    result: &Result<RunOutcome, RunFault>,
    latency_ms: u64,
    ms: u64,
    stamp: u64,
) -> (r: StreamSettled)
    requires
        can_stream(*result),
        can_settle(*result),
    ensures
        match *result {
            Ok(o) => {
                let report = tenant_run_report(o, latency_ms, ms, "default"@, tenant_id@);
                &&& views(r.stream.events@) == output_events(pair_views(o.outputs@)).push(
                    last_event_text(run_done_json(o, latency_ms, Some(tenant_id@))),
                )
                &&& r.stream.usage == Some(o.tokens_used)
                &&& r.stored matches Some(x)
                &&& x.0@ == run_store_key(Some(tenant_id@), report_run_id(report))
                &&& records_run(x.1, report, Some(tenant_id@), stamp as nat)
            },
            Err(f) => {
                &&& views(r.stream.events@) == seq![last_event_text(error_event_json(fault_text(f)))]
                &&& r.stream.usage is None
                &&& r.stored is None
            },
        },
{
    match result {
        Ok(o) => {
            let end = tenant_run_stream_rest(tenant_id, o, latency_ms, ms, stamp);
            StreamSettled { stream: end.stream, stored: Some((end.store_key, end.payload)) }
        },
        Err(f) => StreamSettled {
            stream: StreamEnd { events: fault_events(f), usage: None },
            stored: None,
        },
    }
}

// ---------------------------------------------------------------------------
// Registered workflows

/// `POST /v1/workflows`: the definition of a workflow, or the answer that refuses the request.
pub fn handle_register_workflow(body: &str) -> (r: Result<Json, String>)
    ensures
        json_outcome(r) == request_value(parsed_json(body@)),
{
    parse_request(body)
}

/// `POST /v1/workflows` of a tenant: the definition of a workflow, or the answer that refuses the
/// request.
pub fn handle_register_workflow_for_tenant(permit: &Result<(), String>, body: &str) -> (r: Result<
    Json,
    String,
>)
    ensures
        json_outcome(r) == (match denial(*permit) {
            Some(d) => Err(d),
            None => request_value(parsed_json(body@)),
        }),
{
    match denied(permit) {
        Some(d) => Err(d),
        None => parse_request(body),
    }
}

/// The answer to a definition that makes no workflow.
pub fn invalid_workflow(e: &str) -> (r: String)
    ensures
        r@ == error_response(400, "invalid workflow: "@ + e@),
{
    bad_request("invalid workflow: ".to_owned().concat(e).as_str())
}

/// What becomes of a definition once it was tried to make a workflow of it: the key to store it
/// under, or the answer that refuses it. `checked` holds the name and the number of steps.
pub fn register_plan(checked: &Result<(String, usize), String>, tenant: Option<&str>) -> (r: Result<
    String,
    String,
>)
    ensures
        match (*checked, r) {
            (Ok(flow), Ok(key)) => key@ == workflow_store_key(opt_str_view(tenant), flow.0@),
            (Err(e), Err(answer)) => answer@ == error_response(400, "invalid workflow: "@ + e@),
            _ => false,
        },
{
    match checked {
        Ok(flow) => Ok(workflow_key(tenant, flow.0.as_str())),
        Err(e) => Err(invalid_workflow(e.as_str())),
    }
}

/// The answer to a request to register a workflow, once storing it was tried.
pub fn register_reply(
    name: &str,
    steps: usize,
    stored: &Result<(), String>,
    tenant: Option<&str>,
) -> (r: Reply)
    ensures
        r.response@ == (match *stored {
            Ok(_) => ok_json(
                JsonView::Object(
                    with_tenant(
                        map![
                            "status"@ => JsonView::Str("registered"@),
                            "name"@ => JsonView::Str(name@),
                            "steps"@ => JsonView::Int(steps as int),
                        ],
                        opt_str_view(tenant),
                    ),
                ),
            ),
            Err(e) => error_response(500, e@),
        }),
        r.usage == (match *stored {
            Ok(_) => tenant_usage(opt_str_view(tenant), 0),
            Err(_) => None,
        }),
{
    match stored {
        Ok(_) => {
            let o = JsonObject::new().text("status", "registered").text("name", name).number(
                "steps",
                steps as u64,
            );
            Reply {
                response: ok(add_tenant(o, tenant).build().to_text().as_str()),
                usage: usage_of(tenant, 0),
            }
        },
        Err(e) => Reply { response: internal_error(e.as_str()), usage: None },
    }
}

/// A stored workflow: its key and its definition.
#[derive(Debug, Clone)]
pub struct StoredWorkflow {
    pub key: String,
    pub value: Vec<u8>,
}

/// Stored workflows, as values.
pub open spec fn workflow_views(v: Seq<StoredWorkflow>) -> Seq<(Seq<char>, Seq<u8>)> {
    Seq::new(v.len(), |i: int| (v[i].key@, v[i].value@))
}

/// A workflow as JSON: its name, and how many steps its definition has.
pub open spec fn workflow_row(name: Seq<char>, definition: JsonView) -> JsonView {
    JsonView::Object(
        map![
            "name"@ => JsonView::Str(name),
            "steps"@ => JsonView::Int(
                match definition.member("steps"@).as_items() {
                    Some(items) => items.len() as int,
                    None => 0,
                },
            ),
        ],
    )
}

/// The workflows whose key begins with `prefix` and whose definition is JSON, in order.
pub open spec fn workflow_rows(v: Seq<(Seq<char>, Seq<u8>)>, prefix: Seq<char>) -> Seq<JsonView>
    decreases v.len(),
{
    if v.len() == 0 {
        Seq::empty()
    } else {
        let before = workflow_rows(v.drop_last(), prefix);
        if begins(v.last().0, prefix) {
            match parsed_json_bytes(v.last().1) {
                Ok(j) => before.push(workflow_row(v.last().0.skip(prefix.len() as int), j)),
                Err(_) => before,
            }
        } else {
            before
        }
    }
}

/// A workflow as JSON.
pub fn workflow_item(name: &str, definition: &Json) -> (r: Json)
    ensures
        r@ == workflow_row(name@, definition@),
{
    let steps: usize = definition.count_at("steps");
    JsonObject::new().text("name", name).number("steps", steps as u64).build()
}

/// The workflows whose key begins with `prefix`, as a response.
fn workflows_text(stored: &Vec<StoredWorkflow>, prefix: &str, tenant: Option<&str>) -> (r: String)
    ensures
        ({
            let rows = workflow_rows(workflow_views(stored@), prefix@);
            r@ == ok_json(
                JsonView::Object(
                    with_tenant(
                        map![
                            "workflows"@ => JsonView::Array(rows),
                            "count"@ => JsonView::Int(rows.len() as int),
                        ],
                        opt_str_view(tenant),
                    ),
                ),
            )
        }),
{
    let ghost all = workflow_views(stored@);
    let mut rows: Vec<Json> = Vec::new();
    let mut i: usize = 0;
    assert(json_views(rows@) =~= workflow_rows(all.take(0), prefix@));
    while i < stored.len()
        invariant
            i <= stored@.len(),
            all == workflow_views(stored@),
            json_views(rows@) == workflow_rows(all.take(i as int), prefix@),
        decreases stored@.len() - i,
    {
        assert(all.take(i + 1).drop_last() =~= all.take(i as int));
        assert(all.take(i + 1).last() == (stored@[i as int].key@, stored@[i as int].value@));
        let ghost before = json_views(rows@);
        match strip_prefix(stored[i].key.as_str(), prefix) {
            Some(name) => match Json::parse_bytes(stored[i].value.as_slice()) {
                Ok(j) => {
                    let row = workflow_item(name, &j);
                    rows.push(row);
                    assert(json_views(rows@) =~= before.push(row@));
                },
                Err(_) => {},
            },
            None => {},
        }
        i = i + 1;
    }
    assert(all.take(all.len() as int) =~= all);
    let count: usize = rows.len();
    assert(json_views(rows@).len() == count);
    let o = JsonObject::new().with("workflows", Json::array(rows)).number("count", count as u64);
    ok(add_tenant(o, tenant).build().to_text().as_str())
}

/// `GET /v1/workflows`: the workflows that belong to no tenant.
pub fn handle_list_workflows(stored: &Vec<StoredWorkflow>) -> (r: String)
    ensures
        ({
            let rows = workflow_rows(workflow_views(stored@), "workflow:"@);
            r@ == ok_json(
                JsonView::Object(
                    map![
                        "workflows"@ => JsonView::Array(rows),
                        "count"@ => JsonView::Int(rows.len() as int),
                    ],
                ),
            )
        }),
{
    workflows_text(stored, "workflow:", None)
}

/// `GET /v1/workflows` of a tenant: the tenant's workflows.
pub fn handle_list_workflows_for_tenant(tenant_id: &str, stored: &Vec<StoredWorkflow>) -> (r: Reply)
    ensures
        ({
            let rows = workflow_rows(
                workflow_views(stored@),
                tenant_key(tenant_id@, KeyKind::Workflow, ""@),
            );
            r.response@ == ok_json(
                JsonView::Object(
                    with_tenant(
                        map![
                            "workflows"@ => JsonView::Array(rows),
                            "count"@ => JsonView::Int(rows.len() as int),
                        ],
                        Some(tenant_id@),
                    ),
                ),
            )
        }),
        r.usage == Some(0u64),
{
    let prefix = key_for(tenant_id, KeyKind::Workflow, "");
    Reply { response: workflows_text(stored, prefix.as_str(), Some(tenant_id)), usage: Some(0) }
}

// ---------------------------------------------------------------------------
// Laws

proof fn lemma_output_records_are_observations(
    outputs: Seq<(Seq<char>, JsonView)>,
    run_id: Seq<char>,
    stamp: nat,
    i: int,
)
    requires
        0 <= i < output_records(outputs, run_id, stamp).len(),
    ensures
        output_records(outputs, run_id, stamp)[i].record_type == RecordType::Obs,
    decreases outputs.len(),
{
    if outputs.len() > 0 {
        let before = output_records(outputs.drop_last(), run_id, stamp);
        if i < before.len() {
            lemma_output_records_are_observations(outputs.drop_last(), run_id, stamp, i);
        }
    }
}

proof fn lemma_run_list_all(records: Seq<RecordView>)
    requires
        forall|i: int|
            0 <= i < records.len() ==> (#[trigger] records[i]).record_type == RecordType::Obs,
    ensures
        run_list(records) == Seq::new(records.len(), |i: int| run_json(records[i])),
    decreases records.len(),
{
    if records.len() > 0 {
        let init = records.drop_last();
        assert forall|i: int| 0 <= i < init.len() implies (#[trigger] init[i]).record_type
            == RecordType::Obs by {
            assert(init[i] == records[i]);
        }
        lemma_run_list_all(init);
        assert(records[records.len() - 1].record_type == RecordType::Obs);
    }
    assert(run_list(records) =~= Seq::new(records.len(), |i: int| run_json(records[i])));
}

/// A workflow that was registered is found again: where the body of the registration denotes a
/// definition, the bytes stored for it denote the same.
pub proof fn registered_workflow_is_found(body: Seq<char>, name: Seq<char>, definition: JsonView)
    requires
        request_value(parsed_json(body)) == Ok::<JsonView, Seq<char>>(definition),
    ensures
        valid_utf8(encode_utf8(body)),
        stored_workflow(name, Some(parsed_json(decode_utf8(encode_utf8(body)))))
            == Ok::<JsonView, Seq<char>>(definition),
{
    encode_utf8_valid_utf8(body);
    encode_utf8_decode_utf8(body);
}

/// Everything that is recorded of a run is shown with it, in order.
pub proof fn run_shows_its_records(report: JsonView, tenant: Option<Seq<char>>, stamp: nat)
    ensures
        ({
            let records = run_records(report, tenant, stamp);
            run_list(records) == Seq::new(records.len(), |i: int| run_json(records[i]))
        }),
{
    let records = run_records(report, tenant, stamp);
    assert forall|i: int| 0 <= i < records.len() implies (#[trigger] records[i]).record_type
        == RecordType::Obs by {
        if i > 0 {
            let m = report.member("outputs"@).as_members().unwrap();
            lemma_output_records_are_observations(listing(m), report_run_id(report), stamp, i - 1);
        }
    }
    lemma_run_list_all(records);
}

proof fn lemma_output_ids(
    outputs: Seq<(Seq<char>, JsonView)>,
    run_id: Seq<char>,
    stamp: nat,
    i: int,
) -> (n: nat)
    requires
        0 <= i < output_records(outputs, run_id, stamp).len(),
    ensures
        output_records(outputs, run_id, stamp)[i].id == id_text("obs"@, n),
        stamp < n <= stamp + outputs.len(),
    decreases outputs.len(),
{
    let before = output_records(outputs.drop_last(), run_id, stamp);
    if i < before.len() {
        lemma_output_ids(outputs.drop_last(), run_id, stamp, i)
    } else {
        stamp + outputs.len()
    }
}

proof fn lemma_output_ids_differ(
    outputs: Seq<(Seq<char>, JsonView)>,
    run_id: Seq<char>,
    stamp: nat,
    i: int,
    j: int,
)
    requires
        0 <= i < j < output_records(outputs, run_id, stamp).len(),
    ensures
        output_records(outputs, run_id, stamp)[i].id != output_records(outputs, run_id, stamp)[j].id,
    decreases outputs.len(),
{
    let init = outputs.drop_last();
    let before = output_records(init, run_id, stamp);
    if j < before.len() {
        lemma_output_ids_differ(init, run_id, stamp, i, j);
    } else {
        let n = lemma_output_ids(init, run_id, stamp, i);
        if id_text("obs"@, n) == id_text("obs"@, stamp + outputs.len()) {
            ids_tell_their_numbers("obs"@, n, "obs"@, stamp + outputs.len());
        }
    }
}

/// No two records of a run have the same identifier.
pub proof fn run_ids_are_distinct(
    report: JsonView,
    tenant: Option<Seq<char>>,
    stamp: nat,
    i: int,
    j: int,
)
    requires
        0 <= i < j < run_records(report, tenant, stamp).len(),
    ensures
        run_records(report, tenant, stamp)[i].id != run_records(report, tenant, stamp)[j].id,
{
    let m = report.member("outputs"@).as_members().unwrap();
    let run_id = report_run_id(report);
    if i > 0 {
        lemma_output_ids_differ(listing(m), run_id, stamp, i - 1, j - 1);
    } else {
        let n = lemma_output_ids(listing(m), run_id, stamp, j - 1);
        if id_text("run"@, stamp) == id_text("obs"@, n) {
            ids_tell_their_numbers("run"@, stamp, "obs"@, n);
        }
    }
}

/// The summary that is kept of a run can be read back from its first record.
pub proof fn run_summary_is_kept(report: JsonView, tenant: Option<Seq<char>>, stamp: nat)
    requires
        crate::bridge_laws::unbroken(report_summary(report, tenant).status),
        tenant matches Some(t) ==> crate::bridge_laws::unbroken(t),
        report_summary(report, tenant).steps <= u64::MAX,
        report_summary(report, tenant).tokens <= u64::MAX,
        report_summary(report, tenant).latency_ms <= u64::MAX,
    ensures
        run_records(report, tenant, stamp).len() >= 1,
        run_records(report, tenant, stamp)[0].text_field(RecordType::Obs, 1) matches Some(
            text,
        ) && crate::bridge::summary_of(crate::text::words(text)) == report_summary(report, tenant),
{
    crate::bridge_laws::summary_round_trip(report_summary(report, tenant));
}

proof fn lemma_output_record_at(
    outputs: Seq<(Seq<char>, JsonView)>,
    run_id: Seq<char>,
    stamp: nat,
    k: int,
) -> (i: int)
    requires
        0 <= k < outputs.len(),
        outputs[k].1.as_text() is Some,
    ensures
        0 <= i < output_records(outputs, run_id, stamp).len(),
        ({
            let rec = output_records(outputs, run_id, stamp)[i];
            &&& rec.text_field(RecordType::Obs, 0) == Some(outputs[k].0)
            &&& rec.text_field(RecordType::Obs, 1) == Some(
                clip_bytes(outputs[k].1.as_text().unwrap(), 4000),
            )
            &&& rec.thread_id == run_id
        }),
    decreases outputs.len(),
{
    let init = outputs.drop_last();
    let before = output_records(init, run_id, stamp);
    if k == outputs.len() - 1 {
        before.len() as int
    } else {
        assert(init[k] == outputs[k]);
        lemma_output_record_at(init, run_id, stamp, k)
    }
}

proof fn lemma_output_of_record(
    outputs: Seq<(Seq<char>, JsonView)>,
    run_id: Seq<char>,
    stamp: nat,
    i: int,
) -> (k: int)
    requires
        0 <= i < output_records(outputs, run_id, stamp).len(),
    ensures
        0 <= k < outputs.len(),
        outputs[k].1.as_text() is Some,
        ({
            let rec = output_records(outputs, run_id, stamp)[i];
            &&& rec.text_field(RecordType::Obs, 0) == Some(outputs[k].0)
            &&& rec.text_field(RecordType::Obs, 1) == Some(
                clip_bytes(outputs[k].1.as_text().unwrap(), 4000),
            )
            &&& rec.thread_id == run_id
            &&& rec.step == (k + 2) as i64
        }),
    decreases outputs.len(),
{
    let init = outputs.drop_last();
    let before = output_records(init, run_id, stamp);
    if i < before.len() {
        let k = lemma_output_of_record(init, run_id, stamp, i);
        assert(init[k] == outputs[k]);
        k
    } else {
        outputs.len() - 1
    }
}

proof fn lemma_output_pair(
    outputs: Seq<(Seq<char>, JsonView)>,
    run_id: Seq<char>,
    stamp: nat,
    i: int,
    j: int,
) -> (r: (int, int))
    requires
        0 <= i < j < output_records(outputs, run_id, stamp).len(),
    ensures
        0 <= r.0 < r.1 < outputs.len(),
        output_records(outputs, run_id, stamp)[i].text_field(RecordType::Obs, 0) == Some(
            outputs[r.0].0,
        ),
        output_records(outputs, run_id, stamp)[j].text_field(RecordType::Obs, 0) == Some(
            outputs[r.1].0,
        ),
    decreases outputs.len(),
{
    let init = outputs.drop_last();
    let before = output_records(init, run_id, stamp);
    if j < before.len() {
        let r = lemma_output_pair(init, run_id, stamp, i, j);
        assert(init[r.0] == outputs[r.0] && init[r.1] == outputs[r.1]);
        r
    } else {
        let k = lemma_output_of_record(init, run_id, stamp, i);
        assert(init[k] == outputs[k]);
        (k, outputs.len() - 1)
    }
}

/// Whether a record keeps the output of a name: the name is its source, and the first 4000 bytes of
/// the output's text are its content.
pub open spec fn keeps_output(rec: RecordView, name: Seq<char>, text: Seq<char>) -> bool {
    &&& rec.text_field(RecordType::Obs, 0) == Some(name)
    &&& rec.text_field(RecordType::Obs, 1) == Some(clip_bytes(text, 4000))
}

/// Every output of a run that is a text is kept in a record of its own name and text.
pub proof fn every_output_is_kept(
    report: JsonView,
    tenant: Option<Seq<char>>,
    stamp: nat,
    outputs: Map<Seq<char>, JsonView>,
    name: Seq<char>,
    text: Seq<char>,
)
    requires
        report.member("outputs"@) == JsonView::Object(outputs),
        outputs.dom().finite(),
        outputs.contains_key(name),
        outputs[name] == JsonView::Str(text),
    ensures
        exists|i: int|
            0 < i < run_records(report, tenant, stamp).len() && keeps_output(
                #[trigger] run_records(report, tenant, stamp)[i],
                name,
                text,
            ),
{
    lemma_listing(outputs);
    let e = listing(outputs);
    let k = choose|k: int| 0 <= k < e.len() && (#[trigger] e[k]).0 == name;
    let i = lemma_output_record_at(e, report_run_id(report), stamp, k);
    assert(run_records(report, tenant, stamp)[i + 1] == output_records(
        e,
        report_run_id(report),
        stamp,
    )[i]);
}

/// A run's records hold nothing but its summary and its outputs: every record after the first keeps
/// an output that is a text, and no two keep the same one.
pub proof fn nothing_but_outputs_is_kept(
    report: JsonView,
    tenant: Option<Seq<char>>,
    stamp: nat,
    outputs: Map<Seq<char>, JsonView>,
    i: int,
)
    requires
        report.member("outputs"@) == JsonView::Object(outputs),
        outputs.dom().finite(),
        0 < i < run_records(report, tenant, stamp).len(),
    ensures
        exists|name: Seq<char>| #[trigger]
            outputs.contains_key(name) && (outputs[name] matches JsonView::Str(text) && keeps_output(
                run_records(report, tenant, stamp)[i],
                name,
                text,
            )),
        forall|j: int|
            0 < j < run_records(report, tenant, stamp).len() && j != i ==> (
            #[trigger] run_records(report, tenant, stamp)[j]).text_field(RecordType::Obs, 0)
                != run_records(report, tenant, stamp)[i].text_field(RecordType::Obs, 0),
{
    lemma_listing(outputs);
    let e = listing(outputs);
    let run_id = report_run_id(report);
    let records = run_records(report, tenant, stamp);
    let rest = output_records(e, run_id, stamp);
    let k = lemma_output_of_record(e, run_id, stamp, i - 1);
    assert(records[i] == rest[i - 1]);
    assert(outputs.contains_key(e[k].0) && outputs[e[k].0] == e[k].1);
    assert forall|j: int| 0 < j < records.len() && j != i implies (
    #[trigger] records[j]).text_field(RecordType::Obs, 0) != records[i].text_field(
        RecordType::Obs,
        0,
    ) by {
        assert(records[j] == rest[j - 1]);
        let (x, y) = if i < j { (i, j) } else { (j, i) };
        let (n, m) = lemma_output_pair(e, run_id, stamp, x - 1, y - 1);
        crate::keyed::lemma_lex_irreflexive(e[n].0);
        assert(crate::keyed::lex_before(e[n].0, e[m].0));
    }
}


} // verus!
