//! What holds of every run: its report, its records, its stream and the list of workflows agree with
//! what came of it.

use vstd::prelude::*;

use crate::bridge::{id_text, summary_of, FieldView, RecordType};
use crate::bridge_laws::unbroken;
use crate::json::{
    is_listing, lemma_listing, listing, pair_views, parsed_json_bytes, text_members_are_listed,
    texts_among, JsonView,
};
use crate::keyed::{lemma_lex_irreflexive, lex_before};
use crate::server::{is_error_response, status_of};
use crate::tenant::{tenant_key, KeyKind};
use crate::text::{begins, clip_bytes, words};
use crate::workflows::{
    cost_map, every_output_is_kept, fault_answer, keeps_output, output_json, output_records,
    outcome_members,
    report_run_id, report_summary, run_done_json, run_fields, run_records, run_report,
    run_start_json, run_store_key, run_summary_is_kept, tenant_run_report, text_map, workflow_rows,
    workflow_store_key, ModelCost, RunFault, RunOutcome,
};

verus! {

proof fn lemma_names()
    ensures
        "run_id"@.len() == 6 && "run_id"@[0] == 'r',
        "status"@.len() == 6 && "status"@[0] == 's',
        "steps_completed"@.len() == 15,
        "tokens_used"@.len() == 11,
        "latency_ms"@.len() == 10,
        "outputs"@.len() == 7,
        "workflow"@.len() == 8 && "workflow"@[0] == 'w',
        "trace_id"@.len() == 8 && "trace_id"@[0] == 't',
        "timestamp"@.len() == 9 && "timestamp"@[0] == 't' && "timestamp"@[1] == 'i',
        "tenant_id"@.len() == 9 && "tenant_id"@[0] == 't' && "tenant_id"@[1] == 'e',
        "recording"@.len() == 9 && "recording"@[0] == 'r',
        "cost"@.len() == 4 && "cost"@[0] == 'c',
        "type"@.len() == 4 && "type"@[0] == 't',
        "key"@.len() == 3,
        "content"@.len() == 7 && "content"@[0] == 'c',
        "name"@.len() == 4,
        "steps"@.len() == 5,
{
    reveal_strlit("run_id");
    reveal_strlit("status");
    reveal_strlit("steps_completed");
    reveal_strlit("tokens_used");
    reveal_strlit("latency_ms");
    reveal_strlit("outputs");
    reveal_strlit("workflow");
    reveal_strlit("trace_id");
    reveal_strlit("timestamp");
    reveal_strlit("tenant_id");
    reveal_strlit("recording");
    reveal_strlit("cost");
    reveal_strlit("type");
    reveal_strlit("key");
    reveal_strlit("content");
    reveal_strlit("name");
    reveal_strlit("steps");
}

// ---------------------------------------------------------------------------
// Reports

/// Whether a report tells what came of a run: its identifier, status, steps, tokens and latency, and
/// its outputs.
pub open spec fn tells_outcome(report: JsonView, o: RunOutcome, latency_ms: u64) -> bool {
    &&& report.member("run_id"@) == JsonView::Str(o.run_id@)
    &&& report.member("status"@) == JsonView::Str(o.status@)
    &&& report.member("steps_completed"@) == JsonView::Int(o.steps_completed as int)
    &&& report.member("tokens_used"@) == JsonView::Int(o.tokens_used as int)
    &&& report.member("latency_ms"@) == JsonView::Int(latency_ms as int)
    &&& report.member("outputs"@) is Object
    &&& forall|i: int|
        0 <= i < o.outputs@.len() && last_of_its_name(pair_views(o.outputs@), i) ==> (
        #[trigger] report.member("outputs"@).member(o.outputs@[i].0@)) == JsonView::Str(
            o.outputs@[i].1@,
        )
}

/// Whether no later one of `v` has the name of the one at `i`.
pub open spec fn last_of_its_name(v: Seq<(Seq<char>, Seq<char>)>, i: int) -> bool {
    forall|j: int| i < j < v.len() ==> (#[trigger] v[j]).0 != v[i].0
}

proof fn lemma_text_map_at(v: Seq<(Seq<char>, Seq<char>)>, i: int)
    requires
        0 <= i < v.len(),
        last_of_its_name(v, i),
    ensures
        text_map(v).contains_key(v[i].0),
        text_map(v)[v[i].0] == JsonView::Str(v[i].1),
    decreases v.len(),
{
    let init = v.drop_last();
    if i < v.len() - 1 {
        assert(v[v.len() - 1].0 != v[i].0);
        assert(init[i] == v[i]);
        assert forall|j: int| i < j < init.len() implies (#[trigger] init[j]).0 != init[i].0 by {
            assert(v[j].0 != v[i].0);
        }
        lemma_text_map_at(init, i);
    }
}

proof fn lemma_text_map_finite(v: Seq<(Seq<char>, Seq<char>)>)
    ensures
        text_map(v).dom().finite(),
    decreases v.len(),
{
    if v.len() > 0 {
        lemma_text_map_finite(v.drop_last());
    }
}

proof fn lemma_outputs(o: RunOutcome, report: JsonView)
    requires
        report.member("outputs"@) == JsonView::Object(text_map(pair_views(o.outputs@))),
    ensures
        forall|i: int|
            0 <= i < o.outputs@.len() && last_of_its_name(pair_views(o.outputs@), i) ==> (
            #[trigger] report.member("outputs"@).member(o.outputs@[i].0@)) == JsonView::Str(
                o.outputs@[i].1@,
            ),
{
    let v = pair_views(o.outputs@);
    assert forall|i: int| 0 <= i < o.outputs@.len() && last_of_its_name(v, i) implies (
    #[trigger] report.member("outputs"@).member(o.outputs@[i].0@)) == JsonView::Str(
        o.outputs@[i].1@,
    ) by {
        lemma_text_map_at(v, i);
        assert(v[i] == (o.outputs@[i].0@, o.outputs@[i].1@));
    }
}

/// The report of a run tells what came of it, and the workflow, the time and the trace.
pub proof fn reports_tell_the_outcome(
    o: RunOutcome,
    latency_ms: u64,
    timestamp: u64,
    trace_id: Seq<char>,
    cost: Seq<ModelCost>,
)
    ensures
        ({
            let report = run_report(o, latency_ms, timestamp, trace_id, cost);
            &&& tells_outcome(report, o, latency_ms)
            &&& report.member("workflow"@) == JsonView::Str("default"@)
            &&& report.member("timestamp"@) == JsonView::Int(timestamp as int)
            &&& report.member("trace_id"@) == JsonView::Str(trace_id)
            &&& o.recording matches Some(rec) ==> report.member("recording"@) == rec@
            &&& report.member("cost"@) == JsonView::Object(cost_map(cost))
        }),
{
    lemma_names();
    let report = run_report(o, latency_ms, timestamp, trace_id, cost);
    assert(report.member("outputs"@) == JsonView::Object(text_map(pair_views(o.outputs@))));
    lemma_outputs(o, report);
}

/// The report of a tenant's run tells what came of it, and the workflow, the time and the tenant.
pub proof fn tenant_reports_tell_the_outcome(
    o: RunOutcome,
    latency_ms: u64,
    timestamp: u64,
    workflow: Seq<char>,
    tenant_id: Seq<char>,
)
    ensures
        ({
            let report = tenant_run_report(o, latency_ms, timestamp, workflow, tenant_id);
            &&& tells_outcome(report, o, latency_ms)
            &&& report.member("workflow"@) == JsonView::Str(workflow)
            &&& report.member("timestamp"@) == JsonView::Int(timestamp as int)
            &&& report.member("tenant_id"@) == JsonView::Str(tenant_id)
            &&& o.recording matches Some(rec) ==> report.member("recording"@) == rec@
        }),
{
    lemma_names();
    let report = tenant_run_report(o, latency_ms, timestamp, workflow, tenant_id);
    assert(report.member("outputs"@) == JsonView::Object(text_map(pair_views(o.outputs@))));
    lemma_outputs(o, report);
}

/// The answer to a named run, which is not stored, tells what came of it too.
pub proof fn named_reports_tell_the_outcome(o: RunOutcome, latency_ms: u64)
    ensures
        tells_outcome(JsonView::Object(outcome_members(o, latency_ms)), o, latency_ms),
{
    lemma_names();
    let report = JsonView::Object(outcome_members(o, latency_ms));
    assert(report.member("outputs"@) == JsonView::Object(text_map(pair_views(o.outputs@))));
    lemma_outputs(o, report);
}

/// What a run used of each model is told under the model's name: calls and tokens, of two entries of
/// one model the later.
pub proof fn costs_are_told_by_model(cost: Seq<ModelCost>, i: int)
    requires
        0 <= i < cost.len(),
        forall|j: int| i < j < cost.len() ==> (#[trigger] cost[j]).model@ != cost[i].model@,
    ensures
        ({
            let told = JsonView::Object(cost_map(cost)).member(cost[i].model@);
            &&& told.member("calls"@) == JsonView::Int(cost[i].calls as int)
            &&& told.member("input_tokens"@) == JsonView::Int(cost[i].input_tokens as int)
            &&& told.member("output_tokens"@) == JsonView::Int(cost[i].output_tokens as int)
            &&& told.member("total_tokens"@) == JsonView::Int(cost[i].total_tokens as int)
        }),
    decreases cost.len(),
{
    reveal_strlit("calls");
    reveal_strlit("input_tokens");
    reveal_strlit("output_tokens");
    reveal_strlit("total_tokens");
    assert("calls"@.len() == 5 && "input_tokens"@.len() == 12 && "output_tokens"@.len() == 13);
    assert("total_tokens"@.len() == 12 && "total_tokens"@[0] == 't' && "input_tokens"@[0] == 'i');
    let init = cost.drop_last();
    if i < cost.len() - 1 {
        assert(cost[cost.len() - 1].model@ != cost[i].model@);
        assert(init[i] == cost[i]);
        assert forall|j: int| i < j < init.len() implies (#[trigger] init[j]).model@
            != init[i].model@ by {
            assert(cost[j].model@ != cost[i].model@);
        }
        costs_are_told_by_model(init, i);
    }
}

// ---------------------------------------------------------------------------
// Records

/// What is stored of a run is what came of it: the first record's summary, read back, gives its
/// status, steps, tokens, latency and tenant, all records are of the run, and every output is kept
/// in a record of its own.
pub proof fn records_keep_the_outcome(
    report: JsonView,
    o: RunOutcome,
    latency_ms: u64,
    tenant: Option<Seq<char>>,
    stamp: nat,
    i: int,
)
    requires
        tells_outcome(report, o, latency_ms),
        report.member("outputs"@) matches JsonView::Object(m) && m.dom().finite(),
        unbroken(o.status@),
        tenant matches Some(t) ==> unbroken(t),
        0 <= i < o.outputs@.len(),
        last_of_its_name(pair_views(o.outputs@), i),
    ensures
        ({
            let records = run_records(report, tenant, stamp);
            &&& report_run_id(report) == o.run_id@
            &&& records[0].text_field(RecordType::Obs, 1) matches Some(text) && {
                let s = summary_of(words(text));
                &&& s.status == o.status@
                &&& s.steps == o.steps_completed
                &&& s.tokens == o.tokens_used
                &&& s.latency_ms == latency_ms
                &&& s.tenant == tenant
            }
            &&& exists|j: int|
                0 < j < records.len() && keeps_output(
                    #[trigger] records[j],
                    o.outputs@[i].0@,
                    o.outputs@[i].1@,
                )
        }),
{
    let s = report_summary(report, tenant);
    assert(s.status == o.status@);
    assert(s.steps == o.steps_completed && s.tokens == o.tokens_used && s.latency_ms == latency_ms);
    run_summary_is_kept(report, tenant, stamp);
    let name = o.outputs@[i].0@;
    assert(report.member("outputs"@).member(name) == JsonView::Str(o.outputs@[i].1@));
    match report.member("outputs"@) {
        JsonView::Object(m) => {
            every_output_is_kept(report, tenant, stamp, m, name, o.outputs@[i].1@);
        },
        _ => {},
    }
}

/// The outputs of a run are finitely many members of its report, whatever they are.
pub proof fn outputs_are_finite(o: RunOutcome, latency_ms: u64)
    ensures
        JsonView::Object(outcome_members(o, latency_ms)).member("outputs"@) matches JsonView::Object(
            m,
        ) && m.dom().finite(),
{
    lemma_names();
    lemma_text_map_finite(pair_views(o.outputs@));
}

/// Every record of a run belongs to it, and the first is its first step, with full confidence
/// exactly where it succeeded.
pub proof fn records_belong_to_the_run(report: JsonView, tenant: Option<Seq<char>>, stamp: nat, i: int)
    requires
        0 <= i < run_records(report, tenant, stamp).len(),
        report.member("outputs"@) matches JsonView::Object(m) ==> m.dom().finite(),
    ensures
        run_records(report, tenant, stamp)[i].thread_id == report.text_at("run_id"@).unwrap_or(
            "unknown"@,
        ),
        run_records(report, tenant, stamp)[i].record_type == RecordType::Obs,
        run_records(report, tenant, stamp)[0].step == 1,
        run_records(report, tenant, stamp)[0].text_field(RecordType::Obs, 0) == Some(
            report.text_at("workflow"@).unwrap_or("default"@),
        ),
        run_records(report, tenant, stamp)[0].fields[2] == FieldView::Float(
            if report.member("status"@) == JsonView::Str("succeeded"@) {
                0x3ff0_0000_0000_0000
            } else {
                0
            },
        ),
{
    match report.member("outputs"@) {
        JsonView::Object(m) => {
            lemma_listing(m);
            if i > 0 {
                lemma_thread(listing(m), report_run_id(report), stamp, i - 1);
            }
        },
        _ => {},
    }
}

proof fn lemma_thread(
    outputs: Seq<(Seq<char>, JsonView)>,
    run_id: Seq<char>,
    stamp: nat,
    i: int,
)
    requires
        0 <= i < output_records(outputs, run_id, stamp).len(),
    ensures
        output_records(outputs, run_id, stamp)[i].thread_id == run_id,
        output_records(outputs, run_id, stamp)[i].record_type == RecordType::Obs,
    decreases outputs.len(),
{
    let before = output_records(outputs.drop_last(), run_id, stamp);
    if i < before.len() {
        lemma_thread(outputs.drop_last(), run_id, stamp, i);
    }
}

// ---------------------------------------------------------------------------
// Requests

/// The variables of a run are the texts of its input, each by its name and nothing else; its budget
/// is the one asked for, or 8192; its capabilities are the texts asked for.
pub proof fn runs_take_their_input(req: JsonView, input: Map<Seq<char>, JsonView>, k: Seq<char>, v: Seq<char>)
    requires
        req.member("input"@) == JsonView::Object(input),
        input.dom().finite(),
    ensures
        run_fields(req).vars.contains((k, v)) <==> input.contains_key(k) && input[k]
            == JsonView::Str(v),
        req.member("context_budget"@) matches JsonView::Int(n) && n >= 0 ==> run_fields(
            req,
        ).context_budget == req.member("context_budget"@)->Int_0,
        req.member("context_budget"@) is Null ==> run_fields(req).context_budget == 8192,
        req.member("capabilities"@) is Null ==> run_fields(req).capabilities is None,
        req.member("capabilities"@) matches JsonView::Array(items) ==> run_fields(req).capabilities
            == Some(texts_among(req.member("capabilities"@)->Array_0)),
{
    text_members_are_listed(input, k, v);
}

/// A run without input has no variables.
pub proof fn runs_without_input_have_no_variables(req: JsonView)
    requires
        !(req.member("input"@) is Object),
    ensures
        run_fields(req).vars.len() == 0,
{
}

// ---------------------------------------------------------------------------
// Streams

/// The events of a run's stream tell what they are about: its start, each output with its name and
/// the first 2000 bytes of its text, and what came of it.
pub proof fn stream_events_tell(
    o: RunOutcome,
    latency_ms: u64,
    tenant: Option<Seq<char>>,
    name: Seq<char>,
    text: Seq<char>,
)
    ensures
        run_start_json(tenant).member("type"@) == JsonView::Str("start"@),
        output_json(name, text).member("type"@) == JsonView::Str("output"@),
        output_json(name, text).member("key"@) == JsonView::Str(name),
        output_json(name, text).member("content"@) == JsonView::Str(clip_bytes(text, 2000)),
        run_done_json(o, latency_ms, tenant).member("type"@) == JsonView::Str("done"@),
        run_done_json(o, latency_ms, tenant).member("status"@) == JsonView::Str(o.status@),
        run_done_json(o, latency_ms, tenant).member("steps_completed"@) == JsonView::Int(
            o.steps_completed as int,
        ),
        run_done_json(o, latency_ms, tenant).member("tokens_used"@) == JsonView::Int(
            o.tokens_used as int,
        ),
        run_done_json(o, latency_ms, tenant).member("latency_ms"@) == JsonView::Int(
            latency_ms as int,
        ),
        tenant matches Some(t) ==> run_start_json(tenant).member("tenant_id"@) == JsonView::Str(t)
            && run_done_json(o, latency_ms, tenant).member("tenant_id"@) == JsonView::Str(t),
        tenant is None ==> run_start_json(tenant).member("tenant_id"@) is Null && run_done_json(
            o,
            latency_ms,
            tenant,
        ).member("tenant_id"@) is Null,
{
    lemma_names();
}

// ---------------------------------------------------------------------------
// Faults and keys

/// Every fault of a run is answered with status 500.
pub proof fn faults_are_server_errors(f: RunFault, built: Seq<char>)
    ensures
        status_of(fault_answer(f, built)) == 500,
        is_error_response(fault_answer(f, built)),
{
    let body = |msg: Seq<char>|
        crate::json::json_text(crate::response::error_body(500, msg));
    match f {
        RunFault::Build(e) => {
            crate::server_laws::status_is_read_back(500, "application/json"@, body(built + e@));
        },
        RunFault::Run(e) => {
            crate::server_laws::status_is_read_back(
                500,
                "application/json"@,
                body("workflow failed: "@ + e@),
            );
        },
    }
}

/// Runs, workflows and sessions outside of tenants never share a key, and two of one kind only share
/// one where they share a name.
pub proof fn kinds_are_kept_apart(a: Seq<char>, b: Seq<char>)
    ensures
        run_store_key(None, a) != workflow_store_key(None, b),
        run_store_key(None, a) != crate::chat::session_store_key(None, b),
        workflow_store_key(None, a) != crate::chat::session_store_key(None, b),
        a != b ==> run_store_key(None, a) != run_store_key(None, b),
        a != b ==> workflow_store_key(None, a) != workflow_store_key(None, b),
{
    reveal_strlit("run:");
    reveal_strlit("workflow:");
    reveal_strlit("session:");
    assert(run_store_key(None, a)[0] == 'r');
    assert(workflow_store_key(None, a)[0] == 'w' && workflow_store_key(None, b)[0] == 'w');
    assert(crate::chat::session_store_key(None, b)[0] == 's');
    assert(run_store_key(None, a).skip(4) =~= a);
    assert(run_store_key(None, b).skip(4) =~= b);
    assert(workflow_store_key(None, a).skip(9) =~= a);
    assert(workflow_store_key(None, b).skip(9) =~= b);
}

// ---------------------------------------------------------------------------
// Lists of workflows

/// The workflows of one store after another are listed one after another, and of a stored one its
/// name and how many steps its definition has, where its key has the prefix and it can be read.
pub proof fn workflows_are_listed(
    a: Seq<(Seq<char>, Seq<u8>)>,
    b: Seq<(Seq<char>, Seq<u8>)>,
    prefix: Seq<char>,
    name: Seq<char>,
    definition: Seq<u8>,
)
    ensures
        workflow_rows(a + b, prefix) == workflow_rows(a, prefix) + workflow_rows(b, prefix),
        match parsed_json_bytes(definition) {
            Ok(j) => {
                let rows = workflow_rows(seq![(prefix + name, definition)], prefix);
                &&& rows.len() == 1
                &&& rows[0].member("name"@) == JsonView::Str(name)
                &&& j.member("steps"@) matches JsonView::Array(steps) ==> rows[0].member("steps"@)
                    == JsonView::Int(j.member("steps"@)->Array_0.len() as int)
                &&& !(j.member("steps"@) is Array) ==> rows[0].member("steps"@) == JsonView::Int(0)
            },
            Err(_) => workflow_rows(seq![(prefix + name, definition)], prefix).len() == 0,
        },
    decreases b.len(),
{
    lemma_names();
    let one = seq![(prefix + name, definition)];
    assert(one.drop_last() =~= Seq::<(Seq<char>, Seq<u8>)>::empty());
    assert(workflow_rows(one.drop_last(), prefix) == Seq::<JsonView>::empty());
    assert((prefix + name).take(prefix.len() as int) =~= prefix);
    assert((prefix + name).skip(prefix.len() as int) =~= name);
    if b.len() == 0 {
        assert(a + b =~= a);
        assert(workflow_rows(a, prefix) + workflow_rows(b, prefix) =~= workflow_rows(a, prefix));
    } else {
        workflows_are_listed(a, b.drop_last(), prefix, name, definition);
        assert((a + b).drop_last() =~= a + b.drop_last());
        assert(workflow_rows(a + b, prefix) =~= workflow_rows(a, prefix) + workflow_rows(b, prefix));
    }
}

/// What is stored under another prefix is not listed.
pub proof fn other_workflows_are_not_listed(key: Seq<char>, definition: Seq<u8>, prefix: Seq<char>)
    requires
        !begins(key, prefix),
    ensures
        workflow_rows(seq![(key, definition)], prefix).len() == 0,
{
    let one = seq![(key, definition)];
    assert(one.drop_last() =~= Seq::<(Seq<char>, Seq<u8>)>::empty());
    assert(workflow_rows(one.drop_last(), prefix) == Seq::<JsonView>::empty());
}

/// A workflow is stored under the prefix that its list goes by, followed by its name.
pub proof fn workflow_keys_begin_with_their_prefix(tenant: Option<Seq<char>>, name: Seq<char>)
    ensures
        tenant matches Some(t) ==> workflow_store_key(tenant, name) == tenant_key(
            t,
            KeyKind::Workflow,
            ""@,
        ) + name,
        tenant is None ==> workflow_store_key(tenant, name) == "workflow:"@ + name,
{
    reveal_strlit("");
    match tenant {
        Some(t) => {
            assert(workflow_store_key(tenant, name) =~= tenant_key(t, KeyKind::Workflow, ""@) + name);
        },
        None => {},
    }
}

proof fn lemma_numbered(
    outputs: Seq<(Seq<char>, JsonView)>,
    run_id: Seq<char>,
    stamp: nat,
    i: int,
)
    requires
        forall|j: int| 0 <= j < outputs.len() ==> (#[trigger] outputs[j]).1 is Str,
        0 <= i < outputs.len() < i64::MAX - 1,
    ensures
        output_records(outputs, run_id, stamp).len() == outputs.len(),
        output_records(outputs, run_id, stamp)[i].step == i + 2,
        output_records(outputs, run_id, stamp)[i].id == id_text("obs"@, (stamp + i + 1) as nat),
        output_records(outputs, run_id, stamp)[i].fields[2] == FieldView::Float(0x3ff0_0000_0000_0000),
    decreases outputs.len(),
{
    let init = outputs.drop_last();
    assert(outputs[outputs.len() - 1].1 is Str);
    assert forall|j: int| 0 <= j < init.len() implies (#[trigger] init[j]).1 is Str by {
        assert(outputs[j].1 is Str);
    }
    if init.len() > 0 {
        lemma_numbered(init, run_id, stamp, if i < init.len() {
            i
        } else {
            0
        });
    }
}

/// Where all outputs of a run are texts, there is a record for each after the first, with full
/// confidence; all are numbered one after the other, and so are their identifiers.
pub proof fn records_are_numbered(
    report: JsonView,
    tenant: Option<Seq<char>>,
    stamp: nat,
    outputs: Map<Seq<char>, JsonView>,
    i: int,
)
    requires
        report.member("outputs"@) == JsonView::Object(outputs),
        outputs.dom().finite(),
        outputs.dom().len() < i64::MAX - 1,
        forall|k: Seq<char>| #[trigger] outputs.contains_key(k) ==> outputs[k] is Str,
        0 < i < run_records(report, tenant, stamp).len(),
    ensures
        run_records(report, tenant, stamp)[i].step == i + 1,
        run_records(report, tenant, stamp)[i].id == id_text("obs"@, (stamp + i) as nat),
        run_records(report, tenant, stamp)[i].fields[2] == FieldView::Float(0x3ff0_0000_0000_0000),
        run_records(report, tenant, stamp)[0].id == id_text("run"@, stamp),
{
    lemma_listing(outputs);
    let e = listing(outputs);
    assert forall|j: int| 0 <= j < e.len() implies (#[trigger] e[j]).1 is Str by {
        assert(outputs.contains_key(e[j].0));
    }
    lemma_listing_len(e, outputs);
    let run_id = report_run_id(report);
    if e.len() > 0 {
        lemma_numbered(e, run_id, stamp, 0);
        lemma_numbered(e, run_id, stamp, i - 1);
    }
    assert(run_records(report, tenant, stamp)[i] == output_records(e, run_id, stamp)[i - 1]);
}

proof fn lemma_listing_len(e: Seq<(Seq<char>, JsonView)>, m: Map<Seq<char>, JsonView>)
    requires
        is_listing(e, m),
        m.dom().finite(),
    ensures
        e.len() == m.dom().len(),
{
    let names = Seq::new(e.len(), |i: int| e[i].0);
    assert forall|i: int, j: int| 0 <= i < j < names.len() implies names[i] != names[j] by {
        assert(lex_before(e[i].0, e[j].0));
        lemma_lex_irreflexive(e[i].0);
    }
    assert(names.no_duplicates());
    assert(names.to_set() =~= m.dom()) by {
        assert forall|k: Seq<char>| names.to_set().contains(k) <==> m.dom().contains(k) by {
            if names.to_set().contains(k) {
                let i = choose|i: int| 0 <= i < names.len() && names[i] == k;
                assert(m.contains_key(e[i].0));
            }
            if m.contains_key(k) {
                let i = choose|i: int| 0 <= i < e.len() && (#[trigger] e[i]).0 == k;
                assert(names[i] == k);
            }
        }
    }
    names.unique_seq_to_set();
}

/// Figures that a report does not give count as zero, a status that it does not give is unknown, and
/// a workflow that it does not name is the default one.
pub proof fn missing_figures_count_as_zero(report: JsonView, tenant: Option<Seq<char>>, stamp: nat)
    ensures
        ({
            let s = report_summary(report, tenant);
            &&& report.member("steps_completed"@) is Null ==> s.steps == 0
            &&& report.member("tokens_used"@) is Null ==> s.tokens == 0
            &&& report.member("latency_ms"@) is Null ==> s.latency_ms == 0
            &&& report.member("status"@) is Null ==> s.status == "unknown"@
            &&& s.tenant == tenant
        }),
        report.member("run_id"@) is Null ==> report_run_id(report) == "unknown"@,
        report.member("workflow"@) is Null ==> run_records(report, tenant, stamp)[0].text_field(
            RecordType::Obs,
            0,
        ) == Some("default"@),
{
}

} // verus!
