//! Observation of what has run: runs, metrics, logs and the dashboard.

use vstd::prelude::*;

use crate::bridge::{
    obs_content, payload_to_run_json, record_views, run_list, AgentPayload, RecordType,
};
use crate::clock::clamp_u64;
use crate::documents::{add_tenant, with_tenant};
use crate::handlers::AppState;
use crate::json::{json_views, no_members, parsed_json_bytes, Json, JsonObject, JsonView};
use crate::ratio::{point_text, rounded, Ratio};
use crate::requests::Reply;
use crate::response::{error_response, not_found, ok, ok_json};
use crate::slo::{ascending, at_most, percentile, percentile_of};
use crate::tenant::{key_for, tenant_key, KeyKind};
use crate::text::{begins, clip, clip_bytes, clips_at, str_eq, strip_prefix, u128_text};

verus! {

/// How many runs are listed at most.
pub const LISTED_RUNS: usize = 100;

/// How many runs the dashboard shows at most.
pub const DASHBOARD_RUNS: usize = 10;

/// How many runs the log shows at most.
pub const LOGGED_RUNS: usize = 50;

/// How many bytes of a summary are shown.
pub const SUMMARY_BYTES: usize = 200;

/// The bytes of stored values.
pub open spec fn byte_views(v: Seq<Vec<u8>>) -> Seq<Seq<u8>> {
    Seq::new(v.len(), |i: int| v[i]@)
}

/// The newest `n` of a sequence, newest first.
pub open spec fn newest<A>(s: Seq<A>, n: int) -> Seq<A> {
    Seq::new(
        if s.len() <= n {
            s.len()
        } else {
            n as nat
        },
        |i: int| s[s.len() - 1 - i],
    )
}

/// The stored values that are JSON, each turned into a row, in order.
pub open spec fn parsed_rows(v: Seq<Seq<u8>>, row: spec_fn(JsonView) -> JsonView) -> Seq<JsonView>
    decreases v.len(),
{
    if v.len() == 0 {
        Seq::empty()
    } else {
        match parsed_json_bytes(v.last()) {
            Ok(j) => parsed_rows(v.drop_last(), row).push(row(j)),
            Err(_) => parsed_rows(v.drop_last(), row),
        }
    }
}

/// How a run is shown.
#[derive(Debug, Clone, Copy, PartialEq, Eq, Structural)]
pub enum RowKind {
    /// In the list of runs.
    Listed,
    /// On the dashboard.
    Recent,
    /// In the log.
    Logged,
}

/// A run as it is shown.
pub open spec fn row_json(kind: RowKind, j: JsonView) -> JsonView {
    match kind {
        RowKind::Listed => JsonView::Object(
            map![
                "run_id"@ => j.member("run_id"@),
                "status"@ => j.member("status"@),
                "steps_completed"@ => j.member("steps_completed"@),
                "tokens_used"@ => j.member("tokens_used"@),
                "latency_ms"@ => j.member("latency_ms"@),
                "workflow"@ => j.member("workflow"@),
                "timestamp"@ => j.member("timestamp"@),
            ],
        ),
        RowKind::Recent => JsonView::Object(
            map![
                "run_id"@ => j.member("run_id"@),
                "status"@ => j.member("status"@),
                "tokens"@ => j.member("tokens_used"@),
                "latency_ms"@ => j.member("latency_ms"@),
            ],
        ),
        RowKind::Logged => JsonView::Object(
            map![
                "run_id"@ => j.member("run_id"@),
                "status"@ => j.member("status"@),
                "workflow"@ => j.member("workflow"@),
                "tokens"@ => j.member("tokens_used"@),
                "latency_ms"@ => j.member("latency_ms"@),
                "timestamp"@ => j.member("timestamp"@),
            ],
        ),
    }
}

/// How runs of a kind are shown.
pub open spec fn row_maker(kind: RowKind) -> spec_fn(JsonView) -> JsonView {
    |j: JsonView| row_json(kind, j)
}

/// A run as it is shown.
pub fn run_row(kind: RowKind, j: &Json) -> (r: Json)
    ensures
        r@ == row_json(kind, j@),
{
    match kind {
        RowKind::Listed => JsonObject::new().with("run_id", j.member("run_id")).with(
            "status",
            j.member("status"),
        ).with("steps_completed", j.member("steps_completed")).with(
            "tokens_used",
            j.member("tokens_used"),
        ).with("latency_ms", j.member("latency_ms")).with("workflow", j.member("workflow")).with(
            "timestamp",
            j.member("timestamp"),
        ).build(),
        RowKind::Recent => JsonObject::new().with("run_id", j.member("run_id")).with(
            "status",
            j.member("status"),
        ).with("tokens", j.member("tokens_used")).with(
            "latency_ms",
            j.member("latency_ms"),
        ).build(),
        RowKind::Logged => JsonObject::new().with("run_id", j.member("run_id")).with(
            "status",
            j.member("status"),
        ).with("workflow", j.member("workflow")).with("tokens", j.member("tokens_used")).with(
            "latency_ms",
            j.member("latency_ms"),
        ).with("timestamp", j.member("timestamp")).build(),
    }
}

/// The rows of the newest runs, newest first.
pub open spec fn newest_rows(values: Seq<Seq<u8>>, n: int, kind: RowKind) -> Seq<JsonView> {
    parsed_rows(newest(values, n), row_maker(kind))
}

/// The rows of the newest runs, newest first.
fn collect_rows(values: &Vec<Vec<u8>>, n: usize, kind: RowKind) -> (r: Vec<Json>)
    ensures
        json_views(r@) == newest_rows(byte_views(values@), n as int, kind),
{
    let ghost all = newest(byte_views(values@), n as int);
    let len: usize = values.len();
    let count: usize = if len <= n {
        len
    } else {
        n
    };
    let mut rows: Vec<Json> = Vec::new();
    let mut i: usize = 0;
    assert(json_views(rows@) =~= parsed_rows(all.take(0), row_maker(kind)));
    while i < count
        invariant
            i <= count,
            count <= len,
            len == values@.len(),
            all == newest(byte_views(values@), n as int),
            all.len() == count,
            json_views(rows@) == parsed_rows(all.take(i as int), row_maker(kind)),
        decreases count - i,
    {
        assert(all.take(i + 1).drop_last() =~= all.take(i as int));
        assert(all.take(i + 1).last() == values@[len - 1 - i]@);
        let ghost before = json_views(rows@);
        match Json::parse_bytes(values[len - 1 - i].as_slice()) {
            Ok(j) => {
                let row = run_row(kind, &j);
                rows.push(row);
                assert(json_views(rows@) =~= before.push(row@));
            },
            Err(_) => {},
        }
        i = i + 1;
    }
    assert(all.take(count as int) =~= all);
    rows
}

// ---------------------------------------------------------------------------
// Runs

/// `GET /v1/runs`: the newest runs, from the stored values in ascending order of keys. Values
/// that are not JSON are passed over.
pub fn handle_list_runs(values: &Vec<Vec<u8>>) -> (r: String)
    ensures
        ({
            let rows = newest_rows(byte_views(values@), LISTED_RUNS as int, RowKind::Listed);
            r@ == ok_json(
                JsonView::Object(
                    map![
                        "runs"@ => JsonView::Array(rows),
                        "count"@ => JsonView::Int(rows.len() as int),
                    ],
                ),
            )
        }),
{
    let rows = collect_rows(values, LISTED_RUNS, RowKind::Listed);
    let count: usize = rows.len();
    assert(json_views(rows@).len() == count);
    let body = JsonObject::new().with("runs", Json::array(rows)).number("count", count as u64);
    ok(body.build().to_text().as_str())
}

/// A stored run of a tenant: its key, and its payload where that can be read.
#[derive(Debug, Clone)]
pub struct StoredRun {
    pub key: String,
    pub payload: Option<AgentPayload>,
}

/// The runs whose key begins with `prefix`, in order.
pub open spec fn own_runs(v: Seq<StoredRun>, prefix: Seq<char>) -> Seq<StoredRun>
    decreases v.len(),
{
    if v.len() == 0 {
        Seq::empty()
    } else if begins(v.last().key@, prefix) {
        own_runs(v.drop_last(), prefix).push(v.last())
    } else {
        own_runs(v.drop_last(), prefix)
    }
}

/// The summary that a payload begins with; empty where its first record is none.
pub open spec fn summary_of_payload(p: AgentPayload) -> Seq<char> {
    p.records@[0]@.text_field(RecordType::Obs, 1).unwrap_or(""@)
}

/// A tenant's run as it is shown; nothing where it has no payload or no records.
pub open spec fn stored_run_json(run: StoredRun, prefix: Seq<char>) -> Option<JsonView> {
    match run.payload {
        Some(p) => if p.records@.len() > 0 {
            Some(
                JsonView::Object(
                    map![
                        "run_id"@ => JsonView::Str(run.key@.skip(prefix.len() as int)),
                        "summary"@ => JsonView::Str(
                            clip_bytes(summary_of_payload(p), SUMMARY_BYTES as int),
                        ),
                        "record_count"@ => JsonView::Int(p.records@.len() as int),
                    ],
                ),
            )
        } else {
            None
        },
        None => None,
    }
}

/// The runs that are shown, in order.
pub open spec fn stored_run_rows(v: Seq<StoredRun>, prefix: Seq<char>) -> Seq<JsonView>
    decreases v.len(),
{
    if v.len() == 0 {
        Seq::empty()
    } else {
        match stored_run_json(v.last(), prefix) {
            Some(j) => stored_run_rows(v.drop_last(), prefix).push(j),
            None => stored_run_rows(v.drop_last(), prefix),
        }
    }
}

/// Whether the summary of a run can be clipped: its first bytes end with a whole character.
pub open spec fn summary_clips(run: StoredRun) -> bool {
    run.payload matches Some(p) && p.records@.len() > 0 ==> clips_at(
        summary_of_payload(run.payload.unwrap()),
        SUMMARY_BYTES as int,
    )
}

/// `GET /v1/runs` of a tenant: the tenant's newest runs, from the stored ones in ascending order
/// of keys. The first bytes of every summary shown must end with a whole character.
pub fn handle_list_runs_for_tenant(tenant_id: &str, stored: &Vec<StoredRun>) -> (r: Reply)
    requires
        ({
            let shown = newest(
                own_runs(stored@, tenant_key(tenant_id@, KeyKind::Run, ""@)),
                LISTED_RUNS as int,
            );
            forall|i: int| 0 <= i < shown.len() ==> summary_clips(#[trigger] shown[i])
        }),
    ensures
        ({
            let prefix = tenant_key(tenant_id@, KeyKind::Run, ""@);
            let rows = stored_run_rows(
                newest(own_runs(stored@, prefix), LISTED_RUNS as int),
                prefix,
            );
            r.response@ == ok_json(
                JsonView::Object(
                    with_tenant(
                        map![
                            "runs"@ => JsonView::Array(rows),
                            "count"@ => JsonView::Int(rows.len() as int),
                        ],
                        Some(tenant_id@),
                    ),
                ),
            )
        }),
        r.usage == Some(0u64),
{
    let prefix = key_for(tenant_id, KeyKind::Run, "");
    let ghost p = prefix@;
    let ghost own = own_runs(stored@, p);
    let ghost shown = newest(own, LISTED_RUNS as int);
    // The positions of the tenant's runs among the stored ones.
    let mut at: Vec<usize> = Vec::new();
    let mut i: usize = 0;
    assert(stored@.take(0) =~= Seq::empty());
    while i < stored.len()
        invariant
            i <= stored@.len(),
            p == prefix@,
            at@.len() == own_runs(stored@.take(i as int), p).len(),
            forall|j: int|
                0 <= j < at@.len() ==> (#[trigger] at@[j]) < i && stored@[at@[j] as int]
                    == own_runs(stored@.take(i as int), p)[j] && begins(
                    stored@[at@[j] as int].key@,
                    p,
                ),
        decreases stored@.len() - i,
    {
        assert(stored@.take(i + 1).drop_last() =~= stored@.take(i as int));
        if strip_prefix(stored[i].key.as_str(), prefix.as_str()).is_some() {
            at.push(i);
        }
        i = i + 1;
    }
    assert(stored@.take(stored@.len() as int) =~= stored@);
    let len: usize = at.len();
    let count: usize = if len <= LISTED_RUNS {
        len
    } else {
        LISTED_RUNS
    };
    let mut rows: Vec<Json> = Vec::new();
    let mut k: usize = 0;
    assert(json_views(rows@) =~= stored_run_rows(shown.take(0), p));
    while k < count
        invariant
            k <= count,
            count <= len,
            len == at@.len(),
            p == prefix@,
            own.len() == len,
            shown == newest(own, LISTED_RUNS as int),
            shown.len() == count,
            forall|j: int|
                0 <= j < at@.len() ==> (#[trigger] at@[j]) < stored@.len() && stored@[at@[j] as int]
                    == own[j] && begins(stored@[at@[j] as int].key@, p),
            forall|j: int| 0 <= j < shown.len() ==> summary_clips(#[trigger] shown[j]),
            json_views(rows@) == stored_run_rows(shown.take(k as int), p),
        decreases count - k,
    {
        assert(shown.take(k + 1).drop_last() =~= shown.take(k as int));
        let pos: usize = at[len - 1 - k];
        assert(at@[len - 1 - k] < stored@.len());
        let run = &stored[pos];
        assert(shown.take(k + 1).last() == *run);
        assert(shown[k as int] == *run);
        let ghost before = json_views(rows@);
        match &run.payload {
            Some(payload) => {
                if payload.records.len() > 0 {
                    let content = match obs_content(&payload.records[0]) {
                        Some(s) => s,
                        None => "",
                    };
                    assert(content@ == summary_of_payload(*payload));
                    assert(summary_clips(*run));
                    let id = match strip_prefix(run.key.as_str(), prefix.as_str()) {
                        Some(s) => s,
                        None => run.key.as_str(),
                    };
                    let n: usize = payload.records.len();
                    let row = JsonObject::new().text("run_id", id).text(
                        "summary",
                        clip(content, SUMMARY_BYTES),
                    ).number("record_count", n as u64).build();
                    rows.push(row);
                    assert(json_views(rows@) =~= before.push(row@));
                }
            },
            None => {},
        }
        k = k + 1;
    }
    assert(shown.take(count as int) =~= shown);
    let n: usize = rows.len();
    assert(json_views(rows@).len() == n);
    let o = JsonObject::new().with("runs", Json::array(rows)).number("count", n as u64);
    Reply {
        response: ok(add_tenant(o, Some(tenant_id)).build().to_text().as_str()),
        usage: Some(0),
    }
}

/// What a stored run denotes as JSON; an empty object where it is not JSON.
pub open spec fn stored_run_value(parsed: Result<JsonView, Seq<char>>) -> JsonView {
    match parsed {
        Ok(v) => v,
        Err(_) => JsonView::Object(no_members()),
    }
}

/// `GET /v1/runs/:id`: a run, as it was found in the store.
pub fn handle_get_run(run_id: &str, found: Option<&[u8]>) -> (r: String)
    ensures
        r@ == (match found {
            Some(b) => ok_json(stored_run_value(parsed_json_bytes(b@))),
            None => error_response(404, "run not found: "@ + run_id@),
        }),
{
    match found {
        Some(b) => {
            let v = match Json::parse_bytes(b) {
                Ok(v) => v,
                Err(_) => JsonObject::new().build(),
            };
            ok(v.to_text().as_str())
        },
        None => not_found("run not found: ".to_owned().concat(run_id).as_str()),
    }
}

/// `GET /v1/runs/:id` of a tenant: the records of a run, as they were found under the tenant's
/// key.
pub fn handle_get_run_for_tenant(tenant_id: &str, run_id: &str, found: Option<&AgentPayload>) -> (r:
    Reply)
    ensures
        r.response@ == (match found {
            Some(p) => ok_json(
                JsonView::Object(
                    with_tenant(
                        map![
                            "run_id"@ => JsonView::Str(run_id@),
                            "records"@ => JsonView::Array(run_list(record_views(p.records@))),
                            "record_count"@ => JsonView::Int(p.records@.len() as int),
                        ],
                        Some(tenant_id@),
                    ),
                ),
            ),
            None => error_response(404, "run not found: "@ + run_id@),
        }),
        r.usage == (match found {
            Some(_) => Some(0u64),
            None => None,
        }),
{
    match found {
        Some(p) => {
            let n: usize = p.records.len();
            let o = JsonObject::new().text("run_id", run_id).with(
                "records",
                Json::array(payload_to_run_json(p)),
            ).number("record_count", n as u64);
            Reply {
                response: ok(add_tenant(o, Some(tenant_id)).build().to_text().as_str()),
                usage: Some(0),
            }
        },
        None => Reply {
            response: not_found("run not found: ".to_owned().concat(run_id).as_str()),
            usage: None,
        },
    }
}

// ---------------------------------------------------------------------------
// Metrics

/// What the metrics take from one run.
#[derive(Debug, Clone, Copy, PartialEq, Eq, Structural)]
pub struct RunStat {
    pub tokens: u64,
    pub latency_ms: u64,
    pub succeeded: bool,
}

/// What the metrics take from a run's report.
pub open spec fn stat_of(j: JsonView) -> RunStat {
    RunStat {
        tokens: j.number_at("tokens_used"@, 0) as u64,
        latency_ms: j.number_at("latency_ms"@, 0) as u64,
        succeeded: j.text_at("status"@) == Some("succeeded"@),
    }
}

/// What the metrics take from the stored runs that are JSON, in order.
pub open spec fn stats_of(v: Seq<Seq<u8>>) -> Seq<RunStat>
    decreases v.len(),
{
    if v.len() == 0 {
        Seq::empty()
    } else {
        match parsed_json_bytes(v.last()) {
            Ok(j) => stats_of(v.drop_last()).push(stat_of(j)),
            Err(_) => stats_of(v.drop_last()),
        }
    }
}

/// What the metrics take from a run's report.
pub fn run_stat(j: &Json) -> (r: RunStat)
    ensures
        r == stat_of(j@),
{
    let succeeded = match j.text_at("status") {
        Some(s) => str_eq(s.as_str(), "succeeded"),
        None => false,
    };
    RunStat {
        tokens: j.number_at("tokens_used", 0),
        latency_ms: j.number_at("latency_ms", 0),
        succeeded,
    }
}

/// What the metrics take from the stored runs that are JSON, in order.
pub fn run_stats(values: &Vec<Vec<u8>>) -> (r: Vec<RunStat>)
    ensures
        r@ == stats_of(byte_views(values@)),
        r@.len() <= values@.len(),
{
    let ghost all = byte_views(values@);
    let mut out: Vec<RunStat> = Vec::new();
    let mut i: usize = 0;
    assert(all.take(0) =~= Seq::empty());
    while i < values.len()
        invariant
            i <= values@.len(),
            all == byte_views(values@),
            out@ == stats_of(all.take(i as int)),
            out@.len() <= i,
        decreases values@.len() - i,
    {
        assert(all.take(i + 1).drop_last() =~= all.take(i as int));
        match Json::parse_bytes(values[i].as_slice()) {
            Ok(j) => {
                out.push(run_stat(&j));
            },
            Err(_) => {},
        }
        i = i + 1;
    }
    assert(all.take(all.len() as int) =~= all);
    out
}

/// All tokens of runs.
pub open spec fn sum_tokens(v: Seq<RunStat>) -> nat
    decreases v.len(),
{
    if v.len() == 0 {
        0
    } else {
        sum_tokens(v.drop_last()) + v.last().tokens as nat
    }
}

/// All time that runs took.
pub open spec fn sum_latency(v: Seq<RunStat>) -> nat
    decreases v.len(),
{
    if v.len() == 0 {
        0
    } else {
        sum_latency(v.drop_last()) + v.last().latency_ms as nat
    }
}

/// How many runs succeeded.
pub open spec fn count_succeeded(v: Seq<RunStat>) -> nat
    decreases v.len(),
{
    if v.len() == 0 {
        0
    } else {
        count_succeeded(v.drop_last()) + (if v.last().succeeded {
            1nat
        } else {
            0
        })
    }
}

/// The latencies of runs, in ascending order.
pub open spec fn run_latencies(v: Seq<RunStat>) -> Seq<u64> {
    Seq::new(v.len(), |i: int| v[i].latency_ms).sort_by(at_most())
}

/// Totals of runs.
pub struct RunTotals {
    pub tokens: u128,
    pub latency_ms: u128,
    pub succeeded: u64,
    pub failed: u64,
    pub p50_ms: u64,
    pub p95_ms: u64,
    pub p99_ms: u64,
}

/// The totals of runs. Those that did not succeed have failed.
pub fn run_totals(stats: &Vec<RunStat>) -> (r: RunTotals)
    ensures
        r.tokens == sum_tokens(stats@),
        r.latency_ms == sum_latency(stats@),
        r.succeeded == count_succeeded(stats@),
        r.failed == stats@.len() - count_succeeded(stats@),
        r.p50_ms == percentile_of(run_latencies(stats@), 50),
        r.p95_ms == percentile_of(run_latencies(stats@), 95),
        r.p99_ms == percentile_of(run_latencies(stats@), 99),
{
    let mut tokens: u128 = 0;
    let mut latency: u128 = 0;
    let mut succeeded: u64 = 0;
    let mut failed: u64 = 0;
    let mut times: Vec<u64> = Vec::new();
    let mut i: usize = 0;
    assert(stats@.take(0) =~= Seq::empty());
    while i < stats.len()
        invariant
            i <= stats.len(),
            tokens == sum_tokens(stats@.take(i as int)),
            latency == sum_latency(stats@.take(i as int)),
            tokens <= i * 0xffff_ffff_ffff_ffff,
            latency <= i * 0xffff_ffff_ffff_ffff,
            succeeded == count_succeeded(stats@.take(i as int)),
            succeeded + failed == i,
            times@ == Seq::new(i as nat, |j: int| stats@[j].latency_ms),
        decreases stats@.len() - i,
    {
        assert(stats@.take(i + 1).drop_last() =~= stats@.take(i as int));
        let s: RunStat = stats[i];
        tokens = tokens + s.tokens as u128;
        latency = latency + s.latency_ms as u128;
        times.push(s.latency_ms);
        if s.succeeded {
            succeeded = succeeded + 1;
        } else {
            failed = failed + 1;
        }
        i = i + 1;
        assert(times@ =~= Seq::new(i as nat, |j: int| stats@[j].latency_ms));
    }
    assert(stats@.take(stats@.len() as int) =~= stats@);
    assert(times@ =~= Seq::new(stats@.len(), |j: int| stats@[j].latency_ms));
    let sorted = ascending(times);
    RunTotals {
        tokens,
        latency_ms: latency,
        succeeded,
        failed,
        p50_ms: percentile(sorted.as_slice(), 50),
        p95_ms: percentile(sorted.as_slice(), 95),
        p99_ms: percentile(sorted.as_slice(), 99),
    }
}

/// Whether the totals of runs can be told in 64 bits.
pub open spec fn totals_fit(v: Seq<RunStat>) -> bool {
    sum_tokens(v) <= u64::MAX && sum_latency(v) <= u64::MAX
}

/// The share of all stored runs that succeeded.
pub open spec fn success_rate(succeeded: nat, total: nat) -> Seq<char> {
    if total == 0 {
        "N/A"@
    } else {
        (Ratio { part: succeeded as u128, whole: total as u128 }).percent_text(1, 10) + "%"@
    }
}

/// The average of a total over all stored runs, in whole numbers.
pub open spec fn average(total: nat, runs: nat) -> int {
    if runs == 0 {
        0
    } else {
        (total / runs) as int
    }
}

/// The latencies of runs as JSON.
pub open spec fn latency_json(v: Seq<RunStat>, total: nat) -> JsonView {
    JsonView::Object(
        map![
            "avg_ms"@ => JsonView::Int(average(sum_latency(v), total)),
            "p50_ms"@ => JsonView::Int(percentile_of(run_latencies(v), 50) as int),
            "p95_ms"@ => JsonView::Int(percentile_of(run_latencies(v), 95) as int),
            "p99_ms"@ => JsonView::Int(percentile_of(run_latencies(v), 99) as int),
        ],
    )
}

/// What all metrics tell of runs: `total` counts every stored run, `v` those that could be read.
pub open spec fn metrics_members(v: Seq<RunStat>, total: nat) -> Map<Seq<char>, JsonView> {
    map![
        "total_runs"@ => JsonView::Int(total as int),
        "succeeded"@ => JsonView::Int(count_succeeded(v) as int),
        "failed"@ => JsonView::Int(v.len() - count_succeeded(v)),
        "success_rate"@ => JsonView::Str(success_rate(count_succeeded(v), total)),
        "total_tokens"@ => JsonView::Int(sum_tokens(v) as int),
        "avg_tokens_per_run"@ => JsonView::Int(average(sum_tokens(v), total)),
        "latency"@ => latency_json(v, total),
    ]
}

/// How many tokens a minute, in whole numbers; zero before the first second.
pub open spec fn per_minute(n: nat, uptime: nat) -> int {
    if uptime == 0 {
        0
    } else if n * 60 / uptime <= u64::MAX {
        (n * 60 / uptime) as int
    } else {
        u64::MAX as int
    }
}

/// How many runs a minute, with one decimal; zero before the first second.
pub open spec fn per_minute_text(n: nat, uptime: nat) -> Seq<char> {
    if uptime == 0 {
        "0.0"@
    } else {
        point_text(rounded(n * 60 * 10, uptime), 1, 10)
    }
}

proof fn lemma_succeeded_bound(v: Seq<RunStat>)
    ensures
        count_succeeded(v) <= v.len(),
    decreases v.len(),
{
    if v.len() > 0 {
        lemma_succeeded_bound(v.drop_last());
    }
}

/// What all metrics tell of runs; `None` where the totals do not fit in 64 bits.
pub fn metrics_object(stats: &Vec<RunStat>, total: usize) -> (r: Option<JsonObject>)
    ensures
        match r {
            Some(o) => totals_fit(stats@) && o@ == metrics_members(stats@, total as nat),
            None => !totals_fit(stats@),
        },
{
    let t = run_totals(stats);
    proof {
        lemma_succeeded_bound(stats@);
    }
    if t.tokens > u64::MAX as u128 || t.latency_ms > u64::MAX as u128 {
        return None;
    }
    let tokens: u64 = t.tokens as u64;
    let latency: u64 = t.latency_ms as u64;
    let runs: u64 = total as u64;
    let rate = if total == 0 {
        "N/A".to_owned()
    } else {
        Ratio { part: t.succeeded as u128, whole: total as u128 }.percent_one().concat("%")
    };
    let avg_latency: u64 = if runs > 0 {
        latency / runs
    } else {
        0
    };
    let avg_tokens: u64 = if runs > 0 {
        tokens / runs
    } else {
        0
    };
    let lat = JsonObject::new().number("avg_ms", avg_latency).number("p50_ms", t.p50_ms).number(
        "p95_ms",
        t.p95_ms,
    ).number("p99_ms", t.p99_ms).build();
    Some(
        JsonObject::new().number("total_runs", runs).number("succeeded", t.succeeded).number(
            "failed",
            t.failed,
        ).text("success_rate", rate.as_str()).number("total_tokens", tokens).number(
            "avg_tokens_per_run",
            avg_tokens,
        ).with("latency", lat),
    )
}

/// The metrics of the gateway as JSON.
pub open spec fn metrics_json(v: Seq<RunStat>, total: nat, uptime: nat, state: AppState) -> JsonView {
    JsonView::Object(
        metrics_members(v, total).insert(
            "tokens_per_minute"@,
            JsonView::Int(per_minute(sum_tokens(v), uptime)),
        ).insert("runs_per_minute"@, JsonView::Str(per_minute_text(total, uptime))).insert(
            "uptime_seconds"@,
            JsonView::Int(uptime as int),
        ).insert("llm"@, state.llm_json()).insert(
            "tools"@,
            JsonView::Int(state.tool_count as int),
        ),
    )
}

/// How many runs a minute, with one decimal.
fn rate_text(n: usize, uptime: u64) -> (r: String)
    ensures
        r@ == per_minute_text(n as nat, uptime as nat),
{
    if uptime == 0 {
        return "0.0".to_owned();
    }
    let scaled: u128 = n as u128 * 600;
    let up: u128 = uptime as u128;
    let q: u128 = scaled / up;
    let m: u128 = scaled % up;
    assert(q <= scaled) by (nonlinear_arith)
        requires
            q == scaled / up,
            up > 0,
            scaled >= 0,
    ;
    let v: u128 = if 2 * m > up || (2 * m == up && q % 2 == 1) {
        q + 1
    } else {
        q
    };
    assert(v == rounded((n * 60 * 10) as nat, uptime as nat));
    let digit: u128 = v % 10;
    let text = u128_text(v / 10).concat(".").concat(u128_text(digit).as_str());
    proof {
        assert(crate::text::dec(digit as nat).len() == 1);
        assert(crate::ratio::zero_padded(digit as nat, 1) == crate::text::dec(digit as nat));
    }
    text
}

/// The metrics of the gateway, from what was taken from the runs; `None` where the totals do not
/// fit in 64 bits.
pub fn metrics_reply(stats: &Vec<RunStat>, total: usize, uptime: u64, state: &AppState) -> (r: Option<
    String,
>)
    ensures
        match r {
            Some(s) => totals_fit(stats@) && s@ == ok_json(
                metrics_json(stats@, total as nat, uptime as nat, *state),
            ),
            None => !totals_fit(stats@),
        },
{
    match metrics_object(stats, total) {
        Some(o) => {
            let tokens: u128 = run_totals(stats).tokens;
            let rate: u64 = if uptime == 0 {
                0
            } else {
                clamp_u64(tokens * 60 / uptime as u128)
            };
            let body = o.number("tokens_per_minute", rate).text(
                "runs_per_minute",
                rate_text(total, uptime).as_str(),
            ).number("uptime_seconds", uptime).with("llm", state.llm_label()).number(
                "tools",
                state.tool_count as u64,
            ).build();
            Some(ok(body.to_text().as_str()))
        },
        None => None,
    }
}

/// `GET /v1/metrics`: the metrics of the gateway, from all stored runs; `None` where the totals do
/// not fit in 64 bits.
pub fn handle_metrics(values: &Vec<Vec<u8>>, uptime: u64, state: &AppState) -> (r: Option<String>)
    ensures
        ({
            let v = stats_of(byte_views(values@));
            match r {
                Some(s) => totals_fit(v) && s@ == ok_json(
                    metrics_json(v, values@.len(), uptime as nat, *state),
                ),
                None => !totals_fit(v),
            }
        }),
{
    let stats = run_stats(values);
    metrics_reply(&stats, values.len(), uptime, state)
}

/// The metrics of a tenant, from what was taken from its runs; `None` where the totals do not fit
/// in 64 bits.
pub fn tenant_metrics_reply(tenant_id: &str, stats: &Vec<RunStat>, total: usize) -> (r: Option<
    Reply,
>)
    ensures
        match r {
            Some(x) => totals_fit(stats@) && x.usage == Some(0u64) && x.response@ == ok_json(
                JsonView::Object(
                    with_tenant(metrics_members(stats@, total as nat), Some(tenant_id@)),
                ),
            ),
            None => !totals_fit(stats@),
        },
{
    match metrics_object(stats, total) {
        Some(o) => Some(
            Reply {
                response: ok(add_tenant(o, Some(tenant_id)).build().to_text().as_str()),
                usage: Some(0),
            },
        ),
        None => None,
    }
}

/// `GET /v1/metrics` of a tenant, from all its stored runs; `None` where the totals do not fit in
/// 64 bits.
pub fn handle_metrics_for_tenant(tenant_id: &str, values: &Vec<Vec<u8>>) -> (r: Option<Reply>)
    ensures
        ({
            let v = stats_of(byte_views(values@));
            match r {
                Some(x) => totals_fit(v) && x.usage == Some(0u64) && x.response@ == ok_json(
                    JsonView::Object(
                        with_tenant(metrics_members(v, values@.len()), Some(tenant_id@)),
                    ),
                ),
                None => !totals_fit(v),
            }
        }),
{
    let stats = run_stats(values);
    tenant_metrics_reply(tenant_id, &stats, values.len())
}

// ---------------------------------------------------------------------------
// Dashboard and log

/// How many of each kind of thing are stored.
#[derive(Debug, Clone, Copy)]
pub struct StoreCounts {
    pub runs: usize,
    pub sessions: usize,
    pub workflows: usize,
}

/// The figures of a dashboard as JSON.
pub open spec fn dashboard_stats(c: StoreCounts, tokens: nat) -> JsonView {
    JsonView::Object(
        map![
            "total_runs"@ => JsonView::Int(c.runs as int),
            "total_tokens"@ => JsonView::Int(tokens as int),
            "active_sessions"@ => JsonView::Int(c.sessions as int),
            "registered_workflows"@ => JsonView::Int(c.workflows as int),
        ],
    )
}

/// What every dashboard tells, from the tokens and the rows of the newest runs.
pub open spec fn dashboard_members(
    state: AppState,
    c: StoreCounts,
    tokens: nat,
    rows: Seq<JsonView>,
) -> Map<Seq<char>, JsonView> {
    map![
        "status"@ => JsonView::Str("ok"@),
        "version"@ => JsonView::Str(state.version@),
        "llm"@ => state.llm_json(),
        "tools"@ => JsonView::Int(state.tool_count as int),
        "stats"@ => dashboard_stats(c, tokens),
        "recent_runs"@ => JsonView::Array(rows),
    ]
}

/// The tokens of the newest runs.
pub open spec fn newest_tokens(values: Seq<Seq<u8>>) -> nat {
    sum_tokens(stats_of(newest(values, DASHBOARD_RUNS as int)))
}

/// The tokens of the newest runs.
fn collect_tokens(values: &Vec<Vec<u8>>) -> (r: u128)
    ensures
        r == newest_tokens(byte_views(values@)),
{
    let ghost all = newest(byte_views(values@), DASHBOARD_RUNS as int);
    let len: usize = values.len();
    let count: usize = if len <= DASHBOARD_RUNS {
        len
    } else {
        DASHBOARD_RUNS
    };
    let mut total: u128 = 0;
    let mut i: usize = 0;
    assert(all.take(0) =~= Seq::empty());
    while i < count
        invariant
            i <= count,
            count <= len,
            count <= 10,
            len == values@.len(),
            all == newest(byte_views(values@), DASHBOARD_RUNS as int),
            all.len() == count,
            total == sum_tokens(stats_of(all.take(i as int))),
            total <= i * 0xffff_ffff_ffff_ffff,
        decreases count - i,
    {
        assert(all.take(i + 1).drop_last() =~= all.take(i as int));
        assert(all.take(i + 1).last() == values@[len - 1 - i]@);
        let ghost before = stats_of(all.take(i as int));
        match Json::parse_bytes(values[len - 1 - i].as_slice()) {
            Ok(j) => {
                let s = run_stat(&j);
                assert(before.push(s).drop_last() =~= before);
                total = total + s.tokens as u128;
            },
            Err(_) => {},
        }
        i = i + 1;
    }
    assert(all.take(count as int) =~= all);
    total
}

/// What every dashboard tells, from the tokens and the rows of the newest runs.
pub fn dashboard_object(state: &AppState, c: &StoreCounts, tokens: u64, rows: Vec<Json>) -> (r:
    JsonObject)
    ensures
        r@ == dashboard_members(*state, *c, tokens as nat, json_views(rows@)),
{
    let stats = JsonObject::new().number("total_runs", c.runs as u64).number(
        "total_tokens",
        tokens,
    ).number("active_sessions", c.sessions as u64).number(
        "registered_workflows",
        c.workflows as u64,
    ).build();
    JsonObject::new().text("status", "ok").text("version", state.version.as_str()).with(
        "llm",
        state.llm_label(),
    ).number("tools", state.tool_count as u64).with("stats", stats).with(
        "recent_runs",
        Json::array(rows),
    )
}

/// `GET /v1/dashboard`: health and figures, from all stored runs and the number of sessions and
/// workflows; `None` where the tokens of the newest runs do not fit in 64 bits.
pub fn handle_dashboard(
    state: &AppState,
    uptime: u64,
    values: &Vec<Vec<u8>>,
    sessions: usize,
    workflows: usize,
) -> (r: Option<String>)
    ensures
        ({
            let v = byte_views(values@);
            let c = StoreCounts { runs: values@.len() as usize, sessions, workflows };
            match r {
                Some(s) => newest_tokens(v) <= u64::MAX && s@ == ok_json(
                    JsonView::Object(
                        dashboard_members(
                            *state,
                            c,
                            newest_tokens(v),
                            newest_rows(v, DASHBOARD_RUNS as int, RowKind::Recent),
                        ).insert("uptime_seconds"@, JsonView::Int(uptime as int)),
                    ),
                ),
                None => newest_tokens(v) > u64::MAX,
            }
        }),
{
    let tokens: u128 = collect_tokens(values);
    if tokens > u64::MAX as u128 {
        return None;
    }
    let rows = collect_rows(values, DASHBOARD_RUNS, RowKind::Recent);
    let c = StoreCounts { runs: values.len(), sessions, workflows };
    let o = dashboard_object(state, &c, tokens as u64, rows).number("uptime_seconds", uptime);
    Some(ok(o.build().to_text().as_str()))
}

/// `GET /v1/dashboard` of a tenant, from all its stored runs and the number of its sessions and
/// workflows; `None` where the tokens of the newest runs do not fit in 64 bits.
pub fn handle_dashboard_for_tenant(
    tenant_id: &str,
    state: &AppState,
    values: &Vec<Vec<u8>>,
    sessions: usize,
    workflows: usize,
) -> (r: Option<Reply>)
    ensures
        ({
            let v = byte_views(values@);
            let c = StoreCounts { runs: values@.len() as usize, sessions, workflows };
            match r {
                Some(x) => newest_tokens(v) <= u64::MAX && x.usage == Some(0u64) && x.response@
                    == ok_json(
                    JsonView::Object(
                        with_tenant(
                            dashboard_members(
                                *state,
                                c,
                                newest_tokens(v),
                                newest_rows(v, DASHBOARD_RUNS as int, RowKind::Recent),
                            ),
                            Some(tenant_id@),
                        ),
                    ),
                ),
                None => newest_tokens(v) > u64::MAX,
            }
        }),
{
    let tokens: u128 = collect_tokens(values);
    if tokens > u64::MAX as u128 {
        return None;
    }
    let rows = collect_rows(values, DASHBOARD_RUNS, RowKind::Recent);
    let c = StoreCounts { runs: values.len(), sessions, workflows };
    let o = dashboard_object(state, &c, tokens as u64, rows);
    Some(
        Reply {
            response: ok(add_tenant(o, Some(tenant_id)).build().to_text().as_str()),
            usage: Some(0),
        },
    )
}

/// The events of a log as JSON.
pub open spec fn log_members(values: Seq<Seq<u8>>) -> Map<Seq<char>, JsonView> {
    let rows = newest_rows(values, LOGGED_RUNS as int, RowKind::Logged);
    map![
        "events"@ => JsonView::Array(rows),
        "count"@ => JsonView::Int(rows.len() as int),
    ]
}

/// The events of a log.
fn log_object(values: &Vec<Vec<u8>>) -> (r: JsonObject)
    ensures
        r@ == log_members(byte_views(values@)),
{
    let rows = collect_rows(values, LOGGED_RUNS, RowKind::Logged);
    let count: usize = rows.len();
    assert(json_views(rows@).len() == count);
    JsonObject::new().with("events", Json::array(rows)).number("count", count as u64)
}

/// `GET /v1/logs`: the newest runs as events.
pub fn handle_logs(values: &Vec<Vec<u8>>) -> (r: String)
    ensures
        r@ == ok_json(JsonView::Object(log_members(byte_views(values@)))),
{
    ok(log_object(values).build().to_text().as_str())
}

/// `GET /v1/logs` of a tenant: its newest runs as events.
pub fn handle_logs_for_tenant(tenant_id: &str, values: &Vec<Vec<u8>>) -> (r: Reply)
    ensures
        r.response@ == ok_json(
            JsonView::Object(with_tenant(log_members(byte_views(values@)), Some(tenant_id@))),
        ),
        r.usage == Some(0u64),
{
    let o = add_tenant(log_object(values), Some(tenant_id));
    Reply { response: ok(o.build().to_text().as_str()), usage: Some(0) }
}

// ---------------------------------------------------------------------------
// Laws

/// Every run that could be read has either succeeded or failed.
pub proof fn runs_succeed_or_fail(v: Seq<RunStat>)
    ensures
        count_succeeded(v) <= v.len(),
{
    lemma_succeeded_bound(v);
}

/// No list of runs is longer than its limit, and its first run is the newest.
pub proof fn newest_comes_first<A>(s: Seq<A>, n: int)
    requires
        n >= 1,
    ensures
        newest(s, n).len() <= n,
        newest(s, n).len() <= s.len(),
        s.len() > 0 ==> newest(s, n).len() > 0 && newest(s, n)[0] == s.last(),
{
}

} // verus!
