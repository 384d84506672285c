//! What holds of every list of runs, of the metrics, the dashboard and the log.

use vstd::prelude::*;

use crate::bridge::{obs_view, AgentPayload};
use crate::handlers::AppState;
use crate::json::{parsed_json_bytes, JsonView};
use crate::observe::{
    average, count_succeeded, dashboard_members, latency_json, log_members, metrics_json,
    metrics_members, newest, newest_rows, newest_tokens, own_runs, parsed_rows, per_minute,
    per_minute_text, row_json, row_maker, run_latencies, stat_of, stats_of, stored_run_json,
    stored_run_rows, success_rate, sum_latency, sum_tokens, summary_of_payload, RowKind, RunStat,
    StoreCounts, StoredRun, DASHBOARD_RUNS, LISTED_RUNS, LOGGED_RUNS,
};
use crate::ratio::{point_text, rounded, Ratio};
use crate::slo::at_most;
use crate::slo_laws::{lower_than, percentile_divides, up_to};
use crate::text::{begins, clip_bytes};
use crate::workflow_laws::tells_outcome;
use crate::workflows::RunOutcome;

verus! {

proof fn lemma_names()
    ensures
        "run_id"@.len() == 6 && "run_id"@[0] == 'r',
        "status"@.len() == 6 && "status"@[0] == 's' && "status"@[2] == 'a',
        "tokens"@.len() == 6 && "tokens"@[0] == 't',
        "failed"@.len() == 6 && "failed"@[0] == 'f',
        "avg_ms"@.len() == 6 && "avg_ms"@[0] == 'a',
        "p50_ms"@.len() == 6 && "p50_ms"@[0] == 'p' && "p50_ms"@[1] == '5',
        "p95_ms"@.len() == 6 && "p95_ms"@[0] == 'p' && "p95_ms"@[1] == '9' && "p95_ms"@[2] == '5',
        "p99_ms"@.len() == 6 && "p99_ms"@[0] == 'p' && "p99_ms"@[1] == '9' && "p99_ms"@[2] == '9',
        "events"@.len() == 6 && "events"@[0] == 'e',
        "steps_completed"@.len() == 15 && "steps_completed"@[0] == 's',
        "runs_per_minute"@.len() == 15 && "runs_per_minute"@[0] == 'r',
        "active_sessions"@.len() == 15 && "active_sessions"@[0] == 'a',
        "tokens_used"@.len() == 11 && "tokens_used"@[0] == 't',
        "recent_runs"@.len() == 11 && "recent_runs"@[0] == 'r',
        "latency_ms"@.len() == 10,
        "total_runs"@.len() == 10 && "total_runs"@[0] == 't',
        "latency_ms"@[0] == 'l',
        "workflow"@.len() == 8,
        "timestamp"@.len() == 9 && "timestamp"@[0] == 't',
        "succeeded"@.len() == 9 && "succeeded"@[0] == 's',
        "success_rate"@.len() == 12 && "success_rate"@[0] == 's',
        "total_tokens"@.len() == 12 && "total_tokens"@[0] == 't',
        "record_count"@.len() == 12,
        "avg_tokens_per_run"@.len() == 18,
        "latency"@.len() == 7 && "latency"@[0] == 'l',
        "version"@.len() == 7 && "version"@[0] == 'v',
        "summary"@.len() == 7,
        "tokens_per_minute"@.len() == 17,
        "uptime_seconds"@.len() == 14,
        "llm"@.len() == 3,
        "tools"@.len() == 5 && "tools"@[0] == 't',
        "stats"@.len() == 5 && "stats"@[0] == 's',
        "count"@.len() == 5 && "count"@[0] == 'c',
        "registered_workflows"@.len() == 20,
{
    reveal_strlit("run_id");
    reveal_strlit("status");
    reveal_strlit("tokens");
    reveal_strlit("failed");
    reveal_strlit("avg_ms");
    reveal_strlit("p50_ms");
    reveal_strlit("p95_ms");
    reveal_strlit("p99_ms");
    reveal_strlit("events");
    reveal_strlit("steps_completed");
    reveal_strlit("runs_per_minute");
    reveal_strlit("active_sessions");
    reveal_strlit("tokens_used");
    reveal_strlit("recent_runs");
    reveal_strlit("latency_ms");
    reveal_strlit("total_runs");
    reveal_strlit("workflow");
    reveal_strlit("timestamp");
    reveal_strlit("succeeded");
    reveal_strlit("success_rate");
    reveal_strlit("total_tokens");
    reveal_strlit("record_count");
    reveal_strlit("avg_tokens_per_run");
    reveal_strlit("latency");
    reveal_strlit("version");
    reveal_strlit("summary");
    reveal_strlit("tokens_per_minute");
    reveal_strlit("uptime_seconds");
    reveal_strlit("llm");
    reveal_strlit("tools");
    reveal_strlit("stats");
    reveal_strlit("count");
    reveal_strlit("registered_workflows");
}

// ---------------------------------------------------------------------------
// Lists

/// The newest of a list are its last ones, last first, as many as asked for.
pub proof fn newest_are_the_last<A>(s: Seq<A>, n: int, i: int)
    requires
        0 <= n,
    ensures
        newest(s, n).len() == if s.len() <= n {
            s.len() as int
        } else {
            n
        },
        0 <= i < newest(s, n).len() ==> newest(s, n)[i] == s[s.len() - 1 - i],
{
}

/// A hundred runs are listed at most, ten on the dashboard and fifty in the log, and where there are
/// as many, no fewer are looked at.
pub proof fn lists_have_their_lengths(values: Seq<Seq<u8>>)
    ensures
        newest_rows(values, LISTED_RUNS as int, RowKind::Listed) == parsed_rows(
            newest(values, 100),
            row_maker(RowKind::Listed),
        ),
        newest_rows(values, DASHBOARD_RUNS as int, RowKind::Recent) == parsed_rows(
            newest(values, 10),
            row_maker(RowKind::Recent),
        ),
        newest_rows(values, LOGGED_RUNS as int, RowKind::Logged) == parsed_rows(
            newest(values, 50),
            row_maker(RowKind::Logged),
        ),
        newest_tokens(values) == sum_tokens(stats_of(newest(values, 10))),
        JsonView::Object(log_members(values)).member("events"@) == JsonView::Array(
            parsed_rows(newest(values, 50), row_maker(RowKind::Logged)),
        ),
        JsonView::Object(log_members(values)).member("count"@) == JsonView::Int(
            parsed_rows(newest(values, 50), row_maker(RowKind::Logged)).len() as int,
        ),
{
    lemma_names();
}

/// Runs that can be read are shown, each in its place, and others are passed over.
pub proof fn readable_runs_are_shown(a: Seq<Seq<u8>>, b: Seq<Seq<u8>>, kind: RowKind, bytes: Seq<u8>)
    ensures
        parsed_rows(a + b, row_maker(kind)) == parsed_rows(a, row_maker(kind)) + parsed_rows(
            b,
            row_maker(kind),
        ),
        parsed_rows(seq![bytes], row_maker(kind)) == (match parsed_json_bytes(bytes) {
            Ok(j) => seq![row_json(kind, j)],
            Err(_) => Seq::empty(),
        }),
    decreases b.len(),
{
    let f = row_maker(kind);
    let one = seq![bytes];
    assert(one.drop_last() =~= Seq::<Seq<u8>>::empty());
    assert(parsed_rows(one.drop_last(), f) == Seq::<JsonView>::empty());
    assert(parsed_rows(one, f) =~= (match parsed_json_bytes(bytes) {
        Ok(j) => seq![row_json(kind, j)],
        Err(_) => Seq::empty(),
    }));
    if b.len() == 0 {
        assert(a + b =~= a);
        assert(parsed_rows(a, f) + parsed_rows(b, f) =~= parsed_rows(a, f));
    } else {
        readable_runs_are_shown(a, b.drop_last(), kind, bytes);
        assert((a + b).drop_last() =~= a + b.drop_last());
        assert(parsed_rows(a + b, f) =~= parsed_rows(a, f) + parsed_rows(b, f));
    }
}

/// A row tells of a run what the run itself tells.
pub proof fn rows_tell_of_their_run(kind: RowKind, j: JsonView)
    ensures
        ({
            let row = row_json(kind, j);
            &&& row.member("run_id"@) == j.member("run_id"@)
            &&& row.member("status"@) == j.member("status"@)
            &&& row.member("latency_ms"@) == j.member("latency_ms"@)
            &&& kind is Listed ==> row.member("tokens_used"@) == j.member("tokens_used"@)
                && row.member("steps_completed"@) == j.member("steps_completed"@)
            &&& !(kind is Listed) ==> row.member("tokens"@) == j.member("tokens_used"@)
            &&& !(kind is Recent) ==> row.member("workflow"@) == j.member("workflow"@)
                && row.member("timestamp"@) == j.member("timestamp"@)
        }),
{
    lemma_names();
}

/// The runs of a tenant are those whose key has its prefix, each in its place.
pub proof fn own_runs_are_by_prefix(v: Seq<StoredRun>, prefix: Seq<char>)
    ensures
        own_runs(v, prefix) == v.filter(|r: StoredRun| begins(r.key@, prefix)),
    decreases v.len(),
{
    reveal(Seq::filter);
    if v.len() > 0 {
        own_runs_are_by_prefix(v.drop_last(), prefix);
    }
}

/// Stored runs with records are shown, each in its place, by what follows the prefix in their key,
/// by the first 200 bytes of their summary and the number of their records; others are passed over.
pub proof fn stored_runs_are_shown(
    a: Seq<StoredRun>,
    b: Seq<StoredRun>,
    prefix: Seq<char>,
    run: StoredRun,
    name: Seq<char>,
)
    requires
        run.key@ == prefix + name,
    ensures
        stored_run_rows(a + b, prefix) == stored_run_rows(a, prefix) + stored_run_rows(b, prefix),
        match run.payload {
            Some(p) => if p.records@.len() > 0 {
                let rows = stored_run_rows(seq![run], prefix);
                &&& rows.len() == 1
                &&& rows[0].member("run_id"@) == JsonView::Str(name)
                &&& rows[0].member("summary"@) == JsonView::Str(
                    clip_bytes(summary_of_payload(p), 200),
                )
                &&& rows[0].member("record_count"@) == JsonView::Int(p.records@.len() as int)
            } else {
                stored_run_rows(seq![run], prefix).len() == 0
            },
            None => stored_run_rows(seq![run], prefix).len() == 0,
        },
    decreases b.len(),
{
    lemma_names();
    let one = seq![run];
    assert(one.drop_last() =~= Seq::<StoredRun>::empty());
    assert(stored_run_rows(one.drop_last(), prefix) == Seq::<JsonView>::empty());
    assert(run.key@.skip(prefix.len() as int) =~= name);
    assert(stored_run_json(run, prefix) is Some <==> (run.payload matches Some(p)
        && p.records@.len() > 0));
    if b.len() == 0 {
        assert(a + b =~= a);
        assert(stored_run_rows(a, prefix) + stored_run_rows(b, prefix) =~= stored_run_rows(
            a,
            prefix,
        ));
    } else {
        stored_runs_are_shown(a, b.drop_last(), prefix, run, name);
        assert((a + b).drop_last() =~= a + b.drop_last());
        assert(stored_run_rows(a + b, prefix) =~= stored_run_rows(a, prefix) + stored_run_rows(
            b,
            prefix,
        ));
    }
}

// ---------------------------------------------------------------------------
// Figures

/// What the metrics take from a run is what the run's report tells: its tokens, its latency, and
/// whether it succeeded.
pub proof fn metrics_take_what_reports_tell(report: JsonView, o: RunOutcome, latency_ms: u64)
    requires
        tells_outcome(report, o, latency_ms),
    ensures
        stat_of(report).tokens == o.tokens_used,
        stat_of(report).latency_ms == latency_ms,
        stat_of(report).succeeded <==> o.status@ == "succeeded"@,
{
}

/// Every run that can be read counts in the metrics, once, and no other.
pub proof fn readable_runs_count(a: Seq<Seq<u8>>, b: Seq<Seq<u8>>, bytes: Seq<u8>)
    ensures
        stats_of(a + b) == stats_of(a) + stats_of(b),
        stats_of(seq![bytes]) == (match parsed_json_bytes(bytes) {
            Ok(j) => seq![stat_of(j)],
            Err(_) => Seq::empty(),
        }),
    decreases b.len(),
{
    let one = seq![bytes];
    assert(one.drop_last() =~= Seq::<Seq<u8>>::empty());
    assert(stats_of(one.drop_last()) == Seq::<RunStat>::empty());
    assert(stats_of(one) =~= (match parsed_json_bytes(bytes) {
        Ok(j) => seq![stat_of(j)],
        Err(_) => Seq::empty(),
    }));
    if b.len() == 0 {
        assert(a + b =~= a);
        assert(stats_of(a) + stats_of(b) =~= stats_of(a));
    } else {
        readable_runs_count(a, b.drop_last(), bytes);
        assert((a + b).drop_last() =~= a + b.drop_last());
        assert(stats_of(a + b) =~= stats_of(a) + stats_of(b));
    }
}

/// Totals add up: those of two groups of runs are the sums of theirs, and those of one run its own.
pub proof fn totals_add_up(a: Seq<RunStat>, b: Seq<RunStat>, s: RunStat)
    ensures
        sum_tokens(a + b) == sum_tokens(a) + sum_tokens(b),
        sum_latency(a + b) == sum_latency(a) + sum_latency(b),
        count_succeeded(a + b) == count_succeeded(a) + count_succeeded(b),
        sum_tokens(seq![s]) == s.tokens,
        sum_latency(seq![s]) == s.latency_ms,
        count_succeeded(seq![s]) == if s.succeeded {
            1nat
        } else {
            0
        },
    decreases b.len(),
{
    let one = seq![s];
    let none = Seq::<RunStat>::empty();
    assert(one.drop_last() =~= none);
    assert(sum_tokens(none) == 0 && sum_latency(none) == 0 && count_succeeded(none) == 0);
    if b.len() == 0 {
        assert(a + b =~= a);
    } else {
        totals_add_up(a, b.drop_last(), s);
        assert((a + b).drop_last() =~= a + b.drop_last());
    }
}

/// An average is the total shared out among the runs, as far as it goes: that many times the runs it
/// does not exceed the total, and one more would.
pub proof fn averages_share_the_total(total: nat, runs: nat)
    ensures
        runs == 0 ==> average(total, runs) == 0,
        runs > 0 ==> average(total, runs) * runs <= total < (average(total, runs) + 1) * runs,
{
    if runs > 0 {
        let q = total / runs;
        assert(q * runs <= total < (q + 1) * runs) by (nonlinear_arith)
            requires
                runs > 0,
                q == total / runs,
        ;
    }
}

/// A rate per minute is what a minute brings at the pace so far, as far as whole ones go.
pub proof fn rates_are_per_minute(n: nat, uptime: nat)
    requires
        uptime > 0,
        n * 60 <= u64::MAX,
    ensures
        per_minute(n, uptime) * uptime <= n * 60 < (per_minute(n, uptime) + 1) * uptime,
        per_minute_text(n, uptime) == point_text(rounded(n * 600, uptime), 1, 10),
{
    let q = (n * 60) / uptime;
    assert(q * uptime <= n * 60 < (q + 1) * uptime && q <= n * 60) by (nonlinear_arith)
        requires
            uptime > 0,
            q == (n * 60) / uptime,
    ;
}

/// The metrics tell the totals: runs, successes and failures that make up all runs that could be
/// read, tokens, averages over all runs, and percentiles that divide the latencies.
pub proof fn metrics_tell_the_totals(v: Seq<RunStat>, total: nat, uptime: nat, state: AppState)
    requires
        v.len() > 0,
    ensures
        ({
            let m = metrics_json(v, total, uptime, state);
            let times = Seq::new(v.len(), |i: int| v[i].latency_ms);
            &&& m.member("total_runs"@) == JsonView::Int(total as int)
            &&& m.member("succeeded"@) == JsonView::Int(count_succeeded(v) as int)
            &&& m.member("failed"@) == JsonView::Int(v.len() - count_succeeded(v))
            &&& m.member("total_tokens"@) == JsonView::Int(sum_tokens(v) as int)
            &&& m.member("avg_tokens_per_run"@) == JsonView::Int(average(sum_tokens(v), total))
            &&& m.member("success_rate"@) == JsonView::Str(success_rate(count_succeeded(v), total))
            &&& m.member("tokens_per_minute"@) == JsonView::Int(per_minute(sum_tokens(v), uptime))
            &&& m.member("runs_per_minute"@) == JsonView::Str(per_minute_text(total, uptime))
            &&& m.member("uptime_seconds"@) == JsonView::Int(uptime as int)
            &&& m.member("llm"@) == state.llm_json()
            &&& m.member("tools"@) == JsonView::Int(state.tool_count as int)
            &&& m.member("latency"@).member("avg_ms"@) == JsonView::Int(
                average(sum_latency(v), total),
            )
            &&& m.member("latency"@).member("p50_ms"@) matches JsonView::Int(p) && divides(
                times,
                p,
                50,
            )
            &&& m.member("latency"@).member("p95_ms"@) matches JsonView::Int(p) && divides(
                times,
                p,
                95,
            )
            &&& m.member("latency"@).member("p99_ms"@) matches JsonView::Int(p) && divides(
                times,
                p,
                99,
            )
        }),
{
    lemma_names();
    let times = Seq::new(v.len(), |i: int| v[i].latency_ms);
    assert(run_latencies(v) == times.sort_by(at_most()));
    percentile_divides(times, 50);
    percentile_divides(times, 95);
    percentile_divides(times, 99);
    let m = metrics_json(v, total, uptime, state);
    assert(m.member("latency"@) == latency_json(v, total));
}

/// Whether `p` divides numbers as a percentile does: no more than its share is lower, and more than
/// its share is no higher.
pub open spec fn divides(s: Seq<u64>, p: int, pct: int) -> bool {
    &&& 0 <= p <= u64::MAX
    &&& lower_than(s, p as u64) * 100 <= pct * s.len() < up_to(s, p as u64) * 100
}

/// The metrics of a tenant tell the same totals as those of the gateway.
pub proof fn tenant_metrics_agree(v: Seq<RunStat>, total: nat, uptime: nat, state: AppState, k: Seq<char>)
    requires
        metrics_members(v, total).contains_key(k),
    ensures
        metrics_json(v, total, uptime, state).member(k) == metrics_members(v, total)[k],
{
    lemma_names();
}

/// The success rate is the share of successes among all runs, as a percentage with one decimal.
pub proof fn success_is_a_share_of_all(succeeded: nat, total: nat)
    ensures
        total == 0 ==> success_rate(succeeded, total) == "N/A"@,
        0 < total <= u64::MAX && succeeded <= total ==> success_rate(succeeded, total)
            == point_text(rounded(succeeded * 1000, total), 1, 10) + "%"@,
{
    if 0 < total <= u64::MAX && succeeded <= total {
        let r = Ratio { part: succeeded as u128, whole: total as u128 };
        assert(r.part * 100 * 10 == succeeded * 1000);
    }
}

/// The dashboard tells how much is stored, what the newest runs took, and which they are.
pub proof fn dashboard_tells_the_store(
    state: AppState,
    c: StoreCounts,
    tokens: nat,
    rows: Seq<JsonView>,
)
    ensures
        ({
            let d = JsonView::Object(dashboard_members(state, c, tokens, rows));
            &&& d.member("status"@) == JsonView::Str("ok"@)
            &&& d.member("version"@) == JsonView::Str(state.version@)
            &&& d.member("llm"@) == state.llm_json()
            &&& d.member("tools"@) == JsonView::Int(state.tool_count as int)
            &&& d.member("recent_runs"@) == JsonView::Array(rows)
            &&& d.member("stats"@).member("total_runs"@) == JsonView::Int(c.runs as int)
            &&& d.member("stats"@).member("total_tokens"@) == JsonView::Int(tokens as int)
            &&& d.member("stats"@).member("active_sessions"@) == JsonView::Int(c.sessions as int)
            &&& d.member("stats"@).member("registered_workflows"@) == JsonView::Int(
                c.workflows as int,
            )
        }),
{
    lemma_names();
}

/// The summary of a payload is the text that its first record was written with.
pub proof fn summaries_come_from_the_first_record(
    p: AgentPayload,
    id: Seq<char>,
    thread_id: Seq<char>,
    step: i64,
    source: Seq<char>,
    text: Seq<char>,
    confidence: u64,
)
    requires
        p.records@.len() > 0,
        p.records@[0]@ == obs_view(id, thread_id, step, source, text, confidence),
    ensures
        summary_of_payload(p) == text,
{
}

/// A report that does not give its tokens or its latency adds nothing to the totals, and a run that
/// does not say that it succeeded did not.
pub proof fn missing_figures_add_nothing(j: JsonView)
    ensures
        j.member("tokens_used"@) is Null ==> stat_of(j).tokens == 0,
        j.member("latency_ms"@) is Null ==> stat_of(j).latency_ms == 0,
        stat_of(j).succeeded <==> j.member("status"@) == JsonView::Str("succeeded"@),
{
}

} // verus!
