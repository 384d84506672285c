//! Liveness, readiness and startup probes, and graceful shutdown.
//!
//! - `/healthz`: is the process alive?
//! - `/readyz`: is the server ready to accept traffic? The database answers and the system is not
//!   in emergency mode.
//! - `/startupz`: has the initial setup completed?

use std::time::Instant;
use vstd::prelude::*;

use crate::clock::{clamped, instant_span, seconds_since};
use crate::text::str_eq;

verus! {

/// State behind the probes.
pub struct ProbeState {
    pub ready: bool,
    pub startup_complete: bool,
    pub heartbeat: u64,
    pub start_time: Instant,
}

impl Default for ProbeState {
    fn default() -> (r: ProbeState)
        ensures
            !r.ready && !r.startup_complete && r.heartbeat == 0,
    {
        ProbeState::new()
    }
}

/// The check `name` with its result.
pub open spec fn check(name: Seq<char>, ok: bool) -> (Seq<char>, bool) {
    (name, ok)
}

/// The checks of a response, as values.
pub open spec fn checks_view(checks: Seq<(String, bool)>) -> Seq<(Seq<char>, bool)> {
    checks.map_values(|c: (String, bool)| (c.0@, c.1))
}

impl ProbeState {
    /// The state before startup: not ready, no heartbeat yet.
    pub fn new() -> (r: ProbeState)
        ensures
            !r.ready,
            !r.startup_complete,
            r.heartbeat == 0,
    {
        ProbeState { ready: false, startup_complete: false, heartbeat: 0, start_time: Instant::now() }
    }

    /// Marks the server as ready to accept traffic.
    pub fn set_ready(&mut self)
        ensures
            *final(self) == (ProbeState { ready: true, ..*old(self) }),
    {
        self.ready = true;
    }

    /// Marks the server as not ready (draining, degraded).
    pub fn set_not_ready(&mut self)
        ensures
            *final(self) == (ProbeState { ready: false, ..*old(self) }),
    {
        self.ready = false;
    }

    /// Marks startup as complete.
    pub fn set_startup_complete(&mut self)
        ensures
            *final(self) == (ProbeState { startup_complete: true, ..*old(self) }),
    {
        self.startup_complete = true;
    }

    /// Advances the heartbeat counter; after the highest number it starts again at zero.
    pub fn heartbeat(&mut self)
        ensures
            *final(self) == (ProbeState {
                heartbeat: (if old(self).heartbeat == u64::MAX {
                    0
                } else {
                    old(self).heartbeat + 1
                }) as u64,
                ..*old(self)
            }),
    {
        self.heartbeat = self.heartbeat.wrapping_add(1);
    }

    /// Liveness: whoever can ask is answered yes.
    pub fn is_alive(&self) -> (r: bool)
        ensures
            r,
    {
        true
    }

    /// Readiness: ready to accept traffic.
    pub fn is_ready(&self) -> (r: bool)
        ensures
            r == self.ready,
    {
        self.ready
    }

    /// Startup: initial setup completed.
    pub fn is_startup_complete(&self) -> (r: bool)
        ensures
            r == self.startup_complete,
    {
        self.startup_complete
    }

    /// Current heartbeat count.
    pub fn heartbeat_count(&self) -> (r: u64)
        ensures
            r == self.heartbeat,
    {
        self.heartbeat
    }

    /// Time from the start to the present reading of the clock, in whole seconds.
    pub fn uptime_secs(&self) -> (r: u64)
        ensures
            exists|now: Instant|
                r == clamped(#[trigger] instant_span(self.start_time, now) / 1_000_000_000),
    {
        seconds_since(&self.start_time)
    }

    /// The answer to a liveness probe.
    pub fn liveness_response(&self) -> (r: ProbeResponse)
        ensures
            r.status@ == "ok"@,
            checks_view(r.checks@) == seq![check("alive"@, true), check("heartbeat"@, true)],
    {
        let checks: Vec<(String, bool)> = vec![
            ("alive".to_owned(), true),
            ("heartbeat".to_owned(), true),
        ];
        assert(checks_view(checks@) =~= seq![check("alive"@, true), check("heartbeat"@, true)]);
        ProbeResponse {
            status: if self.is_alive() {
                "ok"
            } else {
                "fail"
            },
            checks,
        }
    }

    /// The answer to a readiness probe.
    pub fn readiness_response(&self, db_ok: bool, degradation_ok: bool) -> (r: ProbeResponse)
        ensures
            r.status@ == (if self.ready && db_ok && degradation_ok {
                "ok"@
            } else {
                "not_ready"@
            }),
            checks_view(r.checks@) == seq![
                check("ready_flag"@, self.ready),
                check("database"@, db_ok),
                check("not_emergency"@, degradation_ok),
            ],
    {
        let ready = self.is_ready() && db_ok && degradation_ok;
        let checks: Vec<(String, bool)> = vec![
            ("ready_flag".to_owned(), self.is_ready()),
            ("database".to_owned(), db_ok),
            ("not_emergency".to_owned(), degradation_ok),
        ];
        assert(checks_view(checks@) =~= seq![
            check("ready_flag"@, self.ready),
            check("database"@, db_ok),
            check("not_emergency"@, degradation_ok),
        ]);
        ProbeResponse {
            status: if ready {
                "ok"
            } else {
                "not_ready"
            },
            checks,
        }
    }

    /// The answer to a startup probe.
    pub fn startup_response(&self) -> (r: ProbeResponse)
        ensures
            r.status@ == (if self.startup_complete {
                "ok"@
            } else {
                "starting"@
            }),
            checks_view(r.checks@) == seq![check("startup_complete"@, self.startup_complete)],
    {
        let checks: Vec<(String, bool)> = vec![
            ("startup_complete".to_owned(), self.is_startup_complete()),
        ];
        assert(checks_view(checks@) =~= seq![check("startup_complete"@, self.startup_complete)]);
        ProbeResponse {
            status: if self.is_startup_complete() {
                "ok"
            } else {
                "starting"
            },
            checks,
        }
    }
}

/// The answer to a probe.
#[derive(Debug, Clone)]
pub struct ProbeResponse {
    pub status: &'static str,
    pub checks: Vec<(String, bool)>,
}

/// The member of one check: its name, and whether it passed.
pub open spec fn check_text(c: (Seq<char>, bool)) -> Seq<char> {
    "\""@ + c.0 + "\":\""@ + (if c.1 {
        "pass"@
    } else {
        "fail"@
    }) + "\""@
}

/// The members of several checks, with commas between them.
pub open spec fn checks_text(checks: Seq<(Seq<char>, bool)>) -> Seq<char>
    decreases checks.len(),
{
    if checks.len() == 0 {
        Seq::empty()
    } else if checks.len() == 1 {
        check_text(checks[0])
    } else {
        checks_text(checks.drop_last()) + ","@ + check_text(checks.last())
    }
}

impl ProbeResponse {
    /// Whether the probe succeeded.
    pub open spec fn succeeded(self) -> bool {
        self.status@ == "ok"@
    }

    /// Whether the probe succeeded.
    pub fn is_ok(&self) -> (r: bool)
        ensures
            r == self.succeeded(),
    {
        str_eq(self.status, "ok")
    }

    /// The response as JSON.
    pub fn to_json(&self) -> (r: String)
        ensures
            r@ == "{\"status\":\""@ + self.status@ + "\",\"checks\":{"@ + checks_text(
                checks_view(self.checks@),
            ) + "}}"@,
    {
        let mut members = String::new();
        let mut i: usize = 0;
        let ghost all = checks_view(self.checks@);
        assert(all.take(0) =~= Seq::<(Seq<char>, bool)>::empty());
        while i < self.checks.len()
            invariant
                i <= self.checks@.len(),
                all == checks_view(self.checks@),
                members@ == checks_text(all.take(i as int)),
            decreases self.checks@.len() - i,
        {
            assert(all.take(i + 1).drop_last() =~= all.take(i as int));
            assert(all.take(i + 1).last() == (self.checks@[i as int].0@, self.checks@[i as int].1));
            let member = "\"".to_owned().concat(self.checks[i].0.as_str()).concat("\":\"").concat(
                if self.checks[i].1 {
                    "pass"
                } else {
                    "fail"
                },
            ).concat("\"");
            if i == 0 {
                members = member;
            } else {
                members.append(",");
                members.append(member.as_str());
            }
            i = i + 1;
        }
        assert(all.take(all.len() as int) =~= all);
        "{\"status\":\"".to_owned().concat(self.status).concat("\",\"checks\":{").concat(
            members.as_str(),
        ).concat("}}")
    }

    /// The HTTP status of the response: 200 on success, else 503.
    pub fn http_status(&self) -> (r: u16)
        ensures
            r == (if self.succeeded() {
                200u16
            } else {
                503u16
            }),
    {
        if self.is_ok() {
            200
        } else {
            503
        }
    }
}

/// Coordinator of a graceful shutdown: new requests are turned away, those in flight finish.
#[derive(Debug, Clone, Copy)]
pub struct ShutdownController {
    pub shutting_down: bool,
    pub drain_started: bool,
    pub active_requests: u64,
}

/// What to do next while requests drain.
#[derive(Debug, Clone, Copy, PartialEq, Eq, Structural)]
pub enum DrainStep {
    /// All requests are done.
    Drained,
    /// The time is up.
    TimedOut,
    /// Look again after a pause of so many milliseconds.
    Pause(u64),
}

impl Default for ShutdownController {
    fn default() -> (r: ShutdownController)
        ensures
            r == (ShutdownController {
                shutting_down: false,
                drain_started: false,
                active_requests: 0,
            }),
    {
        ShutdownController::new()
    }
}

impl ShutdownController {
    /// Whether a shutdown is under way and no request is in flight.
    pub open spec fn drained(self) -> bool {
        self.shutting_down && self.active_requests == 0
    }

    /// The coordinator after one more request has started.
    pub open spec fn started(self) -> ShutdownController {
        ShutdownController {
            active_requests: (if self.active_requests == u64::MAX {
                0
            } else {
                self.active_requests + 1
            }) as u64,
            ..self
        }
    }

    /// The coordinator after a request has ended.
    pub open spec fn ended(self) -> ShutdownController {
        ShutdownController {
            active_requests: (if self.active_requests == 0 {
                u64::MAX as int
            } else {
                self.active_requests - 1
            }) as u64,
            ..self
        }
    }

    /// A coordinator of a server that runs and has no requests.
    pub fn new() -> (r: ShutdownController)
        ensures
            r == (ShutdownController {
                shutting_down: false,
                drain_started: false,
                active_requests: 0,
            }),
    {
        ShutdownController { shutting_down: false, drain_started: false, active_requests: 0 }
    }

    /// Initiates the shutdown: from now on new requests are rejected.
    pub fn initiate_shutdown(&mut self)
        ensures
            *final(self) == (ShutdownController {
                shutting_down: true,
                drain_started: true,
                ..*old(self)
            }),
    {
        self.shutting_down = true;
        self.drain_started = true;
    }

    /// Whether a shutdown is in progress.
    pub fn is_shutting_down(&self) -> (r: bool)
        ensures
            r == self.shutting_down,
    {
        self.shutting_down
    }

    /// Whether new requests should be rejected.
    pub fn should_reject_new(&self) -> (r: bool)
        ensures
            r == self.drain_started,
    {
        self.drain_started
    }

    /// Counts a request that starts; the counter wraps around at its ends.
    pub fn request_start(&mut self)
        ensures
            *final(self) == old(self).started(),
    {
        self.active_requests = self.active_requests.wrapping_add(1);
    }

    /// Counts a request that ends; the counter wraps around at its ends.
    pub fn request_end(&mut self)
        ensures
            *final(self) == old(self).ended(),
    {
        self.active_requests = self.active_requests.wrapping_sub(1);
    }

    /// Number of requests in flight.
    pub fn active_requests(&self) -> (r: u64)
        ensures
            r == self.active_requests,
    {
        self.active_requests
    }

    /// Whether all requests have drained.
    pub fn is_drained(&self) -> (r: bool)
        ensures
            r == self.drained(),
    {
        self.is_shutting_down() && self.active_requests() == 0
    }

    /// What a wait for the drain does next, `elapsed` after it began (both times in
    /// milliseconds).
    pub fn drain_step(&self, elapsed_ms: u64, timeout_ms: u64) -> (r: DrainStep)
        ensures
            r == (if self.drained() {
                DrainStep::Drained
            } else if elapsed_ms > timeout_ms {
                DrainStep::TimedOut
            } else {
                DrainStep::Pause(10)
            }),
    {
        if self.is_drained() {
            DrainStep::Drained
        } else if elapsed_ms > timeout_ms {
            DrainStep::TimedOut
        } else {
            DrainStep::Pause(10)
        }
    }
}

// ---------------------------------------------------------------------------
// Laws

/// A request that starts and ends leaves the coordinator as it was, in either order.
pub proof fn start_and_end_cancel(c: ShutdownController)
    ensures
        c.started().ended() == c,
        c.ended().started() == c,
{
}

/// The coordinator after several requests have started (true) and ended (false), in any order.
pub open spec fn after_events(c: ShutdownController, events: Seq<bool>) -> ShutdownController
    decreases events.len(),
{
    if events.len() == 0 {
        c
    } else if events.last() {
        after_events(c, events.drop_last()).started()
    } else {
        after_events(c, events.drop_last()).ended()
    }
}

/// How many more requests have started than ended.
pub open spec fn in_flight(events: Seq<bool>) -> int
    decreases events.len(),
{
    if events.len() == 0 {
        0
    } else {
        in_flight(events.drop_last()) + (if events.last() {
            1int
        } else {
            -1
        })
    }
}

proof fn lemma_count_modulo(c: ShutdownController, events: Seq<bool>)
    ensures
        after_events(c, events).active_requests == (c.active_requests + in_flight(events))
            % 0x1_0000_0000_0000_0000,
        after_events(c, events).shutting_down == c.shutting_down,
        after_events(c, events).drain_started == c.drain_started,
    decreases events.len(),
{
    if events.len() > 0 {
        lemma_count_modulo(c, events.drop_last());
    }
}

/// The count is that of the requests in flight, however their starts and ends interleave.
pub proof fn count_is_of_requests_in_flight(c: ShutdownController, events: Seq<bool>)
    requires
        0 <= c.active_requests + in_flight(events) <= u64::MAX,
    ensures
        after_events(c, events).active_requests == c.active_requests + in_flight(events),
{
    lemma_count_modulo(c, events);
}

/// A drain ends: once a server is shutting down and the requests it had in flight, and those that
/// started since, have all ended, it is drained.
pub proof fn drain_ends(c: ShutdownController, events: Seq<bool>)
    requires
        c.shutting_down,
        c.active_requests + in_flight(events) == 0,
    ensures
        after_events(c, events).drained(),
{
    lemma_count_modulo(c, events);
}

/// A server with a request in flight is not drained.
pub proof fn drained_means_idle(c: ShutdownController)
    requires
        c.active_requests < u64::MAX,
    ensures
        !c.started().drained(),
{
}

/// Readiness needs the flag, the database and a mode short of emergency, all three.
pub proof fn readiness_needs_all_checks(checks: Seq<(Seq<char>, bool)>, ready: bool, db_ok: bool, degradation_ok: bool)
    requires
        checks == seq![
            check("ready_flag"@, ready),
            check("database"@, db_ok),
            check("not_emergency"@, degradation_ok),
        ],
    ensures
        (forall|i: int| 0 <= i < checks.len() ==> (#[trigger] checks[i]).1) <==> ready && db_ok
            && degradation_ok,
{
    assert(checks[0].1 == ready);
    assert(checks[1].1 == db_ok);
    assert(checks[2].1 == degradation_ok);
}

/// Checks are listed one after the other, with a comma between two, and each tells whether it
/// passed.
pub proof fn checks_are_listed(a: Seq<(Seq<char>, bool)>, b: Seq<(Seq<char>, bool)>, name: Seq<char>)
    requires
        a.len() > 0,
        b.len() > 0,
    ensures
        checks_text(a + b) == checks_text(a) + ","@ + checks_text(b),
        checks_text(seq![(name, true)]) == "\""@ + name + "\":\"pass\""@,
        checks_text(seq![(name, false)]) == "\""@ + name + "\":\"fail\""@,
    decreases b.len(),
{
    reveal_strlit("\":\"");
    reveal_strlit("\"");
    reveal_strlit("pass");
    reveal_strlit("fail");
    reveal_strlit("\":\"pass\"");
    reveal_strlit("\":\"fail\"");
    assert(checks_text(seq![(name, true)]) =~= "\""@ + name + "\":\"pass\""@);
    assert(checks_text(seq![(name, false)]) =~= "\""@ + name + "\":\"fail\""@);
    assert((a + b).last() == b.last());
    if b.len() == 1 {
        assert((a + b).drop_last() =~= a);
    } else {
        checks_are_listed(a, b.drop_last(), name);
        assert((a + b).drop_last() =~= a + b.drop_last());
        assert(checks_text(a + b) =~= checks_text(a) + ","@ + checks_text(b));
    }
}

/// A server is drained once a shutdown is under way and as many requests have ended as started.
pub proof fn drained_when_all_have_ended(c: ShutdownController)
    ensures
        c.drained() ==> c.shutting_down && c.active_requests == 0,
        !c.shutting_down ==> !c.drained(),
        c.shutting_down && c.active_requests == 1 ==> c.ended().drained(),
        c.started().shutting_down == c.shutting_down && c.ended().shutting_down == c.shutting_down,
        c.started().drain_started == c.drain_started && c.ended().drain_started == c.drain_started,
{
}

} // verus!
