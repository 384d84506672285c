//! Graceful degradation.
//!
//! Under stress the gateway gives up features one by one instead of failing hard:
//!   - normal: all features enabled;
//!   - degraded: calls to language models disabled, tool-only workflows still work;
//!   - read-only: only reads allowed, writes rejected;
//!   - emergency: only the health endpoints respond.
//!
//! The mode follows the error rate and the latency, unless an operator overrides it. Requests are
//! shed by priority: background work first, then tenants by plan, health checks never.

use vstd::prelude::*;

use crate::ratio::{Fraction, Ratio};
use crate::text::str_eq;

verus! {

/// Degradation mode of the system.
#[derive(Debug, Clone, Copy, PartialEq, Eq, Structural)]
pub enum DegradationMode {
    /// All features enabled.
    Normal,
    /// LLM calls disabled, tool-only workflows still work.
    Degraded,
    /// Only reads allowed, writes rejected.
    ReadOnly,
    /// Only health endpoint responds.
    Emergency,
}

impl DegradationMode {
    /// How severe the mode is: the number it is stored as.
    pub open spec fn severity(self) -> u8 {
        match self {
            DegradationMode::Normal => 0,
            DegradationMode::Degraded => 1,
            DegradationMode::ReadOnly => 2,
            DegradationMode::Emergency => 3,
        }
    }

    /// The mode stored as `v`; an unknown number counts as normal.
    pub open spec fn stored(v: u8) -> DegradationMode {
        if v == 1 {
            DegradationMode::Degraded
        } else if v == 2 {
            DegradationMode::ReadOnly
        } else if v == 3 {
            DegradationMode::Emergency
        } else {
            DegradationMode::Normal
        }
    }

    /// The name of the mode.
    pub open spec fn name(self) -> Seq<char> {
        match self {
            DegradationMode::Normal => "normal"@,
            DegradationMode::Degraded => "degraded"@,
            DegradationMode::ReadOnly => "read_only"@,
            DegradationMode::Emergency => "emergency"@,
        }
    }

    /// The number the mode is stored as.
    pub fn as_u8(&self) -> (r: u8)
        ensures
            r == self.severity(),
    {
        match self {
            DegradationMode::Normal => 0,
            DegradationMode::Degraded => 1,
            DegradationMode::ReadOnly => 2,
            DegradationMode::Emergency => 3,
        }
    }

    /// The mode stored as `v`; an unknown number counts as normal.
    pub fn from_u8(v: u8) -> (r: DegradationMode)
        ensures
            r == DegradationMode::stored(v),
    {
        match v {
            0 => DegradationMode::Normal,
            1 => DegradationMode::Degraded,
            2 => DegradationMode::ReadOnly,
            3 => DegradationMode::Emergency,
            _ => DegradationMode::Normal,
        }
    }

    /// Whether writes are allowed.
    pub fn allows_writes(&self) -> (r: bool)
        ensures
            r == (*self == DegradationMode::Normal || *self == DegradationMode::Degraded),
    {
        matches!(self, DegradationMode::Normal | DegradationMode::Degraded)
    }

    /// Whether calls to language models are allowed.
    pub fn allows_llm(&self) -> (r: bool)
        ensures
            r == (*self == DegradationMode::Normal),
    {
        matches!(self, DegradationMode::Normal)
    }

    /// Whether reads are allowed.
    pub fn allows_reads(&self) -> (r: bool)
        ensures
            r == (*self != DegradationMode::Emergency),
    {
        !matches!(self, DegradationMode::Emergency)
    }

    /// Whether workflows are allowed.
    pub fn allows_workflows(&self) -> (r: bool)
        ensures
            r == (*self == DegradationMode::Normal || *self == DegradationMode::Degraded),
    {
        matches!(self, DegradationMode::Normal | DegradationMode::Degraded)
    }

    /// The name of the mode.
    pub fn text(&self) -> (r: String)
        ensures
            r@ == self.name(),
    {
        match self {
            DegradationMode::Normal => "normal".to_owned(),
            DegradationMode::Degraded => "degraded".to_owned(),
            DegradationMode::ReadOnly => "read_only".to_owned(),
            DegradationMode::Emergency => "emergency".to_owned(),
        }
    }
}

/// Thresholds that trigger degradation.
#[derive(Debug, Clone, Copy, PartialEq, Eq, Structural)]
pub struct DegradationThresholds {
    /// Error rate that triggers degraded mode.
    pub error_rate_degraded: Fraction,
    /// Error rate that triggers read-only mode.
    pub error_rate_readonly: Fraction,
    /// Error rate that triggers emergency mode.
    pub error_rate_emergency: Fraction,
    /// P99 latency (ms) that triggers degraded mode.
    pub latency_p99_degraded_ms: u64,
    /// P99 latency (ms) that triggers read-only mode.
    pub latency_p99_readonly_ms: u64,
}

/// The thresholds in force where none are configured: error rates of 5, 15 and 30 percent, and
/// latencies of 5 and 15 seconds.
pub open spec fn default_thresholds() -> DegradationThresholds {
    DegradationThresholds {
        error_rate_degraded: Fraction { ppm: 50_000 },
        error_rate_readonly: Fraction { ppm: 150_000 },
        error_rate_emergency: Fraction { ppm: 300_000 },
        latency_p99_degraded_ms: 5000,
        latency_p99_readonly_ms: 15000,
    }
}

impl Default for DegradationThresholds {
    fn default() -> (r: DegradationThresholds)
        ensures
            r == default_thresholds(),
    {
        DegradationThresholds {
            error_rate_degraded: Fraction { ppm: 50_000 },
            error_rate_readonly: Fraction { ppm: 150_000 },
            error_rate_emergency: Fraction { ppm: 300_000 },
            latency_p99_degraded_ms: 5000,
            latency_p99_readonly_ms: 15000,
        }
    }
}

/// Load shedding priority, lowest first.
#[derive(Debug, Clone, Copy, PartialEq, Eq, PartialOrd, Ord, Structural)]
pub enum Priority {
    /// Background tasks: metrics, logs, cleanup.
    Background,
    /// Starter plan tenants.
    Starter,
    /// Pro plan tenants.
    Pro,
    /// Enterprise plan tenants.
    Enterprise,
    /// Admin/system operations.
    Admin,
    /// Health checks (never shed).
    Health,
}

impl Priority {
    /// The rank of the priority.
    pub open spec fn rank(self) -> u8 {
        match self {
            Priority::Background => 0,
            Priority::Starter => 1,
            Priority::Pro => 2,
            Priority::Enterprise => 3,
            Priority::Admin => 4,
            Priority::Health => 5,
        }
    }

    /// The name of the priority.
    pub open spec fn name(self) -> Seq<char> {
        match self {
            Priority::Background => "background"@,
            Priority::Starter => "starter"@,
            Priority::Pro => "pro"@,
            Priority::Enterprise => "enterprise"@,
            Priority::Admin => "admin"@,
            Priority::Health => "health"@,
        }
    }

    /// The rank of the priority.
    pub fn as_u8(&self) -> (r: u8)
        ensures
            r == self.rank(),
    {
        match self {
            Priority::Background => 0,
            Priority::Starter => 1,
            Priority::Pro => 2,
            Priority::Enterprise => 3,
            Priority::Admin => 4,
            Priority::Health => 5,
        }
    }

    /// The priority of a tenant's plan; an unknown plan counts as starter.
    pub fn from_plan(plan: &str) -> (r: Priority)
        ensures
            r == (if plan@ == "enterprise"@ {
                Priority::Enterprise
            } else if plan@ == "pro"@ {
                Priority::Pro
            } else {
                Priority::Starter
            }),
    {
        if str_eq(plan, "enterprise") {
            Priority::Enterprise
        } else if str_eq(plan, "pro") {
            Priority::Pro
        } else {
            Priority::Starter
        }
    }

    /// The name of the priority.
    pub fn text(&self) -> (r: String)
        ensures
            r@ == self.name(),
    {
        match self {
            Priority::Background => "background".to_owned(),
            Priority::Starter => "starter".to_owned(),
            Priority::Pro => "pro".to_owned(),
            Priority::Enterprise => "enterprise".to_owned(),
            Priority::Admin => "admin".to_owned(),
            Priority::Health => "health".to_owned(),
        }
    }
}

/// The mode that an error rate and a latency call for.
pub open spec fn called_for(t: DegradationThresholds, error_rate: Ratio, p99_ms: u64) -> DegradationMode {
    if error_rate.reaches(t.error_rate_emergency) {
        DegradationMode::Emergency
    } else if error_rate.reaches(t.error_rate_readonly) || p99_ms >= t.latency_p99_readonly_ms {
        DegradationMode::ReadOnly
    } else if error_rate.reaches(t.error_rate_degraded) || p99_ms >= t.latency_p99_degraded_ms {
        DegradationMode::Degraded
    } else {
        DegradationMode::Normal
    }
}

/// The lowest priority that is still served in a mode.
pub open spec fn lowest_served(mode: DegradationMode) -> Priority {
    match mode {
        DegradationMode::Normal => Priority::Background,
        DegradationMode::Degraded => Priority::Starter,
        DegradationMode::ReadOnly => Priority::Pro,
        DegradationMode::Emergency => Priority::Enterprise,
    }
}

/// The number that stands for "no override".
pub const NO_OVERRIDE: u8 = 255;

/// Degradation controller.
#[derive(Debug, Clone, Copy)]
pub struct DegradationController {
    pub mode: u8,
    pub thresholds: DegradationThresholds,
    pub manual_override: u8,
    pub shed_priority: u8,
}

impl DegradationController {
    /// The mode that the measurements called for last.
    pub open spec fn measured_mode(self) -> DegradationMode {
        DegradationMode::stored(self.mode)
    }

    /// The operator's override, if there is one.
    pub open spec fn overridden(self) -> Option<DegradationMode> {
        if self.manual_override == NO_OVERRIDE {
            None
        } else {
            Some(DegradationMode::stored(self.manual_override))
        }
    }

    /// The mode in force: the override, else what the measurements call for.
    pub open spec fn current(self) -> DegradationMode {
        match self.overridden() {
            Some(m) => m,
            None => self.measured_mode(),
        }
    }

    /// A threshold below which requests are shed never exceeds the enterprise plan, and the
    /// stored numbers are those of modes.
    pub open spec fn wf(self) -> bool {
        &&& self.mode <= 3
        &&& self.manual_override <= 3 || self.manual_override == NO_OVERRIDE
        &&& self.shed_priority == lowest_served(self.measured_mode()).rank()
    }

    /// The controller after an evaluation of the given measurements.
    pub open spec fn evaluated(self, error_rate: Ratio, p99_ms: u64) -> DegradationController {
        let m = called_for(self.thresholds, error_rate, p99_ms);
        DegradationController {
            mode: m.severity(),
            shed_priority: lowest_served(m).rank(),
            ..self
        }
    }

    /// A controller in normal mode.
    pub fn new(thresholds: DegradationThresholds) -> (r: DegradationController)
        ensures
            r.thresholds == thresholds,
            r.measured_mode() == DegradationMode::Normal,
            r.overridden() is None,
            r.shed_priority == Priority::Background.rank(),
            r.wf(),
    {
        DegradationController {
            mode: DegradationMode::Normal.as_u8(),
            thresholds,
            manual_override: NO_OVERRIDE,
            shed_priority: Priority::Background.as_u8(),
        }
    }

    /// A controller in normal mode with the default thresholds.
    pub fn with_defaults() -> (r: DegradationController)
        ensures
            r.thresholds == default_thresholds(),
            r.measured_mode() == DegradationMode::Normal,
            r.overridden() is None,
            r.shed_priority == Priority::Background.rank(),
            r.wf(),
    {
        DegradationController::new(
            DegradationThresholds {
                error_rate_degraded: Fraction { ppm: 50_000 },
                error_rate_readonly: Fraction { ppm: 150_000 },
                error_rate_emergency: Fraction { ppm: 300_000 },
                latency_p99_degraded_ms: 5000,
                latency_p99_readonly_ms: 15000,
            },
        )
    }

    /// The mode in force.
    pub fn mode(&self) -> (r: DegradationMode)
        ensures
            r == self.current(),
    {
        if self.manual_override != NO_OVERRIDE {
            return DegradationMode::from_u8(self.manual_override);
        }
        DegradationMode::from_u8(self.mode)
    }

    /// Sets the mode by hand (operator override).
    pub fn set_mode(&mut self, mode: DegradationMode)
        ensures
            *final(self) == (DegradationController {
                manual_override: mode.severity(),
                ..*old(self)
            }),
            final(self).overridden() == Some(mode),
            final(self).current() == mode,
            old(self).wf() ==> final(self).wf(),
    {
        self.manual_override = mode.as_u8();
    }

    /// Lifts the override: the mode follows the measurements again.
    pub fn clear_override(&mut self)
        ensures
            *final(self) == (DegradationController {
                manual_override: NO_OVERRIDE,
                ..*old(self)
            }),
            final(self).overridden() is None,
            final(self).current() == old(self).measured_mode(),
            old(self).wf() ==> final(self).wf(),
    {
        self.manual_override = NO_OVERRIDE;
    }

    /// Updates the mode from the current error rate and latency.
    pub fn evaluate(&mut self, error_rate: Ratio, p99_latency_ms: u64)
        requires
            error_rate.wf(),
        ensures
            *final(self) == old(self).evaluated(error_rate, p99_latency_ms),
            final(self).measured_mode() == called_for(
                old(self).thresholds,
                error_rate,
                p99_latency_ms,
            ),
            old(self).wf() ==> final(self).wf(),
    {
        let new_mode = if error_rate.at_least(self.thresholds.error_rate_emergency) {
            DegradationMode::Emergency
        } else if error_rate.at_least(self.thresholds.error_rate_readonly) || p99_latency_ms
            >= self.thresholds.latency_p99_readonly_ms {
            DegradationMode::ReadOnly
        } else if error_rate.at_least(self.thresholds.error_rate_degraded) || p99_latency_ms
            >= self.thresholds.latency_p99_degraded_ms {
            DegradationMode::Degraded
        } else {
            DegradationMode::Normal
        };
        self.mode = new_mode.as_u8();
        let shed = match new_mode {
            DegradationMode::Normal => Priority::Background,
            DegradationMode::Degraded => Priority::Starter,
            DegradationMode::ReadOnly => Priority::Pro,
            DegradationMode::Emergency => Priority::Enterprise,
        };
        self.shed_priority = shed.as_u8();
    }

    /// Whether a request of the given priority should be shed (rejected).
    pub fn should_shed(&self, request_priority: Priority) -> (r: bool)
        ensures
            r == (request_priority.rank() < self.shed_priority),
    {
        request_priority.as_u8() < self.shed_priority
    }

    /// Whether writes are allowed.
    pub fn allows_writes(&self) -> (r: bool)
        ensures
            r == (self.current() == DegradationMode::Normal || self.current()
                == DegradationMode::Degraded),
    {
        self.mode().allows_writes()
    }

    /// Whether calls to language models are allowed.
    pub fn allows_llm(&self) -> (r: bool)
        ensures
            r == (self.current() == DegradationMode::Normal),
    {
        self.mode().allows_llm()
    }

    /// Whether reads are allowed.
    pub fn allows_reads(&self) -> (r: bool)
        ensures
            r == (self.current() != DegradationMode::Emergency),
    {
        self.mode().allows_reads()
    }

    /// Whether workflows are allowed.
    pub fn allows_workflows(&self) -> (r: bool)
        ensures
            r == (self.current() == DegradationMode::Normal || self.current()
                == DegradationMode::Degraded),
    {
        self.mode().allows_workflows()
    }
}

// ---------------------------------------------------------------------------
// Laws

/// A stored mode is read back as itself.
pub proof fn stored_mode_is_read_back(m: DegradationMode)
    ensures
        DegradationMode::stored(m.severity()) == m,
{
}

/// A higher error rate and a higher latency never call for a less severe mode.
pub proof fn severity_grows_with_stress(
    t: DegradationThresholds,
    low: Ratio,
    low_ms: u64,
    high: Ratio,
    high_ms: u64,
)
    requires
        low.wf(),
        high.wf(),
        low.part * high.whole <= high.part * low.whole,
        low_ms <= high_ms,
    ensures
        called_for(t, low, low_ms).severity() <= called_for(t, high, high_ms).severity(),
{
    lemma_reaches_monotone(low, high, t.error_rate_emergency);
    lemma_reaches_monotone(low, high, t.error_rate_readonly);
    lemma_reaches_monotone(low, high, t.error_rate_degraded);
}

proof fn lemma_reaches_monotone(low: Ratio, high: Ratio, limit: Fraction)
    requires
        low.wf(),
        high.wf(),
        low.part * high.whole <= high.part * low.whole,
    ensures
        low.reaches(limit) ==> high.reaches(limit),
{
    if low.reaches(limit) {
        let (a, b, c, d) = (low.part as int, low.whole as int, high.part as int, high.whole as int);
        let l = limit.ppm as int;
        assert(c * 1_000_000 >= l * d) by (nonlinear_arith)
            requires
                a * d <= c * b,
                a * 1_000_000 >= l * b,
                b > 0,
                d > 0,
                a >= 0,
                c >= 0,
                l >= 0,
        {
            assert(a * 1_000_000 * d >= l * b * d);
            assert(c * b * 1_000_000 >= a * d * 1_000_000);
            assert(b * (c * 1_000_000) >= b * (l * d));
        }
    }
}

/// While an override is in force, no measurement changes the mode; once it is lifted, the mode
/// is what the last measurements call for.
pub proof fn override_withstands_measurements(
    c: DegradationController,
    error_rate: Ratio,
    p99_ms: u64,
)
    requires
        c.overridden() is Some,
    ensures
        c.evaluated(error_rate, p99_ms).current() == c.current(),
        (DegradationController {
            manual_override: NO_OVERRIDE,
            ..c.evaluated(error_rate, p99_ms)
        }).current() == called_for(c.thresholds, error_rate, p99_ms),
{
}

/// Health checks and administration are never shed, in any mode.
pub proof fn health_is_never_shed(c: DegradationController)
    requires
        c.wf(),
    ensures
        !(Priority::Health.rank() < c.shed_priority),
        !(Priority::Admin.rank() < c.shed_priority),
        !(Priority::Enterprise.rank() < c.shed_priority),
{
}

/// A request is shed before any request of higher priority is.
pub proof fn shedding_respects_priority(c: DegradationController, low: Priority, high: Priority)
    requires
        low.rank() <= high.rank(),
        high.rank() < c.shed_priority,
    ensures
        low.rank() < c.shed_priority,
{
}

/// Measurements call for a mode by the thresholds alone: emergency where the error rate reaches its
/// own threshold, read-only or worse where it reaches that of read-only mode or the latency does,
/// degraded or worse likewise.
pub proof fn thresholds_call_for_modes(
    c: DegradationController,
    error_rate: Ratio,
    p99_ms: u64,
    mode: DegradationMode,
)
    requires
        mode == c.evaluated(error_rate, p99_ms).measured_mode(),
    ensures
        ({
            let t = c.thresholds;
            let errors = error_rate.part * 1_000_000;
            let emergency = errors >= t.error_rate_emergency.ppm * error_rate.whole;
            let read_only = errors >= t.error_rate_readonly.ppm * error_rate.whole || p99_ms
                >= t.latency_p99_readonly_ms;
            let degraded = errors >= t.error_rate_degraded.ppm * error_rate.whole || p99_ms
                >= t.latency_p99_degraded_ms;
            &&& mode == DegradationMode::Emergency <==> emergency
            &&& mode == DegradationMode::ReadOnly <==> read_only && !emergency
            &&& mode == DegradationMode::Degraded <==> degraded && !read_only && !emergency
            &&& mode == DegradationMode::Normal <==> !degraded && !read_only && !emergency
        }),
{
}

/// What is shed after an evaluation goes by the mode it called for: nothing in normal mode,
/// background work in degraded mode, the starter plan too in read-only mode, and the pro plan too
/// in emergency mode.
pub proof fn modes_shed_by_plan(
    c: DegradationController,
    error_rate: Ratio,
    p99_ms: u64,
    p: Priority,
)
    ensures
        p.rank() < c.evaluated(error_rate, p99_ms).shed_priority <==> match c.evaluated(
            error_rate,
            p99_ms,
        ).measured_mode() {
            DegradationMode::Normal => false,
            DegradationMode::Degraded => p == Priority::Background,
            DegradationMode::ReadOnly => p == Priority::Background || p == Priority::Starter,
            DegradationMode::Emergency => p == Priority::Background || p == Priority::Starter || p
                == Priority::Pro,
        },
{
}

/// More stress never sheds less: what is shed at one error rate and latency is shed at all higher
/// ones.
pub proof fn shedding_grows_with_stress(
    c: DegradationController,
    low: Ratio,
    low_ms: u64,
    high: Ratio,
    high_ms: u64,
    p: Priority,
)
    requires
        low.wf(),
        high.wf(),
        low.part * high.whole <= high.part * low.whole,
        low_ms <= high_ms,
        p.rank() < c.evaluated(low, low_ms).shed_priority,
    ensures
        p.rank() < c.evaluated(high, high_ms).shed_priority,
        c.evaluated(low, low_ms).shed_priority <= c.evaluated(high, high_ms).shed_priority,
{
    severity_grows_with_stress(c.thresholds, low, low_ms, high, high_ms);
    modes_shed_by_plan(c, low, low_ms, p);
    modes_shed_by_plan(c, high, high_ms, p);
}

/// An evaluation changes nothing but the measured mode and what is shed, and depends on nothing of
/// the controller but its thresholds.
pub proof fn evaluation_forgets_the_past(
    c: DegradationController,
    d: DegradationController,
    error_rate: Ratio,
    p99_ms: u64,
)
    requires
        c.thresholds == d.thresholds,
    ensures
        c.evaluated(error_rate, p99_ms).thresholds == c.thresholds,
        c.evaluated(error_rate, p99_ms).overridden() == c.overridden(),
        c.evaluated(error_rate, p99_ms).measured_mode() == d.evaluated(
            error_rate,
            p99_ms,
        ).measured_mode(),
        c.evaluated(error_rate, p99_ms).shed_priority == d.evaluated(
            error_rate,
            p99_ms,
        ).shed_priority,
{
}

/// The default thresholds are five, fifteen and thirty percent of errors, and five and fifteen
/// seconds: nothing is done below five percent and five seconds, and one request in three that
/// fails is an emergency.
pub proof fn default_thresholds_in_percent(
    c: DegradationController,
    failed: u128,
    p99_ms: u64,
    mode: DegradationMode,
)
    requires
        c.thresholds == default_thresholds(),
        failed <= 100,
        mode == c.evaluated(Ratio { part: failed, whole: 100 }, p99_ms).measured_mode(),
    ensures
        mode == DegradationMode::Normal <==> failed < 5 && p99_ms < 5_000,
        mode == DegradationMode::Degraded <==> failed < 15 && p99_ms < 15_000 && (failed >= 5
            || p99_ms >= 5_000),
        mode == DegradationMode::Emergency <==> failed >= 30,
{
}

} // verus!
