//! Readings of the machine's clocks.
//!
//! What a clock shows is outside the library's control, so nothing is claimed of a reading; what
//! is computed from a reading is. Every rule that depends on time takes it as an argument; the
//! functions here only supply it.

use std::time::{Duration, Instant, SystemTime, SystemTimeError};
use vstd::prelude::*;

verus! {

/// A reading of the monotonic clock.
#[verifier::external_type_specification]
#[verifier::external_body]
pub struct ExInstant(std::time::Instant);

/// A reading of the calendar clock.
#[verifier::external_type_specification]
#[verifier::external_body]
pub struct ExSystemTime(std::time::SystemTime);

/// The error of a calendar clock that stands before the moment it is measured from.
#[verifier::external_type_specification]
#[verifier::external_body]
pub struct ExSystemTimeError(std::time::SystemTimeError);

/// The length of a span of time in nanoseconds.
pub uninterp spec fn duration_nanos(d: Duration) -> nat;

/// `Instant::now` reads the monotonic clock; nothing is claimed of the reading.
pub assume_specification[ Instant::now ]() -> (r: Instant)
;

/// The time from one reading of the monotonic clock to another, in nanoseconds.
pub uninterp spec fn instant_span(earlier: Instant, later: Instant) -> nat;

/// `Instant::duration_since` measures the time from an earlier reading to this one. Claimed: the
/// span depends on the two readings alone. How long it is for given readings, and that it is zero
/// where `earlier` is the later one, is left unsaid: a reading shows nothing of itself.
pub assume_specification[ Instant::duration_since ](later: &Instant, earlier: Instant) -> (r: Duration)
    ensures
        duration_nanos(r) == instant_span(earlier, *later),
;

/// `SystemTime::now` reads the calendar clock; nothing is claimed of the reading.
pub assume_specification[ SystemTime::now ]() -> (r: SystemTime)
;

/// The time from the Unix epoch to a reading of the calendar clock, in nanoseconds; `None` where
/// the reading lies before the epoch.
pub uninterp spec fn unix_time(t: SystemTime) -> Option<nat>;

/// `SystemTime::duration_since`, from `UNIX_EPOCH`, measures the time from the Unix epoch to a
/// reading. Claimed: the span, or that there is none, depends on the reading alone.
#[verifier::external_body]
fn since_epoch(t: &SystemTime) -> (r: Result<Duration, SystemTimeError>)
    ensures
        match r {
            Ok(d) => unix_time(*t) == Some(duration_nanos(d)),
            Err(_) => unix_time(*t) is None,
        },
{
    t.duration_since(std::time::UNIX_EPOCH)
}

/// `Duration::as_nanos` gives the whole length of the span in nanoseconds.
pub assume_specification[ Duration::as_nanos ](d: &Duration) -> (r: u128)
    ensures
        r == duration_nanos(*d),
;

/// `n` as 64 bits, or the largest such number where it does not fit.
pub open spec fn clamped(n: nat) -> u64 {
    if n <= u64::MAX {
        n as u64
    } else {
        u64::MAX
    }
}

/// Nanoseconds from the Unix epoch to a reading; zero where it lies before the epoch.
pub open spec fn epoch_nanos(t: SystemTime) -> nat {
    unix_time(t).unwrap_or(0)
}

/// Whole seconds from the Unix epoch to a reading; zero where it lies before the epoch.
pub open spec fn seconds_at(t: SystemTime) -> u64 {
    clamped(epoch_nanos(t) / 1_000_000_000)
}

/// Whole milliseconds from the Unix epoch to a reading, in the lowest 64 bits; zero where it lies
/// before the epoch.
pub open spec fn millis_at(t: SystemTime) -> u64 {
    (epoch_nanos(t) / 1_000_000) as u64
}

/// Nanoseconds from `origin` to a later reading, or the largest number of 64 bits where they do
/// not fit.
pub open spec fn nanos_at(origin: Instant, t: Instant) -> u64 {
    clamped(instant_span(origin, t))
}

/// `n` as 64 bits, or the largest such number where it does not fit.
pub fn clamp_u64(n: u128) -> (r: u64)
    ensures
        r == clamped(n as nat),
{
    if n <= u64::MAX as u128 {
        n as u64
    } else {
        u64::MAX
    }
}

/// Nanoseconds since the Unix epoch, by the present reading of the calendar clock; zero where the
/// clock stands before the epoch.
pub fn unix_nanos() -> (r: u128)
    ensures
        exists|now: SystemTime| r == #[trigger] epoch_nanos(now),
{
    let now = SystemTime::now();
    let r: u128 = match since_epoch(&now) {
        Ok(d) => d.as_nanos(),
        Err(_) => 0,
    };
    assert(r == epoch_nanos(now));
    r
}

/// Whole seconds since the Unix epoch, by the present reading of the calendar clock; zero where
/// the clock stands before the epoch.
pub fn unix_seconds() -> (r: u64)
    ensures
        exists|now: SystemTime| r == #[trigger] seconds_at(now),
{
    let nanos: u128 = unix_nanos();
    let r: u64 = clamp_u64(nanos / 1_000_000_000);
    proof {
        let now = choose|now: SystemTime| nanos == #[trigger] epoch_nanos(now);
        assert(r == seconds_at(now));
    }
    r
}

/// Whole milliseconds since the Unix epoch, by the present reading of the calendar clock; zero
/// where the clock stands before the epoch. The lowest 64 bits are given.
pub fn unix_millis() -> (r: u64)
    ensures
        exists|now: SystemTime| r == #[trigger] millis_at(now),
{
    let nanos: u128 = unix_nanos();
    let r: u64 = (nanos / 1_000_000) as u64;
    proof {
        let now = choose|now: SystemTime| nanos == #[trigger] epoch_nanos(now);
        assert(r == millis_at(now));
    }
    r
}

/// Nanoseconds from `origin` to the present reading of the monotonic clock.
pub fn nanos_since(origin: &Instant) -> (r: u64)
    ensures
        exists|now: Instant| r == #[trigger] nanos_at(*origin, now),
{
    let now = Instant::now();
    let r: u64 = clamp_u64(now.duration_since(*origin).as_nanos());
    assert(r == nanos_at(*origin, now));
    r
}

/// Whole seconds from `origin` to the present reading of the monotonic clock.
pub fn seconds_since(origin: &Instant) -> (r: u64)
    ensures
        exists|now: Instant| r == clamped(#[trigger] instant_span(*origin, now) / 1_000_000_000),
{
    let now = Instant::now();
    let r: u64 = clamp_u64(now.duration_since(*origin).as_nanos() / 1_000_000_000);
    assert(r == clamped(instant_span(*origin, now) / 1_000_000_000));
    r
}

// ---------------------------------------------------------------------------
// Laws

/// Seconds and milliseconds are whole ones: the reading lies in the one that follows them.
pub proof fn readings_are_whole(t: SystemTime)
    requires
        epoch_nanos(t) <= u64::MAX,
    ensures
        seconds_at(t) * 1_000_000_000 <= epoch_nanos(t) < (seconds_at(t) + 1) * 1_000_000_000,
        millis_at(t) * 1_000_000 <= epoch_nanos(t) < (millis_at(t) + 1) * 1_000_000,
        unix_time(t) is None ==> seconds_at(t) == 0 && millis_at(t) == 0,
{
}

/// A span that fits is told as it is, and a longer one as the longest there is.
pub proof fn spans_are_clamped(n: nat, m: nat)
    ensures
        n <= u64::MAX ==> clamped(n) == n,
        n <= m ==> clamped(n) <= clamped(m),
        n >= u64::MAX ==> clamped(n) == u64::MAX,
{
}

} // verus!
