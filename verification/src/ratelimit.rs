//! HTTP rate limiting: a token bucket for each client address.

use std::time::Instant;
use vstd::prelude::*;

use crate::clock::{nanos_at, nanos_since};
use crate::keyed::KeyedMap;

verus! {

/// One token, in the unit that buckets count in: billionths of a token.
pub const TOKEN: u64 = 1_000_000_000;

/// How long a bucket may go unused before it is stale, in nanoseconds.
pub const STALE_AFTER: u64 = 300_000_000_000;

/// A token bucket. Tokens are counted in billionths, so that a rate of so many tokens a second is
/// as many units a nanosecond.
#[derive(Debug, Clone, Copy, PartialEq, Eq, Structural)]
pub struct TokenBucket {
    pub tokens: u64,
    pub last_refill: u64,
    pub rate: u32,
    pub capacity: u32,
}

/// The time from `from` to `to`; zero where `to` lies before.
pub open spec fn span(from: int, to: int) -> int {
    if to >= from {
        to - from
    } else {
        0
    }
}

impl TokenBucket {
    /// What the bucket can hold.
    pub open spec fn full(self) -> int {
        self.capacity * TOKEN
    }

    /// A bucket holds at most what it can.
    pub open spec fn wf(self) -> bool {
        self.tokens <= self.full()
    }

    /// What the bucket holds at time `now`, before anything is taken out.
    pub open spec fn level(self, now: int) -> int {
        let filled = self.tokens + span(self.last_refill as int, now) * self.rate;
        if filled <= self.full() {
            filled
        } else {
            self.full()
        }
    }

    /// Whether a request at time `now` gets a token.
    pub open spec fn grants(self, now: int) -> bool {
        self.level(now) >= TOKEN
    }

    /// The bucket after a request at time `now`.
    pub open spec fn after(self, now: u64) -> TokenBucket {
        TokenBucket {
            tokens: (if self.grants(now as int) {
                self.level(now as int) - TOKEN
            } else {
                self.level(now as int)
            }) as u64,
            last_refill: now,
            ..self
        }
    }

    /// A full bucket at time `now`.
    pub open spec fn fresh(rate: u32, capacity: u32, now: u64) -> TokenBucket {
        TokenBucket { tokens: (capacity * TOKEN) as u64, last_refill: now, rate, capacity }
    }

    /// A full bucket at time `now`.
    pub fn new_at(rate: u32, capacity: u32, now: u64) -> (r: TokenBucket)
        ensures
            r == TokenBucket::fresh(rate, capacity, now),
            r.wf(),
    {
        TokenBucket { tokens: capacity as u64 * TOKEN, last_refill: now, rate, capacity }
    }

    /// Refills the bucket up to time `now` and takes one token out, if there is one.
    pub fn try_acquire_at(&mut self, now: u64) -> (r: bool)
        ensures
            r == old(self).grants(now as int),
            *final(self) == old(self).after(now),
            final(self).wf(),
    {
        let elapsed: u64 = if now >= self.last_refill {
            now - self.last_refill
        } else {
            0
        };
        assert(elapsed * self.rate <= 0xffff_ffff_ffff_ffff * 0xffff_ffff) by (nonlinear_arith)
            requires
                elapsed <= 0xffff_ffff_ffff_ffff,
                self.rate <= 0xffff_ffff,
        ;
        let filled: u128 = self.tokens as u128 + elapsed as u128 * self.rate as u128;
        let full: u128 = (self.capacity as u64 * TOKEN) as u128;
        self.last_refill = now;
        self.tokens = if filled <= full {
            filled as u64
        } else {
            full as u64
        };
        if self.tokens >= TOKEN {
            self.tokens = self.tokens - TOKEN;
            true
        } else {
            false
        }
    }
}

/// Rate limiter for HTTP requests, with one bucket for each client address.
pub struct HttpRateLimiter {
    pub buckets: KeyedMap<TokenBucket>,
    pub rate_per_sec: u32,
    pub burst: u32,
    pub origin: Instant,
}

/// The bucket of `ip` at time `now`: the one that is there, else a full one.
pub open spec fn bucket_of(
    buckets: Map<Seq<char>, TokenBucket>,
    rate: u32,
    burst: u32,
    ip: Seq<char>,
    now: u64,
) -> TokenBucket {
    if buckets.contains_key(ip) {
        buckets[ip]
    } else {
        TokenBucket::fresh(rate, burst, now)
    }
}

/// Whether a bucket has gone unused for too long at time `now`.
pub open spec fn stale(b: TokenBucket, now: u64) -> bool {
    b.last_refill + STALE_AFTER <= now
}

/// Whether `after` holds the buckets of `before` that are not stale at time `now`, unchanged.
pub open spec fn swept(
    before: Map<Seq<char>, TokenBucket>,
    after: Map<Seq<char>, TokenBucket>,
    now: u64,
) -> bool {
    &&& forall|ip: Seq<char>| #[trigger]
        after.contains_key(ip) <==> before.contains_key(ip) && !stale(before[ip], now)
    &&& forall|ip: Seq<char>| #[trigger] after.contains_key(ip) ==> after[ip] == before[ip]
}

impl HttpRateLimiter {
    /// Whether every bucket goes by the limiter's rate and burst and holds no more than it can.
    pub open spec fn wf(self) -> bool {
        forall|ip: Seq<char>| #[trigger]
            self.buckets@.contains_key(ip) ==> {
                let b = self.buckets@[ip];
                b.wf() && b.rate == self.rate_per_sec && b.capacity == self.burst
            }
    }

    /// A rate limiter for `rate_per_sec` requests per second, and up to `burst` at once.
    pub fn new(rate_per_sec: u32, burst: u32) -> (r: HttpRateLimiter)
        ensures
            r.buckets@ == Map::<Seq<char>, TokenBucket>::empty(),
            r.rate_per_sec == rate_per_sec,
            r.burst == burst,
            r.wf(),
    {
        HttpRateLimiter { buckets: KeyedMap::new(), rate_per_sec, burst, origin: Instant::now() }
    }

    /// No rate limiting.
    pub fn unlimited() -> (r: HttpRateLimiter)
        ensures
            r.buckets@ == Map::<Seq<char>, TokenBucket>::empty(),
            r.rate_per_sec == u32::MAX,
            r.burst == u32::MAX,
            r.wf(),
    {
        HttpRateLimiter::new(u32::MAX, u32::MAX)
    }

    /// Whether a request from `ip` is allowed at time `now`, in nanoseconds. A limiter of the
    /// highest rate allows every request.
    pub fn allow_at(&mut self, ip: &str, now: u64) -> (r: bool)
        ensures
            final(self).rate_per_sec == old(self).rate_per_sec,
            final(self).burst == old(self).burst,
            final(self).origin == old(self).origin,
            old(self).rate_per_sec == u32::MAX ==> r && final(self).buckets@ == old(self).buckets@,
            old(self).rate_per_sec != u32::MAX ==> {
                let b = bucket_of(
                    old(self).buckets@,
                    old(self).rate_per_sec,
                    old(self).burst,
                    ip@,
                    now,
                );
                r == b.grants(now as int) && final(self).buckets@ == old(self).buckets@.insert(
                    ip@,
                    b.after(now),
                )
            },
            old(self).wf() ==> final(self).wf(),
    {
        if self.rate_per_sec == u32::MAX {
            return true;
        }
        let mut bucket = match self.buckets.get(ip) {
            Some(b) => *b,
            None => TokenBucket::new_at(self.rate_per_sec, self.burst, now),
        };
        let granted = bucket.try_acquire_at(now);
        self.buckets.insert(ip.to_owned(), bucket);
        granted
    }

    /// Whether a request from `ip` is allowed now.
    pub fn allow(&mut self, ip: &str) -> (r: bool)
        ensures
            final(self).rate_per_sec == old(self).rate_per_sec,
            final(self).burst == old(self).burst,
            final(self).origin == old(self).origin,
            old(self).rate_per_sec == u32::MAX ==> r && final(self).buckets@ == old(self).buckets@,
            old(self).rate_per_sec != u32::MAX ==> exists|t: Instant|
                {
                    let now = #[trigger] nanos_at(old(self).origin, t);
                    let b = bucket_of(
                        old(self).buckets@,
                        old(self).rate_per_sec,
                        old(self).burst,
                        ip@,
                        now,
                    );
                    r == b.grants(now as int) && final(self).buckets@ == old(self).buckets@.insert(
                        ip@,
                        b.after(now),
                    )
                },
            old(self).wf() ==> final(self).wf(),
    {
        let now: u64 = nanos_since(&self.origin);
        let r = self.allow_at(ip, now);
        proof {
            let t = choose|t: Instant| now == #[trigger] nanos_at(old(self).origin, t);
            assert(now == nanos_at(old(self).origin, t));
        }
        r
    }

    /// Drops the buckets that are stale at time `now`, in nanoseconds.
    pub fn evict_stale_at(&mut self, now: u64)
        ensures
            final(self).rate_per_sec == old(self).rate_per_sec,
            final(self).burst == old(self).burst,
            final(self).origin == old(self).origin,
            swept(old(self).buckets@, final(self).buckets@, now),
            old(self).wf() ==> final(self).wf(),
    {
        let n: usize = self.buckets.len();
        let ghost names = self.buckets.names();
        let ghost was = self.buckets@;
        let mut kept: KeyedMap<TokenBucket> = KeyedMap::new();
        let mut i: usize = 0;
        while i < n
            invariant
                i <= n,
                n == names.len(),
                names == self.buckets.names(),
                names.no_duplicates(),
                was == self.buckets@,
                forall|ip: Seq<char>| #[trigger]
                    kept@.contains_key(ip) ==> was.contains_key(ip) && kept@[ip] == was[ip]
                        && !stale(was[ip], now),
                forall|j: int|
                    0 <= j < i && !stale(was[#[trigger] names[j]], now) ==> kept@.contains_key(
                        names[j],
                    ),
            decreases n - i,
        {
            let b: TokenBucket = *self.buckets.value_at(i);
            let idle = now >= b.last_refill && now - b.last_refill >= STALE_AFTER;
            if !idle {
                let name = self.buckets.name_at(i).clone();
                let ghost before = kept@;
                kept.insert(name, b);
                assert forall|j: int|
                    0 <= j < i + 1 && !stale(
                        was[#[trigger] names[j]],
                        now,
                    ) implies kept@.contains_key(names[j]) by {
                    if j < i {
                        assert(before.contains_key(names[j]));
                    }
                }
            }
            i = i + 1;
        }
        assert forall|ip: Seq<char>| #[trigger] kept@.contains_key(ip) <==> was.contains_key(ip)
            && !stale(was[ip], now) by {
            if was.contains_key(ip) && !stale(was[ip], now) {
                assert(names.contains(ip));
                let j = choose|j: int| 0 <= j < names.len() && names[j] == ip;
                assert(kept@.contains_key(names[j]));
            }
        }
        self.buckets = kept;
    }

    /// Drops the buckets that are stale now.
    pub fn evict_stale(&mut self)
        ensures
            final(self).rate_per_sec == old(self).rate_per_sec,
            final(self).burst == old(self).burst,
            final(self).origin == old(self).origin,
            exists|t: Instant|
                swept(
                    old(self).buckets@,
                    final(self).buckets@,
                    #[trigger] nanos_at(old(self).origin, t),
                ),
            old(self).wf() ==> final(self).wf(),
    {
        let now: u64 = nanos_since(&self.origin);
        self.evict_stale_at(now);
        proof {
            let t = choose|t: Instant| now == #[trigger] nanos_at(old(self).origin, t);
            assert(now == nanos_at(old(self).origin, t));
        }
    }
}

// ---------------------------------------------------------------------------
// Laws

/// The bucket after requests at the times `times`.
pub open spec fn after_all(b: TokenBucket, times: Seq<u64>) -> TokenBucket
    decreases times.len(),
{
    if times.len() == 0 {
        b
    } else {
        after_all(b, times.drop_last()).after(times.last())
    }
}

/// How many of the requests at the times `times` are granted.
pub open spec fn granted(b: TokenBucket, times: Seq<u64>) -> nat
    decreases times.len(),
{
    if times.len() == 0 {
        0
    } else {
        let before = after_all(b, times.drop_last());
        granted(b, times.drop_last()) + (if before.grants(times.last() as int) {
            1nat
        } else {
            0
        })
    }
}

/// Whether times never run back, from `start` on.
pub open spec fn in_order(start: u64, times: Seq<u64>) -> bool {
    &&& forall|i: int| 0 <= i < times.len() ==> start <= #[trigger] times[i]
    &&& forall|i: int, j: int| 0 <= i <= j < times.len() ==> times[i] <= times[j]
}

/// Over any stretch of time no more requests are granted than the burst and what the rate brings
/// in that time.
pub proof fn grants_are_bounded(b: TokenBucket, times: Seq<u64>)
    requires
        b.wf(),
        in_order(b.last_refill, times),
    ensures
        times.len() > 0 ==> granted(b, times) * TOKEN <= b.full() + b.rate * (times.last()
            - b.last_refill),
{
    lemma_granted_balance(b, times);
    lemma_after_all(b, times);
    if times.len() > 0 {
        assert(after_all(b, times).tokens >= 0);
    }
}

proof fn lemma_after_all(b: TokenBucket, times: Seq<u64>)
    requires
        b.wf(),
    ensures
        ({
            let c = after_all(b, times);
            &&& c.rate == b.rate
            &&& c.capacity == b.capacity
            &&& c.wf()
            &&& c.last_refill == if times.len() == 0 {
                b.last_refill
            } else {
                times.last()
            }
        }),
    decreases times.len(),
{
    if times.len() > 0 {
        let before = after_all(b, times.drop_last());
        lemma_after_all(b, times.drop_last());
        lemma_level_bounds(before, times.last() as int);
    }
}

proof fn lemma_level_bounds(b: TokenBucket, now: int)
    requires
        b.wf(),
    ensures
        b.tokens <= b.level(now) <= b.full(),
        b.level(now) <= b.tokens + span(b.last_refill as int, now) * b.rate,
        b.full() <= u64::MAX,
{
    assert(span(b.last_refill as int, now) * b.rate >= 0) by (nonlinear_arith)
        requires
            span(b.last_refill as int, now) >= 0,
            b.rate >= 0,
    ;
}

proof fn lemma_granted_balance(b: TokenBucket, times: Seq<u64>)
    requires
        b.wf(),
        in_order(b.last_refill, times),
    ensures
        granted(b, times) * TOKEN + after_all(b, times).tokens <= b.tokens + b.rate * (after_all(
            b,
            times,
        ).last_refill - b.last_refill),
    decreases times.len(),
{
    lemma_after_all(b, times);
    if times.len() == 0 {
        assert(b.rate * 0 == 0);
    } else {
        let init = times.drop_last();
        assert forall|i: int, j: int| 0 <= i <= j < init.len() implies init[i] <= init[j] by {
            assert(times[i] <= times[j]);
        }
        assert forall|i: int| 0 <= i < init.len() implies b.last_refill <= #[trigger] init[i] by {
            assert(b.last_refill <= times[i]);
        }
        lemma_granted_balance(b, init);
        lemma_after_all(b, init);
        let before = after_all(b, init);
        let now = times.last();
        assert(before.last_refill <= now) by {
            if init.len() > 0 {
                assert(times[init.len() - 1] <= times[times.len() - 1]);
            } else {
                assert(b.last_refill <= times[0]);
            }
        }
        lemma_level_bounds(before, now as int);
        let rate = b.rate as int;
        let t0 = b.last_refill as int;
        let t1 = before.last_refill as int;
        let t2 = now as int;
        assert(rate * (t1 - t0) + (t2 - t1) * rate == rate * (t2 - t0)) by (nonlinear_arith);
        let g0 = granted(b, init);
        let g1 = granted(b, times);
        assert(g1 == g0 || g1 == g0 + 1);
        assert((g0 + 1) * TOKEN == g0 * TOKEN + TOKEN) by (nonlinear_arith);
    }
}

proof fn lemma_granted_from_first(b: TokenBucket, c: TokenBucket, times: Seq<u64>)
    requires
        times.len() > 0,
        b.after(times[0]) == c.after(times[0]),
        b.grants(times[0] as int) == c.grants(times[0] as int),
    ensures
        after_all(b, times) == after_all(c, times),
        granted(b, times) == granted(c, times),
    decreases times.len(),
{
    let init = times.drop_last();
    if init.len() == 0 {
        assert(times.last() == times[0]);
        assert(after_all(b, init) == b && after_all(c, init) == c);
        assert(granted(b, init) == 0 && granted(c, init) == 0);
    } else {
        assert(init[0] == times[0]);
        lemma_granted_from_first(b, c, init);
    }
}

/// From the first of several requests to the last no more are granted than the burst and what the
/// rate brings in that time, whatever the bucket held before.
pub proof fn grants_in_a_span_are_bounded(b: TokenBucket, times: Seq<u64>)
    requires
        b.wf(),
        times.len() > 0,
        in_order(times[0], times),
    ensures
        granted(b, times) * TOKEN <= b.full() + b.rate * (times.last() - times[0]),
{
    let first = times[0];
    lemma_level_bounds(b, first as int);
    let c = TokenBucket { tokens: b.level(first as int) as u64, last_refill: first, ..b };
    assert(span(first as int, first as int) * c.rate == 0) by (nonlinear_arith)
        requires
            span(first as int, first as int) == 0,
    ;
    assert(c.level(first as int) == b.level(first as int));
    lemma_granted_from_first(b, c, times);
    grants_are_bounded(c, times);
}

proof fn lemma_granted_joins(b: TokenBucket, past: Seq<u64>, recent: Seq<u64>)
    ensures
        after_all(b, past + recent) == after_all(after_all(b, past), recent),
        granted(b, past + recent) == granted(b, past) + granted(after_all(b, past), recent),
    decreases recent.len(),
{
    if recent.len() == 0 {
        assert(past + recent =~= past);
    } else {
        let init = recent.drop_last();
        lemma_granted_joins(b, past, init);
        assert((past + recent).drop_last() =~= past + init);
    }
}

/// From a full bucket as many requests are granted as the burst allows, whenever they come.
pub proof fn burst_is_granted(rate: u32, capacity: u32, start: u64, times: Seq<u64>)
    requires
        times.len() <= capacity,
    ensures
        granted(TokenBucket::fresh(rate, capacity, start), times) == times.len(),
{
    lemma_burst(rate, capacity, start, times);
}

proof fn lemma_burst(rate: u32, capacity: u32, start: u64, times: Seq<u64>)
    requires
        times.len() <= capacity,
    ensures
        granted(TokenBucket::fresh(rate, capacity, start), times) == times.len(),
        after_all(TokenBucket::fresh(rate, capacity, start), times).tokens >= (capacity
            - times.len()) * TOKEN,
    decreases times.len(),
{
    let b = TokenBucket::fresh(rate, capacity, start);
    if times.len() > 0 {
        let init = times.drop_last();
        lemma_burst(rate, capacity, start, init);
        lemma_after_all(b, init);
        let before = after_all(b, init);
        lemma_level_bounds(before, times.last() as int);
        let left = capacity - init.len();
        assert(left * TOKEN >= TOKEN && left * TOKEN - TOKEN == (left - 1) * TOKEN)
            by (nonlinear_arith)
            requires
                left >= 1,
        ;
    }
}

/// The buckets of a limiter after requests, each from an address at a time, starting without
/// buckets.
pub open spec fn buckets_after(rate: u32, burst: u32, reqs: Seq<(Seq<char>, u64)>) -> Map<
    Seq<char>,
    TokenBucket,
>
    decreases reqs.len(),
{
    if reqs.len() == 0 {
        Map::empty()
    } else {
        let before = buckets_after(rate, burst, reqs.drop_last());
        let (ip, now) = reqs.last();
        before.insert(ip, bucket_of(before, rate, burst, ip, now).after(now))
    }
}

/// How many of the requests from `ip` are granted.
pub open spec fn granted_to(rate: u32, burst: u32, reqs: Seq<(Seq<char>, u64)>, ip: Seq<char>) -> nat
    decreases reqs.len(),
{
    if reqs.len() == 0 {
        0
    } else {
        let before = buckets_after(rate, burst, reqs.drop_last());
        let (from, now) = reqs.last();
        granted_to(rate, burst, reqs.drop_last(), ip) + (if from == ip && bucket_of(
            before,
            rate,
            burst,
            from,
            now,
        ).grants(now as int) {
            1nat
        } else {
            0
        })
    }
}

/// The times of the requests from `ip`, in order.
pub open spec fn times_from(reqs: Seq<(Seq<char>, u64)>, ip: Seq<char>) -> Seq<u64>
    decreases reqs.len(),
{
    if reqs.len() == 0 {
        Seq::empty()
    } else if reqs.last().0 == ip {
        times_from(reqs.drop_last(), ip).push(reqs.last().1)
    } else {
        times_from(reqs.drop_last(), ip)
    }
}

proof fn lemma_address_alone(rate: u32, burst: u32, reqs: Seq<(Seq<char>, u64)>, ip: Seq<char>)
    ensures
        ({
            let times = times_from(reqs, ip);
            let buckets = buckets_after(rate, burst, reqs);
            if times.len() == 0 {
                !buckets.contains_key(ip) && granted_to(rate, burst, reqs, ip) == 0
            } else {
                let b = TokenBucket::fresh(rate, burst, times[0]);
                &&& buckets.contains_key(ip)
                &&& buckets[ip] == after_all(b, times)
                &&& granted_to(rate, burst, reqs, ip) == granted(b, times)
            }
        }),
    decreases reqs.len(),
{
    if reqs.len() > 0 {
        let init = reqs.drop_last();
        lemma_address_alone(rate, burst, init, ip);
        let (from, now) = reqs.last();
        let before = times_from(init, ip);
        if from == ip {
            let times = times_from(reqs, ip);
            assert(times.drop_last() =~= before);
            if before.len() == 0 {
                let b = TokenBucket::fresh(rate, burst, now);
                assert(after_all(b, before) == b);
                assert(granted(b, before) == 0);
            } else {
                assert(times[0] == before[0]);
            }
        }
    }
}

/// Every address is limited by itself: whatever others send, no more of its requests are granted
/// than the burst and what the rate brings from its first request to its last.
pub proof fn every_address_is_limited(
    rate: u32,
    burst: u32,
    reqs: Seq<(Seq<char>, u64)>,
    ip: Seq<char>,
)
    requires
        times_from(reqs, ip).len() > 0,
        in_order(times_from(reqs, ip)[0], times_from(reqs, ip)),
    ensures
        granted_to(rate, burst, reqs, ip) * TOKEN <= burst * TOKEN + rate * (times_from(
            reqs,
            ip,
        ).last() - times_from(reqs, ip)[0]),
{
    let times = times_from(reqs, ip);
    let b = TokenBucket::fresh(rate, burst, times[0]);
    lemma_address_alone(rate, burst, reqs, ip);
    assert(burst * TOKEN <= u64::MAX);
    grants_are_bounded(b, times);
}

proof fn lemma_times_join(past: Seq<(Seq<char>, u64)>, recent: Seq<(Seq<char>, u64)>, ip: Seq<char>)
    ensures
        times_from(past + recent, ip) == times_from(past, ip) + times_from(recent, ip),
    decreases recent.len(),
{
    if recent.len() == 0 {
        assert(past + recent =~= past);
        assert(times_from(past, ip) + times_from(recent, ip) =~= times_from(past, ip));
    } else {
        let init = recent.drop_last();
        lemma_times_join(past, init, ip);
        assert((past + recent).drop_last() =~= past + init);
        if recent.last().0 == ip {
            assert((times_from(past, ip) + times_from(init, ip)).push(recent.last().1) =~= times_from(
                past,
                ip,
            ) + times_from(recent, ip));
        }
    }
}

/// Every address is limited over any span of time: whatever came before and whatever others send,
/// no more of its requests within the span are granted than the burst and what the rate brings in
/// it.
pub proof fn every_span_is_limited(
    rate: u32,
    burst: u32,
    past: Seq<(Seq<char>, u64)>,
    recent: Seq<(Seq<char>, u64)>,
    ip: Seq<char>,
)
    requires
        times_from(recent, ip).len() > 0,
        in_order(times_from(recent, ip)[0], times_from(recent, ip)),
    ensures
        (granted_to(rate, burst, past + recent, ip) - granted_to(rate, burst, past, ip)) * TOKEN
            <= burst * TOKEN + rate * (times_from(recent, ip).last() - times_from(recent, ip)[0]),
{
    let before = times_from(past, ip);
    let times = times_from(recent, ip);
    lemma_times_join(past, recent, ip);
    lemma_address_alone(rate, burst, past, ip);
    lemma_address_alone(rate, burst, past + recent, ip);
    assert(burst * TOKEN <= u64::MAX);
    if before.len() == 0 {
        assert(before + times =~= times);
        grants_in_a_span_are_bounded(TokenBucket::fresh(rate, burst, times[0]), times);
    } else {
        let b = TokenBucket::fresh(rate, burst, before[0]);
        assert((before + times)[0] == before[0]);
        lemma_granted_joins(b, before, times);
        lemma_after_all(b, before);
        grants_in_a_span_are_bounded(after_all(b, before), times);
    }
}

/// A request from one address leaves the buckets of all others as they were.
pub proof fn addresses_are_independent(
    buckets: Map<Seq<char>, TokenBucket>,
    rate: u32,
    burst: u32,
    ip: Seq<char>,
    other: Seq<char>,
    now: u64,
    later: u64,
)
    requires
        ip != other,
    ensures
        bucket_of(
            buckets.insert(ip, bucket_of(buckets, rate, burst, ip, now).after(now)),
            rate,
            burst,
            other,
            later,
        ) == bucket_of(buckets, rate, burst, other, later),
{
}

proof fn lemma_same_time(b: TokenBucket, now: u64, n: nat)
    requires
        b.wf(),
        b.last_refill == now,
        n * TOKEN <= b.tokens,
    ensures
        granted(b, Seq::new(n, |i: int| now)) == n,
        after_all(b, Seq::new(n, |i: int| now)) == (TokenBucket {
            tokens: (b.tokens - n * TOKEN) as u64,
            ..b
        }),
    decreases n,
{
    let times = Seq::new(n, |i: int| now);
    if n > 0 {
        let m = (n - 1) as nat;
        assert(times.drop_last() =~= Seq::new(m, |i: int| now));
        assert(m * TOKEN + TOKEN == n * TOKEN) by (nonlinear_arith)
            requires
                m == n - 1,
        ;
        lemma_same_time(b, now, m);
        let before = after_all(b, times.drop_last());
        lemma_after_all(b, times.drop_last());
        assert(span(now as int, now as int) * before.rate == 0) by (nonlinear_arith)
            requires
                span(now as int, now as int) == 0,
        ;
    }
}

/// Waiting brings tokens back at the full rate, up to the capacity: as many requests are granted at
/// one time as there are whole tokens, counting what was left and what the time since has brought.
pub proof fn waiting_refills(b: TokenBucket, now: u64, n: nat)
    requires
        b.wf(),
        b.last_refill <= now,
        n <= b.capacity,
        n * TOKEN <= b.tokens + b.rate * (now - b.last_refill),
    ensures
        granted(b, Seq::new(n, |i: int| now)) == n,
{
    if n == 0 {
        assert(Seq::new(n, |i: int| now) =~= Seq::<u64>::empty());
    } else {
        let times = Seq::new(n, |i: int| now);
        let elapsed = (now - b.last_refill) as int;
        let rate = b.rate as int;
        assert(elapsed * rate == rate * elapsed) by (nonlinear_arith);
        assert(n * TOKEN <= b.capacity * TOKEN) by (nonlinear_arith)
            requires
                n <= b.capacity,
        ;
        lemma_level_bounds(b, now as int);
        let c = TokenBucket { tokens: b.level(now as int) as u64, last_refill: now, ..b };
        assert(span(now as int, now as int) * c.rate == 0) by (nonlinear_arith)
            requires
                span(now as int, now as int) == 0,
        ;
        assert(c.level(now as int) == b.level(now as int));
        lemma_granted_from_first(b, c, times);
        lemma_same_time(c, now, n);
    }
}

/// A bucket that has gone unused for as long as it takes to fill is as good as new: it grants what a
/// fresh one does, at whatever times.
pub proof fn rest_restores_the_burst(b: TokenBucket, times: Seq<u64>)
    requires
        b.wf(),
        times.len() > 0,
        b.last_refill <= times[0],
        b.capacity * TOKEN <= b.tokens + b.rate * (times[0] - b.last_refill),
    ensures
        granted(b, times) == granted(
            TokenBucket::fresh(b.rate, b.capacity, times[0]),
            times,
        ),
{
    let first = times[0];
    let fresh = TokenBucket::fresh(b.rate, b.capacity, first);
    let elapsed = (first - b.last_refill) as int;
    let rate = b.rate as int;
    assert(elapsed * rate == rate * elapsed) by (nonlinear_arith);
    lemma_level_bounds(b, first as int);
    assert(fresh.tokens == b.full());
    lemma_level_bounds(fresh, first as int);
    assert(b.level(first as int) == fresh.level(first as int));
    lemma_granted_from_first(b, fresh, times);
}

/// Requests that come too early are refused: one more than there are whole tokens at a time is not
/// granted.
pub proof fn empty_bucket_refuses(b: TokenBucket, now: u64)
    requires
        b.wf(),
        b.last_refill <= now,
    ensures
        b.grants(now as int) <==> b.capacity >= 1 && b.tokens + b.rate * (now - b.last_refill)
            >= 1_000_000_000,
{
    let elapsed = (now - b.last_refill) as int;
    let rate = b.rate as int;
    assert(elapsed * rate == rate * elapsed) by (nonlinear_arith);
}

/// A bucket is dropped after five minutes without a request, and not before.
pub proof fn buckets_stay_five_minutes(
    before: Map<Seq<char>, TokenBucket>,
    after: Map<Seq<char>, TokenBucket>,
    now: u64,
    ip: Seq<char>,
)
    requires
        swept(before, after, now),
        before.contains_key(ip),
    ensures
        after.contains_key(ip) <==> now - before[ip].last_refill < 300 * 1_000_000_000,
        after.contains_key(ip) ==> after[ip] == before[ip],
{
}

/// Nothing is forgotten of an address by its own requests: after each the bucket keeps its rate and
/// capacity, and counts from then on.
pub proof fn requests_keep_the_limits(b: TokenBucket, now: u64)
    requires
        b.wf(),
    ensures
        b.after(now).rate == b.rate,
        b.after(now).capacity == b.capacity,
        b.after(now).last_refill == now,
        b.after(now).wf(),
        b.last_refill <= now && b.grants(now as int) ==> b.after(now).tokens + TOKEN <= b.tokens
            + b.rate * (now - b.last_refill),
        b.last_refill <= now && !b.grants(now as int) ==> b.after(now).tokens >= b.tokens,
{
    lemma_level_bounds(b, now as int);
    if b.last_refill <= now {
        let elapsed = (now - b.last_refill) as int;
        let rate = b.rate as int;
        assert(elapsed * rate == rate * elapsed) by (nonlinear_arith);
    }
}

} // verus!
