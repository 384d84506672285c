//! Shadowing of production traffic.
//!
//! Records requests and their responses in a ring buffer of bounded size, for replay, load tests
//! and debugging. Recording is off until it is enabled, and can be limited to a sample of paths.

use std::collections::VecDeque;
use std::time::SystemTime;
use vstd::prelude::*;

use crate::clock::{millis_at, unix_millis};
use crate::ratio::Fraction;
use crate::text::{
    begins, char_count, clone_opt, opt_str_view, opt_view, starts_with, str_eq, take_chars,
};

verus! {

/// How many characters of a body are kept.
pub const BODY_LIMIT: usize = 4096;

/// One shadowed request/response pair.
#[derive(Debug, Clone)]
pub struct ShadowedRequest {
    pub timestamp_ms: u64,
    pub method: String,
    pub path: String,
    pub body: String,
    pub response_status: u16,
    pub response_body: String,
    pub latency_ms: u64,
    pub tenant_id: Option<String>,
}

/// The first characters of a body.
pub open spec fn clipped(s: Seq<char>) -> Seq<char> {
    if s.len() <= BODY_LIMIT {
        s
    } else {
        s.take(BODY_LIMIT as int)
    }
}

/// Whether `q` records the given request and response at time `timestamp_ms`.
pub open spec fn shadows(
    q: ShadowedRequest,
    timestamp_ms: u64,
    method: Seq<char>,
    path: Seq<char>,
    body: Seq<char>,
    response_status: u16,
    response_body: Seq<char>,
    latency_ms: u64,
    tenant_id: Option<Seq<char>>,
) -> bool {
    &&& q.timestamp_ms == timestamp_ms
    &&& q.method@ == method
    &&& q.path@ == path
    &&& q.body@ == clipped(body)
    &&& q.response_status == response_status
    &&& q.response_body@ == clipped(response_body)
    &&& q.latency_ms == latency_ms
    &&& opt_view(q.tenant_id) == tenant_id
}

/// One step of the hash: mixes the byte `b` into `h`.
pub open spec fn hash_step(h: u64, b: u8) -> u64 {
    let x = h ^ (b as u64);
    let m = ((x as nat * 0x517cc1b727220a95) % 0x1_0000_0000_0000_0000) as u64;
    (m << 31) | (m >> 33)
}

/// The hash of a byte string.
pub open spec fn path_hash(data: Seq<u8>) -> u64
    decreases data.len(),
{
    if data.len() == 0 {
        0x9e3779b97f4a7c15
    } else {
        hash_step(path_hash(data.drop_last()), data.last())
    }
}

/// Whether requests to a path with hash `h` are in the sample of rate `rate`.
pub open spec fn in_sample(h: u64, rate: Fraction) -> bool {
    rate.ppm >= 1_000_000 || h * 1_000_000 <= rate.ppm * 0x1_0000_0000_0000_0000
}

/// The buffer after one more entry: it holds the latest ones, as many as it is meant for.
pub open spec fn pushed<A>(buffer: Seq<A>, capacity: int, q: A) -> Seq<A> {
    let all = buffer.push(q);
    if all.len() <= capacity {
        all
    } else {
        all.skip(all.len() - capacity)
    }
}

/// Whether the recorder `after` is `before` once it has recorded the given request and response at
/// time `timestamp_ms`: it has one more entry, and has counted it.
pub open spec fn took_in(
    before: TrafficShadow,
    after: TrafficShadow,
    timestamp_ms: u64,
    method: Seq<char>,
    path: Seq<char>,
    body: Seq<char>,
    response_status: u16,
    response_body: Seq<char>,
    latency_ms: u64,
    tenant_id: Option<Seq<char>>,
) -> bool {
    &&& exists|q: ShadowedRequest|
        {
            &&& after.buffer@ == #[trigger] pushed(before.buffer@, before.capacity as int, q)
            &&& shadows(
                q,
                timestamp_ms,
                method,
                path,
                body,
                response_status,
                response_body,
                latency_ms,
                tenant_id,
            )
        }
    &&& after.total_recorded == (before.total_recorded + 1) % 0x1_0000_0000_0000_0000
    &&& after.capacity == before.capacity
    &&& after.enabled == before.enabled
    &&& after.sample_rate == before.sample_rate
}

/// Recorder of traffic with a bounded ring buffer.
pub struct TrafficShadow {
    pub buffer: VecDeque<ShadowedRequest>,
    pub capacity: usize,
    pub enabled: bool,
    pub total_recorded: u64,
    /// The share of paths that is recorded.
    pub sample_rate: Fraction,
}

/// The hash of a byte string.
pub fn simple_hash(data: &[u8]) -> (r: u64)
    ensures
        r == path_hash(data@),
{
    let mut h: u64 = 0x9e3779b97f4a7c15;
    let mut i: usize = 0;
    assert(data@.take(0) =~= Seq::<u8>::empty());
    while i < data.len()
        invariant
            i <= data@.len(),
            h == path_hash(data@.take(i as int)),
        decreases data@.len() - i,
    {
        assert(data@.take(i + 1).drop_last() =~= data@.take(i as int));
        let x: u64 = h ^ (data[i] as u64);
        let m: u64 = x.wrapping_mul(0x517cc1b727220a95);
        h = (m << 31) | (m >> 33);
        i = i + 1;
    }
    assert(data@.take(data@.len() as int) =~= data@);
    h
}

/// A copy of an entry.
fn copy_request(q: &ShadowedRequest) -> (r: ShadowedRequest)
    ensures
        r == *q,
{
    ShadowedRequest {
        timestamp_ms: q.timestamp_ms,
        method: q.method.clone(),
        path: q.path.clone(),
        body: q.body.clone(),
        response_status: q.response_status,
        response_body: q.response_body.clone(),
        latency_ms: q.latency_ms,
        tenant_id: clone_opt(&q.tenant_id),
    }
}

/// The first characters of a body.
fn clip(s: &str) -> (r: String)
    ensures
        r@ == clipped(s@),
{
    if char_count(s) <= BODY_LIMIT {
        s.to_owned()
    } else {
        take_chars(s, BODY_LIMIT).to_owned()
    }
}

/// The entries among `buffer` that `keep` marks, in order.
pub open spec fn kept<A>(buffer: Seq<A>, keep: spec_fn(A) -> bool) -> Seq<A>
    decreases buffer.len(),
{
    if buffer.len() == 0 {
        Seq::empty()
    } else if keep(buffer.last()) {
        kept(buffer.drop_last(), keep).push(buffer.last())
    } else {
        kept(buffer.drop_last(), keep)
    }
}

/// The entries whose path begins with `prefix`.
pub open spec fn on_path(prefix: Seq<char>) -> spec_fn(ShadowedRequest) -> bool {
    |q: ShadowedRequest| begins(q.path@, prefix)
}

/// The entries of tenant `id`.
pub open spec fn of_tenant(id: Seq<char>) -> spec_fn(ShadowedRequest) -> bool {
    |q: ShadowedRequest| opt_view(q.tenant_id) == Some(id)
}

/// The entries whose response is an error.
pub open spec fn failed() -> spec_fn(ShadowedRequest) -> bool {
    |q: ShadowedRequest| q.response_status >= 400
}

impl TrafficShadow {
    /// A recorder of up to `capacity` entries, not enabled yet, that samples every path.
    pub fn new(capacity: usize) -> (r: TrafficShadow)
        ensures
            r.buffer@ == Seq::<ShadowedRequest>::empty(),
            r.capacity == capacity,
            !r.enabled,
            r.total_recorded == 0,
            r.sample_rate.ppm == 1_000_000,
    {
        TrafficShadow {
            buffer: VecDeque::new(),
            capacity,
            enabled: false,
            total_recorded: 0,
            sample_rate: Fraction { ppm: 1_000_000 },
        }
    }

    /// The same recorder with another sample rate, at most one.
    pub fn with_sample_rate(self, rate: Fraction) -> (r: TrafficShadow)
        ensures
            r == (TrafficShadow {
                sample_rate: Fraction {
                    ppm: if rate.ppm <= 1_000_000 {
                        rate.ppm
                    } else {
                        1_000_000
                    },
                },
                ..self
            }),
    {
        let ppm: u32 = if rate.ppm <= 1_000_000 {
            rate.ppm
        } else {
            1_000_000
        };
        TrafficShadow { sample_rate: Fraction { ppm }, ..self }
    }

    /// Enables or disables recording.
    pub fn set_enabled(&mut self, enabled: bool)
        ensures
            *final(self) == (TrafficShadow { enabled, ..*old(self) }),
    {
        self.enabled = enabled;
    }

    /// Whether recording is enabled.
    pub fn is_enabled(&self) -> (r: bool)
        ensures
            r == self.enabled,
    {
        self.enabled
    }

    /// Whether a request to `path` would be recorded.
    pub open spec fn records(self, path: Seq<char>) -> bool {
        self.enabled && in_sample(path_hash(vstd::utf8::encode_utf8(path)), self.sample_rate)
    }

    /// Records a request/response pair at time `timestamp_ms`, where recording is enabled and the
    /// path is in the sample.
    pub fn record_at(
        &mut self,
        timestamp_ms: u64,
        method: &str,
        path: &str,
        body: &str,
        response_status: u16,
        response_body: &str,
        latency_ms: u64,
        tenant_id: Option<&str>,
    )
        ensures
            !old(self).records(path@) ==> *final(self) == *old(self),
            old(self).records(path@) ==> took_in(
                *old(self),
                *final(self),
                timestamp_ms,
                method@,
                path@,
                body@,
                response_status,
                response_body@,
                latency_ms,
                opt_str_view(tenant_id),
            ),
    {
        if !self.enabled {
            return;
        }
        if self.sample_rate.ppm < 1_000_000 {
            let h: u64 = simple_hash(path.as_bytes());
            if h as u128 * 1_000_000 > self.sample_rate.ppm as u128 * 0x1_0000_0000_0000_0000 {
                return;
            }
        }
        let q = ShadowedRequest {
            timestamp_ms,
            method: method.to_owned(),
            path: path.to_owned(),
            body: clip(body),
            response_status,
            response_body: clip(response_body),
            latency_ms,
            tenant_id: match tenant_id {
                Some(t) => Some(t.to_owned()),
                None => None,
            },
        };
        let ghost before = self.buffer@;
        self.buffer.push_back(q);
        let ghost all = self.buffer@;
        assert(all.skip(0) =~= all);
        while self.buffer.len() > self.capacity
            invariant
                self.buffer@.len() <= all.len(),
                self.buffer@ == all.skip(all.len() - self.buffer@.len()),
                self.buffer@.len() == all.len() || self.buffer@.len() >= self.capacity,
                self.capacity == old(self).capacity,
                self.enabled == old(self).enabled,
                self.sample_rate == old(self).sample_rate,
                self.total_recorded == old(self).total_recorded,
            decreases self.buffer@.len(),
        {
            let ghost b = self.buffer@;
            let _ = self.buffer.pop_front();
            assert(self.buffer@ =~= b.skip(1));
            assert(self.buffer@ =~= all.skip(all.len() - self.buffer@.len()));
        }
        self.total_recorded = self.total_recorded.wrapping_add(1);
        assert(self.buffer@ == pushed(before, self.capacity as int, q));
    }

    /// Records a request/response pair now.
    pub fn record(
        &mut self,
        method: &str,
        path: &str,
        body: &str,
        response_status: u16,
        response_body: &str,
        latency_ms: u64,
        tenant_id: Option<&str>,
    )
        ensures
            !old(self).records(path@) ==> *final(self) == *old(self),
            old(self).records(path@) ==> exists|t: SystemTime|
                took_in(
                    *old(self),
                    *final(self),
                    #[trigger] millis_at(t),
                    method@,
                    path@,
                    body@,
                    response_status,
                    response_body@,
                    latency_ms,
                    opt_str_view(tenant_id),
                ),
    {
        let now: u64 = unix_millis();
        self.record_at(
            now,
            method,
            path,
            body,
            response_status,
            response_body,
            latency_ms,
            tenant_id,
        );
        proof {
            let t = choose|t: SystemTime| now == #[trigger] millis_at(t);
            assert(now == millis_at(t));
        }
    }

    /// The newest entries, newest first, up to `limit` of them.
    pub fn recent(&self, limit: usize) -> (r: Vec<ShadowedRequest>)
        ensures
            r@.len() == (if limit < self.buffer@.len() {
                limit as nat
            } else {
                self.buffer@.len()
            }),
            forall|i: int|
                0 <= i < r@.len() ==> #[trigger] r@[i] == self.buffer@[self.buffer@.len() - 1 - i],
    {
        let n: usize = self.buffer.len();
        let count: usize = if limit < n {
            limit
        } else {
            n
        };
        let mut out: Vec<ShadowedRequest> = Vec::new();
        let mut i: usize = 0;
        while i < count
            invariant
                i <= count <= n,
                n == self.buffer@.len(),
                out@.len() == i,
                forall|j: int| 0 <= j < i ==> #[trigger] out@[j] == self.buffer@[n - 1 - j],
            decreases count - i,
        {
            out.push(copy_request(&self.buffer[n - 1 - i]));
            i = i + 1;
        }
        out
    }

    /// All entries, oldest first.
    pub fn export_all(&self) -> (r: Vec<ShadowedRequest>)
        ensures
            r@ == self.buffer@,
    {
        let mut out: Vec<ShadowedRequest> = Vec::new();
        let mut i: usize = 0;
        while i < self.buffer.len()
            invariant
                i <= self.buffer@.len(),
                out@ == self.buffer@.take(i as int),
            decreases self.buffer@.len() - i,
        {
            out.push(copy_request(&self.buffer[i]));
            assert(self.buffer@.take(i + 1) =~= self.buffer@.take(i as int).push(
                self.buffer@[i as int],
            ));
            i = i + 1;
        }
        assert(self.buffer@.take(self.buffer@.len() as int) =~= self.buffer@);
        out
    }

    /// The entries whose path begins with `prefix`, oldest first.
    pub fn filter_by_path(&self, prefix: &str) -> (r: Vec<ShadowedRequest>)
        ensures
            r@ == kept(self.buffer@, on_path(prefix@)),
    {
        let mut out: Vec<ShadowedRequest> = Vec::new();
        let mut i: usize = 0;
        let ghost b = self.buffer@;
        assert(b.take(0) =~= Seq::<ShadowedRequest>::empty());
        while i < self.buffer.len()
            invariant
                i <= self.buffer@.len(),
                b == self.buffer@,
                out@ == kept(b.take(i as int), on_path(prefix@)),
            decreases self.buffer@.len() - i,
        {
            assert(b.take(i + 1).drop_last() =~= b.take(i as int));
            if starts_with(self.buffer[i].path.as_str(), prefix) {
                out.push(copy_request(&self.buffer[i]));
            }
            i = i + 1;
        }
        assert(b.take(b.len() as int) =~= b);
        out
    }

    /// The entries of a tenant, oldest first.
    pub fn filter_by_tenant(&self, tenant_id: &str) -> (r: Vec<ShadowedRequest>)
        ensures
            r@ == kept(self.buffer@, of_tenant(tenant_id@)),
    {
        let mut out: Vec<ShadowedRequest> = Vec::new();
        let mut i: usize = 0;
        let ghost b = self.buffer@;
        assert(b.take(0) =~= Seq::<ShadowedRequest>::empty());
        while i < self.buffer.len()
            invariant
                i <= self.buffer@.len(),
                b == self.buffer@,
                out@ == kept(b.take(i as int), of_tenant(tenant_id@)),
            decreases self.buffer@.len() - i,
        {
            assert(b.take(i + 1).drop_last() =~= b.take(i as int));
            let same = match &self.buffer[i].tenant_id {
                Some(t) => str_eq(t.as_str(), tenant_id),
                None => false,
            };
            if same {
                out.push(copy_request(&self.buffer[i]));
            }
            i = i + 1;
        }
        assert(b.take(b.len() as int) =~= b);
        out
    }

    /// The entries whose response is an error, oldest first.
    pub fn filter_errors(&self) -> (r: Vec<ShadowedRequest>)
        ensures
            r@ == kept(self.buffer@, failed()),
    {
        let mut out: Vec<ShadowedRequest> = Vec::new();
        let mut i: usize = 0;
        let ghost b = self.buffer@;
        assert(b.take(0) =~= Seq::<ShadowedRequest>::empty());
        while i < self.buffer.len()
            invariant
                i <= self.buffer@.len(),
                b == self.buffer@,
                out@ == kept(b.take(i as int), failed()),
            decreases self.buffer@.len() - i,
        {
            assert(b.take(i + 1).drop_last() =~= b.take(i as int));
            if self.buffer[i].response_status >= 400 {
                out.push(copy_request(&self.buffer[i]));
            }
            i = i + 1;
        }
        assert(b.take(b.len() as int) =~= b);
        out
    }

    /// How many pairs were recorded since the start, whether or not they are still buffered.
    pub fn total_recorded(&self) -> (r: u64)
        ensures
            r == self.total_recorded,
    {
        self.total_recorded
    }

    /// How many entries are buffered.
    pub fn buffer_size(&self) -> (r: usize)
        ensures
            r == self.buffer@.len(),
    {
        self.buffer.len()
    }

    /// How many entries the buffer is meant for.
    pub fn capacity(&self) -> (r: usize)
        ensures
            r == self.capacity,
    {
        self.capacity
    }

    /// Empties the buffer; the count of recorded pairs stays.
    pub fn clear(&mut self)
        ensures
            final(self).buffer@ == Seq::<ShadowedRequest>::empty(),
            final(self).capacity == old(self).capacity,
            final(self).enabled == old(self).enabled,
            final(self).total_recorded == old(self).total_recorded,
            final(self).sample_rate == old(self).sample_rate,
    {
        self.buffer.clear();
    }
}

// ---------------------------------------------------------------------------
// Laws

/// The buffer after several entries, starting from an empty one.
pub open spec fn pushed_all<A>(capacity: int, entries: Seq<A>) -> Seq<A>
    decreases entries.len(),
{
    if entries.len() == 0 {
        Seq::empty()
    } else {
        pushed(pushed_all(capacity, entries.drop_last()), capacity, entries.last())
    }
}

/// The buffer always holds the latest entries, as many as it is meant for, in order.
pub proof fn buffer_holds_the_latest<A>(capacity: int, entries: Seq<A>)
    requires
        capacity >= 0,
    ensures
        pushed_all(capacity, entries) == (if entries.len() <= capacity {
            entries
        } else {
            entries.skip(entries.len() - capacity)
        }),
    decreases entries.len(),
{
    if entries.len() > 0 {
        let init = entries.drop_last();
        buffer_holds_the_latest(capacity, init);
        assert(init.push(entries.last()) =~= entries);
        if init.len() > capacity {
            let all = pushed_all(capacity, init).push(entries.last());
            assert(all.skip(1) =~= entries.skip(entries.len() - capacity));
        }
    }
}

/// One more entry never leaves the buffer beyond its capacity, whatever it held, and is the last
/// in it where there is room for any.
pub proof fn capacity_is_kept<A>(buffer: Seq<A>, capacity: int, q: A)
    requires
        capacity >= 0,
    ensures
        pushed(buffer, capacity, q).len() <= capacity,
        capacity > 0 ==> pushed(buffer, capacity, q).last() == q,
{
}

/// A sample rate of one takes every path in, and a higher rate never leaves a path out that a
/// lower one takes in.
pub proof fn sample_grows_with_rate(h: u64, low: Fraction, high: Fraction)
    requires
        low.ppm <= high.ppm,
        in_sample(h, low),
    ensures
        in_sample(h, high),
        in_sample(h, Fraction { ppm: 1_000_000 }),
{
}

/// A filter gives the entries that it is for, all of them and in order.
pub proof fn filters_give_what_they_are_for(
    buffer: Seq<ShadowedRequest>,
    prefix: Seq<char>,
    tenant: Seq<char>,
)
    ensures
        kept(buffer, on_path(prefix)) == buffer.filter(
            |q: ShadowedRequest| begins(q.path@, prefix),
        ),
        kept(buffer, of_tenant(tenant)) == buffer.filter(
            |q: ShadowedRequest| q.tenant_id matches Some(t) && t@ == tenant,
        ),
        kept(buffer, failed()) == buffer.filter(|q: ShadowedRequest| q.response_status >= 400),
    decreases buffer.len(),
{
    reveal(Seq::filter);
    if buffer.len() > 0 {
        filters_give_what_they_are_for(buffer.drop_last(), prefix, tenant);
    }
}

/// What is kept of a body is its beginning: all of it up to 4096 characters, else so many.
pub proof fn bodies_keep_their_beginning(s: Seq<char>)
    ensures
        begins(s, clipped(s)),
        s.len() <= 4096 ==> clipped(s) == s,
        s.len() > 4096 ==> clipped(s).len() == 4096,
{
    if s.len() > 4096 {
        assert(s.take(clipped(s).len() as int) == clipped(s));
    } else {
        assert(s.take(s.len() as int) =~= s);
    }
}

/// Recording goes by the switch, the path and the sample rate alone: while it is off nothing is
/// recorded, at the full rate everything is, and two requests to one path are treated alike.
pub proof fn recording_goes_by_the_path(s: TrafficShadow, path: Seq<char>)
    ensures
        !s.enabled ==> !s.records(path),
        s.enabled && s.sample_rate.ppm >= 1_000_000 ==> s.records(path),
        s.enabled && s.sample_rate.ppm == 0 ==> (s.records(path) <==> path_hash(
            vstd::utf8::encode_utf8(path),
        ) == 0),
        s.enabled ==> (s.records(path) <==> path_hash(vstd::utf8::encode_utf8(path)) * 1_000_000
            <= s.sample_rate.ppm * 0x1_0000_0000_0000_0000),
{
    let h = path_hash(vstd::utf8::encode_utf8(path)) as int;
    let p = s.sample_rate.ppm as int;
    if p >= 1_000_000 {
        assert(h * 1_000_000 <= p * 0x1_0000_0000_0000_0000) by (nonlinear_arith)
            requires
                0 <= h <= 0xffff_ffff_ffff_ffff,
                p >= 1_000_000,
        ;
    }
}

} // verus!
