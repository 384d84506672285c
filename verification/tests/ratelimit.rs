use ulgate::ratelimit::{HttpRateLimiter, TokenBucket};

const SECOND: u64 = 1_000_000_000;

#[test]
fn allows_within_burst() {
    let mut limiter = HttpRateLimiter::new(10, 5);
    for _ in 0..5 {
        assert!(limiter.allow("127.0.0.1"));
    }
}

#[test]
fn rejects_after_burst() {
    let mut limiter = HttpRateLimiter::new(1, 2);
    assert!(limiter.allow("127.0.0.1"));
    assert!(limiter.allow("127.0.0.1"));
    assert!(!limiter.allow("127.0.0.1"));
}

#[test]
fn different_ips_independent() {
    let mut limiter = HttpRateLimiter::new(1, 1);
    assert!(limiter.allow("1.1.1.1"));
    assert!(!limiter.allow("1.1.1.1"));
    assert!(limiter.allow("2.2.2.2"));
}

#[test]
fn unlimited_allows_all() {
    let mut limiter = HttpRateLimiter::unlimited();
    for _ in 0..10000 {
        assert!(limiter.allow("127.0.0.1"));
    }
}

#[test]
fn tokens_come_back_with_time() {
    let mut limiter = HttpRateLimiter::new(2, 1);
    assert!(limiter.allow_at("a", 0));
    assert!(!limiter.allow_at("a", SECOND / 2 - 1));
    assert!(!limiter.allow_at("a", SECOND / 2 - 1));
    assert!(limiter.allow_at("a", SECOND / 2));
    assert!(!limiter.allow_at("a", SECOND / 2));
}

#[test]
fn bucket_never_exceeds_its_capacity() {
    let mut b = TokenBucket::new_at(100, 3, 0);
    assert_eq!(b.tokens, 3 * SECOND);
    assert!(b.try_acquire_at(1000 * SECOND));
    assert_eq!(b.tokens, 2 * SECOND);
    assert!(b.try_acquire_at(u64::MAX));
    assert_eq!(b.tokens, 2 * SECOND);
}

#[test]
fn time_that_runs_back_brings_nothing() {
    let mut b = TokenBucket::new_at(1, 1, 10 * SECOND);
    assert!(b.try_acquire_at(10 * SECOND));
    assert!(!b.try_acquire_at(0));
    assert_eq!(b.last_refill, 0);
}

#[test]
fn zero_burst_allows_nothing() {
    let mut limiter = HttpRateLimiter::new(5, 0);
    assert!(!limiter.allow_at("a", 0));
    assert!(!limiter.allow_at("a", 100 * SECOND));
}

#[test]
fn stale_buckets_are_dropped() {
    let mut limiter = HttpRateLimiter::new(1, 1);
    assert!(limiter.allow_at("old", 0));
    assert!(limiter.allow_at("new", SECOND));
    limiter.evict_stale_at(300 * SECOND);
    assert_eq!(limiter.buckets.len(), 1);
    assert!(limiter.buckets.contains_key("new"));
    limiter.evict_stale();
    assert_eq!(limiter.buckets.len(), 1);
}

#[test]
fn grants_stay_within_burst_and_rate() {
    let mut b = TokenBucket::new_at(3, 4, 0);
    let mut granted = 0u64;
    let mut t = 0u64;
    for i in 0..1000u64 {
        t += (i * 7919) % 200_000_000;
        if b.try_acquire_at(t) {
            granted += 1;
        }
        assert!(granted * SECOND <= 4 * SECOND + 3 * t);
    }
}

#[test]
fn every_span_stays_within_burst_and_rate() {
    const STEP: u64 = 100_000_000;
    let mut lim = HttpRateLimiter::new(2, 3);
    let granted: Vec<bool> = (0..100).map(|i| lim.allow_at("ip", i * STEP)).collect();
    for from in 0..granted.len() {
        for to in from..granted.len() {
            let n = granted[from..=to].iter().filter(|g| **g).count() as f64;
            assert!(n <= 3.0 + 2.0 * (to - from) as f64 * 0.1 + 1e-9);
        }
    }
}
