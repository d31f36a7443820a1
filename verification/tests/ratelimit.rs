use manga_sources::networking::ratelimit::RateLimiter;
use std::time::{Duration, Instant};

fn interval(requests_per_second: f64) -> u128 {
    Duration::from_secs_f64(1.0 / requests_per_second).as_nanos()
}

fn acquire(limiter: &mut RateLimiter, clock: &Instant) {
    while limiter.acquire(clock.elapsed().as_nanos()).is_some() {}
}

#[test]
fn test_rate_limiter_acquire_does_not_block_first_call() {
    let clock = Instant::now();
    let mut limiter = RateLimiter::new(interval(1000.0), clock.elapsed().as_nanos());
    let start = Instant::now();
    acquire(&mut limiter, &clock);
    let elapsed = start.elapsed();
    // First acquire should be near-instant
    assert!(
        elapsed.as_millis() < 50,
        "First acquire took too long: {:?}",
        elapsed
    );
}

#[test]
fn test_rate_limiter_enforces_interval() {
    // 10 RPS = 100ms between requests
    let clock = Instant::now();
    let mut limiter = RateLimiter::new(interval(10.0), clock.elapsed().as_nanos());
    acquire(&mut limiter, &clock); // first: instant
    let start = Instant::now();
    acquire(&mut limiter, &clock); // second: should wait ~100ms
    let elapsed = start.elapsed();
    assert!(
        elapsed.as_millis() >= 80, // some tolerance
        "Second acquire should have waited ~100ms, took {:?}",
        elapsed
    );
}

#[test]
fn limiter_books_the_next_interval() {
    let mut limiter = RateLimiter::new(100, 1000);
    assert_eq!(limiter.acquire(999), Some(1));
    assert_eq!(limiter.acquire(1000), None);
    assert_eq!(limiter.next_allowed, 1100);
    assert_eq!(limiter.acquire(1000), Some(100));
    assert_eq!(limiter.acquire(1099), Some(1));
    assert_eq!(limiter.acquire(1250), None);
    // The time that was not used is not made up for.
    assert_eq!(limiter.acquire(1251), Some(99));
    assert_eq!(limiter.next_allowed, 1350);
}

#[test]
fn grants_keep_their_distance() {
    let mut limiter = RateLimiter::new(7, 0);
    let granted: Vec<u128> = (0..50u128).filter(|t| limiter.acquire(*t).is_none()).collect();
    assert_eq!(granted, vec![0, 7, 14, 21, 28, 35, 42, 49]);
    assert!(granted[7] >= granted[0] + 7 * limiter.interval);
    assert_eq!(limiter.interval, 7);
}
