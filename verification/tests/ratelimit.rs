use workbench::ratelimit::{Instant, RateLimiter};

fn at(secs: i64) -> Instant {
    Instant { secs, nanos: 0 }
}

#[test]
fn allows_up_to_the_limit_within_the_window() {
    let mut r = RateLimiter::new(2, 60);
    assert!(r.check_rate_limit_at("k", at(1000)));
    assert!(r.check_rate_limit_at("k", at(1001)));
    assert!(!r.check_rate_limit_at("k", at(1002)));
    assert!(r.check_rate_limit_at("other", at(1002)));
}

#[test]
fn old_requests_leave_the_window() {
    let mut r = RateLimiter::new(2, 60);
    assert!(r.check_rate_limit_at("k", at(1000)));
    assert!(r.check_rate_limit_at("k", at(1001)));
    // The window of 60 s ending at 1061 starts at 1001: one request is left in it.
    assert!(r.check_rate_limit_at("k", at(1061)));
    assert!(!r.check_rate_limit_at("k", at(1061)));
}

#[test]
fn window_start_is_inclusive_to_the_nanosecond() {
    let mut r = RateLimiter::new(1, 10);
    assert!(r.check_rate_limit_at("k", Instant { secs: 100, nanos: 5 }));
    assert!(!r.check_rate_limit_at("k", Instant { secs: 110, nanos: 5 }));
    assert!(r.check_rate_limit_at("k", Instant { secs: 110, nanos: 6 }));
}

#[test]
fn zero_limit_refuses_everything() {
    let mut r = RateLimiter::new(0, 60);
    assert!(!r.check_rate_limit_at("k", at(5)));
}

#[test]
fn live_clock_check() {
    let mut r = RateLimiter::new(100, 60);
    assert_eq!(r.check_rate_limit("client"), Some(true));
    let mut huge = RateLimiter::new(1, u64::MAX / 2);
    assert_eq!(huge.check_rate_limit("client"), None);
}
