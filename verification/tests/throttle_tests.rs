use starrail_codes::throttle::RateLimiter;

#[test]
fn test_throttle_boundary() {
    // max_requests = 3, window = 60: three requests are admitted, the
    // fourth is denied, and after the window has elapsed the same
    // identity is admitted again.
    let mut limiter = RateLimiter::new(3, 60);
    assert!(limiter.check_rate_limit("10.0.0.1", 0));
    assert!(limiter.check_rate_limit("10.0.0.1", 10));
    assert!(limiter.check_rate_limit("10.0.0.1", 20));
    assert!(!limiter.check_rate_limit("10.0.0.1", 30));
    assert!(limiter.check_rate_limit("10.0.0.1", 61));
}

#[test]
fn test_throttle_identities_are_independent() {
    let mut limiter = RateLimiter::new(1, 60);
    assert!(limiter.check_rate_limit("a", 0));
    assert!(!limiter.check_rate_limit("a", 1));
    assert!(limiter.check_rate_limit("b", 2));
    assert!(!limiter.check_rate_limit("b", 3));
}

#[test]
fn test_throttle_window_restarts_with_count_one() {
    let mut limiter = RateLimiter::new(2, 10);
    assert!(limiter.check_rate_limit("c", 0));
    assert!(limiter.check_rate_limit("c", 1));
    assert!(!limiter.check_rate_limit("c", 2));
    // The old window expired; a new one opens and counts from one.
    assert!(limiter.check_rate_limit("c", 10));
    assert!(limiter.check_rate_limit("c", 11));
    assert!(!limiter.check_rate_limit("c", 12));
}

#[test]
fn test_throttle_denied_request_is_not_counted() {
    let mut limiter = RateLimiter::new(1, 100);
    assert!(limiter.check_rate_limit("d", 0));
    assert!(!limiter.check_rate_limit("d", 1));
    assert!(!limiter.check_rate_limit("d", 2));
    // Only the admitted request occupies the window; once it expires a
    // fresh request passes.
    assert!(limiter.check_rate_limit("d", 100));
}
