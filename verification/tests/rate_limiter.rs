use inference_super_router::services::RateLimiter;

#[test]
fn test_allows_under_limit() {
    let mut limiter = RateLimiter::new(5);
    let addr = "0x1234567890abcdef";
    for _ in 0..5 {
        assert!(limiter.check_rate_limit(addr));
    }
}

#[test]
fn test_blocks_over_limit() {
    let mut limiter = RateLimiter::new(5);
    let addr = "0x1234567890abcdef";
    for _ in 0..5 {
        assert!(limiter.check_rate_limit(addr));
    }
    assert!(!limiter.check_rate_limit(addr));
}

#[test]
fn test_different_addresses_independent() {
    let mut limiter = RateLimiter::new(2);
    assert!(limiter.check_rate_limit("0xaaa"));
    assert!(limiter.check_rate_limit("0xaaa"));
    assert!(!limiter.check_rate_limit("0xaaa"));
    assert!(limiter.check_rate_limit("0xbbb"));
    assert!(limiter.check_rate_limit("0xbbb"));
}

#[test]
fn test_window_resets_after_duration() {
    let mut limiter = RateLimiter::new(2);
    let addr = "0x1234";
    let start: u128 = 5_000_000;
    assert!(limiter.check_rate_limit_at(addr, start));
    assert!(limiter.check_rate_limit_at(addr, start));
    assert!(!limiter.check_rate_limit_at(addr, start));
    assert!(limiter.check_rate_limit_at(addr, start + 1100 * 1_000_000));
}

#[test]
fn test_case_insensitive() {
    let mut limiter = RateLimiter::new(2);
    assert!(limiter.check_rate_limit("0xABC"));
    assert!(limiter.check_rate_limit("0xabc"));
    assert!(!limiter.check_rate_limit("0xAbC"));
}

#[test]
fn the_window_lasts_a_second_exactly() {
    let mut limiter = RateLimiter::new(1);
    assert!(limiter.check_rate_limit_at("a", 10));
    assert!(!limiter.check_rate_limit_at("a", 1_000_000_009));
    assert!(limiter.check_rate_limit_at("a", 1_000_000_010));
}

#[test]
fn a_clock_that_goes_back_keeps_the_window() {
    let mut limiter = RateLimiter::new(1);
    assert!(limiter.check_rate_limit_at("a", 10));
    assert!(!limiter.check_rate_limit_at("a", 5));
}

#[test]
fn a_limit_of_zero_lets_the_first_one_through() {
    let mut limiter = RateLimiter::new(0);
    assert!(limiter.check_rate_limit_at("a", 0));
    assert!(!limiter.check_rate_limit_at("a", 1));
}

#[test]
fn tracked_addresses_are_counted_by_lower_case() {
    let mut limiter = RateLimiter::new(5);
    assert_eq!(limiter.tracked_addresses(), 0);
    limiter.check_rate_limit_at("0xA", 0);
    limiter.check_rate_limit_at("0xa", 0);
    limiter.check_rate_limit_at("0xB", 0);
    assert_eq!(limiter.tracked_addresses(), 2);
}

#[test]
fn other_addresses_do_not_take_up_the_limit() {
    let mut limiter = RateLimiter::new(2);
    assert!(limiter.check_rate_limit_at("0xa", 0));
    // The window of the address is over, so the next request opens one.
    let t = 1_500_000_000;
    assert!(limiter.check_rate_limit_at("0xA", t));
    assert!(limiter.check_rate_limit_at("0xb", t + 1));
    assert!(limiter.check_rate_limit_at("0xa", t + 2));
    assert!(limiter.check_rate_limit_at("0xb", t + 3));
    assert!(!limiter.check_rate_limit_at("0xa", t + 4));
    assert!(limiter.check_rate_limit_at("0xa", t + 1_000_000_000));
}
