use crewride::rate_limit::{RateLimitConfig, RateLimitResult, RateLimitStatus, RateLimiter};
use std::time::{Duration, Instant};

fn create_test_limiter(rpm: u32, tpm: u32) -> RateLimiter {
    RateLimiter::new(RateLimitConfig { enabled: true, default_rpm: rpm, default_tpm: tpm, burst: 0 })
}

const MINUTE: u128 = 60_000_000_000;

#[test]
fn test_rate_limiter_disabled() {
    let mut limiter = RateLimiter::new(RateLimitConfig { enabled: false, default_rpm: 1, default_tpm: 100, burst: 0 });

    for _ in 0..100 {
        assert!(matches!(limiter.check_rate_limit("test_key", 100), RateLimitResult::Allowed));
    }
}

#[test]
fn test_rate_limiter_basic_request_limit() {
    let mut limiter = create_test_limiter(5, 1000);

    for i in 0..5 {
        let result = limiter.check_rate_limit("test_key", 1);
        assert!(matches!(result, RateLimitResult::Allowed), "Request {} should be allowed", i + 1);
    }

    let result = limiter.check_rate_limit("test_key", 1);
    assert!(matches!(result, RateLimitResult::Denied { .. }), "Request 6 should be denied");
}

#[test]
fn test_rate_limiter_token_limit() {
    let mut limiter = create_test_limiter(100, 5);

    for i in 0..5 {
        let result = limiter.check_rate_limit("test_key", 1);
        assert!(matches!(result, RateLimitResult::Allowed), "Request with token {} should be allowed", i + 1);
    }

    let result = limiter.check_rate_limit("test_key", 1);
    assert!(matches!(result, RateLimitResult::Denied { .. }), "Request with token 6 should be denied");
}

#[test]
fn test_rate_limiter_different_keys_independent() {
    let mut limiter = create_test_limiter(2, 1000);

    assert!(matches!(limiter.check_rate_limit("key1", 1), RateLimitResult::Allowed));
    assert!(matches!(limiter.check_rate_limit("key1", 1), RateLimitResult::Allowed));
    assert!(matches!(limiter.check_rate_limit("key1", 1), RateLimitResult::Denied { .. }));

    assert!(matches!(limiter.check_rate_limit("key2", 1), RateLimitResult::Allowed));
}

#[test]
fn test_rate_limit_result_denied_contains_retry_info() {
    let mut limiter = create_test_limiter(1, 1000);

    limiter.check_rate_limit("test_key", 1);

    let result = limiter.check_rate_limit("test_key", 1);
    match result {
        RateLimitResult::Denied { limit: _, retry_after } => {
            assert!(retry_after > 0);
        }
        _ => panic!("Expected Denied result"),
    }
}

#[test]
fn test_rate_limit_test_rate_limit_config_defaults() {
    let config = RateLimitConfig::default();

    assert!(config.enabled);
    assert_eq!(config.default_rpm, 60);
    assert_eq!(config.default_tpm, 100000);
    assert_eq!(config.burst, 10);
}

#[test]
fn test_rate_limiter_refill_on_wait() {
    let mut limiter = create_test_limiter(60, 1000);

    assert!(matches!(limiter.check_rate_limit("refill_key", 1), RateLimitResult::Allowed));

    let start = Instant::now();
    while start.elapsed() < Duration::from_millis(100) {}

    assert!(matches!(limiter.check_rate_limit("refill_key", 1), RateLimitResult::Allowed));
}

#[test]
fn denial_reports_exact_wait_and_level() {
    let mut limiter = create_test_limiter(60, 1000);
    for _ in 0..60 {
        assert_eq!(limiter.check_rate_limit_at("k", 1, 0), RateLimitResult::Allowed);
    }
    // Empty request bucket, refilling one request per second.
    assert_eq!(limiter.check_rate_limit_at("k", 1, 0), RateLimitResult::Denied { limit: 0, retry_after: 1 });
    // Half a second later half a request is back: one partial token, still a second's wait.
    assert_eq!(limiter.check_rate_limit_at("k", 1, 500_000_000), RateLimitResult::Denied { limit: 1, retry_after: 1 });
    // A full second later one request is back.
    assert_eq!(limiter.check_rate_limit_at("k", 1, 1_000_000_000), RateLimitResult::Allowed);
}

#[test]
fn token_denial_waits_for_missing_tokens() {
    let mut limiter = create_test_limiter(100, 600);
    assert_eq!(limiter.check_rate_limit_at("k", 600, 0), RateLimitResult::Allowed);
    // 600 tokens a minute is 10 a second: 25 tokens take 3 seconds, rounded up.
    assert_eq!(limiter.check_rate_limit_at("k", 25, 0), RateLimitResult::Denied { limit: 0, retry_after: 3 });
    assert_eq!(limiter.check_rate_limit_at("k", 25, 2_500_000_000), RateLimitResult::Allowed);
}

#[test]
fn full_minute_refills_whole_bucket() {
    let mut limiter = create_test_limiter(3, 1000);
    for _ in 0..3 {
        assert_eq!(limiter.check_rate_limit_at("k", 1, 0), RateLimitResult::Allowed);
    }
    assert!(matches!(limiter.check_rate_limit_at("k", 1, 0), RateLimitResult::Denied { .. }));
    for _ in 0..3 {
        assert_eq!(limiter.check_rate_limit_at("k", 1, 2 * MINUTE), RateLimitResult::Allowed);
    }
    assert!(matches!(limiter.check_rate_limit_at("k", 1, 2 * MINUTE), RateLimitResult::Denied { .. }));
}

#[test]
fn status_of_unknown_and_used_keys() {
    let mut limiter = create_test_limiter(10, 500);
    assert_eq!(limiter.get_status("new"), RateLimitStatus { requests_available: 10, tokens_available: 500 });
    limiter.check_rate_limit_at("used", 100, 0);
    assert_eq!(limiter.get_status("used"), RateLimitStatus { requests_available: 9, tokens_available: 400 });
}

#[test]
fn denied_token_request_still_spends_the_request() {
    let mut limiter = create_test_limiter(5, 10);
    assert!(matches!(limiter.check_rate_limit_at("k", 11, 0), RateLimitResult::Denied { .. }));
    assert_eq!(limiter.get_status("k"), RateLimitStatus { requests_available: 4, tokens_available: 10 });
}
