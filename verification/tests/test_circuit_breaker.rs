use crewride::circuit_breaker::{CircuitBreaker, CircuitBreakerConfig, CircuitBreakerRegistry, CircuitState};
use std::time::{Duration, Instant};

fn wait(d: Duration) {
    let start = Instant::now();
    while start.elapsed() < d {}
}

fn create_test_breaker(failure_threshold: u32, success_threshold: u32, timeout_secs: u64) -> CircuitBreaker {
    CircuitBreaker::new(CircuitBreakerConfig {
        failure_threshold,
        success_threshold,
        timeout: Duration::from_secs(timeout_secs),
    })
}

#[test]
fn test_circuit_breaker_initial_state() {
    let mut breaker = create_test_breaker(5, 2, 30);
    assert!(breaker.is_allowed());
    assert_eq!(breaker.get_state(), CircuitState::Closed);
}

#[test]
fn test_circuit_breaker_success_resets() {
    let mut breaker = create_test_breaker(3, 2, 0);

    breaker.record_failure();
    breaker.record_failure();
    breaker.record_failure();

    assert_eq!(breaker.get_state(), CircuitState::Open);

    wait(Duration::from_millis(10));

    breaker.is_allowed();
    assert_eq!(breaker.get_state(), CircuitState::HalfOpen);

    breaker.record_success();
    breaker.record_success();

    assert_eq!(breaker.get_state(), CircuitState::Closed);
}

#[test]
fn test_circuit_breaker_opens_after_threshold() {
    let mut breaker = create_test_breaker(3, 2, 30);

    breaker.record_failure();
    assert_eq!(breaker.get_state(), CircuitState::Closed);

    breaker.record_failure();
    assert_eq!(breaker.get_state(), CircuitState::Closed);

    breaker.record_failure();
    assert_eq!(breaker.get_state(), CircuitState::Open);
    assert!(!breaker.is_allowed());
}

#[test]
fn test_circuit_breaker_half_open_after_timeout() {
    let mut breaker = create_test_breaker(2, 2, 0);

    breaker.record_failure();
    breaker.record_failure();
    assert_eq!(breaker.get_state(), CircuitState::Open);

    wait(Duration::from_millis(10));

    assert!(breaker.is_allowed());
    assert_eq!(breaker.get_state(), CircuitState::HalfOpen);
}

#[test]
fn test_circuit_breaker_half_open_to_open_on_failure() {
    let mut breaker = create_test_breaker(2, 2, 0);

    breaker.record_failure();
    breaker.record_failure();
    wait(Duration::from_millis(10));
    breaker.is_allowed();

    breaker.record_failure();

    assert_eq!(breaker.get_state(), CircuitState::Open);
}

#[test]
fn test_circuit_breaker_reset() {
    let mut breaker = create_test_breaker(2, 2, 30);

    breaker.record_failure();
    breaker.record_failure();
    assert_eq!(breaker.get_state(), CircuitState::Open);

    breaker.reset();

    assert_eq!(breaker.get_state(), CircuitState::Closed);
    assert!(breaker.is_allowed());
}

#[test]
fn test_circuit_breaker_test_circuit_breaker_config_defaults() {
    let config = CircuitBreakerConfig::default();

    assert_eq!(config.failure_threshold, 5);
    assert_eq!(config.success_threshold, 2);
    assert_eq!(config.timeout, Duration::from_secs(30));
}

#[test]
fn test_circuit_breaker_registry_new() {
    let mut registry = CircuitBreakerRegistry::new();
    let config = CircuitBreakerConfig::default();

    let breaker1 = registry.get_or_create("provider1", config.clone());
    for _ in 0..5 {
        breaker1.record_failure();
    }
    let breaker2 = registry.get("provider1").unwrap();

    // The breaker that `get` finds is the one that was created and opened.
    assert_eq!(breaker2.get_state(), CircuitState::Open);
}

#[test]
fn test_circuit_breaker_registry_different_providers() {
    let mut registry = CircuitBreakerRegistry::new();
    let config = CircuitBreakerConfig::default();

    let breaker1 = registry.get_or_create("provider1", config.clone());
    for _ in 0..5 {
        breaker1.record_failure();
    }
    registry.get_or_create("provider2", config.clone());
    let breaker1_again = registry.get("provider1").unwrap().get_state();
    let breaker2_again = registry.get("provider2").unwrap().get_state();

    // Opening one provider's breaker leaves the other's closed: they differ.
    assert_ne!(breaker1_again, breaker2_again);
}

#[test]
fn test_circuit_breaker_registry_get() {
    let mut registry = CircuitBreakerRegistry::new();
    let config = CircuitBreakerConfig::default();

    registry.get_or_create("provider1", config);

    let breaker = registry.get("provider1");
    assert!(breaker.is_some());

    let unknown = registry.get("unknown");
    assert!(unknown.is_none());
}

#[test]
fn registry_keeps_one_breaker_per_name() {
    let mut registry = CircuitBreakerRegistry::new();
    let config = CircuitBreakerConfig { failure_threshold: 1, success_threshold: 1, timeout: Duration::from_secs(30) };

    registry.get_or_create("a", config).record_failure();
    assert_eq!(registry.get("a").unwrap().get_state(), CircuitState::Open);
    assert_eq!(registry.get_or_create("a", config).get_state(), CircuitState::Open);
    assert_eq!(registry.get_or_create("b", config).get_state(), CircuitState::Closed);
}

#[test]
fn success_between_failures_keeps_breaker_closed() {
    let mut breaker = create_test_breaker(3, 2, 30);
    breaker.record_failure();
    breaker.record_failure();
    breaker.record_success();
    breaker.record_failure();
    breaker.record_failure();
    assert_eq!(breaker.get_state(), CircuitState::Closed);
    breaker.record_failure();
    assert_eq!(breaker.get_state(), CircuitState::Open);
}

#[test]
fn zero_failure_threshold_opens_on_first_failure() {
    let mut breaker = create_test_breaker(0, 0, 0);
    breaker.record_failure();
    assert_eq!(breaker.get_state(), CircuitState::Open);
    assert!(breaker.is_allowed());
    assert_eq!(breaker.get_state(), CircuitState::HalfOpen);
    breaker.record_success();
    assert_eq!(breaker.get_state(), CircuitState::Closed);
}

#[test]
fn given_timeout_decides_open_breaker() {
    let mut breaker = create_test_breaker(1, 1, 30);
    breaker.record_failure();
    assert!(!breaker.is_allowed_given(false));
    assert_eq!(breaker.get_state(), CircuitState::Open);
    assert!(breaker.is_allowed_given(true));
    assert_eq!(breaker.get_state(), CircuitState::HalfOpen);
    assert!(breaker.is_allowed_given(false));
}

#[test]
fn fresh_breaker_ignores_timeout_flag() {
    let mut breaker = create_test_breaker(1, 1, 30);
    assert!(breaker.is_allowed_given(true));
    assert_eq!(breaker.get_state(), CircuitState::Closed);
}
