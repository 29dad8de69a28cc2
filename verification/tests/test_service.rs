use crewride::config::{
    AppState, CircuitBreakerConfig, Config, Provider, ProviderConfig, RateLimitConfig, ShutdownConfig, StatsConfig,
    TimeoutConfig,
};
use crewride::health::health_response;
use crewride::metrics::prometheus_metrics;
use crewride::retry::{RetryState, RetryStep};
use crewride::text::{decimal_string, mask_secret, parse_u16};

fn provider(key: &str, enabled: bool) -> ProviderConfig {
    ProviderConfig {
        key: key.to_string(),
        name: key.to_string(),
        kind: Provider::OpenAI,
        api_key: None,
        api_url: None,
        enabled,
        rate_limit: None,
    }
}

fn state_with(providers: Vec<ProviderConfig>) -> AppState {
    AppState::new(Config {
        host: "127.0.0.1".to_string(),
        port: 8899,
        providers,
        models: vec![],
        stats: StatsConfig::default(),
        rate_limit: RateLimitConfig::default(),
        circuit_breaker: CircuitBreakerConfig::default(),
        timeout: TimeoutConfig::default(),
        shutdown: ShutdownConfig::default(),
    })
}

#[test]
fn retry_always_failing_stops_at_limit() {
    let mut retry = RetryState::new(3);
    assert_eq!(retry.record(true), RetryStep::RetryAfterDelay);
    assert_eq!(retry.record(true), RetryStep::RetryAfterDelay);
    assert_eq!(retry.record(true), RetryStep::Finish);
    assert_eq!(retry.attempts(), 3);
}

#[test]
fn retry_success_finishes_at_once() {
    let mut retry = RetryState::new(3);
    assert_eq!(retry.record(true), RetryStep::RetryAfterDelay);
    assert_eq!(retry.record(false), RetryStep::Finish);
    assert_eq!(retry.attempts(), 2);
}

#[test]
fn retry_zero_limit_still_makes_one_attempt() {
    let mut retry = RetryState::new(0);
    assert_eq!(retry.attempts(), 0);
    assert_eq!(retry.record(true), RetryStep::Finish);
}

#[test]
fn health_answers_ok_with_version() {
    let h = health_response("1.2.3");
    assert_eq!(h.status, "ok");
    assert_eq!(h.version, "1.2.3");
}

#[test]
fn readiness_needs_every_enabled_provider_healthy() {
    let mut state = state_with(vec![provider("a", true), provider("b", false), provider("c", true)]);
    let r = state.readiness();
    assert!(!r.ready);
    assert_eq!(r.providers.len(), 3);
    assert!(!r.providers[0].healthy);

    *state.health_status.get_or_insert("a", false) = true;
    assert!(!state.readiness().ready);
    *state.health_status.get_or_insert("c", true) = true;
    let r = state.readiness();
    assert!(r.ready);
    assert!(r.providers[0].healthy);
    assert!(!r.providers[1].healthy);
    assert!(!r.providers[1].enabled);
}

#[test]
fn readiness_without_providers_is_ready() {
    let state = state_with(vec![]);
    let r = state.readiness();
    assert!(r.ready);
    assert!(r.providers.is_empty());
}

#[test]
fn readiness_with_only_disabled_providers_is_ready() {
    let state = state_with(vec![provider("off", false)]);
    assert!(state.readiness().ready);
}

#[test]
fn metrics_text_lists_totals_then_groups() {
    let mut state = state_with(vec![]);
    state.stats.record_request("openai", "gpt-4");
    state.stats.record_tokens("openai", "gpt-4", 10, 20);
    let text = prometheus_metrics(&state);
    let expected = "# HELP crewride_requests_total Total number of requests\n\
# TYPE crewride_requests_total counter\n\
crewride_requests_total 1\n\
# HELP crewride_tokens_input_total Total input tokens\n\
# TYPE crewride_tokens_input_total counter\n\
crewride_tokens_input_total 10\n\
# HELP crewride_tokens_output_total Total output tokens\n\
# TYPE crewride_tokens_output_total counter\n\
crewride_tokens_output_total 20\n\
# HELP crewride_errors_total Total number of errors\n\
# TYPE crewride_errors_total counter\n\
crewride_errors_total 0\n\
crewride_provider_requests{provider=\"openai\"} 1\n\
crewride_provider_tokens_input{provider=\"openai\"} 10\n\
crewride_provider_tokens_output{provider=\"openai\"} 20\n\
crewride_provider_errors{provider=\"openai\"} 0\n\
crewride_model_requests{model=\"gpt-4\"} 1\n\
crewride_model_tokens_input{model=\"gpt-4\"} 10\n\
crewride_model_tokens_output{model=\"gpt-4\"} 20\n\
crewride_model_errors{model=\"gpt-4\"} 0\n";
    assert_eq!(text, expected);
}

#[test]
fn decimal_text_and_port_parsing() {
    assert_eq!(decimal_string(0), "0");
    assert_eq!(decimal_string(18446744073709551615), "18446744073709551615");
    assert_eq!(parse_u16("65535"), Some(65535));
    assert_eq!(parse_u16("65536"), None);
    assert_eq!(parse_u16("+1"), Some(1));
    assert_eq!(parse_u16("007"), Some(7));
    assert_eq!(parse_u16(""), None);
    assert_eq!(parse_u16("+"), None);
    assert_eq!(parse_u16("-1"), None);
    assert_eq!(parse_u16("1 "), None);
}

#[test]
fn secrets_are_masked_left_to_right() {
    assert_eq!(mask_secret("key=abc&x=abcabc", "abc"), "key=***&x=******");
    assert_eq!(mask_secret("aaa", "aa"), "**a");
    assert_eq!(mask_secret("aa*", "a*"), "a##");
    assert_eq!(mask_secret("x*#y", "*#"), "***");
    assert!(!mask_secret("a*a*a*", "a*").contains("a*"));
    assert_eq!(mask_secret("nothing here", "zz"), "nothing here");
    assert_eq!(mask_secret("kept", ""), "kept");
    assert_eq!(mask_secret("", "k"), "");
}
