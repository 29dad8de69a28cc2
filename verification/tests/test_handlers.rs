use crewride::circuit_breaker::CircuitState;
use crewride::config::{
    AppState, CircuitBreakerConfig, Config, ModelConfig, Provider, ProviderConfig, RateLimitConfig, ReplaceConfig,
    ShutdownConfig, StatsConfig, TimeoutConfig,
};
use crewride::error::ProxyError;
use crewride::handlers::gemini::{self, GeminiMethod};
use crewride::handlers::openai;
use crewride::handlers::{
    answer_status_error, exchange_error, provider_label, resolve_route, upstream_headers, upstream_path, upstream_status_error, upstream_url, Route,
};

fn provider(key: &str, kind: Provider, api_key: Option<&str>, api_url: Option<&str>) -> ProviderConfig {
    ProviderConfig {
        key: key.to_string(),
        name: key.to_string(),
        kind,
        api_key: api_key.map(|s| s.to_string()),
        api_url: api_url.map(|s| s.to_string()),
        enabled: true,
        rate_limit: None,
    }
}

fn config(providers: Vec<ProviderConfig>, models: Vec<ModelConfig>) -> Config {
    Config {
        host: "127.0.0.1".to_string(),
        port: 8899,
        providers,
        models,
        stats: StatsConfig::default(),
        rate_limit: RateLimitConfig::default(),
        circuit_breaker: CircuitBreakerConfig { failure_threshold: 2, success_threshold: 1, timeout_secs: 30 },
        timeout: TimeoutConfig::default(),
        shutdown: ShutdownConfig::default(),
    }
}

fn standard_config() -> Config {
    config(
        vec![
            provider("oa", Provider::OpenAI, Some("sk-own"), Some("https://api.openai.com/")),
            provider("gm", Provider::Gemini, Some("g-own"), Some("https://generativelanguage.googleapis.com/")),
            provider("alt", Provider::OpenAI, Some("sk-alt"), Some("https://alt.example.com/base/")),
        ],
        vec![
            ModelConfig {
                model: "gpt-4".to_string(),
                name: None,
                provider: Some("alt".to_string()),
                replace: Some(ReplaceConfig { api_key: true, model: Some("gpt-4o".to_string()) }),
            },
            ModelConfig { model: "plain".to_string(), name: None, provider: Some("alt".to_string()), replace: None },
        ],
    )
}

#[test]
fn openai_request_without_key_uses_provider_key() {
    let mut state = AppState::new(standard_config());
    let route = openai::route_request(&mut state, None, "gpt-3.5").unwrap();
    assert_eq!(route.provider_key, "oa");
    assert_eq!(route.api_key, "sk-own");
    assert_eq!(route.model, "gpt-3.5");
    assert_eq!(route.api_url, "https://api.openai.com/");
    assert_eq!(state.stats.get_provider_stats("oa").unwrap().requests, 1);
}

#[test]
fn openai_request_with_bearer_key_passes_it_on() {
    let mut state = AppState::new(standard_config());
    let route = openai::route_request(&mut state, Some("Bearer sk-user"), "gpt-3.5").unwrap();
    assert_eq!(route.api_key, "sk-user");
    let route = openai::route_request(&mut state, Some("Token sk-user"), "gpt-3.5").unwrap();
    assert_eq!(route.api_key, "sk-own");
}

#[test]
fn model_route_replaces_model_and_key() {
    let mut state = AppState::new(standard_config());
    let route = openai::route_request(&mut state, Some("Bearer sk-user"), "gpt-4").unwrap();
    assert_eq!(route.provider_key, "alt");
    assert_eq!(route.model, "gpt-4o");
    assert_eq!(route.api_key, "sk-alt");

    let route = openai::route_request(&mut state, Some("Bearer sk-user"), "plain").unwrap();
    assert_eq!(route.provider_key, "alt");
    assert_eq!(route.model, "plain");
    assert_eq!(route.api_key, "sk-user");
}

#[test]
fn missing_provider_is_a_config_error() {
    let cfg = config(vec![], vec![]);
    let r = resolve_route(&cfg, "m", "", Provider::Anthropic, "No Anthropic provider configured");
    assert!(matches!(r, Err(ProxyError::ConfigError(ref m)) if m == "No Anthropic provider configured"));

    let mut state = AppState::new(config(vec![provider("oa", Provider::OpenAI, None, Some("https://x.example/"))], vec![]));
    let r = openai::route_request(&mut state, None, "m");
    assert!(matches!(r, Err(ProxyError::ConfigError(ref m)) if m == "API key not configured"));
    let mut state = AppState::new(config(vec![provider("oa", Provider::OpenAI, Some("k"), None)], vec![]));
    let r = openai::route_request(&mut state, None, "m");
    assert!(matches!(r, Err(ProxyError::ConfigError(ref m)) if m == "API URL not configured"));
    assert!(state.stats.get_provider_stats("oa").is_none());
}

#[test]
fn rate_limit_refuses_after_sixty_requests_on_one_key() {
    let mut state = AppState::new(standard_config());
    for _ in 0..60 {
        assert!(openai::route_request(&mut state, Some("Bearer same"), "gpt-3.5").is_ok());
    }
    match openai::route_request(&mut state, Some("Bearer same"), "gpt-3.5") {
        Err(ProxyError::RateLimitExceeded { limit, window, retry_after }) => {
            assert_eq!(limit, 60);
            assert_eq!(window, "per minute");
            assert!(retry_after >= 1);
        }
        other => panic!("expected a rate limit error, got {:?}", other),
    }
    assert!(openai::route_request(&mut state, Some("Bearer other"), "gpt-3.5").is_ok());
}

#[test]
fn failures_open_the_providers_breaker() {
    let mut state = AppState::new(standard_config());
    state.record_outcome("oa", false);
    state.record_outcome("oa", false);
    assert_eq!(state.circuit_breakers.get("oa").unwrap().get_state(), CircuitState::Open);
    let r = openai::route_request(&mut state, None, "gpt-3.5");
    assert!(matches!(r, Err(ProxyError::CircuitOpen { ref provider }) if provider == "oa"));
    assert!(openai::route_request(&mut state, None, "gpt-4").is_ok());
}

#[test]
fn gemini_paths_and_methods() {
    let mut state = AppState::new(standard_config());
    let (route, method) = gemini::route_request(&mut state, "gemini-pro:generateContent", Some("qk")).unwrap();
    assert_eq!(method, GeminiMethod::GenerateContent);
    assert_eq!(route.provider_key, "gm");
    assert_eq!(route.api_key, "qk");
    assert_eq!(route.model, "gemini-pro");

    let (_, method) = gemini::route_request(&mut state, "a:b:streamGenerateContent", None).unwrap();
    assert_eq!(method, GeminiMethod::StreamGenerateContent);

    let r = gemini::route_request(&mut state, "no-colon", None);
    assert!(matches!(r, Err(ProxyError::InvalidRequest { ref field, .. }) if field == "path"));

    let r = gemini::route_request(&mut state, "gemini-pro:countTokens", None);
    assert!(matches!(r, Err(ProxyError::InvalidRequest { ref message, .. }) if message == "Unknown method: countTokens"));
    assert_eq!(state.circuit_breakers.get("gm").unwrap().get_state(), CircuitState::Closed);
    let _ = gemini::route_request(&mut state, "gemini-pro:countTokens", None);
    assert_eq!(state.circuit_breakers.get("gm").unwrap().get_state(), CircuitState::Open);
}

#[test]
fn split_model_method_at_last_colon() {
    let (m, f) = gemini::split_model_method("models/a:b:c").unwrap();
    assert_eq!(m, "models/a:b");
    assert_eq!(f, "c");
    assert!(gemini::split_model_method("plain").is_err());
    assert_eq!(gemini::parse_method("generateContent").unwrap(), GeminiMethod::GenerateContent);
}

#[test]
fn upstream_addresses() {
    assert_eq!(upstream_path(Provider::OpenAI, "m", "k", true), "/v1/chat/completions");
    assert_eq!(upstream_path(Provider::Anthropic, "m", "k", false), "/v1/messages");
    assert_eq!(upstream_path(Provider::Gemini, "gp", "k", false), "/v1beta/models/gp:generateContent?key=k");
    assert_eq!(
        upstream_path(Provider::Gemini, "gp", "k", true),
        "/v1beta/models/gp:streamGenerateContent?key=k&alt=sse"
    );

    let route = Route {
        provider_key: "alt".to_string(),
        kind: Provider::OpenAI,
        model: "m".to_string(),
        api_key: "k".to_string(),
        api_url: "https://alt.example.com/base/".to_string(),
    };
    assert_eq!(upstream_url(&route, false).unwrap(), "https://alt.example.com/v1/chat/completions");
    let bad = Route { api_url: "not a url".to_string(), ..route };
    assert!(matches!(upstream_url(&bad, false), Err(ProxyError::ConfigError(ref m)) if m == "Invalid URL"));
}

#[test]
fn upstream_headers_per_kind() {
    let h = upstream_headers(Provider::OpenAI, "sk");
    assert_eq!(h, vec![
        ("authorization".to_string(), "Bearer sk".to_string()),
        ("content-type".to_string(), "application/json".to_string()),
    ]);
    let h = upstream_headers(Provider::Anthropic, "ak");
    assert_eq!(h[0], ("x-api-key".to_string(), "ak".to_string()));
    assert_eq!(h[1], ("anthropic-version".to_string(), "2023-06-01".to_string()));
    assert_eq!(upstream_headers(Provider::Gemini, "g").len(), 1);
}

#[test]
fn upstream_errors_name_the_provider() {
    assert_eq!(provider_label(Provider::Gemini), "gemini");
    let e = upstream_status_error(Provider::Anthropic, 401, "bad key");
    assert_eq!(e.to_string(), "upstream error: anthropic - HTTP 401: bad key");
}

#[test]
fn configured_rate_limit_is_enforced() {
    let mut cfg = standard_config();
    cfg.rate_limit = RateLimitConfig { enabled: true, default_rpm: 1, default_tpm: 100000, burst: 10 };
    let mut state = AppState::new(cfg);
    assert_eq!(state.rate_limiter.config().default_rpm, 1);
    assert!(openai::route_request(&mut state, Some("Bearer k"), "gpt-3.5").is_ok());
    let r = openai::route_request(&mut state, Some("Bearer k"), "gpt-3.5");
    assert!(matches!(r, Err(ProxyError::RateLimitExceeded { .. })));
}

#[test]
fn disabled_rate_limit_lets_everything_through() {
    let mut cfg = standard_config();
    cfg.rate_limit = RateLimitConfig { enabled: false, default_rpm: 1, default_tpm: 1, burst: 0 };
    let mut state = AppState::new(cfg);
    for _ in 0..5 {
        assert!(openai::route_request(&mut state, Some("Bearer k"), "gpt-3.5").is_ok());
    }
}

#[test]
fn upstream_errors_mask_the_api_key() {
    let route = Route {
        provider_key: "gm".to_string(),
        kind: Provider::Gemini,
        model: "m".to_string(),
        api_key: "sekret".to_string(),
        api_url: "https://g.example/".to_string(),
    };
    let e = exchange_error(&route, "error sending request for url (https://g.example/x?key=sekret)");
    assert_eq!(e.to_string(), "upstream error: gemini - error sending request for url (https://g.example/x?key=******)");
    let e = answer_status_error(&route, 400, "bad key sekret, sekret");
    assert_eq!(e.to_string(), "upstream error: gemini - HTTP 400: bad key ******, ******");
}
