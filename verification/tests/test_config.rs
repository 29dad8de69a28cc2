use crewride::config::{
    CircuitBreakerConfig, Config, ConfigFormat, EnvVars, ModelConfig, Provider, ProviderConfig,
    ProviderRateLimitConfig, RateLimitConfig, ReplaceConfig, ShutdownConfig, StatsConfig, TimeoutConfig,
};
use url::Url;

fn provider(key: &str, name: &str, kind: Provider, enabled: bool) -> ProviderConfig {
    ProviderConfig {
        key: key.to_string(),
        name: name.to_string(),
        kind,
        api_key: None,
        api_url: None,
        enabled,
        rate_limit: None,
    }
}

fn config_with(providers: Vec<ProviderConfig>, models: Vec<ModelConfig>) -> Config {
    Config {
        host: "127.0.0.1".to_string(),
        port: 8899,
        providers,
        models,
        stats: StatsConfig::default(),
        rate_limit: RateLimitConfig::default(),
        circuit_breaker: CircuitBreakerConfig::default(),
        timeout: TimeoutConfig::default(),
        shutdown: ShutdownConfig::default(),
    }
}

fn no_env() -> EnvVars {
    EnvVars {
        openai_api_key: None,
        openai_api_url: None,
        anthropic_api_key: None,
        anthropic_api_url: None,
        gemini_api_key: None,
        gemini_api_url: None,
        proxy_host: None,
        proxy_port: None,
    }
}

#[test]
fn test_config_defaults() {
    let config = Config::default();

    assert_eq!(config.host, "127.0.0.1");
    assert_eq!(config.port, 8899);
    assert!(config.providers.is_empty());
    assert!(config.models.is_empty());
}

#[test]
fn test_stats_config_defaults() {
    let config = StatsConfig::default();

    assert!(config.enabled);
    assert_eq!(config.retention_days, 30);
}

#[test]
fn test_config_test_rate_limit_config_defaults() {
    let config = RateLimitConfig::default();

    assert!(config.enabled);
    assert_eq!(config.default_rpm, 60);
    assert_eq!(config.default_tpm, 100000);
    assert_eq!(config.burst, 10);
}

#[test]
fn test_config_test_circuit_breaker_config_defaults() {
    let config = CircuitBreakerConfig::default();

    assert_eq!(config.failure_threshold, 5);
    assert_eq!(config.success_threshold, 2);
    assert_eq!(config.timeout_secs, 30);
}

#[test]
fn test_timeout_config_defaults() {
    let config = TimeoutConfig::default();

    assert_eq!(config.connect_secs, 10);
    assert_eq!(config.read_secs, 60);
    assert_eq!(config.write_secs, 60);
}

#[test]
fn test_shutdown_config_defaults() {
    let config = ShutdownConfig::default();

    assert_eq!(config.grace_period_secs, 30);
}

#[test]
fn test_provider_config() {
    let provider = ProviderConfig {
        key: "openai-official".to_string(),
        name: "OpenAI Official".to_string(),
        kind: Provider::OpenAI,
        api_key: Some("sk-test".to_string()),
        api_url: Url::parse("https://api.openai.com/").ok().map(|u| u.to_string()),
        enabled: true,
        rate_limit: Some(ProviderRateLimitConfig { rpm: Some(100), tpm: Some(200000) }),
    };

    assert_eq!(provider.key, "openai-official");
    assert_eq!(provider.name, "OpenAI Official");
    assert_eq!(provider.kind, Provider::OpenAI);
    assert!(provider.api_key.is_some());
    assert!(provider.enabled);
    assert!(provider.rate_limit.is_some());
}

#[test]
fn test_model_config() {
    let model = ModelConfig {
        model: "gpt-4".to_string(),
        name: Some("GPT-4".to_string()),
        provider: Some("openai-official".to_string()),
        replace: Some(ReplaceConfig { api_key: true, model: Some("gpt-4o".to_string()) }),
    };

    assert_eq!(model.model, "gpt-4");
    assert!(model.name.is_some());
    assert_eq!(model.provider, Some("openai-official".to_string()));
    assert!(model.replace.is_some());
}

#[test]
fn test_replace_config_defaults() {
    let replace = ReplaceConfig { api_key: false, model: None };

    assert!(!replace.api_key);
    assert!(replace.model.is_none());
}

#[test]
fn test_find_provider() {
    let config = config_with(
        vec![
            provider("openai-official", "OpenAI", Provider::OpenAI, true),
            provider("anthropic-official", "Anthropic", Provider::Anthropic, false),
        ],
        vec![],
    );

    let found = config.find_provider("openai-official");
    assert!(found.is_some());
    assert_eq!(found.unwrap().key, "openai-official");

    let disabled = config.find_provider("anthropic-official");
    assert!(disabled.is_none());
}

#[test]
fn test_give_provider_by_type() {
    let config = config_with(vec![provider("openai-official", "OpenAI", Provider::OpenAI, true)], vec![]);

    let found = config.give_provider(Provider::OpenAI);
    assert!(found.is_some());

    let unknown = config.give_provider(Provider::Anthropic);
    assert!(unknown.is_none());
}

#[test]
fn test_find_model() {
    let model = |m: &str| ModelConfig { model: m.to_string(), name: None, provider: None, replace: None };
    let config = config_with(vec![], vec![model("gpt-4"), model("sonnet-3")]);

    let found = config.find_model("gpt-4");
    assert!(found.is_some());
    assert_eq!(found.unwrap().model, "gpt-4");

    let unknown = config.find_model("unknown");
    assert!(unknown.is_none());
}

#[test]
fn find_provider_returns_first_enabled_match() {
    let mut second = provider("dup", "Second", Provider::Gemini, true);
    second.api_key = Some("k2".to_string());
    let config = config_with(vec![provider("dup", "First", Provider::OpenAI, false), second], vec![]);

    let found = config.find_provider("dup").unwrap();
    assert_eq!(found.name, "Second");
    assert_eq!(config.give_provider(Provider::Gemini).unwrap().name, "Second");
    assert!(config.give_provider(Provider::OpenAI).is_none());
}

#[test]
fn merge_env_fills_official_urls_and_keys() {
    let mut config = config_with(
        vec![
            provider("o", "O", Provider::OpenAI, true),
            provider("a", "A", Provider::Anthropic, true),
            provider("g", "G", Provider::Gemini, true),
        ],
        vec![],
    );
    let mut env = no_env();
    env.anthropic_api_key = Some("ak".to_string());
    env.gemini_api_url = Some("http://localhost:9000/v1".to_string());

    assert_eq!(config.merge_env(&env), Ok(()));
    assert_eq!(config.providers[0].api_url.as_deref(), Some("https://api.openai.com/"));
    assert_eq!(config.providers[0].api_key, None);
    assert_eq!(config.providers[1].api_url.as_deref(), Some("https://api.anthropic.com/"));
    assert_eq!(config.providers[1].api_key.as_deref(), Some("ak"));
    assert_eq!(config.providers[2].api_url.as_deref(), Some("http://localhost:9000/v1"));
    assert_eq!(config.host, "127.0.0.1");
    assert_eq!(config.port, 8899);
}

#[test]
fn merge_env_keeps_configured_url_and_applies_host_and_port() {
    let mut p = provider("o", "O", Provider::OpenAI, true);
    p.api_url = Some("https://proxy.example.com/".to_string());
    let mut config = config_with(vec![p], vec![]);
    let mut env = no_env();
    env.proxy_host = Some("0.0.0.0".to_string());
    env.proxy_port = Some("9001".to_string());

    assert_eq!(config.merge_env(&env), Ok(()));
    assert_eq!(config.providers[0].api_url.as_deref(), Some("https://proxy.example.com/"));
    assert_eq!(config.host, "0.0.0.0");
    assert_eq!(config.port, 9001);
}

#[test]
fn merge_env_ignores_port_that_does_not_parse() {
    let mut config = config_with(vec![], vec![]);
    let mut env = no_env();
    env.proxy_port = Some("70000".to_string());
    assert_eq!(config.merge_env(&env), Ok(()));
    assert_eq!(config.port, 8899);

    env.proxy_port = Some("+8080".to_string());
    assert_eq!(config.merge_env(&env), Ok(()));
    assert_eq!(config.port, 8080);

    env.proxy_port = Some("eighty".to_string());
    assert_eq!(config.merge_env(&env), Ok(()));
    assert_eq!(config.port, 8080);
}

#[test]
fn merge_env_stops_at_invalid_url() {
    let mut config = config_with(
        vec![provider("a", "A", Provider::Anthropic, true), provider("o", "O", Provider::OpenAI, true)],
        vec![],
    );
    let mut env = no_env();
    env.openai_api_key = Some("sk".to_string());
    env.openai_api_url = Some("not a url".to_string());
    env.proxy_host = Some("0.0.0.0".to_string());

    assert_eq!(config.merge_env(&env), Err("Invalid OPENAI_API_URL format".to_string()));
    assert_eq!(config.providers[0].api_url.as_deref(), Some("https://api.anthropic.com/"));
    assert_eq!(config.providers[1].api_key.as_deref(), Some("sk"));
    assert_eq!(config.providers[1].api_url, None);
    assert_eq!(config.host, "127.0.0.1");
}

#[test]
fn validate_lists_enabled_providers_without_key() {
    let mut keyed = provider("keyed", "K", Provider::OpenAI, true);
    keyed.api_key = Some("sk".to_string());
    let config = config_with(
        vec![
            provider("first", "F", Provider::OpenAI, true),
            keyed,
            provider("off", "Off", Provider::Gemini, false),
            provider("last", "L", Provider::Anthropic, true),
        ],
        vec![],
    );
    assert_eq!(config.validate(), vec!["first".to_string(), "last".to_string()]);
}

#[test]
fn file_format_by_extension() {
    assert_eq!(Config::file_format(Some("json")), Ok(ConfigFormat::Json));
    assert_eq!(Config::file_format(Some("JSON")), Ok(ConfigFormat::Json));
    assert_eq!(Config::file_format(Some("yaml")), Ok(ConfigFormat::Yaml));
    assert_eq!(Config::file_format(Some("YML")), Ok(ConfigFormat::Yaml));
    assert_eq!(Config::file_format(Some("Toml")), Err("Unsupported file extension: .toml".to_string()));
    assert_eq!(
        Config::file_format(None),
        Err("File must have an extension (.json or .yaml)".to_string())
    );
}

#[test]
fn merge_env_stores_the_parsed_url() {
    let mut config = config_with(vec![provider("o", "O", Provider::OpenAI, true)], vec![]);
    let mut env = no_env();
    env.openai_api_url = Some("HTTPS://API.Example.COM".to_string());
    assert_eq!(config.merge_env(&env), Ok(()));
    assert_eq!(config.providers[0].api_url.as_deref(), Some("https://api.example.com/"));
}
