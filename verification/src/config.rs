//! The proxy's configuration: providers, model routes and the settings of the
//! statistics, rate limiting, circuit breaking, timeouts and shutdown.

use vstd::prelude::*;
use crate::circuit_breaker::CircuitBreakerRegistry;
use crate::rate_limit::{RateLimiter, RateLimitConfig as LimiterConfig, BucketState};
use crate::stats::{Counts, StatsCollector};
use crate::table::Table;
use crate::text::{parse_u16, parsed_u16};
use crate::urls::{opt_view, parse_url, url_parse};

verus! {

/// The API family an upstream provider speaks.
#[derive(Debug, Clone, Copy, PartialEq, Eq, Structural)]
pub enum Provider {
    OpenAI,
    Anthropic,
    Gemini,
}

/// Statistics settings.
#[derive(Debug, Clone, Copy, PartialEq, Eq, Structural)]
pub struct StatsConfig {
    pub enabled: bool,
    pub retention_days: u32,
}

/// Days of statistics kept when none is configured.
pub fn default_retention_days() -> (n: u32)
    ensures
        n == 30,
{
    30
}

/// The value of a switch that is on unless configured off.
pub fn default_true() -> (b: bool)
    ensures
        b,
{
    true
}

impl Default for StatsConfig {
    fn default() -> (c: Self)
        ensures
            c.enabled,
            c.retention_days == 30,
    {
        StatsConfig { enabled: default_true(), retention_days: default_retention_days() }
    }
}

/// Rate limiting settings.
#[derive(Debug, Clone, Copy, PartialEq, Eq, Structural)]
pub struct RateLimitConfig {
    pub enabled: bool,
    pub default_rpm: u32,
    pub default_tpm: u32,
    pub burst: u32,
}

/// Requests per minute when none is configured.
pub fn default_rpm() -> (n: u32)
    ensures
        n == 60,
{
    60
}

/// Tokens per minute when none is configured.
pub fn default_tpm() -> (n: u32)
    ensures
        n == 100000,
{
    100000
}

/// Burst capacity when none is configured.
pub fn default_burst() -> (n: u32)
    ensures
        n == 10,
{
    10
}

impl Default for RateLimitConfig {
    fn default() -> (c: Self)
        ensures
            c.enabled,
            c.default_rpm == 60,
            c.default_tpm == 100000,
            c.burst == 10,
    {
        RateLimitConfig { enabled: true, default_rpm: default_rpm(), default_tpm: default_tpm(), burst: default_burst() }
    }
}

/// Attempts of a retried operation when none is configured.
pub fn default_max_attempts() -> (n: u32)
    ensures
        n == 3,
{
    3
}

/// First retry delay, in milliseconds, when none is configured.
pub fn default_initial_delay() -> (n: u64)
    ensures
        n == 100,
{
    100
}

/// Longest retry delay, in milliseconds, when none is configured.
pub fn default_max_delay() -> (n: u64)
    ensures
        n == 5000,
{
    5000
}

/// Circuit breaker settings.
#[derive(Debug, Clone, Copy, PartialEq, Eq, Structural)]
pub struct CircuitBreakerConfig {
    pub failure_threshold: u32,
    pub success_threshold: u32,
    pub timeout_secs: u64,
}

/// Failures in a row that open a breaker, when none is configured.
pub fn default_failure_threshold() -> (n: u32)
    ensures
        n == 5,
{
    5
}

/// Successes in a row that close a half-open breaker, when none is configured.
pub fn default_success_threshold() -> (n: u32)
    ensures
        n == 2,
{
    2
}

/// Seconds an open breaker waits, when none is configured.
pub fn default_timeout() -> (n: u64)
    ensures
        n == 30,
{
    30
}

impl Default for CircuitBreakerConfig {
    fn default() -> (c: Self)
        ensures
            c.failure_threshold == 5,
            c.success_threshold == 2,
            c.timeout_secs == 30,
    {
        CircuitBreakerConfig {
            failure_threshold: default_failure_threshold(),
            success_threshold: default_success_threshold(),
            timeout_secs: default_timeout(),
        }
    }
}

/// Upstream timeouts, in seconds.
#[derive(Debug, Clone, Copy, PartialEq, Eq, Structural)]
pub struct TimeoutConfig {
    pub connect_secs: u64,
    pub read_secs: u64,
    pub write_secs: u64,
}

/// Connect timeout, in seconds, when none is configured.
pub fn default_connect_timeout() -> (n: u64)
    ensures
        n == 10,
{
    10
}

/// Read timeout, in seconds, when none is configured.
pub fn default_read_timeout() -> (n: u64)
    ensures
        n == 60,
{
    60
}

/// Write timeout, in seconds, when none is configured.
pub fn default_write_timeout() -> (n: u64)
    ensures
        n == 60,
{
    60
}

impl Default for TimeoutConfig {
    fn default() -> (c: Self)
        ensures
            c.connect_secs == 10,
            c.read_secs == 60,
            c.write_secs == 60,
    {
        TimeoutConfig {
            connect_secs: default_connect_timeout(),
            read_secs: default_read_timeout(),
            write_secs: default_write_timeout(),
        }
    }
}

/// Shutdown settings.
#[derive(Debug, Clone, Copy, PartialEq, Eq, Structural)]
pub struct ShutdownConfig {
    pub grace_period_secs: u64,
}

/// Seconds of grace before shutting down, when none is configured.
pub fn default_grace_period() -> (n: u64)
    ensures
        n == 30,
{
    30
}

impl Default for ShutdownConfig {
    fn default() -> (c: Self)
        ensures
            c.grace_period_secs == 30,
    {
        ShutdownConfig { grace_period_secs: default_grace_period() }
    }
}

/// Rate limits of one provider, overriding the defaults.
#[derive(Debug, Clone, Copy, PartialEq, Eq, Structural)]
pub struct ProviderRateLimitConfig {
    pub rpm: Option<u32>,
    pub tpm: Option<u32>,
}

/// An upstream provider. `api_url` holds the serialization of a parsed URL.
#[derive(Debug, Clone)]
pub struct ProviderConfig {
    pub key: String,
    pub name: String,
    pub kind: Provider,
    pub api_key: Option<String>,
    pub api_url: Option<String>,
    pub enabled: bool,
    pub rate_limit: Option<ProviderRateLimitConfig>,
}

/// What a model route replaces in a request.
#[derive(Debug, Clone)]
pub struct ReplaceConfig {
    pub api_key: bool,
    pub model: Option<String>,
}

/// A model route: requests for `model` go to `provider`.
#[derive(Debug, Clone)]
pub struct ModelConfig {
    pub model: String,
    pub name: Option<String>,
    pub provider: Option<String>,
    pub replace: Option<ReplaceConfig>,
}

/// The whole configuration.
#[derive(Debug, Clone)]
pub struct Config {
    pub host: String,
    pub port: u16,
    pub providers: Vec<ProviderConfig>,
    pub models: Vec<ModelConfig>,
    pub stats: StatsConfig,
    pub rate_limit: RateLimitConfig,
    pub circuit_breaker: CircuitBreakerConfig,
    pub timeout: TimeoutConfig,
    pub shutdown: ShutdownConfig,
}

/// The address the proxy listens on when none is configured.
pub fn default_host() -> (s: String)
    ensures
        s@ == "127.0.0.1"@,
{
    "127.0.0.1".to_owned()
}

/// The port the proxy listens on when none is configured.
pub fn default_port() -> (p: u16)
    ensures
        p == 8899,
{
    8899
}

impl Default for Config {
    fn default() -> (c: Self)
        ensures
            c.host@ == "127.0.0.1"@,
            c.port == 8899,
            c.providers@.len() == 0,
            c.models@.len() == 0,
            c.stats == (StatsConfig { enabled: true, retention_days: 30 }),
            c.rate_limit == (RateLimitConfig { enabled: true, default_rpm: 60, default_tpm: 100000, burst: 10 }),
            c.circuit_breaker == (CircuitBreakerConfig { failure_threshold: 5, success_threshold: 2, timeout_secs: 30 }),
            c.timeout == (TimeoutConfig { connect_secs: 10, read_secs: 60, write_secs: 60 }),
            c.shutdown == (ShutdownConfig { grace_period_secs: 30 }),
    {
        Config {
            host: default_host(),
            port: default_port(),
            providers: Vec::new(),
            models: Vec::new(),
            stats: StatsConfig::default(),
            rate_limit: RateLimitConfig::default(),
            circuit_breaker: CircuitBreakerConfig::default(),
            timeout: TimeoutConfig::default(),
            shutdown: ShutdownConfig::default(),
        }
    }
}

/// Index `i` holds the first model route for `model`.
pub open spec fn first_model_at(models: Seq<ModelConfig>, model: Seq<char>, i: int) -> bool {
    &&& 0 <= i < models.len()
    &&& models[i].model@ == model
    &&& forall|j: int| 0 <= j < i ==> #[trigger] models[j].model@ != model
}

/// Index `i` holds the first enabled provider with key `key`.
pub open spec fn first_provider_at(providers: Seq<ProviderConfig>, key: Seq<char>, i: int) -> bool {
    &&& 0 <= i < providers.len()
    &&& providers[i].key@ == key && providers[i].enabled
    &&& forall|j: int| 0 <= j < i ==> !(#[trigger] providers[j].key@ == key && providers[j].enabled)
}

/// Index `i` holds the first enabled provider of kind `kind`.
pub open spec fn first_kind_at(providers: Seq<ProviderConfig>, kind: Provider, i: int) -> bool {
    &&& 0 <= i < providers.len()
    &&& providers[i].kind == kind && providers[i].enabled
    &&& forall|j: int| 0 <= j < i ==> !(#[trigger] providers[j].kind == kind && providers[j].enabled)
}

/// The first route for `model`, if any.
pub open spec fn model_lookup(models: Seq<ModelConfig>, model: Seq<char>) -> Option<ModelConfig> {
    if exists|i: int| first_model_at(models, model, i) {
        Some(models[choose|i: int| first_model_at(models, model, i)])
    } else {
        None
    }
}

/// The first enabled provider with key `key`, if any.
pub open spec fn provider_lookup(providers: Seq<ProviderConfig>, key: Seq<char>) -> Option<ProviderConfig> {
    if exists|i: int| first_provider_at(providers, key, i) {
        Some(providers[choose|i: int| first_provider_at(providers, key, i)])
    } else {
        None
    }
}

/// The first enabled provider of kind `kind`, if any.
pub open spec fn kind_lookup(providers: Seq<ProviderConfig>, kind: Provider) -> Option<ProviderConfig> {
    if exists|i: int| first_kind_at(providers, kind, i) {
        Some(providers[choose|i: int| first_kind_at(providers, kind, i)])
    } else {
        None
    }
}

proof fn lemma_model_lookup(models: Seq<ModelConfig>, model: Seq<char>, i: int)
    requires
        first_model_at(models, model, i),
    ensures
        model_lookup(models, model) == Some(models[i]),
{
    let j = choose|j: int| first_model_at(models, model, j);
    assert(first_model_at(models, model, j));
    if j < i {
        assert(models[j].model@ != model);
    } else if i < j {
        assert(models[i].model@ != model);
    }
}

proof fn lemma_provider_lookup(providers: Seq<ProviderConfig>, key: Seq<char>, i: int)
    requires
        first_provider_at(providers, key, i),
    ensures
        provider_lookup(providers, key) == Some(providers[i]),
{
    let j = choose|j: int| first_provider_at(providers, key, j);
    assert(first_provider_at(providers, key, j));
    if j < i {
        assert(!(providers[j].key@ == key && providers[j].enabled));
    } else if i < j {
        assert(!(providers[i].key@ == key && providers[i].enabled));
    }
}

proof fn lemma_kind_lookup(providers: Seq<ProviderConfig>, kind: Provider, i: int)
    requires
        first_kind_at(providers, kind, i),
    ensures
        kind_lookup(providers, kind) == Some(providers[i]),
{
    let j = choose|j: int| first_kind_at(providers, kind, j);
    assert(first_kind_at(providers, kind, j));
    if j < i {
        assert(!(providers[j].kind == kind && providers[j].enabled));
    } else if i < j {
        assert(!(providers[i].kind == kind && providers[i].enabled));
    }
}

impl Config {
    /// The first route for `model`.
    pub fn find_model(&self, model: &str) -> (m: Option<&ModelConfig>)
        ensures
            m is None <==> forall|i: int| 0 <= i < self.models@.len() ==> #[trigger] self.models@[i].model@ != model@,
            m matches Some(c) ==> exists|i: int| first_model_at(self.models@, model@, i) && *c == self.models@[i],
            match m { Some(c) => model_lookup(self.models@, model@) == Some(*c), None => model_lookup(self.models@, model@) is None },
    {
        let wanted = model.to_owned();
        let mut i: usize = 0;
        while i < self.models.len()
            invariant
                i <= self.models@.len(),
                wanted@ == model@,
                forall|j: int| 0 <= j < i ==> #[trigger] self.models@[j].model@ != model@,
            decreases self.models@.len() - i,
        {
            if self.models[i].model == wanted {
                proof {
                    assert(first_model_at(self.models@, model@, i as int));
                    lemma_model_lookup(self.models@, model@, i as int);
                }
                return Some(&self.models[i]);
            }
            i += 1;
        }
        None
    }

    /// The first enabled provider with key `key`.
    pub fn find_provider(&self, key: &str) -> (p: Option<&ProviderConfig>)
        ensures
            p is None <==> forall|i: int| 0 <= i < self.providers@.len()
                ==> !(#[trigger] self.providers@[i].key@ == key@ && self.providers@[i].enabled),
            p matches Some(c) ==> exists|i: int| first_provider_at(self.providers@, key@, i) && *c == self.providers@[i],
            match p { Some(c) => provider_lookup(self.providers@, key@) == Some(*c), None => provider_lookup(self.providers@, key@) is None },
    {
        let wanted = key.to_owned();
        let mut i: usize = 0;
        while i < self.providers.len()
            invariant
                i <= self.providers@.len(),
                wanted@ == key@,
                forall|j: int| 0 <= j < i ==> !(#[trigger] self.providers@[j].key@ == key@ && self.providers@[j].enabled),
            decreases self.providers@.len() - i,
        {
            if self.providers[i].key == wanted && self.providers[i].enabled {
                proof {
                    assert(first_provider_at(self.providers@, key@, i as int));
                    lemma_provider_lookup(self.providers@, key@, i as int);
                }
                return Some(&self.providers[i]);
            }
            i += 1;
        }
        None
    }

    /// The first enabled provider of kind `kind`.
    pub fn give_provider(&self, kind: Provider) -> (p: Option<&ProviderConfig>)
        ensures
            p is None <==> forall|i: int| 0 <= i < self.providers@.len()
                ==> !(#[trigger] self.providers@[i].kind == kind && self.providers@[i].enabled),
            p matches Some(c) ==> exists|i: int| first_kind_at(self.providers@, kind, i) && *c == self.providers@[i],
            match p { Some(c) => kind_lookup(self.providers@, kind) == Some(*c), None => kind_lookup(self.providers@, kind) is None },
    {
        let mut i: usize = 0;
        while i < self.providers.len()
            invariant
                i <= self.providers@.len(),
                forall|j: int| 0 <= j < i ==> !(#[trigger] self.providers@[j].kind == kind && self.providers@[j].enabled),
            decreases self.providers@.len() - i,
        {
            if self.providers[i].kind == kind && self.providers[i].enabled {
                proof {
                    assert(first_kind_at(self.providers@, kind, i as int));
                    lemma_kind_lookup(self.providers@, kind, i as int);
                }
                return Some(&self.providers[i]);
            }
            i += 1;
        }
        None
    }
}

/// A provider, with its texts taken by their views.
pub struct ProviderView {
    pub key: Seq<char>,
    pub name: Seq<char>,
    pub kind: Provider,
    pub api_key: Option<Seq<char>>,
    pub api_url: Option<Seq<char>>,
    pub enabled: bool,
    pub rate_limit: Option<ProviderRateLimitConfig>,
}

impl View for ProviderConfig {
    type V = ProviderView;

    open spec fn view(&self) -> ProviderView {
        ProviderView {
            key: self.key@,
            name: self.name@,
            kind: self.kind,
            api_key: opt_view(self.api_key),
            api_url: opt_view(self.api_url),
            enabled: self.enabled,
            rate_limit: self.rate_limit,
        }
    }
}

/// The environment variables that override the configuration; `None` for a
/// variable that is not set (or not valid Unicode).
pub struct EnvVars {
    pub openai_api_key: Option<String>,
    pub openai_api_url: Option<String>,
    pub anthropic_api_key: Option<String>,
    pub anthropic_api_url: Option<String>,
    pub gemini_api_key: Option<String>,
    pub gemini_api_url: Option<String>,
    pub proxy_host: Option<String>,
    pub proxy_port: Option<String>,
}

impl EnvVars {
    /// The API key variable of a provider kind.
    pub open spec fn key_for(&self, kind: Provider) -> Option<Seq<char>> {
        match kind {
            Provider::OpenAI => opt_view(self.openai_api_key),
            Provider::Anthropic => opt_view(self.anthropic_api_key),
            Provider::Gemini => opt_view(self.gemini_api_key),
        }
    }

    /// The API URL variable of a provider kind.
    pub open spec fn url_for(&self, kind: Provider) -> Option<Seq<char>> {
        match kind {
            Provider::OpenAI => opt_view(self.openai_api_url),
            Provider::Anthropic => opt_view(self.anthropic_api_url),
            Provider::Gemini => opt_view(self.gemini_api_url),
        }
    }

    fn key_var(&self, kind: Provider) -> (v: &Option<String>)
        ensures
            opt_view(*v) == self.key_for(kind),
    {
        match kind {
            Provider::OpenAI => &self.openai_api_key,
            Provider::Anthropic => &self.anthropic_api_key,
            Provider::Gemini => &self.gemini_api_key,
        }
    }

    fn url_var(&self, kind: Provider) -> (v: &Option<String>)
        ensures
            opt_view(*v) == self.url_for(kind),
    {
        match kind {
            Provider::OpenAI => &self.openai_api_url,
            Provider::Anthropic => &self.anthropic_api_url,
            Provider::Gemini => &self.gemini_api_url,
        }
    }
}

/// The official API URL of a provider kind.
pub open spec fn default_api_url_text(kind: Provider) -> Seq<char> {
    match kind {
        Provider::OpenAI => "https://api.openai.com/"@,
        Provider::Anthropic => "https://api.anthropic.com/"@,
        Provider::Gemini => "https://generativelanguage.googleapis.com/"@,
    }
}

/// The error when the official API URL of a kind does not parse.
pub open spec fn default_url_error(kind: Provider) -> Seq<char> {
    match kind {
        Provider::OpenAI => "Failed to parse OpenAI API URL"@,
        Provider::Anthropic => "Failed to parse Anthropic API URL"@,
        Provider::Gemini => "Failed to parse Gemini API URL"@,
    }
}

/// The error when the API URL variable of a kind does not parse.
pub open spec fn invalid_url_error(kind: Provider) -> Seq<char> {
    match kind {
        Provider::OpenAI => "Invalid OPENAI_API_URL format"@,
        Provider::Anthropic => "Invalid ANTHROPIC_API_URL format"@,
        Provider::Gemini => "Invalid GEMINI_API_URL format"@,
    }
}

/// The provider with the API key variable of its kind applied.
pub open spec fn with_env_key(p: ProviderView, env: EnvVars) -> ProviderView {
    match env.key_for(p.kind) {
        Some(k) => ProviderView { api_key: Some(k), ..p },
        None => p,
    }
}

/// The provider with the variables of its kind applied: the API key variable
/// replaces the key; the API URL variable replaces the URL and must parse;
/// without it, a provider with no URL gets the official one.
pub open spec fn merged_provider(p: ProviderView, env: EnvVars) -> Result<ProviderView, Seq<char>> {
    let keyed = with_env_key(p, env);
    match env.url_for(p.kind) {
        Some(u) => match url_parse(u) {
            Some(parsed) => Ok(ProviderView { api_url: Some(parsed), ..keyed }),
            None => Err(invalid_url_error(p.kind)),
        },
        None => {
            if keyed.api_url is Some {
                Ok(keyed)
            } else {
                match url_parse(default_api_url_text(p.kind)) {
                    Some(parsed) => Ok(ProviderView { api_url: Some(parsed), ..keyed }),
                    None => Err(default_url_error(p.kind)),
                }
            }
        },
    }
}

/// What merging the variables of a provider's kind does. A set API URL
/// variable that parses replaces the provider's URL, whatever URL it had; one
/// that does not parse is an error. Without it, a configured URL is kept and a
/// missing one becomes the official URL of the kind. A set API key variable
/// replaces the key; without it the key is kept. Nothing else changes.
pub proof fn lemma_env_overrides(p: ProviderView, env: EnvVars)
    ensures
        env.url_for(p.kind) matches Some(u) ==> (url_parse(u) matches Some(parsed)
            ==> (merged_provider(p, env) matches Ok(v) && v.api_url == Some(parsed))),
        env.url_for(p.kind) matches Some(u) ==> (url_parse(u) is None
            ==> merged_provider(p, env) == Err::<ProviderView, Seq<char>>(invalid_url_error(p.kind))),
        env.url_for(p.kind) is None && p.api_url is Some
            ==> (merged_provider(p, env) matches Ok(v) && v.api_url == p.api_url),
        env.url_for(p.kind) is None && p.api_url is None && url_parse(default_api_url_text(p.kind)) is Some
            ==> (merged_provider(p, env) matches Ok(v) && v.api_url == url_parse(default_api_url_text(p.kind))),
        merged_provider(p, env) matches Ok(v) ==> v.api_key == (match env.key_for(p.kind) {
            Some(k) => Some(k),
            None => p.api_key,
        }),
        merged_provider(p, env) matches Ok(v) ==> (v.key == p.key && v.name == p.name && v.kind == p.kind
            && v.enabled == p.enabled && v.rate_limit == p.rate_limit),
{
}

/// The official OpenAI API URL.
fn openai_api_url() -> (r: Result<String, String>)
    ensures
        match r {
            Ok(u) => url_parse(default_api_url_text(Provider::OpenAI)) == Some(u@),
            Err(e) => url_parse(default_api_url_text(Provider::OpenAI)) is None && e@ == default_url_error(Provider::OpenAI),
        },
{
    match parse_url("https://api.openai.com/") {
        Some(u) => Ok(u),
        None => Err("Failed to parse OpenAI API URL".to_owned()),
    }
}

/// The official Anthropic API URL.
fn anthropic_api_url() -> (r: Result<String, String>)
    ensures
        match r {
            Ok(u) => url_parse(default_api_url_text(Provider::Anthropic)) == Some(u@),
            Err(e) => url_parse(default_api_url_text(Provider::Anthropic)) is None
                && e@ == default_url_error(Provider::Anthropic),
        },
{
    match parse_url("https://api.anthropic.com/") {
        Some(u) => Ok(u),
        None => Err("Failed to parse Anthropic API URL".to_owned()),
    }
}

/// The official Gemini API URL.
fn gemini_api_url() -> (r: Result<String, String>)
    ensures
        match r {
            Ok(u) => url_parse(default_api_url_text(Provider::Gemini)) == Some(u@),
            Err(e) => url_parse(default_api_url_text(Provider::Gemini)) is None && e@ == default_url_error(Provider::Gemini),
        },
{
    match parse_url("https://generativelanguage.googleapis.com/") {
        Some(u) => Ok(u),
        None => Err("Failed to parse Gemini API URL".to_owned()),
    }
}

fn invalid_url_message(kind: Provider) -> (m: String)
    ensures
        m@ == invalid_url_error(kind),
{
    match kind {
        Provider::OpenAI => "Invalid OPENAI_API_URL format".to_owned(),
        Provider::Anthropic => "Invalid ANTHROPIC_API_URL format".to_owned(),
        Provider::Gemini => "Invalid GEMINI_API_URL format".to_owned(),
    }
}

fn clone_text(s: &String) -> (r: String)
    ensures
        r@ == s@,
{
    s.clone()
}

fn merge_provider_env(p: &mut ProviderConfig, env: &EnvVars) -> (r: Result<(), String>)
    ensures
        match merged_provider(old(p)@, *env) {
            Ok(v) => r is Ok && final(p)@ == v,
            Err(e) => (r matches Err(m) && m@ == e) && final(p)@ == with_env_key(old(p)@, *env),
        },
{
    let kind = p.kind;
    if let Some(k) = env.key_var(kind) {
        p.api_key = Some(clone_text(k));
    }
    if let Some(u) = env.url_var(kind) {
        match parse_url(u.as_str()) {
            Some(parsed) => {
                p.api_url = Some(parsed);
            },
            None => {
                return Err(invalid_url_message(kind));
            },
        }
    } else if p.api_url.is_none() {
        let official = match kind {
            Provider::OpenAI => openai_api_url(),
            Provider::Anthropic => anthropic_api_url(),
            Provider::Gemini => gemini_api_url(),
        };
        match official {
            Ok(parsed) => {
                p.api_url = Some(parsed);
            },
            Err(e) => {
                return Err(e);
            },
        }
    }
    Ok(())
}

/// The format of a configuration file.
#[derive(Debug, Clone, Copy, PartialEq, Eq, Structural)]
pub enum ConfigFormat {
    Json,
    Yaml,
}

/// What `str::to_lowercase` gives: the full Unicode lowercase mapping.
pub uninterp spec fn lowercase(s: Seq<char>) -> Seq<char>;

/// `str::to_lowercase`. Claimed: the result is a function of `s` alone.
#[verifier::external_body]
fn to_lowercase(s: &str) -> (r: String)
    ensures
        r@ == lowercase(s@),
{
    s.to_lowercase()
}

/// The names of the enabled providers that have no API key, in order.
pub open spec fn keys_missing_api_key(providers: Seq<ProviderConfig>) -> Seq<Seq<char>>
    decreases providers.len(),
{
    if providers.len() == 0 {
        Seq::empty()
    } else {
        let rest = keys_missing_api_key(providers.drop_last());
        let p = providers.last();
        if p.enabled && p.api_key is None { rest.push(p.key@) } else { rest }
    }
}

impl Config {
    /// Applies the environment variables: to each provider in order those of
    /// its kind (see `merged_provider`), then the proxy host and, when it
    /// parses, the proxy port. The first provider whose URL does not parse
    /// stops the merge with an error; the providers before it are merged,
    /// it has its API key applied, and the rest and the host and port are
    /// untouched.
    pub fn merge_env(&mut self, env: &EnvVars) -> (r: Result<(), String>)
        ensures
            final(self).providers@.len() == old(self).providers@.len(),
            final(self).models == old(self).models,
            final(self).stats == old(self).stats,
            final(self).rate_limit == old(self).rate_limit,
            final(self).circuit_breaker == old(self).circuit_breaker,
            final(self).timeout == old(self).timeout,
            final(self).shutdown == old(self).shutdown,
            match r {
                Ok(_) => {
                    &&& forall|i: int| 0 <= i < old(self).providers@.len()
                        ==> #[trigger] merged_provider(old(self).providers@[i]@, *env) == Ok::<ProviderView, Seq<char>>(final(self).providers@[i]@)
                    &&& final(self).host@ == (match opt_view(env.proxy_host) { Some(h) => h, None => old(self).host@ })
                    &&& final(self).port == (match env.proxy_port {
                        Some(p) => match parsed_u16(p@) { Some(n) => n, None => old(self).port },
                        None => old(self).port,
                    })
                },
                Err(e) => exists|i: int| {
                    &&& 0 <= i < old(self).providers@.len()
                    &&& forall|j: int| 0 <= j < i
                        ==> #[trigger] merged_provider(old(self).providers@[j]@, *env) == Ok::<ProviderView, Seq<char>>(final(self).providers@[j]@)
                    &&& merged_provider(old(self).providers@[i]@, *env) == Err::<ProviderView, Seq<char>>(e@)
                    &&& final(self).providers@[i]@ == with_env_key(old(self).providers@[i]@, *env)
                    &&& forall|j: int| i < j < old(self).providers@.len() ==> #[trigger] final(self).providers@[j] == old(self).providers@[j]
                    &&& final(self).host == old(self).host
                    &&& final(self).port == old(self).port
                },
            },
    {
        let n = self.providers.len();
        let ghost before = self.providers@;
        let mut i: usize = 0;
        while i < n
            invariant
                n == before.len(),
                before == old(self).providers@,
                self.providers@.len() == n,
                i <= n,
                forall|j: int| 0 <= j < i ==> #[trigger] merged_provider(before[j]@, *env) == Ok::<ProviderView, Seq<char>>(self.providers@[j]@),
                forall|j: int| i <= j < n ==> #[trigger] self.providers@[j] == before[j],
                self.models == old(self).models,
                self.host == old(self).host,
                self.port == old(self).port,
                self.stats == old(self).stats,
                self.rate_limit == old(self).rate_limit,
                self.circuit_breaker == old(self).circuit_breaker,
                self.timeout == old(self).timeout,
                self.shutdown == old(self).shutdown,
            decreases n - i,
        {
            let ghost prev = self.providers@;
            let r = merge_provider_env(&mut self.providers[i], env);
            proof {
                assert(self.providers@.len() == n);
                assert(forall|j: int| 0 <= j < n && j != i ==> self.providers@[j] == prev[j]);
            }
            match r {
                Err(e) => {
                    proof {
                        assert(merged_provider(before[i as int]@, *env) == Err::<ProviderView, Seq<char>>(e@));
                        assert(forall|j: int| 0 <= j < i ==> #[trigger] merged_provider(before[j]@, *env) == Ok::<ProviderView, Seq<char>>(self.providers@[j]@));
                    }
                    return Err(e);
                },
                Ok(_) => {},
            }
            i += 1;
        }
        if let Some(h) = &env.proxy_host {
            self.host = clone_text(h);
        }
        if let Some(p) = &env.proxy_port {
            if let Some(port) = parse_u16(p.as_str()) {
                self.port = port;
            }
        }
        Ok(())
    }

    /// The names of the enabled providers that have no API key, in order: the
    /// providers to warn about.
    pub fn validate(&self) -> (missing: Vec<String>)
        ensures
            missing@.map_values(|s: String| s@) == keys_missing_api_key(self.providers@),
    {
        let mut missing: Vec<String> = Vec::new();
        let mut i: usize = 0;
        while i < self.providers.len()
            invariant
                i <= self.providers@.len(),
                missing@.map_values(|s: String| s@) == keys_missing_api_key(self.providers@.take(i as int)),
            decreases self.providers@.len() - i,
        {
            let p = &self.providers[i];
            proof { assert(self.providers@.take(i + 1).drop_last() =~= self.providers@.take(i as int)); }
            if p.enabled && p.api_key.is_none() {
                missing.push(clone_text(&p.key));
                proof {
                    assert(missing@.map_values(|s: String| s@) =~= keys_missing_api_key(self.providers@.take(i as int)).push(p.key@));
                }
            }
            i += 1;
        }
        proof { assert(self.providers@.take(self.providers@.len() as int) =~= self.providers@); }
        missing
    }

    /// The format of a configuration file by its extension, compared in lower
    /// case: `json`, or `yaml` or `yml`.
    pub fn file_format(extension: Option<&str>) -> (r: Result<ConfigFormat, String>)
        ensures
            match extension {
                None => r matches Err(e) && e@ == "File must have an extension (.json or .yaml)"@,
                Some(ext) => {
                    let l = lowercase(ext@);
                    if l == "json"@ {
                        r == Ok::<ConfigFormat, String>(ConfigFormat::Json)
                    } else if l == "yaml"@ || l == "yml"@ {
                        r == Ok::<ConfigFormat, String>(ConfigFormat::Yaml)
                    } else {
                        r matches Err(e) && e@ == "Unsupported file extension: ."@ + l
                    }
                },
            },
    {
        match extension {
            None => Err("File must have an extension (.json or .yaml)".to_owned()),
            Some(ext) => {
                let l = to_lowercase(ext);
                if l == "json".to_owned() {
                    Ok(ConfigFormat::Json)
                } else if l == "yaml".to_owned() || l == "yml".to_owned() {
                    Ok(ConfigFormat::Yaml)
                } else {
                    let mut e = "Unsupported file extension: .".to_owned();
                    e.append(l.as_str());
                    Err(e)
                }
            },
        }
    }
}

/// The state that the proxy's request handling reads and changes.
pub struct AppState {
    pub config: Config,
    pub stats: StatsCollector,
    pub rate_limiter: RateLimiter,
    pub circuit_breakers: CircuitBreakerRegistry,
    /// Whether each provider, by key, is known to be healthy.
    pub health_status: Table<bool>,
}

impl AppState {
    /// The state for `config`: no statistics, no breakers, no health known,
    /// and a rate limiter with the configured limits.
    pub fn new(config: Config) -> (s: Self)
        ensures
            s.config == config,
            s.stats@.total == Counts::zero(),
            s.stats@.by_provider.len() == 0,
            s.stats@.by_model.len() == 0,
            s.rate_limiter@.config == (LimiterConfig {
                enabled: config.rate_limit.enabled,
                default_rpm: config.rate_limit.default_rpm,
                default_tpm: config.rate_limit.default_tpm,
                burst: config.rate_limit.burst,
            }),
            s.rate_limiter@.buckets == Map::<Seq<char>, (BucketState, BucketState)>::empty(),
            s.circuit_breakers@ == Map::<Seq<char>, crate::circuit_breaker::CircuitBreakerView>::empty(),
            s.health_status@ == Map::<Seq<char>, bool>::empty(),
            s.health_status.pairs().len() == 0,
    {
        let limits = LimiterConfig {
            enabled: config.rate_limit.enabled,
            default_rpm: config.rate_limit.default_rpm,
            default_tpm: config.rate_limit.default_tpm,
            burst: config.rate_limit.burst,
        };
        AppState {
            config,
            stats: StatsCollector::new(),
            rate_limiter: RateLimiter::new(limits),
            circuit_breakers: CircuitBreakerRegistry::new(),
            health_status: Table::new(),
        }
    }
}

} // verus!
