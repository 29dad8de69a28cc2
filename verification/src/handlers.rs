//! Request handling decisions: which upstream a request goes to, with which
//! key and model, whether it is let through (statistics, rate limit, circuit
//! breaker), and how the upstream request is addressed.
//!
//! The network exchange itself happens outside this library; it hands back
//! whether the exchange succeeded through `AppState::record_outcome`.

pub mod gemini;
pub mod openai;

use vstd::prelude::*;
use crate::circuit_breaker::{CircuitBreakerConfig, CircuitBreakerView};
use crate::clock::{duration_from_secs, duration_of_secs};
use crate::config::{
    first_kind_at, first_provider_at, kind_lookup, model_lookup, provider_lookup, AppState, Config,
    CircuitBreakerConfig as BreakerSettings, Provider, ReplaceConfig,
};
use crate::error::{ErrorView, ProxyError};
use crate::rate_limit::{RateLimitResult, RateLimiterView};
use crate::stats::{CountField, StatsView};
use crate::text::{decimal, mask_secret, masked_text, push_decimal};
use crate::urls::{join_url, opt_view, url_join};

verus! {

/// Where and how a request goes upstream.
#[derive(Debug, Clone)]
pub struct Route {
    /// The key of the chosen provider.
    pub provider_key: String,
    pub kind: Provider,
    /// The model asked for, after any replacement by its route.
    pub model: String,
    /// The API key sent upstream.
    pub api_key: String,
    /// The provider's API URL.
    pub api_url: String,
}

/// A route, with its texts taken by their views.
pub struct RouteView {
    pub provider_key: Seq<char>,
    pub kind: Provider,
    pub model: Seq<char>,
    pub api_key: Seq<char>,
    pub api_url: Seq<char>,
}

impl View for Route {
    type V = RouteView;

    open spec fn view(&self) -> RouteView {
        RouteView {
            provider_key: self.provider_key@,
            kind: self.kind,
            model: self.model@,
            api_key: self.api_key@,
            api_url: self.api_url@,
        }
    }
}

/// The route of a request for `model` that presented `presented_key` (empty
/// for none): the provider of the model's route, else the first enabled
/// provider of kind `fallback` (with `missing` as the error when there is
/// none); the route may replace the model and decide whether the provider's
/// own key is used, which otherwise happens when no key was presented.
pub open spec fn route_for(
    config: Config,
    model: Seq<char>,
    presented_key: Seq<char>,
    fallback: Provider,
    missing: Seq<char>,
) -> Result<RouteView, ErrorView> {
    let routed = match model_lookup(config.models@, model) {
        Some(m) => match m.provider {
            Some(p) => (provider_lookup(config.providers@, p@), m.replace),
            None => (None, None),
        },
        None => (None, None),
    };
    let provider = match routed.0 {
        Some(p) => Some(p),
        None => kind_lookup(config.providers@, fallback),
    };
    match provider {
        None => Err(ErrorView::ConfigError(missing)),
        Some(p) => {
            let use_own_key = match routed.1 {
                Some(rc) => rc.api_key,
                None => presented_key.len() == 0,
            };
            let final_model = match routed.1 {
                Some(rc) => match rc.model {
                    Some(m2) => m2@,
                    None => model,
                },
                None => model,
            };
            let key = if use_own_key {
                match p.api_key {
                    Some(k) => Ok(k@),
                    None => Err(ErrorView::ConfigError("API key not configured"@)),
                }
            } else {
                Ok(presented_key)
            };
            match key {
                Err(e) => Err(e),
                Ok(k) => match p.api_url {
                    None => Err(ErrorView::ConfigError("API URL not configured"@)),
                    Some(u) => Ok(RouteView { provider_key: p.key@, kind: p.kind, model: final_model, api_key: k, api_url: u@ }),
                },
            }
        },
    }
}

fn owned(s: &String) -> (r: String)
    ensures
        r@ == s@,
{
    s.clone()
}

/// Chooses the route of a request (see `route_for`).
pub fn resolve_route(config: &Config, model: &str, presented_key: &str, fallback: Provider, missing: &str) -> (r: Result<Route, ProxyError>)
    ensures
        match r {
            Ok(route) => route_for(*config, model@, presented_key@, fallback, missing@) == Ok::<RouteView, ErrorView>(route@),
            Err(e) => route_for(*config, model@, presented_key@, fallback, missing@) == Err::<RouteView, ErrorView>(e@),
        },
{
    let mut provider_config = None;
    let mut replace_config = None;
    if let Some(model_config) = config.find_model(model) {
        if let Some(provider) = &model_config.provider {
            replace_config = match &model_config.replace {
                Some(rc) => Some(rc),
                None => None,
            };
            provider_config = config.find_provider(provider.as_str());
        }
    }
    if provider_config.is_none() {
        provider_config = config.give_provider(fallback);
    }
    let provider_config = match provider_config {
        Some(p) => p,
        None => {
            return Err(ProxyError::ConfigError(missing.to_owned()));
        },
    };
    let mut use_own_key = presented_key.unicode_len() == 0;
    let mut final_model = model.to_owned();
    if let Some(rc) = replace_config {
        use_own_key = rc.api_key;
        if let Some(m2) = &rc.model {
            final_model = owned(m2);
        }
    }
    let api_key = if use_own_key {
        match &provider_config.api_key {
            Some(k) => owned(k),
            None => {
                return Err(ProxyError::ConfigError("API key not configured".to_owned()));
            },
        }
    } else {
        presented_key.to_owned()
    };
    let api_url = match &provider_config.api_url {
        Some(u) => owned(u),
        None => {
            return Err(ProxyError::ConfigError("API URL not configured".to_owned()));
        },
    };
    Ok(Route { provider_key: owned(&provider_config.key), kind: provider_config.kind, model: final_model, api_key, api_url })
}

/// The replacement that the route of `model` applies, if any: a model route
/// that names a provider brings its `replace` settings.
pub open spec fn replacement_of(config: Config, model: Seq<char>) -> Option<ReplaceConfig> {
    match model_lookup(config.models@, model) {
        Some(m) => if m.provider is Some { m.replace } else { None },
        None => None,
    }
}

/// `api_key` is the own key of an enabled provider of the configuration with
/// key `provider_key`.
pub open spec fn holds_own_key(config: Config, provider_key: Seq<char>, api_key: Seq<char>) -> bool {
    exists|i: int|
        0 <= i < config.providers@.len() && #[trigger] config.providers@[i].key@ == provider_key
            && config.providers@[i].enabled && (config.providers@[i].api_key matches Some(k) && k@ == api_key)
}

/// Which key and model a route sends upstream. When the model's route
/// replaces something, the provider's own key is sent exactly when the
/// replacement asks for it, whatever it does to the model, and otherwise the
/// key the client presented; the model sent is the replacement model if it
/// names one. Without a replacement, the presented key is sent, or the
/// provider's own key when none was presented, with the model asked for.
pub proof fn lemma_route_key_and_model(
    config: Config,
    model: Seq<char>,
    presented_key: Seq<char>,
    fallback: Provider,
    missing: Seq<char>,
    route: RouteView,
)
    requires
        route_for(config, model, presented_key, fallback, missing) == Ok::<RouteView, ErrorView>(route),
    ensures
        replacement_of(config, model) matches Some(rc) ==> (rc.api_key ==> holds_own_key(config, route.provider_key, route.api_key)),
        replacement_of(config, model) matches Some(rc) ==> (!rc.api_key ==> route.api_key == presented_key),
        replacement_of(config, model) matches Some(rc) ==> route.model == (match rc.model {
            Some(m2) => m2@,
            None => model,
        }),
        replacement_of(config, model) is None && presented_key.len() > 0 ==> route.api_key == presented_key,
        replacement_of(config, model) is None && presented_key.len() == 0 ==> holds_own_key(config, route.provider_key, route.api_key),
        replacement_of(config, model) is None ==> route.model == model,
{
    let routed_provider = match model_lookup(config.models@, model) {
        Some(m) => match m.provider {
            Some(p) => provider_lookup(config.providers@, p@),
            None => None,
        },
        None => None,
    };
    let ps = config.providers@;
    let p = match routed_provider {
        Some(p) => p,
        None => kind_lookup(ps, fallback)->0,
    };
    let i: int = if routed_provider is Some {
        let key = match model_lookup(config.models@, model) { Some(m) => m.provider->0@, None => Seq::empty() };
        choose|i: int| first_provider_at(ps, key, i)
    } else {
        choose|i: int| first_kind_at(ps, fallback, i)
    };
    if routed_provider is Some {
        let key = match model_lookup(config.models@, model) { Some(m) => m.provider->0@, None => Seq::empty() };
        assert(first_provider_at(ps, key, i));
    } else {
        assert(first_kind_at(ps, fallback, i));
    }
    assert(ps[i] == p);
    assert(route.provider_key == p.key@);
}

/// The parts of the state that letting a request through changes.
pub struct GuardView {
    pub stats: StatsView,
    pub limiter: RateLimiterView,
    pub breakers: Map<Seq<char>, CircuitBreakerView>,
}

/// The breaker settings that the configuration gives every provider.
pub open spec fn breaker_config(c: BreakerSettings) -> CircuitBreakerConfig {
    CircuitBreakerConfig {
        failure_threshold: c.failure_threshold,
        success_threshold: c.success_threshold,
        timeout: duration_of_secs(c.timeout_secs),
    }
}

/// The breaker of `key`, a fresh one made with `c` if it has none.
pub open spec fn breaker_of(breakers: Map<Seq<char>, CircuitBreakerView>, key: Seq<char>, c: BreakerSettings) -> CircuitBreakerView {
    if breakers.contains_key(key) { breakers[key] } else { CircuitBreakerView::fresh(breaker_config(c)) }
}

/// Letting a request through on `route` at clock reading `now`, given whether the
/// timeout of its provider's breaker has passed: the request is counted; when
/// rate limiting is on, the route's API key must get one request through the
/// limiter; then the provider's breaker must let it through.
pub open spec fn admission(config: Config, g: GuardView, route: RouteView, now: nat, timeout_elapsed: bool) -> (Result<(), ErrorView>, GuardView) {
    let stats = g.stats.bumped(route.provider_key, route.model, CountField::Requests, 1);
    let (limit, limiter) = if config.rate_limit.enabled {
        g.limiter.check(route.api_key, 1, now)
    } else {
        (RateLimitResult::Allowed, g.limiter)
    };
    match limit {
        RateLimitResult::Denied { retry_after, .. } => (
            Err(ErrorView::RateLimitExceeded { limit: 60, window: "per minute"@, retry_after }),
            GuardView { stats, limiter, breakers: g.breakers },
        ),
        RateLimitResult::Allowed => {
            let (allowed, b) = breaker_of(g.breakers, route.provider_key, config.circuit_breaker).admission(timeout_elapsed);
            let after = GuardView { stats, limiter, breakers: g.breakers.insert(route.provider_key, b) };
            if allowed {
                (Ok(()), after)
            } else {
                (Err(ErrorView::CircuitOpen { provider: route.provider_key }), after)
            }
        },
    }
}

impl AppState {
    /// The parts of the state that letting a request through changes.
    pub open spec fn guard(&self) -> GuardView {
        GuardView { stats: self.stats@, limiter: self.rate_limiter@, breakers: self.circuit_breakers@ }
    }

    fn breaker_settings(&self) -> (c: CircuitBreakerConfig)
        ensures
            c == breaker_config(self.config.circuit_breaker),
    {
        CircuitBreakerConfig {
            failure_threshold: self.config.circuit_breaker.failure_threshold,
            success_threshold: self.config.circuit_breaker.success_threshold,
            timeout: duration_from_secs(self.config.circuit_breaker.timeout_secs),
        }
    }

    /// Lets a request through the guard on `route` at clock reading `now`, given whether the
    /// timeout of its provider's breaker has passed (see `admission`).
    pub fn pass_guard_at(&mut self, route: &Route, now: u128, timeout_elapsed: bool) -> (r: Result<(), ProxyError>)
        requires
            old(self).config.rate_limit.enabled ==> !old(self).rate_limiter@.check_has_no_wait(route.api_key@, 1, now as nat),
        ensures
            (match r { Ok(_) => Ok::<(), ErrorView>(()), Err(e) => Err::<(), ErrorView>(e@) }, final(self).guard())
                == admission(old(self).config, old(self).guard(), route@, now as nat, timeout_elapsed),
            final(self).config == old(self).config,
            final(self).health_status == old(self).health_status,
    {
        self.stats.record_request(route.provider_key.as_str(), route.model.as_str());
        if self.config.rate_limit.enabled {
            let limit = self.rate_limiter.check_rate_limit_at(route.api_key.as_str(), 1, now);
            if let RateLimitResult::Denied { retry_after, .. } = limit {
                return Err(ProxyError::RateLimitExceeded { limit: 60, window: "per minute".to_owned(), retry_after });
            }
        }
        let settings = self.breaker_settings();
        let cb = self.circuit_breakers.get_or_create(route.provider_key.as_str(), settings);
        if !cb.is_allowed_given(timeout_elapsed) {
            return Err(ProxyError::CircuitOpen { provider: owned(&route.provider_key) });
        }
        Ok(())
    }

    /// Lets a request through the guard on `route` now (see `admission`), reading the clock
    /// for the rate limiter and, when the breaker is open, for its timeout.
    pub fn pass_guard(&mut self, route: &Route) -> (r: Result<(), ProxyError>)
        requires
            old(self).config.rate_limit.enabled && old(self).rate_limiter@.config.enabled
                ==> old(self).rate_limiter@.config.default_rpm > 0 && old(self).rate_limiter@.config.default_tpm > 0,
        ensures
            exists|now: nat, timeout_elapsed: bool|
                (match r { Ok(_) => Ok::<(), ErrorView>(()), Err(e) => Err::<(), ErrorView>(e@) }, final(self).guard())
                    == #[trigger] admission(old(self).config, old(self).guard(), route@, now, timeout_elapsed),
            final(self).config == old(self).config,
            final(self).health_status == old(self).health_status,
    {
        self.stats.record_request(route.provider_key.as_str(), route.model.as_str());
        let ghost mut now: nat = 0;
        if self.config.rate_limit.enabled {
            let limit = self.rate_limiter.check_rate_limit(route.api_key.as_str(), 1);
            proof {
                now = choose|n: nat| (limit, self.rate_limiter@) == #[trigger] old(self).rate_limiter@.check(route.api_key@, 1, n);
            }
            if let RateLimitResult::Denied { retry_after, .. } = limit {
                let e = ProxyError::RateLimitExceeded { limit: 60, window: "per minute".to_owned(), retry_after };
                proof {
                    let _ = admission(old(self).config, old(self).guard(), route@, now, false);
                }
                return Err(e);
            }
        }
        let settings = self.breaker_settings();
        let cb = self.circuit_breakers.get_or_create(route.provider_key.as_str(), settings);
        let ghost before = *cb;
        let allowed = cb.is_allowed();
        let ghost elapsed = choose|e: bool| (allowed, cb@) == #[trigger] before@.admission(e);
        if !allowed {
            let e = ProxyError::CircuitOpen { provider: owned(&route.provider_key) };
            proof {
                let _ = admission(old(self).config, old(self).guard(), route@, now, elapsed);
            }
            return Err(e);
        }
        proof {
            let _ = admission(old(self).config, old(self).guard(), route@, now, elapsed);
        }
        Ok(())
    }

    /// Records on the breaker of `provider_key` whether the upstream exchange
    /// of a request let through succeeded.
    pub fn record_outcome(&mut self, provider_key: &str, success: bool)
        ensures
            final(self).circuit_breakers@ == old(self).circuit_breakers@.insert(
                provider_key@,
                if success {
                    breaker_of(old(self).circuit_breakers@, provider_key@, old(self).config.circuit_breaker).after_success()
                } else {
                    breaker_of(old(self).circuit_breakers@, provider_key@, old(self).config.circuit_breaker).after_failure()
                },
            ),
            final(self).config == old(self).config,
            final(self).stats@ == old(self).stats@,
            final(self).rate_limiter@ == old(self).rate_limiter@,
            final(self).health_status == old(self).health_status,
    {
        let settings = self.breaker_settings();
        let cb = self.circuit_breakers.get_or_create(provider_key, settings);
        if success {
            cb.record_success();
        } else {
            cb.record_failure();
        }
    }
}

/// `r` and `after` are what letting a request on `route` through the guard
/// gives, for some clock reading and some state of the breaker's timeout:
/// the route back when it passes, else the error.
pub open spec fn guarded(config: Config, g: GuardView, route: RouteView, r: Result<Route, ProxyError>, after: GuardView) -> bool {
    exists|now: nat, timeout_elapsed: bool| {
        let (outcome, guard) = #[trigger] admission(config, g, route, now, timeout_elapsed);
        &&& after == guard
        &&& match outcome {
            Ok(_) => r matches Ok(x) && x@ == route,
            Err(e) => r matches Err(x) && x@ == e,
        }
    }
}

/// Lets a request on `route` through the guard and gives the route back when it
/// passes.
pub(crate) fn pass_guard_like(state: &mut AppState, route: Route) -> (r: Result<Route, ProxyError>)
    requires
        old(state).config.rate_limit.enabled && old(state).rate_limiter@.config.enabled
            ==> old(state).rate_limiter@.config.default_rpm > 0 && old(state).rate_limiter@.config.default_tpm > 0,
    ensures
        final(state).config == old(state).config,
        final(state).health_status == old(state).health_status,
        guarded(old(state).config, old(state).guard(), route@, r, final(state).guard()),
{
    match state.pass_guard(&route) {
        Ok(()) => Ok(route),
        Err(e) => Err(e),
    }
}

/// The label of a provider kind in upstream errors.
pub open spec fn kind_label(kind: Provider) -> Seq<char> {
    match kind {
        Provider::OpenAI => "openai"@,
        Provider::Anthropic => "anthropic"@,
        Provider::Gemini => "gemini"@,
    }
}

/// The label of a provider kind in upstream errors.
pub fn provider_label(kind: Provider) -> (s: String)
    ensures
        s@ == kind_label(kind),
{
    match kind {
        Provider::OpenAI => "openai".to_owned(),
        Provider::Anthropic => "anthropic".to_owned(),
        Provider::Gemini => "gemini".to_owned(),
    }
}

/// The path (and query) of the upstream endpoint for a request of `model`
/// with key `api_key` to a provider of kind `kind`.
pub open spec fn endpoint_path(kind: Provider, model: Seq<char>, api_key: Seq<char>, streaming: bool) -> Seq<char> {
    match kind {
        Provider::OpenAI => "/v1/chat/completions"@,
        Provider::Anthropic => "/v1/messages"@,
        Provider::Gemini => if streaming {
            "/v1beta/models/"@ + model + ":streamGenerateContent?key="@ + api_key + "&alt=sse"@
        } else {
            "/v1beta/models/"@ + model + ":generateContent?key="@ + api_key
        },
    }
}

/// The path (and query) of the upstream endpoint (see `endpoint_path`).
pub fn upstream_path(kind: Provider, model: &str, api_key: &str, streaming: bool) -> (p: String)
    ensures
        p@ == endpoint_path(kind, model@, api_key@, streaming),
{
    match kind {
        Provider::OpenAI => "/v1/chat/completions".to_owned(),
        Provider::Anthropic => "/v1/messages".to_owned(),
        Provider::Gemini => {
            let mut p = "/v1beta/models/".to_owned();
            p.append(model);
            if streaming {
                p.append(":streamGenerateContent?key=");
                p.append(api_key);
                p.append("&alt=sse");
            } else {
                p.append(":generateContent?key=");
                p.append(api_key);
            }
            p
        },
    }
}

/// The URL of the upstream endpoint of `route`: its path resolved against the
/// provider's API URL; an error when that fails.
pub fn upstream_url(route: &Route, streaming: bool) -> (r: Result<String, ProxyError>)
    ensures
        match url_join(route.api_url@, endpoint_path(route.kind, route.model@, route.api_key@, streaming)) {
            Some(u) => r matches Ok(s) && s@ == u,
            None => r matches Err(e) && e@ == ErrorView::ConfigError("Invalid URL"@),
        },
{
    let path = upstream_path(route.kind, route.model.as_str(), route.api_key.as_str(), streaming);
    match join_url(route.api_url.as_str(), path.as_str()) {
        Some(u) => Ok(u),
        None => Err(ProxyError::ConfigError("Invalid URL".to_owned())),
    }
}

/// A header name and value.
pub open spec fn header_view(h: (String, String)) -> (Seq<char>, Seq<char>) {
    (h.0@, h.1@)
}

/// The headers of an upstream request to a provider of kind `kind`.
pub open spec fn headers_for(kind: Provider, api_key: Seq<char>) -> Seq<(Seq<char>, Seq<char>)> {
    match kind {
        Provider::OpenAI => seq![("authorization"@, "Bearer "@ + api_key), ("content-type"@, "application/json"@)],
        Provider::Anthropic => seq![
            ("x-api-key"@, api_key),
            ("anthropic-version"@, "2023-06-01"@),
            ("content-type"@, "application/json"@),
        ],
        Provider::Gemini => seq![("content-type"@, "application/json"@)],
    }
}

/// The headers of an upstream request (see `headers_for`).
pub fn upstream_headers(kind: Provider, api_key: &str) -> (h: Vec<(String, String)>)
    ensures
        h@.map_values(|x: (String, String)| header_view(x)) == headers_for(kind, api_key@),
{
    let mut h: Vec<(String, String)> = Vec::new();
    match kind {
        Provider::OpenAI => {
            let mut bearer = "Bearer ".to_owned();
            bearer.append(api_key);
            h.push(("authorization".to_owned(), bearer));
            h.push(("content-type".to_owned(), "application/json".to_owned()));
        },
        Provider::Anthropic => {
            h.push(("x-api-key".to_owned(), api_key.to_owned()));
            h.push(("anthropic-version".to_owned(), "2023-06-01".to_owned()));
            h.push(("content-type".to_owned(), "application/json".to_owned()));
        },
        Provider::Gemini => {
            h.push(("content-type".to_owned(), "application/json".to_owned()));
        },
    }
    proof { assert(h@.map_values(|x: (String, String)| header_view(x)) =~= headers_for(kind, api_key@)); }
    h
}

/// Every upstream request declares its body as JSON, and carries the key
/// where its kind expects it: an OpenAI request as a bearer token, an
/// Anthropic request in `x-api-key` beside the API version.
pub proof fn lemma_upstream_headers(kind: Provider, api_key: Seq<char>)
    ensures
        headers_for(kind, api_key).contains(("content-type"@, "application/json"@)),
        kind == Provider::OpenAI ==> headers_for(kind, api_key).contains(("authorization"@, "Bearer "@ + api_key)),
        kind == Provider::Anthropic ==> headers_for(kind, api_key).contains(("x-api-key"@, api_key)),
        kind == Provider::Anthropic ==> headers_for(kind, api_key).contains(("anthropic-version"@, "2023-06-01"@)),
{
    let h = headers_for(kind, api_key);
    match kind {
        Provider::OpenAI => {
            assert(h[0] == ("authorization"@, "Bearer "@ + api_key));
            assert(h[1] == ("content-type"@, "application/json"@));
        },
        Provider::Anthropic => {
            assert(h[0] == ("x-api-key"@, api_key));
            assert(h[1] == ("anthropic-version"@, "2023-06-01"@));
            assert(h[2] == ("content-type"@, "application/json"@));
        },
        Provider::Gemini => {
            assert(h[0] == ("content-type"@, "application/json"@));
        },
    }
}

/// A successful HTTP status: from 200 to 299.
pub open spec fn success_status(status: u16) -> bool {
    200 <= status <= 299
}

/// Whether an upstream answer's HTTP status is successful.
pub fn is_success_status(status: u16) -> (b: bool)
    ensures
        b == success_status(status),
{
    200 <= status && status <= 299
}

/// The error for an upstream exchange of a provider of kind `kind` that
/// failed with `message`.
pub fn upstream_error(kind: Provider, message: String) -> (e: ProxyError)
    ensures
        e@ == (ErrorView::UpstreamError { provider: kind_label(kind), message: message@ }),
{
    ProxyError::UpstreamError { provider: provider_label(kind), message }
}

/// The error for an upstream answer with the unsuccessful HTTP `status` and
/// the body text `body`.
pub fn upstream_status_error(kind: Provider, status: u16, body: &str) -> (e: ProxyError)
    ensures
        e@ == (ErrorView::UpstreamError {
            provider: kind_label(kind),
            message: "HTTP "@ + decimal(status as nat) + ": "@ + body@,
        }),
{
    let mut message = "HTTP ".to_owned();
    push_decimal(&mut message, status as u64);
    message.append(": ");
    message.append(body);
    upstream_error(kind, message)
}

/// The error for an upstream exchange on `route` that failed with `message`,
/// with the route's API key masked in the message.
pub fn exchange_error(route: &Route, message: &str) -> (e: ProxyError)
    ensures
        e@ == (ErrorView::UpstreamError {
            provider: kind_label(route.kind),
            message: masked_text(message@, route.api_key@),
        }),
{
    upstream_error(route.kind, mask_secret(message, route.api_key.as_str()))
}

/// The error for an upstream answer on `route` with the unsuccessful HTTP
/// `status` and the body text `body`, with the route's API key masked in the
/// body.
pub fn answer_status_error(route: &Route, status: u16, body: &str) -> (e: ProxyError)
    ensures
        e@ == (ErrorView::UpstreamError {
            provider: kind_label(route.kind),
            message: "HTTP "@ + decimal(status as nat) + ": "@ + masked_text(body@, route.api_key@),
        }),
{
    let masked = mask_secret(body, route.api_key.as_str());
    upstream_status_error(route.kind, status, masked.as_str())
}

} // verus!
