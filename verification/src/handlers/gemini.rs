//! Requests in the Gemini format (`POST /v1beta/models/{model}:{method}`).

use vstd::prelude::*;
use crate::config::{AppState, Config, Provider};
use crate::error::{ErrorView, ProxyError};
use crate::handlers::{breaker_of, guarded, GuardView, pass_guard_like, resolve_route, route_for, Route, RouteView};

verus! {

/// The two methods of the Gemini API that are served.
#[derive(Debug, Clone, Copy, PartialEq, Eq, Structural)]
pub enum GeminiMethod {
    GenerateContent,
    StreamGenerateContent,
}

/// Index `i` holds the last `:` of `s`.
pub open spec fn last_colon_at(s: Seq<char>, i: int) -> bool {
    &&& 0 <= i < s.len()
    &&& s[i] == ':'
    &&& forall|j: int| i < j < s.len() ==> #[trigger] s[j] != ':'
}

/// A path `{model}:{method}` split at its last `:`.
pub open spec fn split_path(s: Seq<char>) -> Option<(Seq<char>, Seq<char>)> {
    if exists|i: int| last_colon_at(s, i) {
        let i = choose|i: int| last_colon_at(s, i);
        Some((s.take(i), s.skip(i + 1)))
    } else {
        None
    }
}

/// The error for a path with no `:`.
pub open spec fn bad_path_error() -> ErrorView {
    ErrorView::InvalidRequest { field: "path"@, message: "Invalid path format, expected {model}:{method}"@ }
}

/// Splits a path `{model}:{method}` at its last `:`.
pub fn split_model_method(path: &str) -> (r: Result<(String, String), ProxyError>)
    ensures
        match split_path(path@) {
            Some((m, f)) => r matches Ok(p) && p.0@ == m && p.1@ == f,
            None => r matches Err(e) && e@ == bad_path_error(),
        },
{
    let n = path.unicode_len();
    let mut i: usize = n;
    while i > 0
        invariant
            i <= n,
            n == path@.len(),
            forall|j: int| i <= j < n ==> #[trigger] path@[j] != ':',
        decreases i,
    {
        if path.get_char(i - 1) == ':' {
            let k = i - 1;
            proof {
                assert(last_colon_at(path@, k as int));
                let c = choose|c: int| last_colon_at(path@, c);
                if c < k {
                    assert(path@[k as int] != ':');
                } else if k < c {
                    assert(path@[c] != ':');
                }
            }
            let model = path.substring_char(0, k).to_owned();
            let method = path.substring_char(k + 1, n).to_owned();
            proof {
                assert(model@ =~= path@.take(k as int));
                assert(method@ =~= path@.skip(k + 1));
            }
            return Ok((model, method));
        }
        i -= 1;
    }
    proof {
        if exists|c: int| last_colon_at(path@, c) {
            let c = choose|c: int| last_colon_at(path@, c);
            assert(path@[c] != ':');
        }
    }
    Err(ProxyError::InvalidRequest {
        field: "path".to_owned(),
        message: "Invalid path format, expected {model}:{method}".to_owned(),
    })
}

/// The method a name denotes.
pub open spec fn method_named(name: Seq<char>) -> Option<GeminiMethod> {
    if name == "generateContent"@ {
        Some(GeminiMethod::GenerateContent)
    } else if name == "streamGenerateContent"@ {
        Some(GeminiMethod::StreamGenerateContent)
    } else {
        None
    }
}

/// The method a name denotes; an error for any other name.
pub fn parse_method(name: &str) -> (r: Result<GeminiMethod, ProxyError>)
    ensures
        match method_named(name@) {
            Some(m) => r == Ok::<GeminiMethod, ProxyError>(m),
            None => r matches Err(e) && e@ == (ErrorView::InvalidRequest { field: "method"@, message: "Unknown method: "@ + name@ }),
        },
{
    let owned = name.to_owned();
    if owned == "generateContent".to_owned() {
        Ok(GeminiMethod::GenerateContent)
    } else if owned == "streamGenerateContent".to_owned() {
        Ok(GeminiMethod::StreamGenerateContent)
    } else {
        let mut message = "Unknown method: ".to_owned();
        message.append(name);
        Err(ProxyError::InvalidRequest { field: "method".to_owned(), message })
    }
}

/// The name of the Gemini fallback error.
pub open spec fn no_provider_message() -> Seq<char> {
    "No Gemini provider configured"@
}

/// The key in the query, or nothing.
pub open spec fn query_key_text(key: Option<Seq<char>>) -> Seq<char> {
    match key {
        Some(k) => k,
        None => Seq::empty(),
    }
}

/// The view of a planned request.
pub open spec fn planned_view(r: Result<(Route, GeminiMethod), ProxyError>) -> Result<(RouteView, GeminiMethod), ErrorView> {
    match r {
        Ok(p) => Ok((p.0@, p.1)),
        Err(e) => Err(e@),
    }
}

/// What follows the guard: a refusal stands; a request that passed is served
/// when its method is, and otherwise refused as a failure of its provider's
/// breaker.
pub open spec fn after_guard(
    config: Config,
    route: RouteView,
    method: Seq<char>,
    passed: Result<Route, ProxyError>,
    after: GuardView,
) -> (Result<(RouteView, GeminiMethod), ErrorView>, GuardView) {
    match passed {
        Err(e) => (Err(e@), after),
        Ok(_) => match method_named(method) {
            Some(m) => (Ok((route, m)), after),
            None => (
                Err(ErrorView::InvalidRequest { field: "method"@, message: "Unknown method: "@ + method }),
                GuardView {
                    breakers: after.breakers.insert(
                        route.provider_key,
                        breaker_of(after.breakers, route.provider_key, config.circuit_breaker).after_failure(),
                    ),
                    ..after
                },
            ),
        },
    }
}

/// `r` and `after` are what passing the guard and then checking the method
/// give (see `guarded` and `after_guard`), for some outcome of the guard.
pub open spec fn served(
    config: Config,
    g: GuardView,
    route: RouteView,
    method: Seq<char>,
    r: Result<(Route, GeminiMethod), ProxyError>,
    after: GuardView,
) -> bool {
    exists|passed: Result<Route, ProxyError>, guard: GuardView|
        #[trigger] guarded(config, g, route, passed, guard)
        && (planned_view(r), after) == after_guard(config, route, method, passed, guard)
}

/// Decides where a Gemini-format request on `path` (`{model}:{method}`) with
/// the query key `key` goes, and lets it through the guard (see `admission`):
/// the first enabled Gemini provider is the fallback. Nothing changes when
/// the path has no `:` or no route is found. A request with a method other
/// than the two served is refused after it has passed the guard, and counts
/// as a failure of its provider's breaker.
pub fn route_request(state: &mut AppState, path: &str, key: Option<&str>) -> (r: Result<(Route, GeminiMethod), ProxyError>)
    requires
        old(state).config.rate_limit.enabled && old(state).rate_limiter@.config.enabled
            ==> old(state).rate_limiter@.config.default_rpm > 0 && old(state).rate_limiter@.config.default_tpm > 0,
    ensures
        final(state).config == old(state).config,
        final(state).health_status == old(state).health_status,
        match split_path(path@) {
            None => (r matches Err(e) && e@ == bad_path_error()) && final(state).guard() == old(state).guard(),
            Some((model, method)) => match route_for(
                old(state).config,
                model,
                query_key_text(match key { Some(k) => Some(k@), None => None }),
                Provider::Gemini,
                no_provider_message(),
            ) {
                Err(e) => (r matches Err(x) && x@ == e) && final(state).guard() == old(state).guard(),
                Ok(route) => served(old(state).config, old(state).guard(), route, method, r, final(state).guard()),
            },
        },
{
    let (model, method) = match split_model_method(path) {
        Ok(p) => p,
        Err(e) => {
            return Err(e);
        },
    };
    let presented = match key {
        Some(k) => k.to_owned(),
        None => String::new(),
    };
    proof { reveal_strlit("No Gemini provider configured"); }
    let resolved = resolve_route(&state.config, model.as_str(), presented.as_str(), Provider::Gemini, "No Gemini provider configured");
    proof {
        assert("No Gemini provider configured"@ == no_provider_message());
    }
    let route = match resolved {
        Ok(route) => route,
        Err(e) => {
            return Err(e);
        },
    };
    let ghost rv = route@;
    let passed = pass_guard_like(state, route);
    let ghost after = state.guard();
    let ghost passed_copy = passed;
    proof {
        assert(guarded(old(state).config, old(state).guard(), rv, passed_copy, after));
        assert(split_path(path@) == Some((model@, method@)));
        assert(presented@ == query_key_text(match key { Some(k) => Some(k@), None => None }));
        assert(route_for(old(state).config, model@, presented@, Provider::Gemini, no_provider_message()) == Ok::<RouteView, ErrorView>(rv));
    }
    match passed {
        Err(e) => {
            proof {
                assert(served(old(state).config, old(state).guard(), rv, method@, Err::<(Route, GeminiMethod), ProxyError>(e), state.guard()));
            }
            return Err(e);
        },
        Ok(route) => {
            match parse_method(method.as_str()) {
                Ok(m) => Ok((route, m)),
                Err(e) => {
                    let key = route.provider_key.clone();
                    state.record_outcome(key.as_str(), false);
                    proof {
                        assert(state.guard() =~= (GuardView {
                            breakers: after.breakers.insert(
                                rv.provider_key,
                                breaker_of(after.breakers, rv.provider_key, old(state).config.circuit_breaker).after_failure(),
                            ),
                            ..after
                        }));
                    }
                    Err(e)
                },
            }
        },
    }
}

} // verus!
