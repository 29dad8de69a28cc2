//! Requests in the OpenAI chat format (`POST /v1/chat/completions`).

use vstd::prelude::*;
use crate::config::{AppState, Provider};
use crate::error::{ErrorView, ProxyError};
use crate::handlers::{guarded, pass_guard_like, route_for, resolve_route, Route, RouteView};

verus! {

/// The key presented in an `Authorization` header: what follows `Bearer `,
/// or nothing.
pub open spec fn bearer_key(authorization: Option<Seq<char>>) -> Seq<char> {
    match authorization {
        Some(a) => if a.len() >= 7 && a.take(7) == "Bearer "@ { a.skip(7) } else { Seq::empty() },
        None => Seq::empty(),
    }
}

fn strip_bearer(a: &str) -> (k: String)
    ensures
        k@ == bearer_key(Some(a@)),
{
    let prefix = "Bearer ";
    proof { reveal_strlit("Bearer "); }
    let n = a.unicode_len();
    if n < 7 {
        return String::new();
    }
    let mut i: usize = 0;
    while i < 7
        invariant
            i <= 7,
            n == a@.len(),
            n >= 7,
            prefix@ == "Bearer "@,
            prefix@.len() == 7,
            forall|j: int| 0 <= j < i ==> a@[j] == prefix@[j],
        decreases 7 - i,
    {
        if a.get_char(i) != prefix.get_char(i) {
            proof {
                assert(a@.take(7)[i as int] != "Bearer "@[i as int]);
                assert(a@.take(7) != "Bearer "@);
            }
            return String::new();
        }
        i += 1;
    }
    proof { assert(a@.take(7) =~= "Bearer "@); }
    a.substring_char(7, n).to_owned()
}

/// The key presented in an `Authorization` header (see `bearer_key`).
pub fn request_key(authorization: Option<&str>) -> (k: String)
    ensures
        k@ == bearer_key(match authorization { Some(a) => Some(a@), None => None }),
{
    match authorization {
        None => String::new(),
        Some(a) => strip_bearer(a),
    }
}

/// The name of the OpenAI fallback error.
pub open spec fn no_provider_message() -> Seq<char> {
    "No OpenAI provider configured"@
}

/// Decides where an OpenAI-format request for `model` with the given
/// `Authorization` header goes, and lets it through the guard (see
/// `admission`): the first enabled OpenAI provider is the fallback. Nothing
/// changes when no route is found.
pub fn route_request(state: &mut AppState, authorization: Option<&str>, model: &str) -> (r: Result<Route, ProxyError>)
    requires
        old(state).config.rate_limit.enabled && old(state).rate_limiter@.config.enabled
            ==> old(state).rate_limiter@.config.default_rpm > 0 && old(state).rate_limiter@.config.default_tpm > 0,
    ensures
        final(state).config == old(state).config,
        final(state).health_status == old(state).health_status,
        match route_for(
            old(state).config,
            model@,
            bearer_key(match authorization { Some(a) => Some(a@), None => None }),
            Provider::OpenAI,
            no_provider_message(),
        ) {
            Err(e) => (r matches Err(x) && x@ == e) && final(state).guard() == old(state).guard(),
            Ok(route) => guarded(old(state).config, old(state).guard(), route, r, final(state).guard()),
        },
{
    let key = request_key(authorization);
    proof { reveal_strlit("No OpenAI provider configured"); }
    let resolved = resolve_route(&state.config, model, key.as_str(), Provider::OpenAI, "No OpenAI provider configured");
    proof {
        assert(key@ == bearer_key(match authorization { Some(a) => Some(a@), None => None }));
        assert("No OpenAI provider configured"@ == no_provider_message());
    }
    match resolved {
        Ok(route) => {
            let ghost rv = route@;
            let r = pass_guard_like(state, route);
            proof {
                assert(route_for(old(state).config, model@, key@, Provider::OpenAI, no_provider_message()) == Ok::<RouteView, ErrorView>(rv));
            }
            r
        },
        Err(e) => Err(e),
    }
}

} // verus!
