//! Liveness and readiness.

use vstd::prelude::*;
use crate::config::{AppState, Provider, ProviderConfig};

verus! {

/// The answer to a liveness check.
#[derive(Debug, Clone)]
pub struct HealthResponse {
    pub status: String,
    pub version: String,
}

/// The answer to a liveness check of the proxy of version `version`: `ok`.
pub fn health_response(version: &str) -> (h: HealthResponse)
    ensures
        h.status@ == "ok"@,
        h.version@ == version@,
{
    HealthResponse { status: "ok".to_owned(), version: version.to_owned() }
}

/// One provider in a readiness report.
#[derive(Debug, Clone)]
pub struct ProviderHealth {
    pub key: String,
    pub kind: Provider,
    pub enabled: bool,
    pub healthy: bool,
}

/// A readiness report: whether the proxy is ready, and each provider.
#[derive(Debug, Clone)]
pub struct Readiness {
    pub ready: bool,
    pub providers: Vec<ProviderHealth>,
}

/// Whether a provider is known to be healthy; unknown counts as not.
pub open spec fn known_healthy(health: Map<Seq<char>, bool>, key: Seq<char>) -> bool {
    health.contains_key(key) && health[key]
}

/// Ready: every enabled provider is known to be healthy, or there is no
/// provider at all.
pub open spec fn is_ready(providers: Seq<ProviderConfig>, health: Map<Seq<char>, bool>) -> bool {
    (forall|i: int| 0 <= i < providers.len() && #[trigger] providers[i].enabled ==> known_healthy(health, providers[i].key@))
        || providers.len() == 0
}

impl AppState {
    /// The readiness report: each provider in order with its health, and
    /// whether the proxy is ready (see `is_ready`).
    pub fn readiness(&self) -> (r: Readiness)
        ensures
            r.ready == is_ready(self.config.providers@, self.health_status@),
            r.providers@.len() == self.config.providers@.len(),
            forall|i: int| 0 <= i < r.providers@.len() ==> {
                &&& (#[trigger] r.providers@[i]).key@ == self.config.providers@[i].key@
                &&& r.providers@[i].kind == self.config.providers@[i].kind
                &&& r.providers@[i].enabled == self.config.providers@[i].enabled
                &&& r.providers@[i].healthy == known_healthy(self.health_status@, self.config.providers@[i].key@)
            },
    {
        let providers = &self.config.providers;
        let mut all_ready = true;
        let mut report: Vec<ProviderHealth> = Vec::new();
        let mut i: usize = 0;
        while i < providers.len()
            invariant
                i <= providers@.len(),
                providers@ == self.config.providers@,
                report@.len() == i,
                all_ready == forall|j: int| 0 <= j < i && #[trigger] providers@[j].enabled
                    ==> known_healthy(self.health_status@, providers@[j].key@),
                forall|j: int| 0 <= j < i ==> {
                    &&& (#[trigger] report@[j]).key@ == providers@[j].key@
                    &&& report@[j].kind == providers@[j].kind
                    &&& report@[j].enabled == providers@[j].enabled
                    &&& report@[j].healthy == known_healthy(self.health_status@, providers@[j].key@)
                },
            decreases providers@.len() - i,
        {
            let p = &providers[i];
            let healthy = match self.health_status.get(p.key.as_str()) {
                Some(h) => *h,
                None => false,
            };
            if p.enabled && !healthy {
                all_ready = false;
            }
            report.push(ProviderHealth { key: p.key.clone(), kind: p.kind, enabled: p.enabled, healthy });
            i += 1;
        }
        Readiness { ready: all_ready || providers.len() == 0, providers: report }
    }
}

} // verus!
