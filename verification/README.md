# crewride

An HTTP proxy in front of the OpenAI, Anthropic and Gemini chat APIs. A
request in the OpenAI or the Gemini format is routed to a configured provider,
counted, rate limited per API key, guarded by a circuit breaker per provider,
translated to the provider's format, and its answer (whole or streamed)
translated back.

## Layout

- `src/` — the library, verified with Verus:
  - `config.rs` — configuration, defaults, lookups, environment overrides,
    the shared state;
  - `handlers.rs`, `handlers/openai.rs`, `handlers/gemini.rs` — routing of a
    request, the checks it passes before going upstream, and the upstream
    address and headers;
  - `translate.rs` — which format conversion applies, and the framing of
    streamed events;
  - `circuit_breaker.rs`, `rate_limit.rs`, `stats.rs`, `retry.rs` — the
    breaker's state machine, token buckets in exact fixed point, wrapping
    counters, and when to stop retrying, each with the laws it keeps;
  - `error.rs`, `health.rs`, `metrics.rs` — error responses, readiness, and
    the statistics in the Prometheus text format;
  - `table.rs`, `text.rs`, `urls.rs`, `clock.rs` — a name-keyed table,
    decimal text, URL parsing and the clock.
- `app/` — the server: configuration files and environment, HTTP handling,
  the exchanges with the providers, logging and shutdown.
- `tests/` — tests of the library.
