# ai_gateway

A multi-tenant gateway in front of LLM providers (OpenAI, Anthropic, Gemini,
Ollama and any OpenAI-compatible endpoint), with its core logic verified in
Verus.

## Layout

- `src/` — the verified library.
  - `auth_key`, `rbac`, `tenant`: salted HMAC-SHA256 key records, the key
    store, roles and role checks.
  - `middleware`: authentication, quota pre-flight, request ids and
    `Retry-After` hints.
  - `rate_limit`, `quota`: per-tenant token buckets and RPM/RPD/TPM/TPD
    quotas.
  - `circuit_breaker`, `retry`: per-provider breakers, the fallback chain and
    the retry planner that drives a request across providers.
  - `admin`: who may manage keys, tenants, providers and configuration, and
    how each change applies.
  - `convert`, `stream`: request/response conversion for each provider and
    the framing of their streams (lines, server-sent events, JSON lines).
  - `state`, `config`, `metering`, `audit`, `error`, `log_buffer`: routing,
    startup key store, usage counters, configuration defaults, rate card,
    audit events, error bodies and the in-memory log buffer.
  - `usage`: per-tenant request, token and error counts, the bounded log of
    metering events, and what a new billing window keeps.
  - `strmap`, `text`, `arith`, `clock`: string-keyed map, string helpers,
    saturating arithmetic, the clock.
- `tests/` — tests of the library.
- `app/` — the HTTP server (axum), provider HTTP clients, configuration
  loading, metering of floating-point costs and its file store, Prometheus
  export and logging layers.

Time is an argument of every windowed decision (`*_at` functions); the
variants without `_at` read the clock.
