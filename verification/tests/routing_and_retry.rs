use ai_gateway::auth_key::ApiKeyStore;
use ai_gateway::circuit_breaker::{CircuitBreaker, CircuitBreakerConfig, CircuitState};
use ai_gateway::config::{AuthConfig, StructuredKey};
use ai_gateway::error::GatewayError;
use ai_gateway::metering::Usage;
use ai_gateway::retry::{build_fallback_chain, is_retryable, RetryAction, RetryPlanner};
use ai_gateway::state::{
    adapter_kind, build_routes, compat_base_url, initial_key_store, is_ready, register_models, replace_provider_models,
    unregister_models, ApiError, Metrics, ProviderKind,
};
use ai_gateway::strmap::StrMap;

fn providers(list: &[(&str, &[&str])]) -> Vec<(String, Vec<String>)> {
    list.iter()
        .map(|(n, ms)| (n.to_string(), ms.iter().map(|m| m.to_string()).collect()))
        .collect()
}

fn names(v: &[String]) -> Vec<&str> {
    v.iter().map(|s| s.as_str()).collect()
}

#[test]
fn retryable_errors() {
    assert!(is_retryable(&GatewayError::UpstreamError("OpenAI 500: boom".to_string())));
    assert!(is_retryable(&GatewayError::UpstreamError("OpenAI 429 Too Many Requests".to_string())));
    assert!(!is_retryable(&GatewayError::UpstreamError("OpenAI 401 Unauthorized".to_string())));
    assert!(!is_retryable(&GatewayError::UpstreamError("status 404".to_string())));
    assert!(is_retryable(&GatewayError::RateLimited));
    assert!(!is_retryable(&GatewayError::ProviderNotFound("m".to_string())));
    assert!(!is_retryable(&GatewayError::AuthenticationFailed("x".to_string())));
    assert!(!is_retryable(&GatewayError::BadRequest("x".to_string())));
    assert!(!is_retryable(&GatewayError::Internal("x".to_string())));
    assert!(!is_retryable(&GatewayError::Internal("boom".to_string())));
    assert!(!is_retryable(&GatewayError::UpstreamError("HTTP 422 Unprocessable Entity".to_string())));
    assert!(!is_retryable(&GatewayError::UpstreamError("Gemini 400 Bad Request: {}".to_string())));
    assert!(is_retryable(&GatewayError::UpstreamError("Anthropic 408 Request Timeout: slow".to_string())));
    assert!(is_retryable(&GatewayError::UpstreamError("Ollama 503 Service Unavailable: down".to_string())));
    assert!(is_retryable(&GatewayError::UpstreamError("OpenAI 599".to_string())));
    assert!(!is_retryable(&GatewayError::UpstreamError("OpenAI 600 Odd".to_string())));
    assert!(is_retryable(&GatewayError::UpstreamError(
        "error sending request for url (http://127.0.0.1:8080/v1/chat)".to_string()
    )));
    assert!(is_retryable(&GatewayError::UpstreamError("timeout".to_string())));
    assert!(!is_retryable(&GatewayError::Forbidden("x".to_string())));
    assert!(!is_retryable(&GatewayError::ConfigError("x".to_string())));
}

#[test]
fn fallback_chain_puts_builtins_first() {
    let ps = providers(&[
        ("deepseek", &["chat"]),
        ("ollama", &["chat", "llama"]),
        ("openai", &["gpt-4o", "chat"]),
        ("groq", &["chat"]),
        ("anthropic", &["sonnet"]),
    ]);
    let chain = build_fallback_chain(&ps, "chat");
    assert_eq!(names(&chain), vec!["openai", "ollama", "deepseek", "groq"]);
    assert!(build_fallback_chain(&ps, "nothing").is_empty());
}

fn cfg() -> CircuitBreakerConfig {
    CircuitBreakerConfig { failure_window_ms: 30_000, failure_threshold: 1, cooldown_ms: 60_000, half_open_success_threshold: 1 }
}

fn call(a: RetryAction) -> (String, u32, bool) {
    match a {
        RetryAction::Call(i) => (i.provider_name, i.attempt_number, i.is_fallback),
        RetryAction::GiveUp(e) => panic!("gave up: {:?}", e),
    }
}

#[test]
fn retry_then_fallback_then_success() {
    let mut cb = CircuitBreaker::new(cfg());
    let chain = vec!["openai".to_string(), "groq".to_string()];
    let mut p = RetryPlanner::new(chain, "chat".to_string(), 2);
    assert_eq!(call(p.start(&mut cb, 0)), ("openai".to_string(), 1, false));
    let a = p.failed(&mut cb, 10, GatewayError::UpstreamError("OpenAI 503".to_string()));
    assert_eq!(call(a), ("openai".to_string(), 2, false));
    let a = p.failed(&mut cb, 20, GatewayError::UpstreamError("OpenAI 503".to_string()));
    assert_eq!(call(a), ("openai".to_string(), 3, false));
    // Retries exhausted: the failure is recorded and the fallback is tried.
    let a = p.failed(&mut cb, 30, GatewayError::UpstreamError("OpenAI 503".to_string()));
    assert_eq!(call(a), ("groq".to_string(), 1, true));
    assert_eq!(cb.state("openai"), CircuitState::Open);
    let info = p.succeeded(&mut cb);
    assert_eq!(info.provider_name, "groq");
    assert_eq!(info.attempt_number, 1);
    assert!(info.is_fallback);
}

#[test]
fn client_errors_are_not_retried() {
    let mut cb = CircuitBreaker::new(cfg());
    let mut p = RetryPlanner::new(vec!["openai".to_string()], "chat".to_string(), 2);
    call(p.start(&mut cb, 0));
    match p.failed(&mut cb, 1, GatewayError::UpstreamError("OpenAI 400: bad".to_string())) {
        RetryAction::GiveUp(GatewayError::UpstreamError(m)) => assert_eq!(m, "OpenAI 400: bad"),
        other => panic!("unexpected {:?}", other),
    }
}

#[test]
fn open_breakers_are_skipped_and_empty_chain_fails() {
    let mut cb = CircuitBreaker::new(cfg());
    cb.record_failure_at("openai", 0);
    let mut p = RetryPlanner::new(vec!["openai".to_string(), "groq".to_string()], "chat".to_string(), 0);
    assert_eq!(call(p.start(&mut cb, 1)), ("groq".to_string(), 1, true));
    assert_eq!(cb.total_rejected(), 1);

    let mut p = RetryPlanner::new(Vec::new(), "nope".to_string(), 2);
    match p.start(&mut cb, 1) {
        RetryAction::GiveUp(GatewayError::ProviderNotFound(m)) => assert_eq!(m, "nope"),
        other => panic!("unexpected {:?}", other),
    }
}

#[test]
fn missing_adapter_is_skipped_without_recording() {
    let mut cb = CircuitBreaker::new(cfg());
    let mut p = RetryPlanner::new(vec!["ghost".to_string(), "groq".to_string()], "chat".to_string(), 0);
    call(p.start(&mut cb, 0));
    assert_eq!(call(p.provider_missing(&mut cb, 0)), ("groq".to_string(), 1, true));
    assert_eq!(cb.state("ghost"), CircuitState::Closed);
    // Single-attempt (streaming) mode: a failure moves on at once.
    match p.failed(&mut cb, 5, GatewayError::UpstreamError("Groq 500".to_string())) {
        RetryAction::GiveUp(GatewayError::UpstreamError(m)) => assert_eq!(m, "Groq 500"),
        other => panic!("unexpected {:?}", other),
    }
}

#[test]
fn adapters_and_base_urls() {
    assert_eq!(adapter_kind("openai", false), ProviderKind::OpenAi);
    assert_eq!(adapter_kind("anthropic", false), ProviderKind::Anthropic);
    assert_eq!(adapter_kind("gemini", false), ProviderKind::Gemini);
    assert_eq!(adapter_kind("ollama", false), ProviderKind::Ollama);
    assert_eq!(adapter_kind("openai", true), ProviderKind::OpenAiCompat);
    assert_eq!(adapter_kind("deepseek", false), ProviderKind::OpenAiCompat);
    assert_eq!(compat_base_url(&None), "https://api.openai.com/v1");
    assert_eq!(compat_base_url(&Some("http://x/v1".to_string())), "http://x/v1");
}

#[test]
fn routes_follow_configuration_order() {
    let ps = providers(&[("openai", &["gpt-4o", "shared"]), ("groq", &["shared", "llama"])]);
    let routes = build_routes(&ps).unwrap();
    assert_eq!(routes.get("gpt-4o").map(|s| s.as_str()), Some("openai"));
    assert_eq!(routes.get("shared").map(|s| s.as_str()), Some("groq"));
    assert_eq!(routes.len(), 3);
    match build_routes(&providers(&[("openai", &[])])) {
        Err(GatewayError::ConfigError(m)) => assert_eq!(m, "No providers/models configured"),
        Err(e) => panic!("unexpected {:?}", e),
        Ok(_) => panic!("an empty configuration must be refused"),
    }
}

#[test]
fn registering_and_unregistering_models() {
    let mut routes: StrMap<String> = StrMap::new();
    register_models(&mut routes, &"openai".to_string(), &vec!["a".to_string(), "b".to_string()]);
    register_models(&mut routes, &"groq".to_string(), &vec!["b".to_string()]);
    assert_eq!(routes.get("b").map(|s| s.as_str()), Some("groq"));
    unregister_models(&mut routes, &vec!["a".to_string()]);
    assert!(!routes.contains_key("a"));
    assert_eq!(routes.len(), 1);
}

#[test]
fn re_registering_a_provider_drops_its_old_models() {
    let mut routes: StrMap<String> = StrMap::new();
    register_models(&mut routes, &"openai".to_string(), &vec!["gpt-4o".to_string(), "shared".to_string()]);
    register_models(&mut routes, &"groq".to_string(), &vec!["llama".to_string()]);
    replace_provider_models(
        &mut routes,
        &"openai".to_string(),
        &vec!["gpt-4o".to_string(), "shared".to_string()],
        &vec!["gpt-5".to_string(), "shared".to_string()],
    );
    assert!(!routes.contains_key("gpt-4o"));
    assert_eq!(routes.get("gpt-5").map(|s| s.as_str()), Some("openai"));
    assert_eq!(routes.get("shared").map(|s| s.as_str()), Some("openai"));
    assert_eq!(routes.get("llama").map(|s| s.as_str()), Some("groq"));
    assert_eq!(routes.len(), 3);
    // A first registration has no old models.
    replace_provider_models(&mut routes, &"mistral".to_string(), &vec![], &vec!["small".to_string()]);
    assert_eq!(routes.get("small").map(|s| s.as_str()), Some("mistral"));
    assert_eq!(routes.len(), 4);
}

#[test]
fn startup_key_store_prefers_structured_keys() {
    let mut auth = AuthConfig::default();
    let s = initial_key_store(&auth);
    assert_eq!(s.verify("test-key").unwrap().tenant_id, "default");
    auth.structured_keys.push(StructuredKey("k1".to_string(), "t1".to_string(), "admin".to_string()));
    let s = initial_key_store(&auth);
    assert!(s.verify("test-key").is_none());
    assert_eq!(s.verify("k1").unwrap().role, "admin");
    auth.structured_keys.clear();
    auth.api_keys.clear();
    let s: ApiKeyStore = initial_key_store(&auth);
    assert!(s.list_entries().is_empty());
}

#[test]
fn metrics_count_usage_and_errors() {
    let mut m = Metrics::new();
    let u = Usage { prompt_tokens: 10, completion_tokens: 5, total_tokens: 15 };
    m.record_usage("gpt-4o", &u);
    m.record_usage("gpt-4o", &u);
    m.record_error();
    assert_eq!(m.total_requests, 2);
    assert_eq!(m.total_prompt_tokens, 20);
    assert_eq!(m.total_completion_tokens, 10);
    assert_eq!(m.total_errors, 1);
    assert_eq!(m.per_model.get("gpt-4o").copied(), Some(2));
}

#[test]
fn readiness() {
    assert!(is_ready(true, &vec![]));
    assert!(!is_ready(false, &vec![]));
    assert!(!is_ready(true, &vec![("a".to_string(), CircuitState::Open)]));
    assert!(is_ready(true, &vec![("a".to_string(), CircuitState::Open), ("b".to_string(), CircuitState::HalfOpen)]));
}

#[test]
fn api_error_wraps() {
    let e: ApiError = GatewayError::RateLimited.into();
    assert_eq!(e.0.status_code(), 429);
}
