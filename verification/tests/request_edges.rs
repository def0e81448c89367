use ai_gateway::audit::{audit_event, AuditAction, AuditActor};
use ai_gateway::circuit_breaker::{CircuitBreaker, CircuitBreakerConfig, CircuitState};
use ai_gateway::middleware::quota_preflight;
use ai_gateway::quota::{current_unix_day, current_unix_minute};
use ai_gateway::auth_key::{ApiKeyEntry, ApiKeyStore, Salt};
use ai_gateway::error::GatewayError;
use ai_gateway::metering::{cost_window, event_selected};
use ai_gateway::usage::{UsageLedger, MAX_EVENTS};
use ai_gateway::middleware::{
    authenticate, error_retry_after, is_quota_exempt, is_unauthenticated, quota_preflight_at,
    retry_after_hint, AuthHeader, AuthOutcome,
};
use ai_gateway::quota::{QuotaEngine, QuotaViolation};
use ai_gateway::rate_limit::{RateDecision, RateLimiter, TokenBucket};
use ai_gateway::tenant::{Role, TenantQuotas};

fn store() -> ApiKeyStore {
    let mut s = ApiKeyStore::new();
    s.add(ApiKeyEntry::new("test-key-123", "default", "developer"));
    s.add(ApiKeyEntry::new("ta-key", "acme", "tenant_admin"));
    s
}

fn rejected_with(o: AuthOutcome, msg: &str) {
    match o {
        AuthOutcome::Rejected(GatewayError::AuthenticationFailed(m)) => assert_eq!(m, msg),
        AuthOutcome::Rejected(e) => panic!("unexpected error {:?}", e),
        AuthOutcome::Bypass => panic!("unexpected bypass"),
        AuthOutcome::Authenticated(c) => panic!("unexpected success for {}", c.tenant_id),
    }
}

#[test]
fn authentication_outcomes() {
    let s = store();
    match authenticate(&s, true, "/v1/models", AuthHeader::Text("Bearer ta-key")) {
        AuthOutcome::Authenticated(ctx) => {
            assert_eq!(ctx.tenant_id, "acme");
            assert_eq!(ctx.role, Role::tenant_admin());
            assert!(ctx.key_id.starts_with("key_"));
        }
        _ => panic!("valid key must authenticate"),
    }
    rejected_with(authenticate(&s, true, "/v1/models", AuthHeader::Missing), "Missing Authorization header");
    rejected_with(
        authenticate(&s, true, "/v1/models", AuthHeader::Text("Basic dGVzdA==")),
        "Invalid Authorization header format",
    );
    rejected_with(
        authenticate(&s, true, "/v1/models", AuthHeader::Text("BearerNoSpace")),
        "Invalid Authorization header format",
    );
    rejected_with(
        authenticate(&s, true, "/v1/models", AuthHeader::Text("Bearer ")),
        "Missing or invalid Authorization header",
    );
    rejected_with(
        authenticate(&s, true, "/v1/models", AuthHeader::Text("Bearer this-key-does-not-exist")),
        "Missing or invalid Authorization header",
    );
    rejected_with(authenticate(&s, true, "/v1/models", AuthHeader::Unreadable), "Invalid Authorization header format");
    assert!(matches!(authenticate(&s, false, "/v1/models", AuthHeader::Missing), AuthOutcome::Bypass));
    assert!(matches!(authenticate(&s, true, "/healthz", AuthHeader::Missing), AuthOutcome::Bypass));
}

#[test]
fn exempt_paths() {
    assert!(is_unauthenticated("/healthz"));
    assert!(is_unauthenticated("/admin/static/admin.js"));
    assert!(!is_unauthenticated("/api/admin/keys"));
    assert!(is_quota_exempt("/readyz"));
    assert!(is_quota_exempt("/metrics"));
    assert!(!is_quota_exempt("/v1/models"));
}

#[test]
fn quota_preflight_blocks_with_quota_error() {
    let mut engine = QuotaEngine::new();
    let q = TenantQuotas { max_rpm: 1, max_rpd: 0, max_tpm: 0, max_tpd: 0 };
    let now = 1_700_000_000_000;
    assert!(quota_preflight_at(&mut engine, "/v1/models", Some("t"), &q, now).is_ok());
    let err = quota_preflight_at(&mut engine, "/v1/models", Some("t"), &q, now).unwrap_err();
    assert_eq!(err.status_code(), 429);
    assert_eq!(error_retry_after(&err), Some(60));
    assert_eq!(err.to_error_response().error.code.as_deref(), Some("quota_exceeded:rpm"));
    assert_eq!(err.message(), "Quota exceeded: rpm limit=1, current=1");
    // Exempt paths and anonymous requests pass untouched.
    assert!(quota_preflight_at(&mut engine, "/healthz", Some("t"), &q, now).is_ok());
    assert!(quota_preflight_at(&mut engine, "/v1/models", None, &q, now).is_ok());
}

#[test]
fn error_bodies() {
    let e = GatewayError::AuthenticationFailed("Key not found".to_string());
    assert_eq!(e.status_code(), 401);
    assert_eq!(e.error_type(), "authentication_error");
    let r = e.to_error_response();
    assert_eq!(r.error.message, "Authentication failed: Key not found");
    assert_eq!(r.error.code.as_deref(), Some("authentication_error"));
    assert!(r.error.param.is_none());
    let e = GatewayError::ProviderNotFound("gpt-5".to_string());
    assert_eq!(e.status_code(), 404);
    assert_eq!(e.error_type(), "model_not_found");
    assert!(e.to_error_response().error.code.is_none());
    assert_eq!(GatewayError::RateLimited.status_code(), 429);
    assert_eq!(GatewayError::UpstreamError("x".to_string()).status_code(), 502);
    assert_eq!(GatewayError::BadRequest("x".to_string()).message(), "Invalid request: x");
    let v = QuotaViolation { limit_type: "tpd".to_string(), limit: 5, current: 4 };
    match GatewayError::from_violation(v) {
        GatewayError::QuotaExceeded { limit_type, limit, current } => {
            assert_eq!((limit_type.as_str(), limit, current), ("tpd", 5, 4))
        }
        other => panic!("unexpected {:?}", other),
    }
    assert_eq!(error_retry_after(&GatewayError::Internal("x".to_string())), None);
    assert_eq!(retry_after_hint(429, false), Some("60"));
    assert_eq!(retry_after_hint(503, false), Some("30"));
    assert_eq!(retry_after_hint(429, true), None);
    assert_eq!(retry_after_hint(200, false), None);
}

#[test]
fn rate_limiter_per_tenant() {
    let mut rl = RateLimiter::new(2);
    let t0 = 1_000_000;
    assert_eq!(rl.check_at("/v1/models", Some("a"), t0), RateDecision::Allowed);
    assert_eq!(rl.check_at("/v1/models", Some("a"), t0), RateDecision::Allowed);
    match rl.check_at("/v1/models", Some("a"), t0) {
        RateDecision::Limited { retry_after_secs, .. } => assert!(retry_after_secs >= 1),
        other => panic!("unexpected {:?}", other),
    }
    assert_eq!(rl.check_at("/v1/models", Some("b"), t0), RateDecision::Allowed);
    assert_eq!(rl.check_at("/healthz", Some("a"), t0), RateDecision::Exempt);
}

#[test]
fn bucket_refills_over_time() {
    let mut b = TokenBucket::new_at(60, 0);
    for _ in 0..60 {
        assert!(b.consume_at(0).is_none());
    }
    assert!(b.consume_at(0).is_some());
    // One token per second at 60 rpm.
    assert!(b.consume_at(1_000).is_none());
}

#[test]
fn salt_hex_roundtrip() {
    let s = Salt::random();
    let h = s.to_hex();
    assert_eq!(h.len(), 32);
    let back = Salt::from_hex(&h).unwrap();
    assert_eq!(back.0, s.0);
    assert!(Salt::from_hex("zz").is_none());
}

#[test]
fn key_hash_depends_on_salt_and_key() {
    let salt = Salt([7u8; 16]);
    let a = ApiKeyEntry::compute_hash(&salt, "k");
    assert_eq!(a.len(), 64);
    assert_eq!(a, ApiKeyEntry::compute_hash(&salt, "k"));
    assert_ne!(a, ApiKeyEntry::compute_hash(&salt, "k2"));
    assert_ne!(a, ApiKeyEntry::compute_hash(&Salt([8u8; 16]), "k"));
}

#[test]
fn cost_windows_and_selection() {
    assert_eq!(cost_window(Some("7d")), (604_800_000, "7d"));
    assert_eq!(cost_window(Some("30d")), (2_592_000_000, "30d"));
    assert_eq!(cost_window(Some("1y")), (86_400_000, "24h"));
    assert_eq!(cost_window(None), (86_400_000, "24h"));
    let now = 100_000_000;
    assert!(event_selected(now - 1, "a", now, 86_400_000, None));
    assert!(event_selected(now - 86_400_000, "a", now, 86_400_000, None));
    assert!(!event_selected(now - 86_400_001, "a", now, 86_400_000, None));
    assert!(event_selected(now, "a", now, 86_400_000, None));
    assert!(!event_selected(now + 1, "a", now, 86_400_000, None));
    assert!(event_selected(4000, "t", 5000, 1000, None));
    assert!(!event_selected(5001, "t", 5000, 1000, None));
    assert!(!event_selected(now, "a", now, 86_400_000, Some("b")));
}

#[test]
fn audit_events_for_admin_actions() {
    let e = audit_event(AuditAction::KeyCreate, AuditActor::system(), "acme", Some("key_1234"), true, None);
    assert!(e.success);
    assert_eq!(e.resource.as_deref(), Some("key_1234"));
    let e = audit_event(AuditAction::KeyRevoke, AuditActor::system(), "acme", None, false, None);
    assert!(!e.success);
    assert_eq!(e.error.as_deref(), Some("unknown"));
    let e = audit_event(AuditAction::QuotaUpdate, AuditActor::user("k", Role::admin()).with_ip("10.0.0.1"), "t", None, true, Some("boom"));
    assert!(!e.success);
    assert_eq!(e.error.as_deref(), Some("boom"));
    assert_eq!(e.actor.ip.as_deref(), Some("10.0.0.1"));
    assert!(AuditAction::from_name("nope").is_err());
    assert_eq!(AuditAction::from_name("nope").unwrap_err(), "Unknown audit action: nope");
}

#[test]
fn request_ids() {
    assert_eq!(ai_gateway::middleware::request_id(Some("abc-123")), "abc-123");
    let fresh = ai_gateway::middleware::request_id(None);
    assert_eq!(fresh.len(), 36);
    assert_ne!(fresh, ai_gateway::middleware::request_id(None));
    let c: Vec<char> = fresh.chars().collect();
    for (i, ch) in c.iter().enumerate() {
        if i == 8 || i == 13 || i == 18 || i == 23 {
            assert_eq!(*ch, '-');
        } else {
            assert!(ch.is_ascii_digit() || ('a'..='f').contains(ch));
        }
    }
    assert_eq!(c[14], '4');
    assert!(matches!(c[19], '8' | '9' | 'a' | 'b'));
    let e = ai_gateway::audit::AuditEvent::new(
        AuditAction::KeyCreate,
        ai_gateway::audit::AuditActor::system(),
        "acme",
    );
    assert_eq!(e.id.len(), 36);
    assert_eq!(e.id.chars().nth(14), Some('4'));
    assert!(e.timestamp.ends_with("+00:00"));
    assert!(e.timestamp.len() >= 25);
}

#[test]
fn clock_reading_variants() {
    let mut cb = CircuitBreaker::new(CircuitBreakerConfig {
        failure_window_ms: 30_000,
        failure_threshold: 1,
        cooldown_ms: 60_000,
        half_open_success_threshold: 1,
    });
    assert!(cb.allow_request("p"));
    cb.record_failure("p");
    assert_eq!(cb.state("p"), CircuitState::Open);
    assert!(!cb.allow_request("p"));

    let mut engine = QuotaEngine::new();
    let q = TenantQuotas { max_rpm: 0, max_rpd: 1, max_tpm: 0, max_tpd: 0 };
    assert!(quota_preflight(&mut engine, "/v1/models", Some("t"), &q).is_ok());
    assert!(quota_preflight(&mut engine, "/v1/models", Some("t"), &q).is_err());
}

#[test]
fn unix_minute_and_day() {
    assert_eq!(current_unix_minute(119_999), 1);
    assert_eq!(current_unix_minute(120_000), 2);
    assert_eq!(current_unix_day(86_399_999), 0);
    assert_eq!(current_unix_day(86_400_000), 1);
}

#[test]
fn bucket_admissions_over_a_span_are_bounded() {
    // 60 requests per minute refill 1 micro-token per millisecond.
    let mut b = TokenBucket::new_at(60, 0);
    let mut allowed: u64 = 0;
    for t in 0..1000u64 {
        if b.consume_at(t).is_none() {
            allowed += 1;
        }
    }
    // capacity + (span + refill gap) * rate, in micro-tokens.
    assert!(allowed * 1000 <= 60 * 1000 + (999 + 100) * 1);
    assert!(allowed >= 60);
}

#[test]
fn usage_ledger_counts_and_billing_reset() {
    let mut l: UsageLedger<u32> = UsageLedger::new();
    l.record("t", "m", 10, 5, false, 1);
    l.record("t", "m", 1, 1, true, 2);
    l.record("t", "n", 2, 0, false, 3);
    l.record_request("t", 4, 6);
    let t = l.tenant("t").unwrap();
    assert_eq!(t.total_requests, 4);
    assert_eq!(t.total_prompt_tokens, 17);
    assert_eq!(t.total_completion_tokens, 12);
    assert_eq!(t.total_tokens, 29);
    assert_eq!(t.total_errors, 1);
    assert_eq!(t.per_model.get("m").unwrap().requests, 2);
    assert_eq!(t.per_model.get("n").unwrap().prompt_tokens, 2);
    assert!(l.tenant("other").is_none());
    assert_eq!(l.events(), &vec![1, 2, 3]);
    l.reset_billing_window();
    assert!(l.events().is_empty());
    let t = l.tenant("t").unwrap();
    assert_eq!(t.total_requests, 4);
    assert_eq!(t.total_tokens, 29);
    // The log keeps the newest MAX_EVENTS events.
    for i in 0..(MAX_EVENTS as u32 + 3) {
        l.record("u", "m", 0, 0, false, i);
    }
    assert_eq!(l.events().len(), MAX_EVENTS);
    assert_eq!(l.events()[0], 3);
    assert_eq!(*l.events().last().unwrap(), MAX_EVENTS as u32 + 2);
    assert_eq!(l.tenant("u").unwrap().total_requests, MAX_EVENTS as u64 + 3);
}

#[test]
fn breaker_clock_is_monotonic_from_creation() {
    let cb = CircuitBreaker::new(CircuitBreakerConfig::default());
    let a = cb.now_ms();
    let b = cb.now_ms();
    assert!(a <= b);
    assert!(a < 60_000);
}
