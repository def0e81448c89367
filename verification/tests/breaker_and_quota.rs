use ai_gateway::circuit_breaker::{CircuitBreaker, CircuitBreakerConfig, CircuitState};
use ai_gateway::quota::QuotaEngine;
use ai_gateway::tenant::TenantQuotas;

fn test_config() -> CircuitBreakerConfig {
    CircuitBreakerConfig {
        failure_window_ms: 30_000,
        failure_threshold: 3,
        cooldown_ms: 60_000,
        half_open_success_threshold: 1,
    }
}

/// A breaker whose circuit for `p` opened at `t`.
fn opened_at(cb: &mut CircuitBreaker, p: &str, t: u64) {
    cb.record_failure_at(p, t);
    cb.record_failure_at(p, t);
    cb.record_failure_at(p, t);
    assert_eq!(cb.state(p), CircuitState::Open);
}

#[test]
fn breaker_closed_to_open_on_threshold() {
    let mut cb = CircuitBreaker::new(test_config());
    let p = "p1";
    assert_eq!(cb.state(p), CircuitState::Closed);
    assert!(cb.allow_request_at(p, 1_000));
    cb.record_failure_at(p, 1_000);
    cb.record_failure_at(p, 1_100);
    assert_eq!(cb.state(p), CircuitState::Closed);
    cb.record_failure_at(p, 1_200);
    assert_eq!(cb.state(p), CircuitState::Open);
    assert!(!cb.allow_request_at(p, 1_300));
    assert_eq!(cb.total_rejected(), 1);
}

#[test]
fn breaker_open_rejects_all_requests() {
    let mut cb = CircuitBreaker::new(test_config());
    opened_at(&mut cb, "p2", 5_000);
    assert!(!cb.allow_request_at("p2", 5_001));
    assert!(!cb.allow_request_at("p2", 64_999));
    assert_eq!(cb.total_rejected(), 2);
}

#[test]
fn breaker_open_to_halfopen_after_cooldown() {
    let mut cb = CircuitBreaker::new(test_config());
    opened_at(&mut cb, "p3", 5_000);
    assert!(cb.allow_request_at("p3", 5_000 + 120_000));
    assert_eq!(cb.state("p3"), CircuitState::HalfOpen);
}

#[test]
fn breaker_cooldown_boundary() {
    let mut cb = CircuitBreaker::new(test_config());
    opened_at(&mut cb, "edge", 10_000);
    assert!(!cb.allow_request_at("edge", 69_999));
    assert!(cb.allow_request_at("edge", 70_000));
    assert_eq!(cb.state("edge"), CircuitState::HalfOpen);
}

#[test]
fn breaker_halfopen_to_closed_on_success() {
    let mut cb = CircuitBreaker::new(test_config());
    opened_at(&mut cb, "p4", 0);
    assert!(cb.allow_request_at("p4", 60_000));
    cb.record_success("p4");
    assert_eq!(cb.state("p4"), CircuitState::Closed);
}

#[test]
fn breaker_halfopen_to_open_on_failure() {
    let mut cb = CircuitBreaker::new(test_config());
    opened_at(&mut cb, "p5", 0);
    assert!(cb.allow_request_at("p5", 60_000));
    cb.record_failure_at("p5", 60_001);
    assert_eq!(cb.state("p5"), CircuitState::Open);
    assert!(!cb.allow_request_at("p5", 60_002));
}

#[test]
fn breaker_closed_success_clears_failures() {
    let mut cb = CircuitBreaker::new(test_config());
    cb.record_failure_at("p6", 100);
    cb.record_failure_at("p6", 200);
    assert_eq!(cb.state("p6"), CircuitState::Closed);
    cb.record_success("p6");
    cb.record_failure_at("p6", 300);
    cb.record_failure_at("p6", 400);
    assert_eq!(cb.state("p6"), CircuitState::Closed);
}

#[test]
fn breaker_old_failures_leave_the_window() {
    let mut cb = CircuitBreaker::new(test_config());
    cb.record_failure_at("w", 0);
    cb.record_failure_at("w", 1_000);
    // Both earlier failures are older than the 30 s window by now.
    cb.record_failure_at("w", 40_000);
    assert_eq!(cb.state("w"), CircuitState::Closed);
}

#[test]
fn breaker_all_states_snapshot() {
    let mut cb = CircuitBreaker::new(test_config());
    cb.record_success("a");
    cb.record_failure_at("a", 0);
    opened_at(&mut cb, "b", 1_000);
    opened_at(&mut cb, "c", 0);
    assert!(cb.allow_request_at("c", 60_000));
    let snap = cb.all_states();
    let find = |name: &str| snap.iter().find(|(k, _)| k == name).map(|(_, s)| *s);
    assert_eq!(find("a"), Some(CircuitState::Closed));
    assert_eq!(find("b"), Some(CircuitState::Open));
    assert_eq!(find("c"), Some(CircuitState::HalfOpen));
    assert_eq!(snap.len(), 3);
}

#[test]
fn breaker_state_names() {
    assert_eq!(CircuitState::Closed.as_str(), "closed");
    assert_eq!(CircuitState::Open.as_str(), "open");
    assert_eq!(CircuitState::HalfOpen.as_str(), "half_open");
}

#[test]
fn breaker_default_config() {
    let c = CircuitBreakerConfig::default();
    assert_eq!(c.failure_window_ms, 30_000);
    assert_eq!(c.failure_threshold, 5);
    assert_eq!(c.cooldown_ms, 60_000);
    assert_eq!(c.half_open_success_threshold, 1);
}

// --- quotas ----------------------------------------------------------------

fn quotas(rpm: u32, rpd: u64, tpm: u64, tpd: u64) -> TenantQuotas {
    TenantQuotas { max_rpm: rpm, max_rpd: rpd, max_tpm: tpm, max_tpd: tpd }
}

const T0: u64 = 1_700_000_000_000;

#[test]
fn quota_zero_means_unlimited() {
    let mut engine = QuotaEngine::new();
    let q = quotas(0, 0, 0, 0);
    for _ in 0..1000 {
        engine.check_at("t1", &q, 100, T0).unwrap();
    }
}

#[test]
fn quota_rpm_limit_enforced() {
    let mut engine = QuotaEngine::new();
    let q = quotas(3, 0, 0, 0);
    engine.check_at("t1", &q, 0, T0).unwrap();
    engine.check_at("t1", &q, 0, T0).unwrap();
    engine.check_at("t1", &q, 0, T0).unwrap();
    let result = engine.check_at("t1", &q, 0, T0);
    assert!(result.is_err());
    let err = result.unwrap_err();
    assert_eq!(err.limit_type, "rpm");
    assert_eq!(err.limit, 3);
}

#[test]
fn quota_tpm_limit_enforced() {
    let mut engine = QuotaEngine::new();
    let q = quotas(0, 0, 100, 0);
    engine.check_at("t1", &q, 50, T0).unwrap();
    engine.check_at("t1", &q, 40, T0).unwrap();
    let result = engine.check_at("t1", &q, 20, T0);
    assert!(result.is_err());
    assert_eq!(result.unwrap_err().limit_type, "tpm");
}

#[test]
fn quota_per_tenant_isolation() {
    let mut engine = QuotaEngine::new();
    let q = quotas(1, 0, 0, 0);
    engine.check_at("tenant-a", &q, 0, T0).unwrap();
    assert!(engine.check_at("tenant-a", &q, 0, T0).is_err());
    engine.check_at("tenant-b", &q, 0, T0).unwrap();
}

#[test]
fn quota_minute_rolls_over() {
    let mut engine = QuotaEngine::new();
    let q = quotas(1, 0, 0, 0);
    engine.check_at("t", &q, 0, T0).unwrap();
    assert!(engine.check_at("t", &q, 0, T0 + 1).is_err());
    // The next minute starts a fresh count.
    engine.check_at("t", &q, 0, T0 + 60_000).unwrap();
}

#[test]
fn quota_daily_limit() {
    let mut engine = QuotaEngine::new();
    let q = quotas(0, 2, 0, 0);
    engine.check_at("t", &q, 0, T0).unwrap();
    engine.check_at("t", &q, 0, T0 + 60_000).unwrap();
    let err = engine.check_at("t", &q, 0, T0 + 120_000).unwrap_err();
    assert_eq!(err.limit_type, "rpd");
    assert_eq!(err.limit, 2);
}

#[test]
fn quota_reset_forgets_everything() {
    let mut engine = QuotaEngine::new();
    let q = quotas(1, 0, 0, 0);
    engine.check_at("t", &q, 0, T0).unwrap();
    assert!(engine.tenant_state("t").is_some());
    engine.reset();
    assert!(engine.tenant_state("t").is_none());
    engine.check_at("t", &q, 0, T0).unwrap();
}
