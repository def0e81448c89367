use ai_gateway::audit::{AuditAction, AuditActor, AuditEvent, AuditFilter};
use ai_gateway::auth_key::{ApiKeyEntry, ApiKeyStore};
use ai_gateway::metering::{RateCard, Usage};
use ai_gateway::rate_limit::{micro_per_ms, TokenBucket};
use ai_gateway::tenant::{Role, TenantQuotas};

fn usage(prompt: u32, completion: u32) -> Usage {
    Usage { prompt_tokens: prompt, completion_tokens: completion, total_tokens: prompt + completion }
}

// --- audit -----------------------------------------------------------------

#[test]
fn test_audit_action_display() {
    assert_eq!(AuditAction::AuthLoginSuccess.as_str(), "auth.login_success");
    assert_eq!(AuditAction::TenantCreate.as_str(), "tenant.create");
    assert_eq!(AuditAction::ConfigUpdate.as_str(), "config.update");
}

#[test]
fn test_audit_action_roundtrip() {
    let actions = vec![
        AuditAction::AuthLoginSuccess,
        AuditAction::KeyRevoke,
        AuditAction::ProviderDelete,
        AuditAction::QuotaUpdate,
    ];
    for action in actions {
        let s = action.as_str().to_string();
        let parsed: AuditAction = s.parse().unwrap();
        assert_eq!(parsed, action);
    }
}

#[test]
fn test_audit_event_builder() {
    let actor = AuditActor::user("key-123", Role::admin());
    let event = AuditEvent::new(AuditAction::TenantCreate, actor, "acme-corp")
        .with_resource("acme-corp")
        .with_success();

    assert_eq!(event.action, AuditAction::TenantCreate);
    assert_eq!(event.tenant, "acme-corp");
    assert_eq!(event.resource.as_deref(), Some("acme-corp"));
    assert!(event.success);
    assert!(!event.id.is_empty());
}

#[test]
fn test_audit_event_failure() {
    let actor = AuditActor::system();
    let event = AuditEvent::new(AuditAction::KeyRevoke, actor, "default").with_error("Key not found");

    assert!(!event.success);
    assert_eq!(event.error.as_deref(), Some("Key not found"));
}

#[test]
fn test_audit_actor_system() {
    let actor = AuditActor::system();
    assert_eq!(actor.id, "system");
    assert_eq!(actor.role, Role::admin());
}

#[test]
fn test_audit_filter_default() {
    let filter = AuditFilter::default();
    assert_eq!(filter.limit, 100);
    assert_eq!(filter.offset, 0);
}

// --- API keys --------------------------------------------------------------

#[test]
fn test_hash_verify_valid() {
    let entry = ApiKeyEntry::new("sk-abc123", "tenant-1", "developer");
    assert!(entry.verify("sk-abc123"));
    assert!(!entry.verify("sk-wrong"));
}

#[test]
fn test_different_keys_different_hashes() {
    let a = ApiKeyEntry::new("key-a", "t1", "dev");
    let b = ApiKeyEntry::new("key-b", "t1", "dev");
    assert_ne!(a.hash, b.hash);
}

#[test]
fn test_store_verify_and_revoke() {
    let mut store = ApiKeyStore::new();
    let entry = ApiKeyEntry::new("secret", "tenant-1", "developer");
    let id = entry.key_id.clone();
    store.add(entry);
    assert!(store.verify("secret").is_some());
    store.remove_by_id(&id);
    assert!(store.verify("secret").is_none());
}

// --- rate card -------------------------------------------------------------

#[test]
fn test_default_free() {
    let card = RateCard::default();
    let u = usage(100_000, 50_000);
    assert_eq!(card.estimate_cost(&u), 0);
}

#[test]
fn test_ceil_division() {
    let card = RateCard { prompt_per_million: 30, completion_per_million: 60 };
    let u = usage(500_000, 250_000);
    assert_eq!(card.estimate_cost(&u), 90);
}

#[test]
fn test_large_usage() {
    let card = RateCard { prompt_per_million: 1500, completion_per_million: 6000 };
    let u = usage(1_500_000, 2_000_000);
    assert_eq!(card.estimate_cost(&u), 15000);
}

// --- roles and quotas ------------------------------------------------------

#[test]
fn test_role_ordering() {
    assert!(Role::admin() > Role::tenant_admin());
    assert!(Role::tenant_admin() > Role::developer());
    assert!(Role::developer() >= Role::developer());
}

#[test]
fn test_role_from_str() {
    assert_eq!(Role::from_str("admin"), Role::admin());
    assert_eq!(Role::from_str("tenant_admin"), Role::tenant_admin());
    assert_eq!(Role::from_str("developer"), Role::developer());
    assert_eq!(Role::from_str("unknown"), Role::developer());
}

#[test]
fn test_role_display() {
    assert_eq!(Role::admin().as_str(), "admin");
    assert_eq!(Role::tenant_admin().as_str(), "tenant_admin");
    assert_eq!(Role::developer().as_str(), "developer");
}

#[test]
fn test_default_quotas() {
    let q = TenantQuotas::default();
    assert_eq!(q.max_rpm, 60);
    assert_eq!(q.max_rpd, 10_000);
}

#[test]
fn test_role_from_str_matches() {
    assert_eq!(Role::from_str("admin"), Role::admin());
    assert_eq!(Role::from_str("tenant_admin"), Role::tenant_admin());
    assert_eq!(Role::from_str("developer"), Role::developer());
}

#[test]
fn test_apikey_entry_role_field() {
    let entry = ApiKeyEntry::new("test-key", "default", "tenant_admin");
    assert_eq!(entry.tenant_id, "default");
    assert_eq!(entry.role, "tenant_admin");
}

#[test]
fn test_verify_by_id() {
    let mut store = ApiKeyStore::new();
    let entry = ApiKeyEntry::new("my-secret", "tenant-a", "developer");
    let id = entry.key_id.clone();
    store.add(entry);

    let found = store.verify_by_id(&id);
    assert!(found.is_some());
    assert_eq!(found.unwrap().tenant_id, "tenant-a");

    assert!(store.verify_by_id("nonexistent").is_none());
}

// --- token buckets ---------------------------------------------------------

#[test]
fn test_micro_per_ms_cap_60() {
    assert_eq!(micro_per_ms(60), 1);
}

#[test]
fn test_micro_per_ms_cap_600() {
    assert_eq!(micro_per_ms(600), 10);
}

#[test]
fn test_micro_per_ms_cap_1() {
    assert_eq!(micro_per_ms(1), 1);
}

#[test]
fn test_bucket_consume_and_refill() {
    let mut bucket = TokenBucket::new(60);
    for i in 0..60 {
        assert!(bucket.consume().is_none(), "token {} should be allowed", i);
    }
    assert!(bucket.consume().is_some(), "61st should be rate-limited");
}

#[test]
fn test_bucket_zero_rpm_clamps_to_one() {
    let mut bucket = TokenBucket::new(0);
    assert!(bucket.consume().is_none());
}

#[test]
fn test_set_rpm_clamps_tokens() {
    let mut bucket = TokenBucket::new(60);
    for _ in 0..60 {
        bucket.consume();
    }
    bucket.set_rpm(1);
    let limited = (0..10).any(|_| bucket.consume().is_some());
    assert!(limited, "should be rate-limited after shrink");
}
