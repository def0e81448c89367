use ai_gateway::admin::{
    apply_cache_update, apply_provider_update, apply_quota_update, apply_rate_card_update,
    apply_rate_limit_update, authorize_provider_access, authorize_provider_creation,
    authorize_tenant_creation, authorize_tenant_deletion, costs_tenant_filter, create_key,
    list_keys, provider_info, revoke_key, tenant_scope, visible, CreateApiKeyRequest,
    UpdateCacheConfigRequest, UpdateProviderRequest, UpdateRateCardRequest, UpdateRateLimitRequest,
};
use ai_gateway::auth_key::{ApiKeyEntry, ApiKeyStore};
use ai_gateway::config::{AuthConfig, CacheConfig, RateLimitConfig, StructuredKey};
use ai_gateway::error::GatewayError;
use ai_gateway::metering::RateCard;
use ai_gateway::rbac::{caller_role, is_global_admin, require_role, require_tenant};
use ai_gateway::tenant::{Role, TenantQuotas};

/// A store with a developer, a tenant admin and a global admin in tenant
/// `acme`, and a tenant admin in tenant `globex`; returns the store and
/// the fingerprints in that order.
fn store() -> (ApiKeyStore, Vec<String>) {
    let mut s = ApiKeyStore::new();
    let mut ids = Vec::new();
    for (k, t, r) in [
        ("dev-key", "acme", "developer"),
        ("ta-key", "acme", "tenant_admin"),
        ("root-key", "acme", "admin"),
        ("gx-key", "globex", "tenant_admin"),
    ] {
        let e = ApiKeyEntry::new(k, t, r);
        ids.push(e.key_id.clone());
        s.add(e);
    }
    (s, ids)
}

fn empty_auth() -> AuthConfig {
    AuthConfig {
        enabled: true,
        api_keys: vec!["plain-key".to_string()],
        structured_keys: Vec::new(),
        required_hmac_secret: None,
        default_tenant: "default".to_string(),
        default_role: "developer".to_string(),
    }
}

fn key_req(key: &str, tenant: Option<&str>, role: Option<&str>) -> CreateApiKeyRequest {
    CreateApiKeyRequest {
        key: key.to_string(),
        tenant_id: tenant.map(|t| t.to_string()),
        role: role.map(|r| r.to_string()),
    }
}

#[test]
fn require_role_checks_the_floor() {
    let (s, ids) = store();
    assert_eq!(require_role(&s, &ids[1], Role::tenant_admin()).unwrap(), "acme");
    match require_role(&s, &ids[0], Role::tenant_admin()) {
        Err(GatewayError::Forbidden(m)) => {
            assert_eq!(m, "Requires at least 'tenant_admin' role, but key has 'developer'")
        }
        other => panic!("unexpected {:?}", other),
    }
    match require_role(&s, "key_nothing", Role::developer()) {
        Err(GatewayError::AuthenticationFailed(m)) => assert_eq!(m, "Key not found"),
        other => panic!("unexpected {:?}", other),
    }
}

#[test]
fn require_tenant_and_admin_helpers() {
    let (s, ids) = store();
    assert!(require_tenant(&s, &ids[0], "acme").is_ok());
    match require_tenant(&s, &ids[0], "globex") {
        Err(GatewayError::Forbidden(m)) => assert_eq!(m, "Key does not belong to tenant 'globex'"),
        other => panic!("unexpected {:?}", other),
    }
    assert!(require_tenant(&s, &ids[2], "globex").is_ok());
    assert!(is_global_admin(&s, &ids[2]));
    assert!(!is_global_admin(&s, &ids[1]));
    assert_eq!(caller_role(&s, &ids[1]), Role::tenant_admin());
    assert_eq!(caller_role(&s, "key_unknown"), Role::developer());
}

#[test]
fn tenant_admin_creates_developer_key_in_own_tenant() {
    let (mut s, ids) = store();
    let mut auth = empty_auth();
    let before = s.list_entries().len();
    let created = create_key(&mut auth, &mut s, &ids[1], key_req("new-key", None, None)).unwrap();
    assert_eq!(created.tenant_id, "acme");
    assert_eq!(created.role, "developer");
    assert_eq!(created.caller_role, Role::tenant_admin());
    assert_eq!(s.list_entries().len(), before + 1);
    let found = s.verify("new-key").unwrap();
    assert_eq!(found.key_id, created.key_id);
    assert_eq!(auth.structured_keys.len(), 1);
    assert_eq!(auth.structured_keys[0].0, "new-key");
    assert_eq!(auth.structured_keys[0].1, "acme");
    assert_eq!(auth.structured_keys[0].2, "developer");
}

#[test]
fn developer_cannot_create_keys() {
    let (mut s, ids) = store();
    let mut auth = empty_auth();
    match create_key(&mut auth, &mut s, &ids[0], key_req("x", None, None)) {
        Err(GatewayError::Forbidden(_)) => {}
        other => panic!("unexpected {:?}", other),
    }
    assert!(auth.structured_keys.is_empty());
}

#[test]
fn empty_key_is_refused() {
    let (mut s, ids) = store();
    let mut auth = empty_auth();
    match create_key(&mut auth, &mut s, &ids[1], key_req("", None, None)) {
        Err(GatewayError::BadRequest(m)) => assert_eq!(m, "API key cannot be empty"),
        other => panic!("unexpected {:?}", other),
    }
}

#[test]
fn tenant_admin_cannot_target_another_tenant() {
    let (mut s, ids) = store();
    let mut auth = empty_auth();
    match create_key(&mut auth, &mut s, &ids[1], key_req("k", Some("globex"), None)) {
        Err(GatewayError::Forbidden(m)) => {
            assert_eq!(m, "Requires at least 'admin' role, but key has 'tenant_admin'")
        }
        other => panic!("unexpected {:?}", other),
    }
    // A global admin may.
    let created = create_key(&mut auth, &mut s, &ids[2], key_req("k", Some("globex"), Some("admin"))).unwrap();
    assert_eq!(created.tenant_id, "globex");
    assert_eq!(created.role, "admin");
}

#[test]
fn unknown_role_is_refused() {
    let (mut s, ids) = store();
    let mut auth = empty_auth();
    match create_key(&mut auth, &mut s, &ids[2], key_req("k", None, Some("superuser"))) {
        Err(GatewayError::BadRequest(m)) => assert_eq!(m, "unknown role 'superuser'"),
        other => panic!("unexpected {:?}", other),
    }
}

#[test]
fn tenant_admin_cannot_mint_elevated_keys() {
    let (mut s, ids) = store();
    let mut auth = empty_auth();
    for role in ["tenant_admin", "admin"] {
        match create_key(&mut auth, &mut s, &ids[1], key_req("k", None, Some(role))) {
            Err(GatewayError::Forbidden(m)) => {
                assert_eq!(m, "insufficient privileges to create an elevated-role key")
            }
            other => panic!("unexpected {:?}", other),
        }
    }
    assert!(auth.structured_keys.is_empty());
}

#[test]
fn duplicate_structured_key_is_refused() {
    let (mut s, ids) = store();
    let mut auth = empty_auth();
    auth.structured_keys.push(StructuredKey("dup".to_string(), "acme".to_string(), "developer".to_string()));
    let before = s.list_entries().len();
    match create_key(&mut auth, &mut s, &ids[1], key_req("dup", None, None)) {
        Err(GatewayError::BadRequest(m)) => assert_eq!(m, "API key already exists"),
        other => panic!("unexpected {:?}", other),
    }
    assert_eq!(s.list_entries().len(), before);
}

#[test]
fn revoke_removes_key_everywhere() {
    let (mut s, ids) = store();
    let mut auth = empty_auth();
    create_key(&mut auth, &mut s, &ids[1], key_req("temp", None, None)).unwrap();
    auth.api_keys.push("temp".to_string());
    let revoked = revoke_key(&mut auth, &mut s, &ids[1], "temp").unwrap();
    assert_eq!(revoked.caller_tenant, "acme");
    assert_eq!(revoked.caller_role, Role::tenant_admin());
    assert!(s.verify("temp").is_none());
    assert!(s.verify_by_id(&revoked.key_id).is_none());
    assert!(auth.structured_keys.is_empty());
    assert_eq!(auth.api_keys, vec!["plain-key".to_string()]);
}

#[test]
fn revoke_unknown_key_and_other_tenant() {
    let (mut s, ids) = store();
    let mut auth = empty_auth();
    match revoke_key(&mut auth, &mut s, &ids[1], "no-such-key") {
        Err(GatewayError::BadRequest(m)) => assert_eq!(m, "API key not found"),
        other => panic!("unexpected {:?}", other),
    }
    match revoke_key(&mut auth, &mut s, &ids[1], "gx-key") {
        Err(GatewayError::Forbidden(_)) => {}
        other => panic!("unexpected {:?}", other),
    }
    assert!(s.verify("gx-key").is_some());
    assert!(revoke_key(&mut auth, &mut s, &ids[2], "gx-key").is_ok());
    assert!(s.verify("gx-key").is_none());
}

#[test]
fn tenant_scope_for_quotas_and_usage() {
    let (s, ids) = store();
    assert_eq!(tenant_scope(&s, &ids[1], "acme").unwrap(), "acme");
    assert!(matches!(tenant_scope(&s, &ids[1], "globex"), Err(GatewayError::Forbidden(_))));
    assert!(matches!(tenant_scope(&s, &ids[0], "acme"), Err(GatewayError::Forbidden(_))));
    assert_eq!(tenant_scope(&s, &ids[2], "globex").unwrap(), "acme");
}

#[test]
fn quota_update_replaces_given_limits() {
    let q = TenantQuotas::default();
    let u = apply_quota_update(q, Some(999), None, Some(7), None);
    assert_eq!(u.max_rpm, 999);
    assert_eq!(u.max_rpd, 10_000);
    assert_eq!(u.max_tpm, 7);
    assert_eq!(u.max_tpd, 5_000_000);
}

#[test]
fn tenant_lifecycle_rules() {
    let (s, ids) = store();
    let existing = vec!["default".to_string(), "acme".to_string()];
    assert!(authorize_tenant_creation(&s, &ids[2], "new-co", &existing).is_ok());
    match authorize_tenant_creation(&s, &ids[2], "acme", &existing) {
        Err(GatewayError::BadRequest(m)) => assert_eq!(m, "Tenant 'acme' already exists"),
        other => panic!("unexpected {:?}", other),
    }
    match authorize_tenant_creation(&s, &ids[2], "", &existing) {
        Err(GatewayError::BadRequest(m)) => assert_eq!(m, "Tenant id cannot be empty"),
        other => panic!("unexpected {:?}", other),
    }
    assert!(matches!(
        authorize_tenant_creation(&s, &ids[1], "rogue", &existing),
        Err(GatewayError::Forbidden(_))
    ));
    match authorize_tenant_deletion(&s, &ids[2], "default", &existing) {
        Err(GatewayError::BadRequest(m)) => assert_eq!(m, "Cannot delete default tenant"),
        other => panic!("unexpected {:?}", other),
    }
    match authorize_tenant_deletion(&s, &ids[2], "ghost", &existing) {
        Err(GatewayError::BadRequest(m)) => assert_eq!(m, "Tenant 'ghost' not found"),
        other => panic!("unexpected {:?}", other),
    }
    assert!(authorize_tenant_deletion(&s, &ids[2], "acme", &existing).is_ok());
}

#[test]
fn provider_rules() {
    let (s, ids) = store();
    let existing = vec!["openai".to_string()];
    assert!(matches!(
        authorize_provider_creation(&s, &ids[0], "hacker", &existing),
        Err(GatewayError::Forbidden(_))
    ));
    assert!(authorize_provider_creation(&s, &ids[1], "test-provider", &existing).is_ok());
    match authorize_provider_creation(&s, &ids[1], "", &existing) {
        Err(GatewayError::BadRequest(m)) => assert_eq!(m, "Provider name cannot be empty"),
        other => panic!("unexpected {:?}", other),
    }
    match authorize_provider_creation(&s, &ids[1], "openai", &existing) {
        Err(GatewayError::BadRequest(m)) => assert_eq!(m, "Provider 'openai' already exists"),
        other => panic!("unexpected {:?}", other),
    }
    match authorize_provider_access(&s, &ids[1], "gemini", &existing) {
        Err(GatewayError::ProviderNotFound(m)) => assert_eq!(m, "gemini"),
        other => panic!("unexpected {:?}", other),
    }
    assert!(authorize_provider_access(&s, &ids[1], "openai", &existing).is_ok());
}

#[test]
fn provider_info_hides_the_key() {
    let info = provider_info("openai", &Some("sk-secret".to_string()), &None, &vec!["gpt-4o".to_string()]);
    assert!(info.api_key_set);
    assert_eq!(info.models, vec!["gpt-4o".to_string()]);
    let info = provider_info("x", &Some(String::new()), &Some("http://h".to_string()), &vec![]);
    assert!(!info.api_key_set);
    assert_eq!(info.base_url.as_deref(), Some("http://h"));
}

#[test]
fn provider_update_merges_fields() {
    let req = UpdateProviderRequest { api_key: None, base_url: Some("http://new".to_string()), models: None };
    let (k, u, m) = apply_provider_update(Some("k".to_string()), None, vec!["a".to_string()], req);
    assert_eq!(k.as_deref(), Some("k"));
    assert_eq!(u.as_deref(), Some("http://new"));
    assert_eq!(m, vec!["a".to_string()]);
}

#[test]
fn config_updates_merge_fields() {
    let c = apply_cache_update(
        CacheConfig::default(),
        UpdateCacheConfigRequest { enabled: Some(false), max_capacity: None, ttl_seconds: Some(10) },
    );
    assert!(!c.enabled);
    assert_eq!(c.max_capacity, 1000);
    assert_eq!(c.ttl_seconds, 10);
    let r = apply_rate_limit_update(RateLimitConfig::default(), UpdateRateLimitRequest { requests_per_minute: None });
    assert_eq!(r.requests_per_minute, 60);
    let r = apply_rate_limit_update(r, UpdateRateLimitRequest { requests_per_minute: Some(5) });
    assert_eq!(r.requests_per_minute, 5);
    let card = apply_rate_card_update(
        None,
        UpdateRateCardRequest { prompt_per_million: Some(30), completion_per_million: None },
    );
    assert_eq!(card, RateCard { prompt_per_million: 30, completion_per_million: 0 });
}

#[test]
fn listings_are_tenant_scoped() {
    let (s, _ids) = store();
    let acme = list_keys(&s, false, "acme");
    assert_eq!(acme.len(), 3);
    assert!(acme.iter().all(|(_, t, _)| t == "acme"));
    assert_eq!(list_keys(&s, true, "acme").len(), 4);
    assert!(visible(false, "acme", "acme"));
    assert!(!visible(false, "acme", "globex"));
    assert!(visible(true, "acme", "globex"));
    assert_eq!(costs_tenant_filter(false, Some("globex".to_string()), "acme".to_string()).as_deref(), Some("acme"));
    assert_eq!(costs_tenant_filter(true, None, "acme".to_string()), None);
}
