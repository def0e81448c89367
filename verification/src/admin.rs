//! Decisions of the admin API: who may manage keys, tenants, quotas and
//! configuration, and how each change is applied.
use vstd::prelude::*;

use crate::auth_key::{spec_entries_view, spec_first_match, spec_made_from, spec_without_id, ApiKeyEntry, ApiKeyStore, EntryView};
use crate::config::{AuthConfig, CacheConfig, RateLimitConfig, StructuredKey};
use crate::error::{ErrorView, GatewayError};
use crate::rbac::{caller_role, require_role, spec_entry_by_id, spec_require_role, spec_result_is};
use crate::metering::RateCard;
use crate::tenant::{spec_role_from_name, Role, TenantQuotas};
use crate::text::{opt_string_view, str_eq, string_differs, strings_without};

verus! {

// ---------------------------------------------------------------------------
// Request and response bodies
// ---------------------------------------------------------------------------

/// Body of a request that registers a provider.
#[derive(Debug, Clone)]
pub struct CreateProviderRequest {
    pub name: String,
    pub api_key: Option<String>,
    pub base_url: Option<String>,
    pub models: Vec<String>,
}

/// Body of a request that changes a provider; absent fields stay.
#[derive(Debug, Clone)]
pub struct UpdateProviderRequest {
    pub api_key: Option<String>,
    pub base_url: Option<String>,
    pub models: Option<Vec<String>>,
}

/// Body of a request that creates an API key.
#[derive(Debug, Clone)]
pub struct CreateApiKeyRequest {
    pub key: String,
    pub tenant_id: Option<String>,
    pub role: Option<String>,
}

/// A tenant as the admin API lists it.
#[derive(Debug, Clone)]
pub struct TenantInfo {
    pub id: String,
    pub quotas: TenantQuotas,
    pub allowed_providers: Option<Vec<String>>,
    pub allowed_models: Option<Vec<String>>,
}

/// Body of a request that creates a tenant.
#[derive(Debug, Clone)]
pub struct CreateTenantRequest {
    pub id: String,
    pub quotas: Option<TenantQuotas>,
}

/// Body of a request that changes the cache settings; absent fields stay.
#[derive(Debug, Clone, Copy)]
pub struct UpdateCacheConfigRequest {
    pub enabled: Option<bool>,
    pub max_capacity: Option<u64>,
    pub ttl_seconds: Option<u64>,
}

/// Body of a request that changes the default rate limit.
#[derive(Debug, Clone, Copy)]
pub struct UpdateRateLimitRequest {
    pub requests_per_minute: Option<u32>,
}

/// Query of the cost report: window (`24h`, `7d`, `30d`) and, for global
/// admins, a tenant filter.
#[derive(Debug, Clone)]
pub struct CostsParams {
    pub window: Option<String>,
    pub tenant: Option<String>,
}

/// Aggregate gateway metrics as the admin API reports them.
#[derive(Debug, Clone)]
pub struct AdminMetricsResponse {
    pub total_requests: u64,
    pub total_prompt_tokens: u64,
    pub total_completion_tokens: u64,
    pub total_errors: u64,
    /// Requests per model.
    pub per_model: Vec<(String, u64)>,
    pub providers_count: usize,
    pub models_count: usize,
    pub cache_enabled: bool,
    pub cache_size: u64,
    pub rate_limit_rpm: u32,
    pub auth_enabled: bool,
    pub api_keys_count: usize,
}

/// A provider as the admin API reports it: whether a key is set, never
/// the key.
#[derive(Debug, Clone)]
pub struct ProviderInfo {
    pub name: String,
    pub api_key_set: bool,
    pub base_url: Option<String>,
    pub models: Vec<String>,
}

/// Body of a request that changes the rate card; absent fields stay.
#[derive(Debug, Clone, Copy)]
pub struct UpdateRateCardRequest {
    pub prompt_per_million: Option<u64>,
    pub completion_per_million: Option<u64>,
}

// ---------------------------------------------------------------------------
// Key management
// ---------------------------------------------------------------------------

/// Whether `key` is one of the configured structured keys.
pub open spec fn spec_key_configured(keys: Seq<StructuredKey>, key: Seq<char>) -> bool {
    exists|i: int| 0 <= i < keys.len() && (#[trigger] keys[i]).0@ == key
}

/// Whether `name` is the wire name of one of the three roles.
pub open spec fn spec_known_role_name(name: Seq<char>) -> bool {
    name == "developer"@ || name == "tenant_admin"@ || name == "admin"@
}

/// The role of the caller's key; developer when the key is unknown.
pub open spec fn spec_caller_role(s: Seq<EntryView>, caller: Seq<char>) -> Role {
    match spec_entry_by_id(s, caller) {
        Some(e) => spec_role_from_name(e.role),
        None => Role(10),
    }
}

/// Acting on tenant `target` when the caller's own tenant is `own` needs
/// a global admin: the refusal when the caller is none.
pub open spec fn spec_cross_tenant_refusal(s: Seq<EntryView>, caller: Seq<char>, own: Seq<char>, target: Seq<char>) -> Option<ErrorView> {
    if target != own {
        match spec_require_role(s, caller, Role(100)) {
            Err(e) => Some(e),
            Ok(_) => None,
        }
    } else {
        None
    }
}

/// The outcome of a key-creation request by the key with fingerprint
/// `caller`: the tenant and role of the new key, or the refusal.
///
/// The caller needs at least tenant_admin; the key must be non-empty; a
/// key for another tenant needs a global admin; the role must be a known
/// name; only a global admin may create tenant_admin or admin keys; and
/// the key must not be configured already.
pub open spec fn spec_key_creation(
    s: Seq<EntryView>,
    caller: Seq<char>,
    keys: Seq<StructuredKey>,
    key: Seq<char>,
    tenant: Option<Seq<char>>,
    role: Option<Seq<char>>,
) -> Result<(Seq<char>, Seq<char>), ErrorView> {
    match spec_require_role(s, caller, Role(50)) {
        Err(e) => Err(e),
        Ok(own) => {
            let target_tenant = match tenant {
                Some(t) => t,
                None => own,
            };
            let target_role = match role {
                Some(r) => r,
                None => "developer"@,
            };
            if key.len() == 0 {
                Err(ErrorView::BadRequest("API key cannot be empty"@))
            } else if spec_cross_tenant_refusal(s, caller, own, target_tenant) is Some {
                Err(spec_cross_tenant_refusal(s, caller, own, target_tenant).unwrap())
            } else if !spec_known_role_name(target_role) {
                Err(ErrorView::BadRequest("unknown role '"@ + target_role + "'"@))
            } else if spec_caller_role(s, caller).0 < 100 && spec_role_from_name(target_role).0 >= 50 {
                Err(ErrorView::Forbidden("insufficient privileges to create an elevated-role key"@))
            } else if spec_key_configured(keys, key) {
                Err(ErrorView::BadRequest("API key already exists"@))
            } else {
                Ok((target_tenant, target_role))
            }
        },
    }
}

/// Whether `new` is `old` with one more structured key `(key, tenant, role)`.
pub open spec fn spec_auth_with_key(old: AuthConfig, new: AuthConfig, key: Seq<char>, tenant: Seq<char>, role: Seq<char>) -> bool {
    &&& new.enabled == old.enabled
    &&& new.api_keys == old.api_keys
    &&& new.required_hmac_secret == old.required_hmac_secret
    &&& new.default_tenant == old.default_tenant
    &&& new.default_role == old.default_role
    &&& new.structured_keys@.len() == old.structured_keys@.len() + 1
    &&& new.structured_keys@.drop_last() == old.structured_keys@
    &&& new.structured_keys@.last().0@ == key
    &&& new.structured_keys@.last().1@ == tenant
    &&& new.structured_keys@.last().2@ == role
}

/// What a successful key creation reports.
#[derive(Debug, Clone)]
pub struct KeyCreated {
    /// Fingerprint of the new key.
    pub key_id: String,
    /// Tenant of the new key.
    pub tenant_id: String,
    /// Role name of the new key.
    pub role: String,
    /// Role of the key that asked.
    pub caller_role: Role,
}

/// Whether `key` is one of the configured structured keys.
fn key_configured(keys: &Vec<StructuredKey>, key: &str) -> (r: bool)
    ensures
        r == spec_key_configured(keys@, key@),
{
    let mut i: usize = 0;
    while i < keys.len()
        invariant
            i <= keys@.len(),
            forall|j: int| 0 <= j < i ==> (#[trigger] keys@[j]).0@ != key@,
        decreases keys@.len() - i,
    {
        if str_eq(keys[i].0.as_str(), key) {
            assert(keys@[i as int].0@ == key@);
            return true;
        }
        i = i + 1;
    }
    false
}

/// Whether `name` is the wire name of one of the three roles.
fn known_role_name(name: &str) -> (r: bool)
    ensures
        r == spec_known_role_name(name@),
{
    str_eq(name, "developer") || str_eq(name, "tenant_admin") || str_eq(name, "admin")
}

/// Create an API key on behalf of the key with fingerprint
/// `caller_key_id`. On success the key is appended to the configured
/// structured keys and its record to the store, both at once, and the new
/// fingerprint is returned; on refusal nothing changes.
pub fn create_key(
    auth: &mut AuthConfig,
    store: &mut ApiKeyStore,
    caller_key_id: &str,
    req: CreateApiKeyRequest,
) -> (r: Result<KeyCreated, GatewayError>)
    ensures
        match spec_key_creation(
            old(store)@,
            caller_key_id@,
            old(auth).structured_keys@,
            req.key@,
            opt_string_view(req.tenant_id),
            opt_string_view(req.role),
        ) {
            Err(ev) => {
                &&& r matches Err(e) && e@ == ev
                &&& *final(auth) == *old(auth)
                &&& final(store)@ == old(store)@
            },
            Ok((tenant, role)) => {
                &&& r matches Ok(c) && {
                    &&& c.tenant_id@ == tenant
                    &&& c.role@ == role
                    &&& c.caller_role == spec_caller_role(old(store)@, caller_key_id@)
                    &&& c.key_id@ == final(store)@.last().key_id
                }
                &&& spec_auth_with_key(*old(auth), *final(auth), req.key@, tenant, role)
                &&& final(store)@.len() == old(store)@.len() + 1
                &&& final(store)@.drop_last() == old(store)@
                &&& spec_made_from(final(store)@.last(), req.key@, tenant, role)
            },
        },
{
    let ghost s = store@;
    let own = match require_role(store, caller_key_id, Role::tenant_admin()) {
        Ok(t) => t,
        Err(e) => {
            return Err(e);
        },
    };
    if req.key.as_str().unicode_len() == 0 {
        return Err(GatewayError::BadRequest("API key cannot be empty".to_owned()));
    }
    let role_of_caller = caller_role(store, caller_key_id);
    let target_tenant = match req.tenant_id {
        Some(t) => t,
        None => own.clone(),
    };
    if !str_eq(target_tenant.as_str(), own.as_str()) {
        match require_role(store, caller_key_id, Role::admin()) {
            Ok(_) => {},
            Err(e) => {
                return Err(e);
            },
        }
    }
    let target_role = match req.role {
        Some(r) => r,
        None => "developer".to_owned(),
    };
    if !known_role_name(target_role.as_str()) {
        let mut m = "unknown role '".to_owned();
        m.append(target_role.as_str());
        m.append("'");
        return Err(GatewayError::BadRequest(m));
    }
    if role_of_caller.0 < 100 && Role::from_str(target_role.as_str()).0 >= 50 {
        return Err(
            GatewayError::Forbidden("insufficient privileges to create an elevated-role key".to_owned()),
        );
    }
    if key_configured(&auth.structured_keys, req.key.as_str()) {
        return Err(GatewayError::BadRequest("API key already exists".to_owned()));
    }
    let entry = ApiKeyEntry::new(req.key.as_str(), target_tenant.as_str(), target_role.as_str());
    let key_id = entry.key_id.clone();
    let ghost old_keys = auth.structured_keys@;
    auth.structured_keys.push(StructuredKey(req.key, target_tenant.clone(), target_role.clone()));
    store.add(entry);
    assert(auth.structured_keys@.drop_last() =~= old_keys);
    assert(store@.drop_last() =~= s);
    Ok(KeyCreated { key_id, tenant_id: target_tenant, role: target_role, caller_role: role_of_caller })
}

/// The outcome of revoking plaintext key `key` on behalf of the key with
/// fingerprint `caller`: the record that goes, or the refusal.
///
/// The caller needs at least tenant_admin; the key must verify against a
/// stored record (the first one it matches); revoking a key of another
/// tenant needs a global admin.
pub open spec fn spec_key_revocation(s: Seq<EntryView>, caller: Seq<char>, key: Seq<char>) -> Result<EntryView, ErrorView> {
    match spec_require_role(s, caller, Role(50)) {
        Err(e) => Err(e),
        Ok(own) => match spec_first_match(s, key) {
            None => Err(ErrorView::BadRequest("API key not found"@)),
            Some(i) => match spec_cross_tenant_refusal(s, caller, own, s[i].tenant_id) {
                Some(e) => Err(e),
                None => Ok(s[i]),
            },
        },
    }
}

/// Whether a structured key's plaintext differs from `key`.
pub open spec fn spec_structured_differs(key: Seq<char>) -> spec_fn(StructuredKey) -> bool {
    |k: StructuredKey| k.0@ != key
}

/// Whether `new` is `old` with plaintext `key` gone from both key lists.
pub open spec fn spec_auth_without_key(old: AuthConfig, new: AuthConfig, key: Seq<char>) -> bool {
    &&& new.enabled == old.enabled
    &&& new.api_keys@ == old.api_keys@.filter(string_differs(key))
    &&& new.structured_keys@ == old.structured_keys@.filter(spec_structured_differs(key))
    &&& new.required_hmac_secret == old.required_hmac_secret
    &&& new.default_tenant == old.default_tenant
    &&& new.default_role == old.default_role
}

/// What a successful revocation reports.
#[derive(Debug, Clone)]
pub struct KeyRevoked {
    /// Fingerprint of the revoked key.
    pub key_id: String,
    /// Tenant of the key that asked.
    pub caller_tenant: String,
    /// Role of the key that asked.
    pub caller_role: Role,
}

/// The structured keys of `keys` whose plaintext is not `key`, in order.
fn structured_without(keys: &Vec<StructuredKey>, key: &str) -> (r: Vec<StructuredKey>)
    ensures
        r@ == keys@.filter(spec_structured_differs(key@)),
{
    let mut kept: Vec<StructuredKey> = Vec::new();
    let mut i: usize = 0;
    while i < keys.len()
        invariant
            i <= keys@.len(),
            kept@ == keys@.take(i as int).filter(spec_structured_differs(key@)),
        decreases keys@.len() - i,
    {
        assert(keys@.take(i + 1) == keys@.take(i as int).push(keys@[i as int]));
        proof {
            keys@.take(i as int).lemma_filter_push(keys@[i as int], spec_structured_differs(key@));
        }
        let k = &keys[i];
        if !str_eq(k.0.as_str(), key) {
            kept.push(StructuredKey(k.0.clone(), k.1.clone(), k.2.clone()));
        }
        i = i + 1;
    }
    assert(keys@.take(keys@.len() as int) == keys@);
    kept
}

/// Revoke plaintext key `plaintext_key` on behalf of the key with
/// fingerprint `caller_key_id`: its record leaves the store (every record
/// with its fingerprint) and the key leaves both configured key lists, so
/// that it does not come back on restart. On refusal nothing changes.
pub fn revoke_key(
    auth: &mut AuthConfig,
    store: &mut ApiKeyStore,
    caller_key_id: &str,
    plaintext_key: &str,
) -> (r: Result<KeyRevoked, GatewayError>)
    ensures
        match spec_key_revocation(old(store)@, caller_key_id@, plaintext_key@) {
            Err(ev) => {
                &&& r matches Err(e) && e@ == ev
                &&& *final(auth) == *old(auth)
                &&& final(store)@ == old(store)@
            },
            Ok(entry) => {
                &&& r matches Ok(k) && {
                    &&& k.key_id@ == entry.key_id
                    &&& spec_require_role(old(store)@, caller_key_id@, Role(50)) == Ok::<Seq<char>, ErrorView>(k.caller_tenant@)
                    &&& k.caller_role == spec_caller_role(old(store)@, caller_key_id@)
                }
                &&& final(store)@ == spec_without_id(old(store)@, entry.key_id)
                &&& spec_auth_without_key(*old(auth), *final(auth), plaintext_key@)
            },
        },
{
    let own = match require_role(store, caller_key_id, Role::tenant_admin()) {
        Ok(t) => t,
        Err(e) => {
            return Err(e);
        },
    };
    let role_of_caller = caller_role(store, caller_key_id);
    let (key_id, key_tenant) = match store.verify(plaintext_key) {
        Some(e) => (e.key_id.clone(), e.tenant_id.clone()),
        None => {
            return Err(GatewayError::BadRequest("API key not found".to_owned()));
        },
    };
    if !str_eq(key_tenant.as_str(), own.as_str()) {
        match require_role(store, caller_key_id, Role::admin()) {
            Ok(_) => {},
            Err(e) => {
                return Err(e);
            },
        }
    }
    store.remove_by_id(key_id.as_str());
    let structured = structured_without(&auth.structured_keys, plaintext_key);
    let plain = strings_without(&auth.api_keys, plaintext_key);
    auth.structured_keys = structured;
    auth.api_keys = plain;
    Ok(KeyRevoked { key_id, caller_tenant: own, caller_role: role_of_caller })
}

// ---------------------------------------------------------------------------
// Tenant scope, tenants and quotas
// ---------------------------------------------------------------------------

/// The outcome of acting on tenant `tenant` as the key with fingerprint
/// `caller`: tenant_admin of that tenant, or a global admin. `Ok` carries
/// the caller's own tenant.
pub open spec fn spec_tenant_scope(s: Seq<EntryView>, caller: Seq<char>, tenant: Seq<char>) -> Result<Seq<char>, ErrorView> {
    match spec_require_role(s, caller, Role(50)) {
        Err(e) => Err(e),
        Ok(own) => match spec_cross_tenant_refusal(s, caller, own, tenant) {
            Some(e) => Err(e),
            None => Ok(own),
        },
    }
}

/// Check that the key with fingerprint `caller_key_id` may administer
/// tenant `tenant_id` (its quotas, its usage); `Ok` carries the caller's
/// own tenant.
pub fn tenant_scope(store: &ApiKeyStore, caller_key_id: &str, tenant_id: &str) -> (r: Result<String, GatewayError>)
    ensures
        spec_result_is(r, spec_tenant_scope(store@, caller_key_id@, tenant_id@)),
{
    let own = match require_role(store, caller_key_id, Role::tenant_admin()) {
        Ok(t) => t,
        Err(e) => {
            return Err(e);
        },
    };
    if !str_eq(own.as_str(), tenant_id) {
        match require_role(store, caller_key_id, Role::admin()) {
            Ok(_) => {},
            Err(e) => {
                return Err(e);
            },
        }
    }
    Ok(own)
}

/// The quotas after an update: each given limit replaces the old one.
pub open spec fn spec_quota_update(
    q: TenantQuotas,
    max_rpm: Option<u32>,
    max_rpd: Option<u64>,
    max_tpm: Option<u64>,
    max_tpd: Option<u64>,
) -> TenantQuotas {
    TenantQuotas {
        max_rpm: match max_rpm {
            Some(v) => v,
            None => q.max_rpm,
        },
        max_rpd: match max_rpd {
            Some(v) => v,
            None => q.max_rpd,
        },
        max_tpm: match max_tpm {
            Some(v) => v,
            None => q.max_tpm,
        },
        max_tpd: match max_tpd {
            Some(v) => v,
            None => q.max_tpd,
        },
    }
}

/// Apply a quota update: each given limit replaces the old one, the
/// others stay.
pub fn apply_quota_update(
    q: TenantQuotas,
    max_rpm: Option<u32>,
    max_rpd: Option<u64>,
    max_tpm: Option<u64>,
    max_tpd: Option<u64>,
) -> (r: TenantQuotas)
    ensures
        r == spec_quota_update(q, max_rpm, max_rpd, max_tpm, max_tpd),
{
    let mut out = q;
    if let Some(v) = max_rpm {
        out.max_rpm = v;
    }
    if let Some(v) = max_rpd {
        out.max_rpd = v;
    }
    if let Some(v) = max_tpm {
        out.max_tpm = v;
    }
    if let Some(v) = max_tpd {
        out.max_tpd = v;
    }
    out
}

/// Whether `name` is one of `names`.
pub open spec fn spec_listed(names: Seq<String>, name: Seq<char>) -> bool {
    exists|i: int| 0 <= i < names.len() && (#[trigger] names[i])@ == name
}

/// Whether `name` is one of `names`.
pub fn listed(names: &Vec<String>, name: &str) -> (r: bool)
    ensures
        r == spec_listed(names@, name@),
{
    let mut i: usize = 0;
    while i < names.len()
        invariant
            i <= names@.len(),
            forall|j: int| 0 <= j < i ==> (#[trigger] names@[j])@ != name@,
        decreases names@.len() - i,
    {
        if str_eq(names[i].as_str(), name) {
            assert(names@[i as int]@ == name@);
            return true;
        }
        i = i + 1;
    }
    false
}

/// The outcome of creating tenant `id` when `existing` are the tenant ids:
/// global admins only, a non-empty id that is not taken.
pub open spec fn spec_tenant_creation(s: Seq<EntryView>, caller: Seq<char>, id: Seq<char>, existing: Seq<String>) -> Result<(), ErrorView> {
    match spec_require_role(s, caller, Role(100)) {
        Err(e) => Err(e),
        Ok(_) => if id.len() == 0 {
            Err(ErrorView::BadRequest("Tenant id cannot be empty"@))
        } else if spec_listed(existing, id) {
            Err(ErrorView::BadRequest("Tenant '"@ + id + "' already exists"@))
        } else {
            Ok(())
        },
    }
}

/// Check a tenant creation by the key with fingerprint `caller_key_id`.
pub fn authorize_tenant_creation(
    store: &ApiKeyStore,
    caller_key_id: &str,
    id: &str,
    existing: &Vec<String>,
) -> (r: Result<(), GatewayError>)
    ensures
        match spec_tenant_creation(store@, caller_key_id@, id@, existing@) {
            Ok(_) => r is Ok,
            Err(ev) => r matches Err(e) && e@ == ev,
        },
{
    match require_role(store, caller_key_id, Role::admin()) {
        Ok(_) => {},
        Err(e) => {
            return Err(e);
        },
    }
    if id.unicode_len() == 0 {
        return Err(GatewayError::BadRequest("Tenant id cannot be empty".to_owned()));
    }
    if listed(existing, id) {
        let mut m = "Tenant '".to_owned();
        m.append(id);
        m.append("' already exists");
        return Err(GatewayError::BadRequest(m));
    }
    Ok(())
}

/// The outcome of deleting tenant `id` when `existing` are the tenant ids:
/// global admins only; the default tenant stays; the tenant must exist.
pub open spec fn spec_tenant_deletion(s: Seq<EntryView>, caller: Seq<char>, id: Seq<char>, existing: Seq<String>) -> Result<(), ErrorView> {
    match spec_require_role(s, caller, Role(100)) {
        Err(e) => Err(e),
        Ok(_) => if id == "default"@ {
            Err(ErrorView::BadRequest("Cannot delete default tenant"@))
        } else if !spec_listed(existing, id) {
            Err(ErrorView::BadRequest("Tenant '"@ + id + "' not found"@))
        } else {
            Ok(())
        },
    }
}

/// Check a tenant deletion by the key with fingerprint `caller_key_id`.
pub fn authorize_tenant_deletion(
    store: &ApiKeyStore,
    caller_key_id: &str,
    id: &str,
    existing: &Vec<String>,
) -> (r: Result<(), GatewayError>)
    ensures
        match spec_tenant_deletion(store@, caller_key_id@, id@, existing@) {
            Ok(_) => r is Ok,
            Err(ev) => r matches Err(e) && e@ == ev,
        },
{
    match require_role(store, caller_key_id, Role::admin()) {
        Ok(_) => {},
        Err(e) => {
            return Err(e);
        },
    }
    if str_eq(id, "default") {
        return Err(GatewayError::BadRequest("Cannot delete default tenant".to_owned()));
    }
    if !listed(existing, id) {
        let mut m = "Tenant '".to_owned();
        m.append(id);
        m.append("' not found");
        return Err(GatewayError::BadRequest(m));
    }
    Ok(())
}

// ---------------------------------------------------------------------------
// Providers
// ---------------------------------------------------------------------------

/// The outcome of registering provider `name` when `existing` are the
/// configured provider names: tenant_admin at least, a non-empty name that
/// is not taken.
pub open spec fn spec_provider_creation(s: Seq<EntryView>, caller: Seq<char>, name: Seq<char>, existing: Seq<String>) -> Result<(), ErrorView> {
    match spec_require_role(s, caller, Role(50)) {
        Err(e) => Err(e),
        Ok(_) => if name.len() == 0 {
            Err(ErrorView::BadRequest("Provider name cannot be empty"@))
        } else if spec_listed(existing, name) {
            Err(ErrorView::BadRequest("Provider '"@ + name + "' already exists"@))
        } else {
            Ok(())
        },
    }
}

/// Check a provider registration by the key with fingerprint `caller_key_id`.
pub fn authorize_provider_creation(
    store: &ApiKeyStore,
    caller_key_id: &str,
    name: &str,
    existing: &Vec<String>,
) -> (r: Result<(), GatewayError>)
    ensures
        match spec_provider_creation(store@, caller_key_id@, name@, existing@) {
            Ok(_) => r is Ok,
            Err(ev) => r matches Err(e) && e@ == ev,
        },
{
    match require_role(store, caller_key_id, Role::tenant_admin()) {
        Ok(_) => {},
        Err(e) => {
            return Err(e);
        },
    }
    if name.unicode_len() == 0 {
        return Err(GatewayError::BadRequest("Provider name cannot be empty".to_owned()));
    }
    if listed(existing, name) {
        let mut m = "Provider '".to_owned();
        m.append(name);
        m.append("' already exists");
        return Err(GatewayError::BadRequest(m));
    }
    Ok(())
}

/// The outcome of reading, changing or removing provider `name`:
/// tenant_admin at least, and the provider must be configured.
pub open spec fn spec_provider_access(s: Seq<EntryView>, caller: Seq<char>, name: Seq<char>, existing: Seq<String>) -> Result<(), ErrorView> {
    match spec_require_role(s, caller, Role(50)) {
        Err(e) => Err(e),
        Ok(_) => if !spec_listed(existing, name) {
            Err(ErrorView::ProviderNotFound(name))
        } else {
            Ok(())
        },
    }
}

/// Check access to configured provider `name` by the key with fingerprint
/// `caller_key_id`.
pub fn authorize_provider_access(
    store: &ApiKeyStore,
    caller_key_id: &str,
    name: &str,
    existing: &Vec<String>,
) -> (r: Result<(), GatewayError>)
    ensures
        match spec_provider_access(store@, caller_key_id@, name@, existing@) {
            Ok(_) => r is Ok,
            Err(ev) => r matches Err(e) && e@ == ev,
        },
{
    match require_role(store, caller_key_id, Role::tenant_admin()) {
        Ok(_) => {},
        Err(e) => {
            return Err(e);
        },
    }
    if !listed(existing, name) {
        return Err(GatewayError::ProviderNotFound(name.to_owned()));
    }
    Ok(())
}

/// Whether an optional provider key is present and non-empty.
pub open spec fn spec_key_set(api_key: Option<String>) -> bool {
    match api_key {
        Some(k) => k@.len() > 0,
        None => false,
    }
}

/// The report of a provider: its name, whether a non-empty key is set (the
/// key itself is never reported), its base URL and models.
pub fn provider_info(name: &str, api_key: &Option<String>, base_url: &Option<String>, models: &Vec<String>) -> (p: ProviderInfo)
    ensures
        p.name@ == name@,
        p.api_key_set == spec_key_set(*api_key),
        p.base_url == *base_url,
        p.models@ == models@,
{
    let api_key_set = match api_key {
        Some(k) => k.as_str().unicode_len() > 0,
        None => false,
    };
    let base = match base_url {
        Some(u) => Some(u.clone()),
        None => None,
    };
    let mut out: Vec<String> = Vec::new();
    let mut i: usize = 0;
    while i < models.len()
        invariant
            i <= models@.len(),
            out@ == models@.take(i as int),
        decreases models@.len() - i,
    {
        out.push(models[i].clone());
        i = i + 1;
        assert(out@ =~= models@.take(i as int));
    }
    assert(models@.take(models@.len() as int) =~= models@);
    ProviderInfo { name: name.to_owned(), api_key_set, base_url: base, models: out }
}

/// A provider's key, base URL and models after an update: each given field
/// replaces the old one.
pub fn apply_provider_update(
    api_key: Option<String>,
    base_url: Option<String>,
    models: Vec<String>,
    req: UpdateProviderRequest,
) -> (r: (Option<String>, Option<String>, Vec<String>))
    ensures
        r.0 == (match req.api_key {
            Some(k) => Some(k),
            None => api_key,
        }),
        r.1 == (match req.base_url {
            Some(u) => Some(u),
            None => base_url,
        }),
        r.2 == (match req.models {
            Some(m) => m,
            None => models,
        }),
{
    let k = match req.api_key {
        Some(k) => Some(k),
        None => api_key,
    };
    let u = match req.base_url {
        Some(u) => Some(u),
        None => base_url,
    };
    let m = match req.models {
        Some(m) => m,
        None => models,
    };
    (k, u, m)
}

// ---------------------------------------------------------------------------
// Global configuration
// ---------------------------------------------------------------------------

/// The cache settings after an update: each given field replaces the old one.
pub fn apply_cache_update(c: CacheConfig, req: UpdateCacheConfigRequest) -> (r: CacheConfig)
    ensures
        r.enabled == (match req.enabled {
            Some(v) => v,
            None => c.enabled,
        }),
        r.max_capacity == (match req.max_capacity {
            Some(v) => v,
            None => c.max_capacity,
        }),
        r.ttl_seconds == (match req.ttl_seconds {
            Some(v) => v,
            None => c.ttl_seconds,
        }),
{
    let mut out = c;
    if let Some(v) = req.enabled {
        out.enabled = v;
    }
    if let Some(v) = req.max_capacity {
        out.max_capacity = v;
    }
    if let Some(v) = req.ttl_seconds {
        out.ttl_seconds = v;
    }
    out
}

/// The default rate limit after an update.
pub fn apply_rate_limit_update(c: RateLimitConfig, req: UpdateRateLimitRequest) -> (r: RateLimitConfig)
    ensures
        r.requests_per_minute == (match req.requests_per_minute {
            Some(v) => v,
            None => c.requests_per_minute,
        }),
{
    match req.requests_per_minute {
        Some(v) => RateLimitConfig { requests_per_minute: v },
        None => c,
    }
}

/// The rate card after an update; with none configured the update starts
/// from the free card (zero prices).
pub fn apply_rate_card_update(card: Option<RateCard>, req: UpdateRateCardRequest) -> (r: RateCard)
    ensures
        r.prompt_per_million == (match req.prompt_per_million {
            Some(v) => v,
            None => match card {
                Some(c) => c.prompt_per_million,
                None => 0,
            },
        }),
        r.completion_per_million == (match req.completion_per_million {
            Some(v) => v,
            None => match card {
                Some(c) => c.completion_per_million,
                None => 0,
            },
        }),
{
    let mut out = match card {
        Some(c) => c,
        None => RateCard { prompt_per_million: 0, completion_per_million: 0 },
    };
    if let Some(v) = req.prompt_per_million {
        out.prompt_per_million = v;
    }
    if let Some(v) = req.completion_per_million {
        out.completion_per_million = v;
    }
    out
}

// ---------------------------------------------------------------------------
// Visibility
// ---------------------------------------------------------------------------

/// A listing shows a tenant's items to a global admin, and to others only
/// their own tenant's.
pub open spec fn spec_visible(is_admin: bool, caller_tenant: Seq<char>, tenant: Seq<char>) -> bool {
    is_admin || tenant == caller_tenant
}

/// Whether an item of `tenant` is listed for the caller.
pub fn visible(is_admin: bool, caller_tenant: &str, tenant: &str) -> (r: bool)
    ensures
        r == spec_visible(is_admin, caller_tenant@, tenant@),
{
    is_admin || str_eq(tenant, caller_tenant)
}

/// Whether a key record is listed for the caller.
pub open spec fn spec_entry_listed(is_admin: bool, caller_tenant: Seq<char>) -> spec_fn(EntryView) -> bool {
    |e: EntryView| spec_visible(is_admin, caller_tenant, e.tenant_id)
}

/// The key records listed for the caller, as (fingerprint, tenant, role),
/// in store order: all of them for a global admin, else those of the
/// caller's tenant. Hashes and salts are never listed.
pub fn list_keys(store: &ApiKeyStore, is_admin: bool, caller_tenant: &str) -> (r: Vec<(String, String, String)>)
    ensures
        r@.len() == store@.filter(spec_entry_listed(is_admin, caller_tenant@)).len(),
        forall|i: int|
            0 <= i < r@.len() ==> {
                let e = #[trigger] store@.filter(spec_entry_listed(is_admin, caller_tenant@))[i];
                &&& r@[i].0@ == e.key_id
                &&& r@[i].1@ == e.tenant_id
                &&& r@[i].2@ == e.role
            },
{
    let entries = store.list_entries();
    let ghost s = store@;
    let ghost p = spec_entry_listed(is_admin, caller_tenant@);
    let mut out: Vec<(String, String, String)> = Vec::new();
    let mut i: usize = 0;
    while i < entries.len()
        invariant
            s == spec_entries_view(entries@),
            p == spec_entry_listed(is_admin, caller_tenant@),
            i <= entries@.len(),
            out@.len() == s.take(i as int).filter(p).len(),
            forall|j: int|
                0 <= j < out@.len() ==> {
                    let e = #[trigger] s.take(i as int).filter(p)[j];
                    &&& out@[j].0@ == e.key_id
                    &&& out@[j].1@ == e.tenant_id
                    &&& out@[j].2@ == e.role
                },
        decreases entries@.len() - i,
    {
        let e = &entries[i];
        assert(s[i as int] == e@);
        assert(s.take(i + 1) == s.take(i as int).push(e@));
        proof {
            s.take(i as int).lemma_filter_push(e@, p);
        }
        if visible(is_admin, caller_tenant, e.tenant_id.as_str()) {
            out.push((e.key_id.clone(), e.tenant_id.clone(), e.role.clone()));
        }
        i = i + 1;
    }
    assert(s.take(entries@.len() as int) == s);
    out
}

/// The tenant a cost report covers: a global admin's choice (all tenants
/// when none), for everyone else their own tenant whatever they asked.
pub fn costs_tenant_filter(is_admin: bool, requested: Option<String>, caller_tenant: String) -> (r: Option<String>)
    ensures
        r == (if is_admin {
            requested
        } else {
            Some(caller_tenant)
        }),
{
    if is_admin {
        requested
    } else {
        Some(caller_tenant)
    }
}

// ---------------------------------------------------------------------------
// Laws
// ---------------------------------------------------------------------------

/// No privilege escalation through key creation: a caller that is not a
/// global admin only ever creates developer keys, and only in its own
/// tenant.
pub proof fn lemma_no_escalation(
    s: Seq<EntryView>,
    caller: Seq<char>,
    keys: Seq<StructuredKey>,
    key: Seq<char>,
    tenant: Option<Seq<char>>,
    role: Option<Seq<char>>,
)
    requires
        spec_caller_role(s, caller).0 < 100,
        spec_key_creation(s, caller, keys, key, tenant, role) is Ok,
    ensures
        spec_key_creation(s, caller, keys, key, tenant, role) matches Ok((t, r)) && spec_role_from_name(r)
            == Role(10) && spec_require_role(s, caller, Role(50)) == Ok::<Seq<char>, ErrorView>(t),
{
}

/// A key that key creation accepted authenticates at once: after the
/// store gains the record made from it, looking the key up finds a record
/// (this one, or an earlier record that the key also matches).
pub proof fn lemma_created_key_verifies(
    s: Seq<EntryView>,
    caller: Seq<char>,
    keys: Seq<StructuredKey>,
    key: Seq<char>,
    tenant: Option<Seq<char>>,
    role: Option<Seq<char>>,
    e: EntryView,
)
    requires
        spec_key_creation(s, caller, keys, key, tenant, role) matches Ok((t, r)) && spec_made_from(e, key, t, r),
    ensures
        spec_first_match(s.push(e), key) is Some,
{
    let (t, r) = spec_key_creation(s, caller, keys, key, tenant, role)->Ok_0;
    crate::auth_key::lemma_added_key_verifies(s, e, key, t, r);
}

/// A revoked key is gone from the configuration for good: neither the
/// structured keys nor the plaintext keys hold it any more, so it does not
/// come back when the store is rebuilt from the configuration.
pub proof fn lemma_revoked_key_not_configured(old: AuthConfig, new: AuthConfig, key: Seq<char>)
    requires
        spec_auth_without_key(old, new, key),
    ensures
        forall|i: int| 0 <= i < new.structured_keys@.len() ==> (#[trigger] new.structured_keys@[i]).0@ != key,
        forall|i: int| 0 <= i < new.api_keys@.len() ==> (#[trigger] new.api_keys@[i])@ != key,
{
    assert forall|i: int| 0 <= i < new.structured_keys@.len() implies (#[trigger] new.structured_keys@[i]).0@ != key by {
        old.structured_keys@.lemma_filter_pred(spec_structured_differs(key), i);
    }
    assert forall|i: int| 0 <= i < new.api_keys@.len() implies (#[trigger] new.api_keys@[i])@ != key by {
        old.api_keys@.lemma_filter_pred(string_differs(key), i);
    }
}

/// Tenant scoping: a caller may act on a tenant only as a tenant admin of
/// that very tenant or as a global admin.
pub proof fn lemma_tenant_scope_sound(s: Seq<EntryView>, caller: Seq<char>, tenant: Seq<char>)
    requires
        spec_tenant_scope(s, caller, tenant) is Ok,
    ensures
        spec_entry_by_id(s, caller) matches Some(e) && spec_role_from_name(e.role).0 >= 50 && (e.tenant_id
            == tenant || spec_role_from_name(e.role).0 >= 100),
{
}

/// What an accepted key creation guarantees: the caller's key is on record
/// with at least the tenant_admin role; the new key is non-empty and not
/// configured yet; its role is one of the three role names (developer when
/// none was asked for) and its tenant the one asked for (the caller's own
/// when none was); and a key for another tenant than the caller's needs a
/// global admin.
pub proof fn lemma_key_creation_guards(
    s: Seq<EntryView>,
    caller: Seq<char>,
    keys: Seq<StructuredKey>,
    key: Seq<char>,
    tenant: Option<Seq<char>>,
    role: Option<Seq<char>>,
)
    requires
        spec_key_creation(s, caller, keys, key, tenant, role) is Ok,
    ensures
        spec_entry_by_id(s, caller) matches Some(c) && {
            let (t, r) = spec_key_creation(s, caller, keys, key, tenant, role)->Ok_0;
            &&& spec_role_from_name(c.role).0 >= 50
            &&& key.len() > 0
            &&& forall|i: int| 0 <= i < keys.len() ==> (#[trigger] keys[i]).0@ != key
            &&& (r == "developer"@ || r == "tenant_admin"@ || r == "admin"@)
            &&& (role is None ==> r == "developer"@)
            &&& (role matches Some(x) ==> r == x)
            &&& (tenant is None ==> t == c.tenant_id)
            &&& (tenant matches Some(x) ==> t == x)
            &&& (t != c.tenant_id ==> spec_role_from_name(c.role).0 >= 100)
        },
{
}

/// What an accepted revocation guarantees: the caller's key is on record
/// with at least the tenant_admin role, the record that goes is one that
/// the revoked key verifies against, and revoking a key of another tenant
/// than the caller's needs a global admin.
pub proof fn lemma_key_revocation_guards(s: Seq<EntryView>, caller: Seq<char>, key: Seq<char>)
    requires
        spec_key_revocation(s, caller, key) is Ok,
    ensures
        spec_entry_by_id(s, caller) matches Some(c) && {
            let e = spec_key_revocation(s, caller, key)->Ok_0;
            &&& spec_role_from_name(c.role).0 >= 50
            &&& s.contains(e)
            &&& crate::auth_key::spec_key_matches(e, key)
            &&& (e.tenant_id != c.tenant_id ==> spec_role_from_name(c.role).0 >= 100)
        },
{
    crate::auth_key::lemma_first_match_is_first(s, key);
    let i = spec_first_match(s, key)->0;
    assert(s[i] == spec_key_revocation(s, caller, key)->Ok_0);
}

} // verus!
