//! Per-request decisions of the HTTP middleware: authentication, quota
//! pre-flight, request ids and `Retry-After` hints. The HTTP plumbing that
//! carries these decisions out lives outside the library.
use vstd::prelude::*;

use crate::auth_key::{spec_first_match, ApiKeyStore};
use crate::clock::now_unix_ms;
use crate::error::GatewayError;
use crate::quota::{spec_check, spec_limit_name, spec_state_of, QuotaEngine};
use crate::tenant::{spec_role_from_name, Role, TenantContext, TenantQuotas};
use crate::text::{seq_starts_with, starts_with, str_eq};

verus! {

/// The fingerprint of the authenticated API key, attached to the request.
#[derive(Clone, Debug)]
pub struct AuthKey(pub String);

/// The id of a request, attached to the request.
#[derive(Clone, Debug)]
pub struct RequestId(pub String);

/// Paths that need no bearer token: the probes and the static admin UI
/// (`/admin` and everything under `/admin/`, but not `/api/admin/...`).
pub open spec fn spec_is_unauthenticated(path: Seq<char>) -> bool {
    path == "/healthz"@ || path == "/readyz"@ || path == "/deep-health"@ || path == "/health"@
        || path == "/admin"@ || seq_starts_with(path, "/admin/"@)
}

/// Whether `path` is exempt from the bearer-token requirement.
pub fn is_unauthenticated(path: &str) -> (r: bool)
    ensures
        r == spec_is_unauthenticated(path@),
{
    str_eq(path, "/healthz") || str_eq(path, "/readyz") || str_eq(path, "/deep-health") || str_eq(path, "/health")
        || str_eq(path, "/admin") || starts_with(path, "/admin/")
}

/// The `Authorization` header of a request.
pub enum AuthHeader<'a> {
    /// No such header.
    Missing,
    /// Present but not visible ASCII.
    Unreadable,
    /// Present, as text.
    Text(&'a str),
}

/// What the authentication step decided.
pub enum AuthOutcome {
    /// No check applies (authentication disabled, or an exempt path).
    Bypass,
    /// The bearer key is valid; the request runs in this context.
    Authenticated(TenantContext),
    /// The request is refused with this error (HTTP 401).
    Rejected(GatewayError),
}

/// Decide authentication for a request to `path` carrying `header`.
pub fn authenticate(store: &ApiKeyStore, enabled: bool, path: &str, header: AuthHeader) -> (r: AuthOutcome)
    ensures
        !enabled || spec_is_unauthenticated(path@) ==> r is Bypass,
        enabled && !spec_is_unauthenticated(path@) ==> match header {
            AuthHeader::Missing => r matches AuthOutcome::Rejected(GatewayError::AuthenticationFailed(m))
                && m@ == "Missing Authorization header"@,
            AuthHeader::Unreadable => r matches AuthOutcome::Rejected(GatewayError::AuthenticationFailed(m))
                && m@ == "Invalid Authorization header format"@,
            AuthHeader::Text(v) => if !seq_starts_with(v@, "Bearer "@) {
                r matches AuthOutcome::Rejected(GatewayError::AuthenticationFailed(m))
                    && m@ == "Invalid Authorization header format"@
            } else {
                match spec_first_match(store@, v@.subrange(7, v@.len() as int)) {
                    None => r matches AuthOutcome::Rejected(GatewayError::AuthenticationFailed(m))
                        && m@ == "Missing or invalid Authorization header"@,
                    Some(i) => r matches AuthOutcome::Authenticated(ctx) && ctx.tenant_id@ == store@[i].tenant_id
                        && ctx.key_id@ == store@[i].key_id && ctx.role == spec_role_from_name(store@[i].role),
                }
            },
        },
{
    if !enabled || is_unauthenticated(path) {
        return AuthOutcome::Bypass;
    }
    match header {
        AuthHeader::Missing => AuthOutcome::Rejected(GatewayError::AuthenticationFailed("Missing Authorization header".to_owned())),
        AuthHeader::Unreadable => AuthOutcome::Rejected(
            GatewayError::AuthenticationFailed("Invalid Authorization header format".to_owned()),
        ),
        AuthHeader::Text(v) => {
            if !starts_with(v, "Bearer ") {
                return AuthOutcome::Rejected(
                    GatewayError::AuthenticationFailed("Invalid Authorization header format".to_owned()),
                );
            }
            proof {
                reveal_strlit("Bearer ");
            }
            let n = v.unicode_len();
            let key = v.substring_char(7, n);
            match store.verify(key) {
                Some(entry) => AuthOutcome::Authenticated(
                    TenantContext {
                        tenant_id: entry.tenant_id.clone(),
                        role: Role::from_str(entry.role.as_str()),
                        key_id: entry.key_id.clone(),
                    },
                ),
                None => AuthOutcome::Rejected(
                    GatewayError::AuthenticationFailed("Missing or invalid Authorization header".to_owned()),
                ),
            }
        },
    }
}

/// The id of a request: the caller's `x-request-id` when it sent a
/// readable one, else a fresh random version-4 UUID.
pub fn request_id(incoming: Option<&str>) -> (id: String)
    ensures
        match incoming {
            Some(s) => id@ == s@,
            None => crate::audit::spec_is_uuid_v4(id@),
        },
{
    match incoming {
        Some(s) => s.to_owned(),
        None => crate::audit::new_event_id(),
    }
}

/// Paths the quota step lets through unchecked.
pub open spec fn spec_quota_exempt(path: Seq<char>) -> bool {
    seq_starts_with(path, "/healthz"@) || seq_starts_with(path, "/readyz"@) || path == "/metrics"@
}

/// Whether the quota step lets requests to `path` through unchecked.
pub fn is_quota_exempt(path: &str) -> (r: bool)
    ensures
        r == spec_quota_exempt(path@),
{
    starts_with(path, "/healthz") || starts_with(path, "/readyz") || str_eq(path, "/metrics")
}

/// The pre-flight token estimate charged against a tenant's quota.
pub const QUOTA_TOKEN_ESTIMATE: u64 = 100;

/// Pre-flight quota step for a request to `path`: requests on exempt paths
/// and requests without tenant context pass unchecked; otherwise one request
/// of `QUOTA_TOKEN_ESTIMATE` tokens is checked against the tenant's quotas
/// at `now_ms` and, when refused, the quota error is returned (HTTP 429,
/// `Retry-After: 60`).
pub fn quota_preflight_at(
    engine: &mut QuotaEngine,
    path: &str,
    tenant: Option<&str>,
    quotas: &TenantQuotas,
    now_ms: u64,
) -> (r: Result<(), GatewayError>)
    requires
        old(engine).wf(),
    ensures
        final(engine).wf(),
        spec_quota_exempt(path@) || tenant is None ==> r is Ok && final(engine)@ == old(engine)@,
        !spec_quota_exempt(path@) ==> match tenant {
            None => true,
            Some(t) => {
                let (s, v) = spec_check(spec_state_of(old(engine)@, t@), *quotas, QUOTA_TOKEN_ESTIMATE, now_ms);
                &&& final(engine)@ == old(engine)@.insert(t@, s)
                &&& match (v, r) {
                    (None, Ok(())) => true,
                    (Some((kind, limit, current)), Err(GatewayError::QuotaExceeded { limit_type, limit: l, current: c })) =>
                        limit_type@ == spec_limit_name(kind) && l == limit && c == current,
                    _ => false,
                }
            },
        },
{
    if is_quota_exempt(path) {
        return Ok(());
    }
    match tenant {
        None => Ok(()),
        Some(t) => match engine.check_at(t, quotas, QUOTA_TOKEN_ESTIMATE, now_ms) {
            Ok(()) => Ok(()),
            Err(v) => Err(GatewayError::from_violation(v)),
        },
    }
}

/// Pre-flight quota step at the current time; see [`quota_preflight_at`].
pub fn quota_preflight(
    engine: &mut QuotaEngine,
    path: &str,
    tenant: Option<&str>,
    quotas: &TenantQuotas,
) -> (r: Result<(), GatewayError>)
    requires
        old(engine).wf(),
    ensures
        final(engine).wf(),
        spec_quota_exempt(path@) || tenant is None ==> r is Ok && final(engine)@ == old(engine)@,
        !spec_quota_exempt(path@) ==> match tenant {
            None => true,
            Some(t) => exists|now_ms: u64|
                {
                    let (s, v) = #[trigger] spec_check(spec_state_of(old(engine)@, t@), *quotas, QUOTA_TOKEN_ESTIMATE, now_ms);
                    &&& final(engine)@ == old(engine)@.insert(t@, s)
                    &&& match (v, r) {
                        (None, Ok(())) => true,
                        (Some((kind, limit, current)), Err(GatewayError::QuotaExceeded { limit_type, limit: l, current: c })) =>
                            limit_type@ == spec_limit_name(kind) && l == limit && c == current,
                        _ => false,
                    }
                },
        },
{
    let now = now_unix_ms();
    quota_preflight_at(engine, path, tenant, quotas, now)
}

/// The `Retry-After` seconds attached to an error response: 60 for rate
/// and quota refusals, none otherwise.
pub fn error_retry_after(e: &GatewayError) -> (r: Option<u64>)
    ensures
        r == match e {
            GatewayError::QuotaExceeded { .. } | GatewayError::RateLimited => Some(60u64),
            _ => None,
        },
{
    match e {
        GatewayError::QuotaExceeded { .. } | GatewayError::RateLimited => Some(60),
        _ => None,
    }
}

/// The `Retry-After` hint for a response that carries none: 60 seconds for
/// 429, 30 for 503, nothing otherwise.
pub fn retry_after_hint(status: u16, has_retry_after: bool) -> (r: Option<&'static str>)
    ensures
        match r {
            Some(s) => !has_retry_after && (status == 429 && s@ == "60"@ || status == 503 && s@ == "30"@),
            None => has_retry_after || (status != 429 && status != 503),
        },
{
    if (status == 429 || status == 503) && !has_retry_after {
        if status == 429 {
            Some("60")
        } else {
            Some("30")
        }
    } else {
        None
    }
}

} // verus!
