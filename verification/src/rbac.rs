//! Role-based access checks against the key store.
use vstd::prelude::*;

use crate::auth_key::{ApiKeyEntry, ApiKeyStore, EntryView};
use crate::error::{ErrorView, GatewayError};
use crate::tenant::{spec_role_from_name, spec_role_name, Role};

verus! {

/// The entry a fingerprint resolves to: the last one carrying it.
pub open spec fn spec_entry_by_id(s: Seq<EntryView>, key_id: Seq<char>) -> Option<EntryView> {
    if exists|i: int| 0 <= i < s.len() && #[trigger] s[i].key_id == key_id {
        let i = choose|i: int|
            0 <= i < s.len() && #[trigger] s[i].key_id == key_id && forall|j: int|
                i < j < s.len() ==> #[trigger] s[j].key_id != key_id;
        Some(s[i])
    } else {
        None
    }
}

/// The outcome of requiring role `min` of the key with fingerprint
/// `key_id`: its tenant, or the error.
pub open spec fn spec_require_role(s: Seq<EntryView>, key_id: Seq<char>, min: Role) -> Result<Seq<char>, ErrorView> {
    match spec_entry_by_id(s, key_id) {
        None => Err(ErrorView::AuthenticationFailed("Key not found"@)),
        Some(e) => if spec_role_from_name(e.role).0 < min.0 {
            Err(
                ErrorView::Forbidden(
                    "Requires at least '"@ + spec_role_name(min.0) + "' role, but key has '"@ + spec_role_name(
                        spec_role_from_name(e.role).0,
                    ) + "'"@,
                ),
            )
        } else {
            Ok(e.tenant_id)
        },
    }
}

/// An exec result agrees with a spec outcome.
pub open spec fn spec_result_is(r: Result<String, GatewayError>, o: Result<Seq<char>, ErrorView>) -> bool {
    match (r, o) {
        (Ok(t), Ok(u)) => t@ == u,
        (Err(e), Err(v)) => e@ == v,
        _ => false,
    }
}

/// The fingerprint resolution of `verify_by_id`, restated.
proof fn lemma_by_id(s: Seq<EntryView>, key_id: Seq<char>, r: Option<EntryView>)
    requires
        match r {
            Some(e) => exists|i: int|
                0 <= i < s.len() && e == s[i] && s[i].key_id == key_id && forall|j: int|
                    i < j < s.len() ==> #[trigger] s[j].key_id != key_id,
            None => forall|i: int| 0 <= i < s.len() ==> #[trigger] s[i].key_id != key_id,
        },
    ensures
        r == spec_entry_by_id(s, key_id),
{
    if let Some(e) = r {
        let i = choose|i: int|
            0 <= i < s.len() && e == s[i] && s[i].key_id == key_id && forall|j: int|
                i < j < s.len() ==> #[trigger] s[j].key_id != key_id;
        let k = choose|k: int|
            0 <= k < s.len() && #[trigger] s[k].key_id == key_id && forall|j: int|
                k < j < s.len() ==> #[trigger] s[j].key_id != key_id;
        if k < i {
            assert(s[i].key_id != key_id);
        }
        if i < k {
            assert(s[k].key_id != key_id);
        }
    }
}

/// The entry of fingerprint `key_id`, with its resolution restated.
fn entry_by_id<'a>(store: &'a ApiKeyStore, key_id: &str) -> (r: Option<&'a ApiKeyEntry>)
    ensures
        match r {
            Some(e) => spec_entry_by_id(store@, key_id@) == Some(e@),
            None => spec_entry_by_id(store@, key_id@) is None,
        },
{
    let r = store.verify_by_id(key_id);
    proof {
        let rv = match r {
            Some(e) => Some(e@),
            None => None,
        };
        lemma_by_id(store@, key_id@, rv);
    }
    r
}

/// Require that the key with fingerprint `key_id` has at least role `min`.
/// `Ok` carries the key's tenant; an unknown key is `AuthenticationFailed`
/// ("Key not found"), a weaker role is `Forbidden`.
pub fn require_role(store: &ApiKeyStore, key_id: &str, min_role: Role) -> (r: Result<String, GatewayError>)
    ensures
        spec_result_is(r, spec_require_role(store@, key_id@, min_role)),
{
    let entry = match entry_by_id(store, key_id) {
        Some(e) => e,
        None => {
            return Err(GatewayError::AuthenticationFailed("Key not found".to_owned()));
        },
    };
    let role = Role::from_str(entry.role.as_str());
    if role.0 < min_role.0 {
        let mut m = "Requires at least '".to_owned();
        m.append(min_role.as_str());
        m.append("' role, but key has '");
        m.append(role.as_str());
        m.append("'");
        return Err(GatewayError::Forbidden(m));
    }
    Ok(entry.tenant_id.clone())
}

/// Require that the key with fingerprint `key_id` belongs to `tenant_id`
/// or is a global admin. An unknown key is `AuthenticationFailed`, a key of
/// another tenant without the admin role is `Forbidden`.
pub fn require_tenant(store: &ApiKeyStore, key_id: &str, tenant_id: &str) -> (r: Result<(), GatewayError>)
    ensures
        match spec_entry_by_id(store@, key_id@) {
            None => r matches Err(GatewayError::AuthenticationFailed(m)) && m@ == "Key not found"@,
            Some(e) => if e.tenant_id != tenant_id@ && spec_role_from_name(e.role).0 < 100 {
                r matches Err(GatewayError::Forbidden(m)) && m@ == "Key does not belong to tenant '"@ + tenant_id@ + "'"@
            } else {
                r is Ok
            },
        },
{
    let entry = match entry_by_id(store, key_id) {
        Some(e) => e,
        None => {
            return Err(GatewayError::AuthenticationFailed("Key not found".to_owned()));
        },
    };
    let role = Role::from_str(entry.role.as_str());
    if !crate::text::str_eq(entry.tenant_id.as_str(), tenant_id) && role.0 < 100 {
        let mut m = "Key does not belong to tenant '".to_owned();
        m.append(tenant_id);
        m.append("'");
        return Err(GatewayError::Forbidden(m));
    }
    Ok(())
}

/// Whether the key with fingerprint `key_id` is a global admin.
pub fn is_global_admin(store: &ApiKeyStore, key_id: &str) -> (r: bool)
    ensures
        r == (spec_entry_by_id(store@, key_id@) matches Some(e) && spec_role_from_name(e.role).0 >= 100),
{
    match entry_by_id(store, key_id) {
        Some(e) => Role::from_str(e.role.as_str()).0 >= 100,
        None => false,
    }
}

/// The role of the key with fingerprint `key_id`; developer if unknown.
pub fn caller_role(store: &ApiKeyStore, key_id: &str) -> (r: Role)
    ensures
        r == match spec_entry_by_id(store@, key_id@) {
            Some(e) => spec_role_from_name(e.role),
            None => Role(10),
        },
{
    match entry_by_id(store, key_id) {
        Some(e) => Role::from_str(e.role.as_str()),
        None => Role::developer(),
    }
}

/// Role checks are monotone: a key that passes a check for some role
/// passes it for every weaker role, with the same tenant.
pub proof fn lemma_require_role_monotone(s: Seq<EntryView>, key_id: Seq<char>, weak: Role, strong: Role)
    requires
        weak.0 <= strong.0,
        spec_require_role(s, key_id, strong) is Ok,
    ensures
        spec_require_role(s, key_id, weak) == spec_require_role(s, key_id, strong),
{
}

/// A role check goes by the latest record of the key: an unknown key is
/// refused as unauthenticated; otherwise the check passes, with that
/// record's tenant, exactly when that record's role is at least the one
/// required.
pub proof fn lemma_require_role_decides(s: Seq<EntryView>, key_id: Seq<char>, min: Role)
    ensures
        (forall|i: int| 0 <= i < s.len() ==> #[trigger] s[i].key_id != key_id) ==> spec_require_role(s, key_id, min)
            matches Err(ErrorView::AuthenticationFailed(_)),
        (exists|i: int| 0 <= i < s.len() && #[trigger] s[i].key_id == key_id) ==> exists|i: int|
            #![trigger s[i]]
            0 <= i < s.len() && s[i].key_id == key_id && (forall|j: int| i < j < s.len() ==> #[trigger] s[j].key_id
                != key_id) && (spec_require_role(s, key_id, min) is Ok <==> spec_role_from_name(s[i].role).0
                >= min.0) && (spec_require_role(s, key_id, min) matches Ok(t) ==> t == s[i].tenant_id),
{
    if exists|i: int| 0 <= i < s.len() && #[trigger] s[i].key_id == key_id {
        let w = choose|i: int| 0 <= i < s.len() && #[trigger] s[i].key_id == key_id;
        lemma_greatest_id(s, key_id, w);
        let i = choose|i: int|
            0 <= i < s.len() && #[trigger] s[i].key_id == key_id && forall|j: int|
                i < j < s.len() ==> #[trigger] s[j].key_id != key_id;
        assert(spec_entry_by_id(s, key_id) == Some(s[i])) by {
            let k = choose|k: int|
                0 <= k < s.len() && #[trigger] s[k].key_id == key_id && forall|j: int|
                    k < j < s.len() ==> #[trigger] s[j].key_id != key_id;
            if k < i {
                assert(s[i].key_id != key_id);
            }
            if i < k {
                assert(s[k].key_id != key_id);
            }
        }
    }
}

/// Above any record of a fingerprint there is a greatest one.
proof fn lemma_greatest_id(s: Seq<EntryView>, key_id: Seq<char>, w: int)
    requires
        0 <= w < s.len(),
        s[w].key_id == key_id,
    ensures
        exists|i: int|
            0 <= i < s.len() && #[trigger] s[i].key_id == key_id && forall|j: int|
                i < j < s.len() ==> #[trigger] s[j].key_id != key_id,
    decreases s.len() - w,
{
    if exists|j: int| w < j < s.len() && #[trigger] s[j].key_id == key_id {
        let j = choose|j: int| w < j < s.len() && #[trigger] s[j].key_id == key_id;
        lemma_greatest_id(s, key_id, j);
    }
}

} // verus!
