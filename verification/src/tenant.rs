//! Tenants and the role hierarchy used for access control.
use vstd::prelude::*;

use crate::text::str_eq;

verus! {

/// Role hierarchy: a higher number means more privilege.
#[derive(Debug, Clone, Copy, PartialEq, Eq, Structural, PartialOrd, Ord, Hash)]
pub struct Role(pub u8);

/// The role a wire name stands for; unknown names map to the developer role.
pub open spec fn spec_role_from_name(s: Seq<char>) -> Role {
    if s == "admin"@ {
        Role(100)
    } else if s == "tenant_admin"@ {
        Role(50)
    } else {
        Role(10)
    }
}

/// The wire name of a role level; unknown levels print as developer.
pub open spec fn spec_role_name(level: u8) -> Seq<char> {
    if level == 100 {
        "admin"@
    } else if level == 50 {
        "tenant_admin"@
    } else {
        "developer"@
    }
}

impl Role {
    /// The least privileged role: calls models within its own tenant.
    pub fn developer() -> (r: Role)
        ensures
            r == Role(10),
    {
        Role(10)
    }

    /// Administers its own tenant (keys, quotas, providers).
    pub fn tenant_admin() -> (r: Role)
        ensures
            r == Role(50),
    {
        Role(50)
    }

    /// Global administrator across all tenants.
    pub fn admin() -> (r: Role)
        ensures
            r == Role(100),
    {
        Role(100)
    }

    /// Parse a role from its wire name, falling back to developer for
    /// unknown names.
    pub fn from_str(s: &str) -> (r: Role)
        ensures
            r == spec_role_from_name(s@),
    {
        if str_eq(s, "admin") {
            Role::admin()
        } else if str_eq(s, "tenant_admin") {
            Role::tenant_admin()
        } else {
            Role::developer()
        }
    }

    /// The wire name of this role.
    pub fn as_str(&self) -> (r: &'static str)
        ensures
            r@ == spec_role_name(self.0),
    {
        if self.0 == 100 {
            "admin"
        } else if self.0 == 50 {
            "tenant_admin"
        } else {
            "developer"
        }
    }
}

/// Parsing the name of any of the three defined roles gives that role back,
pub proof fn lemma_role_name_roundtrip(r: Role)
    requires
        r == Role(10) || r == Role(50) || r == Role(100),
    ensures
        spec_role_from_name(spec_role_name(r.0)) == r,
{
    reveal_strlit("admin");
    reveal_strlit("tenant_admin");
    reveal_strlit("developer");
    assert("admin"@.len() == 5 && "tenant_admin"@.len() == 12 && "developer"@.len() == 9);
}

/// Per-request tenant context derived from the API key that authenticated it.
#[derive(Debug, Clone)]
pub struct TenantContext {
    pub tenant_id: String,
    pub role: Role,
    pub key_id: String,
}

/// Tenant-level quota configuration; a limit of 0 means unlimited.
#[derive(Debug, Clone, Copy, PartialEq, Eq, Structural)]
pub struct TenantQuotas {
    pub max_rpm: u32,
    pub max_rpd: u64,
    pub max_tpm: u64,
    pub max_tpd: u64,
}

impl Default for TenantQuotas {
    fn default() -> (q: Self)
        ensures
            q.max_rpm == 60,
            q.max_rpd == 10_000,
            q.max_tpm == 500_000,
            q.max_tpd == 5_000_000,
    {
        TenantQuotas { max_rpm: 60, max_rpd: 10_000, max_tpm: 500_000, max_tpd: 5_000_000 }
    }
}

} // verus!
