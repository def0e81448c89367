//! Audit trail records: who did what to which tenant and resource.
use vstd::prelude::*;

use crate::tenant::Role;
use crate::text::str_eq;

verus! {

/// The category of an auditable action.
#[derive(Debug, Clone, Copy, PartialEq, Eq, Structural, Hash)]
pub enum AuditAction {
    AuthLoginSuccess,
    AuthLoginFailure,
    AuthLogout,
    KeyCreate,
    KeyRevoke,
    TenantCreate,
    TenantRead,
    TenantUpdate,
    TenantDelete,
    ProviderCreate,
    ProviderRead,
    ProviderUpdate,
    ProviderDelete,
    ConfigUpdate,
    QuotaUpdate,
}

/// The dotted name of each action.
pub open spec fn spec_action_name(a: AuditAction) -> Seq<char> {
    match a {
        AuditAction::AuthLoginSuccess => "auth.login_success"@,
        AuditAction::AuthLoginFailure => "auth.login_failure"@,
        AuditAction::AuthLogout => "auth.logout"@,
        AuditAction::KeyCreate => "key.create"@,
        AuditAction::KeyRevoke => "key.revoke"@,
        AuditAction::TenantCreate => "tenant.create"@,
        AuditAction::TenantRead => "tenant.read"@,
        AuditAction::TenantUpdate => "tenant.update"@,
        AuditAction::TenantDelete => "tenant.delete"@,
        AuditAction::ProviderCreate => "provider.create"@,
        AuditAction::ProviderRead => "provider.read"@,
        AuditAction::ProviderUpdate => "provider.update"@,
        AuditAction::ProviderDelete => "provider.delete"@,
        AuditAction::ConfigUpdate => "config.update"@,
        AuditAction::QuotaUpdate => "quota.update"@,
    }
}

/// The action a dotted name stands for, if any.
pub open spec fn spec_action_from_name(s: Seq<char>) -> Option<AuditAction> {
    if s == "auth.login_success"@ {
        Some(AuditAction::AuthLoginSuccess)
    } else if s == "auth.login_failure"@ {
        Some(AuditAction::AuthLoginFailure)
    } else if s == "auth.logout"@ {
        Some(AuditAction::AuthLogout)
    } else if s == "key.create"@ {
        Some(AuditAction::KeyCreate)
    } else if s == "key.revoke"@ {
        Some(AuditAction::KeyRevoke)
    } else if s == "tenant.create"@ {
        Some(AuditAction::TenantCreate)
    } else if s == "tenant.read"@ {
        Some(AuditAction::TenantRead)
    } else if s == "tenant.update"@ {
        Some(AuditAction::TenantUpdate)
    } else if s == "tenant.delete"@ {
        Some(AuditAction::TenantDelete)
    } else if s == "provider.create"@ {
        Some(AuditAction::ProviderCreate)
    } else if s == "provider.read"@ {
        Some(AuditAction::ProviderRead)
    } else if s == "provider.update"@ {
        Some(AuditAction::ProviderUpdate)
    } else if s == "provider.delete"@ {
        Some(AuditAction::ProviderDelete)
    } else if s == "config.update"@ {
        Some(AuditAction::ConfigUpdate)
    } else if s == "quota.update"@ {
        Some(AuditAction::QuotaUpdate)
    } else {
        None
    }
}

impl AuditAction {
    /// The dotted name of this action, e.g. `tenant.create`.
    pub fn as_str(&self) -> (r: &'static str)
        ensures
            r@ == spec_action_name(*self),
    {
        match self {
            AuditAction::AuthLoginSuccess => "auth.login_success",
            AuditAction::AuthLoginFailure => "auth.login_failure",
            AuditAction::AuthLogout => "auth.logout",
            AuditAction::KeyCreate => "key.create",
            AuditAction::KeyRevoke => "key.revoke",
            AuditAction::TenantCreate => "tenant.create",
            AuditAction::TenantRead => "tenant.read",
            AuditAction::TenantUpdate => "tenant.update",
            AuditAction::TenantDelete => "tenant.delete",
            AuditAction::ProviderCreate => "provider.create",
            AuditAction::ProviderRead => "provider.read",
            AuditAction::ProviderUpdate => "provider.update",
            AuditAction::ProviderDelete => "provider.delete",
            AuditAction::ConfigUpdate => "config.update",
            AuditAction::QuotaUpdate => "quota.update",
        }
    }

    /// Parse a dotted action name; unknown names are an error
    /// `Unknown audit action: <name>`.
    pub fn from_name(s: &str) -> (r: Result<AuditAction, String>)
        ensures
            match (r, spec_action_from_name(s@)) {
                (Ok(a), Some(b)) => a == b,
                (Err(m), None) => m@ == "Unknown audit action: "@ + s@,
                _ => false,
            },
    {
        if str_eq(s, "auth.login_success") {
            Ok(AuditAction::AuthLoginSuccess)
        } else if str_eq(s, "auth.login_failure") {
            Ok(AuditAction::AuthLoginFailure)
        } else if str_eq(s, "auth.logout") {
            Ok(AuditAction::AuthLogout)
        } else if str_eq(s, "key.create") {
            Ok(AuditAction::KeyCreate)
        } else if str_eq(s, "key.revoke") {
            Ok(AuditAction::KeyRevoke)
        } else if str_eq(s, "tenant.create") {
            Ok(AuditAction::TenantCreate)
        } else if str_eq(s, "tenant.read") {
            Ok(AuditAction::TenantRead)
        } else if str_eq(s, "tenant.update") {
            Ok(AuditAction::TenantUpdate)
        } else if str_eq(s, "tenant.delete") {
            Ok(AuditAction::TenantDelete)
        } else if str_eq(s, "provider.create") {
            Ok(AuditAction::ProviderCreate)
        } else if str_eq(s, "provider.read") {
            Ok(AuditAction::ProviderRead)
        } else if str_eq(s, "provider.update") {
            Ok(AuditAction::ProviderUpdate)
        } else if str_eq(s, "provider.delete") {
            Ok(AuditAction::ProviderDelete)
        } else if str_eq(s, "config.update") {
            Ok(AuditAction::ConfigUpdate)
        } else if str_eq(s, "quota.update") {
            Ok(AuditAction::QuotaUpdate)
        } else {
            let mut m = "Unknown audit action: ".to_owned();
            m.append(s);
            Err(m)
        }
    }
}

/// Every action's name parses back to that action, so distinct actions have
/// distinct names.
pub proof fn lemma_action_name_roundtrip(a: AuditAction)
    ensures
        spec_action_from_name(spec_action_name(a)) == Some(a),
{
    match a {
        AuditAction::AuthLoginSuccess => {
            reveal_strlit("auth.login_success");
        },
        AuditAction::AuthLoginFailure => {
            reveal_strlit("auth.login_failure");
            reveal_strlit("auth.login_success");
            assert("auth.login_failure"@[11] != "auth.login_success"@[11]);
        },
        AuditAction::AuthLogout => {
            reveal_strlit("auth.logout");
            reveal_strlit("auth.login_success");
            assert("auth.logout"@.len() != "auth.login_success"@.len());
            reveal_strlit("auth.login_failure");
            assert("auth.logout"@.len() != "auth.login_failure"@.len());
        },
        AuditAction::KeyCreate => {
            reveal_strlit("key.create");
            reveal_strlit("auth.login_success");
            assert("key.create"@.len() != "auth.login_success"@.len());
            reveal_strlit("auth.login_failure");
            assert("key.create"@.len() != "auth.login_failure"@.len());
            reveal_strlit("auth.logout");
            assert("key.create"@.len() != "auth.logout"@.len());
        },
        AuditAction::KeyRevoke => {
            reveal_strlit("key.revoke");
            reveal_strlit("auth.login_success");
            assert("key.revoke"@.len() != "auth.login_success"@.len());
            reveal_strlit("auth.login_failure");
            assert("key.revoke"@.len() != "auth.login_failure"@.len());
            reveal_strlit("auth.logout");
            assert("key.revoke"@.len() != "auth.logout"@.len());
            reveal_strlit("key.create");
            assert("key.revoke"@[4] != "key.create"@[4]);
        },
        AuditAction::TenantCreate => {
            reveal_strlit("tenant.create");
            reveal_strlit("auth.login_success");
            assert("tenant.create"@.len() != "auth.login_success"@.len());
            reveal_strlit("auth.login_failure");
            assert("tenant.create"@.len() != "auth.login_failure"@.len());
            reveal_strlit("auth.logout");
            assert("tenant.create"@.len() != "auth.logout"@.len());
            reveal_strlit("key.create");
            assert("tenant.create"@.len() != "key.create"@.len());
            reveal_strlit("key.revoke");
            assert("tenant.create"@.len() != "key.revoke"@.len());
        },
        AuditAction::TenantRead => {
            reveal_strlit("tenant.read");
            reveal_strlit("auth.login_success");
            assert("tenant.read"@.len() != "auth.login_success"@.len());
            reveal_strlit("auth.login_failure");
            assert("tenant.read"@.len() != "auth.login_failure"@.len());
            reveal_strlit("auth.logout");
            assert("tenant.read"@[0] != "auth.logout"@[0]);
            reveal_strlit("key.create");
            assert("tenant.read"@.len() != "key.create"@.len());
            reveal_strlit("key.revoke");
            assert("tenant.read"@.len() != "key.revoke"@.len());
            reveal_strlit("tenant.create");
            assert("tenant.read"@.len() != "tenant.create"@.len());
        },
        AuditAction::TenantUpdate => {
            reveal_strlit("tenant.update");
            reveal_strlit("auth.login_success");
            assert("tenant.update"@.len() != "auth.login_success"@.len());
            reveal_strlit("auth.login_failure");
            assert("tenant.update"@.len() != "auth.login_failure"@.len());
            reveal_strlit("auth.logout");
            assert("tenant.update"@.len() != "auth.logout"@.len());
            reveal_strlit("key.create");
            assert("tenant.update"@.len() != "key.create"@.len());
            reveal_strlit("key.revoke");
            assert("tenant.update"@.len() != "key.revoke"@.len());
            reveal_strlit("tenant.create");
            assert("tenant.update"@[7] != "tenant.create"@[7]);
            reveal_strlit("tenant.read");
            assert("tenant.update"@.len() != "tenant.read"@.len());
        },
        AuditAction::TenantDelete => {
            reveal_strlit("tenant.delete");
            reveal_strlit("auth.login_success");
            assert("tenant.delete"@.len() != "auth.login_success"@.len());
            reveal_strlit("auth.login_failure");
            assert("tenant.delete"@.len() != "auth.login_failure"@.len());
            reveal_strlit("auth.logout");
            assert("tenant.delete"@.len() != "auth.logout"@.len());
            reveal_strlit("key.create");
            assert("tenant.delete"@.len() != "key.create"@.len());
            reveal_strlit("key.revoke");
            assert("tenant.delete"@.len() != "key.revoke"@.len());
            reveal_strlit("tenant.create");
            assert("tenant.delete"@[7] != "tenant.create"@[7]);
            reveal_strlit("tenant.read");
            assert("tenant.delete"@.len() != "tenant.read"@.len());
            reveal_strlit("tenant.update");
            assert("tenant.delete"@[7] != "tenant.update"@[7]);
        },
        AuditAction::ProviderCreate => {
            reveal_strlit("provider.create");
            reveal_strlit("auth.login_success");
            assert("provider.create"@.len() != "auth.login_success"@.len());
            reveal_strlit("auth.login_failure");
            assert("provider.create"@.len() != "auth.login_failure"@.len());
            reveal_strlit("auth.logout");
            assert("provider.create"@.len() != "auth.logout"@.len());
            reveal_strlit("key.create");
            assert("provider.create"@.len() != "key.create"@.len());
            reveal_strlit("key.revoke");
            assert("provider.create"@.len() != "key.revoke"@.len());
            reveal_strlit("tenant.create");
            assert("provider.create"@.len() != "tenant.create"@.len());
            reveal_strlit("tenant.read");
            assert("provider.create"@.len() != "tenant.read"@.len());
            reveal_strlit("tenant.update");
            assert("provider.create"@.len() != "tenant.update"@.len());
            reveal_strlit("tenant.delete");
            assert("provider.create"@.len() != "tenant.delete"@.len());
        },
        AuditAction::ProviderRead => {
            reveal_strlit("provider.read");
            reveal_strlit("auth.login_success");
            assert("provider.read"@.len() != "auth.login_success"@.len());
            reveal_strlit("auth.login_failure");
            assert("provider.read"@.len() != "auth.login_failure"@.len());
            reveal_strlit("auth.logout");
            assert("provider.read"@.len() != "auth.logout"@.len());
            reveal_strlit("key.create");
            assert("provider.read"@.len() != "key.create"@.len());
            reveal_strlit("key.revoke");
            assert("provider.read"@.len() != "key.revoke"@.len());
            reveal_strlit("tenant.create");
            assert("provider.read"@[0] != "tenant.create"@[0]);
            reveal_strlit("tenant.read");
            assert("provider.read"@.len() != "tenant.read"@.len());
            reveal_strlit("tenant.update");
            assert("provider.read"@[0] != "tenant.update"@[0]);
            reveal_strlit("tenant.delete");
            assert("provider.read"@[0] != "tenant.delete"@[0]);
            reveal_strlit("provider.create");
            assert("provider.read"@.len() != "provider.create"@.len());
        },
        AuditAction::ProviderUpdate => {
            reveal_strlit("provider.update");
            reveal_strlit("auth.login_success");
            assert("provider.update"@.len() != "auth.login_success"@.len());
            reveal_strlit("auth.login_failure");
            assert("provider.update"@.len() != "auth.login_failure"@.len());
            reveal_strlit("auth.logout");
            assert("provider.update"@.len() != "auth.logout"@.len());
            reveal_strlit("key.create");
            assert("provider.update"@.len() != "key.create"@.len());
            reveal_strlit("key.revoke");
            assert("provider.update"@.len() != "key.revoke"@.len());
            reveal_strlit("tenant.create");
            assert("provider.update"@.len() != "tenant.create"@.len());
            reveal_strlit("tenant.read");
            assert("provider.update"@.len() != "tenant.read"@.len());
            reveal_strlit("tenant.update");
            assert("provider.update"@.len() != "tenant.update"@.len());
            reveal_strlit("tenant.delete");
            assert("provider.update"@.len() != "tenant.delete"@.len());
            reveal_strlit("provider.create");
            assert("provider.update"@[9] != "provider.create"@[9]);
            reveal_strlit("provider.read");
            assert("provider.update"@.len() != "provider.read"@.len());
        },
        AuditAction::ProviderDelete => {
            reveal_strlit("provider.delete");
            reveal_strlit("auth.login_success");
            assert("provider.delete"@.len() != "auth.login_success"@.len());
            reveal_strlit("auth.login_failure");
            assert("provider.delete"@.len() != "auth.login_failure"@.len());
            reveal_strlit("auth.logout");
            assert("provider.delete"@.len() != "auth.logout"@.len());
            reveal_strlit("key.create");
            assert("provider.delete"@.len() != "key.create"@.len());
            reveal_strlit("key.revoke");
            assert("provider.delete"@.len() != "key.revoke"@.len());
            reveal_strlit("tenant.create");
            assert("provider.delete"@.len() != "tenant.create"@.len());
            reveal_strlit("tenant.read");
            assert("provider.delete"@.len() != "tenant.read"@.len());
            reveal_strlit("tenant.update");
            assert("provider.delete"@.len() != "tenant.update"@.len());
            reveal_strlit("tenant.delete");
            assert("provider.delete"@.len() != "tenant.delete"@.len());
            reveal_strlit("provider.create");
            assert("provider.delete"@[9] != "provider.create"@[9]);
            reveal_strlit("provider.read");
            assert("provider.delete"@.len() != "provider.read"@.len());
            reveal_strlit("provider.update");
            assert("provider.delete"@[9] != "provider.update"@[9]);
        },
        AuditAction::ConfigUpdate => {
            reveal_strlit("config.update");
            reveal_strlit("auth.login_success");
            assert("config.update"@.len() != "auth.login_success"@.len());
            reveal_strlit("auth.login_failure");
            assert("config.update"@.len() != "auth.login_failure"@.len());
            reveal_strlit("auth.logout");
            assert("config.update"@.len() != "auth.logout"@.len());
            reveal_strlit("key.create");
            assert("config.update"@.len() != "key.create"@.len());
            reveal_strlit("key.revoke");
            assert("config.update"@.len() != "key.revoke"@.len());
            reveal_strlit("tenant.create");
            assert("config.update"@[0] != "tenant.create"@[0]);
            reveal_strlit("tenant.read");
            assert("config.update"@.len() != "tenant.read"@.len());
            reveal_strlit("tenant.update");
            assert("config.update"@[0] != "tenant.update"@[0]);
            reveal_strlit("tenant.delete");
            assert("config.update"@[0] != "tenant.delete"@[0]);
            reveal_strlit("provider.create");
            assert("config.update"@.len() != "provider.create"@.len());
            reveal_strlit("provider.read");
            assert("config.update"@[0] != "provider.read"@[0]);
            reveal_strlit("provider.update");
            assert("config.update"@.len() != "provider.update"@.len());
            reveal_strlit("provider.delete");
            assert("config.update"@.len() != "provider.delete"@.len());
        },
        AuditAction::QuotaUpdate => {
            reveal_strlit("quota.update");
            reveal_strlit("auth.login_success");
            assert("quota.update"@.len() != "auth.login_success"@.len());
            reveal_strlit("auth.login_failure");
            assert("quota.update"@.len() != "auth.login_failure"@.len());
            reveal_strlit("auth.logout");
            assert("quota.update"@.len() != "auth.logout"@.len());
            reveal_strlit("key.create");
            assert("quota.update"@.len() != "key.create"@.len());
            reveal_strlit("key.revoke");
            assert("quota.update"@.len() != "key.revoke"@.len());
            reveal_strlit("tenant.create");
            assert("quota.update"@.len() != "tenant.create"@.len());
            reveal_strlit("tenant.read");
            assert("quota.update"@.len() != "tenant.read"@.len());
            reveal_strlit("tenant.update");
            assert("quota.update"@.len() != "tenant.update"@.len());
            reveal_strlit("tenant.delete");
            assert("quota.update"@.len() != "tenant.delete"@.len());
            reveal_strlit("provider.create");
            assert("quota.update"@.len() != "provider.create"@.len());
            reveal_strlit("provider.read");
            assert("quota.update"@.len() != "provider.read"@.len());
            reveal_strlit("provider.update");
            assert("quota.update"@.len() != "provider.update"@.len());
            reveal_strlit("provider.delete");
            assert("quota.update"@.len() != "provider.delete"@.len());
            reveal_strlit("config.update");
            assert("quota.update"@.len() != "config.update"@.len());
        },
    }
}

/// The JSON value type of `serde_json`, carried opaquely.
#[verifier::external_type_specification]
#[verifier::external_body]
pub struct ExJsonValue(serde_json::Value);

impl std::str::FromStr for AuditAction {
    type Err = String;

    fn from_str(s: &str) -> (r: Result<AuditAction, String>)
        ensures
            match (r, spec_action_from_name(s@)) {
                (Ok(a), Some(b)) => a == b,
                (Err(m), None) => m@ == "Unknown audit action: "@ + s@,
                _ => false,
            },
    {
        AuditAction::from_name(s)
    }
}

/// Who performed an action.
#[derive(Debug, Clone)]
pub struct AuditActor {
    /// API key id, admin user, or `system`.
    pub id: String,
    /// The actor's role at the time of the action.
    pub role: Role,
    /// Source IP address, if known.
    pub ip: Option<String>,
    /// Additional context (user agent, session id, ...).
    pub context: Option<serde_json::Value>,
}

impl AuditActor {
    /// The gateway itself, acting with the admin role.
    pub fn system() -> (a: Self)
        ensures
            a.id@ == "system"@,
            a.role == Role(100),
            a.ip is None,
            a.context is None,
    {
        AuditActor { id: "system".to_owned(), role: Role::admin(), ip: None, context: None }
    }

    /// A user (usually an API key id) with a role.
    pub fn user(id: &str, role: Role) -> (a: Self)
        ensures
            a.id@ == id@,
            a.role == role,
            a.ip is None,
            a.context is None,
    {
        AuditActor { id: id.to_owned(), role, ip: None, context: None }
    }

    /// The same actor with a source IP.
    pub fn with_ip(self, ip: &str) -> (a: Self)
        ensures
            a.id == self.id,
            a.role == self.role,
            a.ip matches Some(i) && i@ == ip@,
            a.context == self.context,
    {
        AuditActor { ip: Some(ip.to_owned()), ..self }
    }
}

/// Whether `c` is a lower-case hexadecimal digit.
pub open spec fn spec_is_lower_hex_digit(c: char) -> bool {
    ('0' <= c && c <= '9') || ('a' <= c && c <= 'f')
}

/// Whether `s` is a version-4 UUID in lower-case hyphenated form
/// (`xxxxxxxx-xxxx-4xxx-Nxxx-xxxxxxxxxxxx`, with `N` one of 8, 9, a, b).
pub open spec fn spec_is_uuid_v4(s: Seq<char>) -> bool {
    &&& s.len() == 36
    &&& forall|i: int|
        0 <= i < 36 ==> if i == 8 || i == 13 || i == 18 || i == 23 {
            s[i] == '-'
        } else {
            spec_is_lower_hex_digit(#[trigger] s[i])
        }
    &&& s[14] == '4'
    &&& (s[19] == '8' || s[19] == '9' || s[19] == 'a' || s[19] == 'b')
}

/// A fresh random (version 4) UUID, from
/// `uuid::Uuid::new_v4().to_string()`: `new_v4` sets the version and
/// variant bits of 128 random bits and `Display` writes them as 32
/// lower-case hex digits in hyphenated groups. Which UUID comes out is not
/// promised (it is random).
#[verifier::external_body]
pub(crate) fn new_event_id() -> (id: String)
    ensures
        spec_is_uuid_v4(id@),
{
    uuid::Uuid::new_v4().to_string()
}

/// Whether `t` ends as an RFC 3339 time in UTC does: a date, `T`, a time of
/// at least 19 characters in all, then the offset `+00:00`.
pub open spec fn spec_is_utc_rfc3339(t: Seq<char>) -> bool {
    let n = t.len() as int;
    &&& n >= 25
    &&& t[n - 6] == '+'
    &&& t[n - 5] == '0'
    &&& t[n - 4] == '0'
    &&& t[n - 3] == ':'
    &&& t[n - 2] == '0'
    &&& t[n - 1] == '0'
}

/// The current UTC time in RFC 3339 form, from
/// `chrono::Utc::now().to_rfc3339()`: the date and time (at least 19
/// characters) followed by the UTC offset written `+00:00`. Which time is
/// read is not promised.
#[verifier::external_body]
fn now_rfc3339() -> (t: String)
    ensures
        spec_is_utc_rfc3339(t@),
{
    chrono::Utc::now().to_rfc3339()
}

/// One auditable event.
#[derive(Debug, Clone)]
pub struct AuditEvent {
    /// Unique event id.
    pub id: String,
    /// When the event occurred (RFC 3339).
    pub timestamp: String,
    pub actor: AuditActor,
    pub action: AuditAction,
    /// Tenant scope of the action.
    pub tenant: String,
    /// Targeted resource (tenant id, key id, provider name, ...).
    pub resource: Option<String>,
    /// Structured metadata.
    pub details: Option<serde_json::Value>,
    /// Whether the action succeeded.
    pub success: bool,
    /// Error message of a failed action.
    pub error: Option<String>,
}

impl AuditEvent {
    /// A successful event with a fresh id and the current time.
    pub fn new(action: AuditAction, actor: AuditActor, tenant: &str) -> (e: Self)
        ensures
            spec_is_uuid_v4(e.id@),
            spec_is_utc_rfc3339(e.timestamp@),
            e.action == action,
            e.actor == actor,
            e.tenant@ == tenant@,
            e.resource is None,
            e.details is None,
            e.success,
            e.error is None,
    {
        AuditEvent {
            id: new_event_id(),
            timestamp: now_rfc3339(),
            actor,
            action,
            tenant: tenant.to_owned(),
            resource: None,
            details: None,
            success: true,
            error: None,
        }
    }

    /// The same event targeting `resource`.
    pub fn with_resource(self, resource: &str) -> (e: Self)
        ensures
            e == (AuditEvent { resource: e.resource, ..self }),
            e.resource matches Some(r) && r@ == resource@,
    {
        AuditEvent { resource: Some(resource.to_owned()), ..self }
    }

    /// The same event with structured details attached.
    pub fn with_details(self, details: serde_json::Value) -> (e: Self)
        ensures
            e == (AuditEvent { details: Some(details), ..self }),
    {
        AuditEvent { details: Some(details), ..self }
    }

    /// The same event marked as failed with `error`.
    pub fn with_error(self, error: &str) -> (e: Self)
        ensures
            e == (AuditEvent { success: false, error: e.error, ..self }),
            e.error matches Some(m) && m@ == error@,
    {
        AuditEvent { success: false, error: Some(error.to_owned()), ..self }
    }

    /// The same event marked as successful, with no error.
    pub fn with_success(self) -> (e: Self)
        ensures
            e == (AuditEvent { success: true, error: None, ..self }),
    {
        AuditEvent { success: true, error: None, ..self }
    }
}

/// The event recorded for an admin action: `resource` is the target when
/// given; a given error marks the event failed with it, and a failure with
/// no error message is recorded with the error `unknown`.
pub fn audit_event(
    action: AuditAction,
    actor: AuditActor,
    tenant: &str,
    resource: Option<&str>,
    success: bool,
    error: Option<&str>,
) -> (e: AuditEvent)
    ensures
        spec_is_uuid_v4(e.id@),
        spec_is_utc_rfc3339(e.timestamp@),
        e.action == action,
        e.actor == actor,
        e.tenant@ == tenant@,
        crate::text::opt_string_view(e.resource) == crate::text::opt_str_view(resource),
        e.details is None,
        e.success == (error is None && success),
        crate::text::opt_string_view(e.error) == match error {
            Some(m) => Some(m@),
            None => if success {
                None
            } else {
                Some("unknown"@)
            },
        },
{
    let mut event = AuditEvent::new(action, actor, tenant);
    if let Some(r) = resource {
        event = event.with_resource(r);
    }
    if let Some(m) = error {
        event = event.with_error(m);
    } else if !success {
        event = event.with_error("unknown");
    }
    event
}

/// An audit writer that discards every event.
pub struct NoopAuditWriter;

/// Criteria for querying audit logs.
#[derive(Debug, Clone)]
pub struct AuditFilter {
    /// Actor id (substring match).
    pub actor_id: Option<String>,
    pub action: Option<AuditAction>,
    pub tenant: Option<String>,
    pub success: Option<bool>,
    /// Inclusive start time (RFC 3339).
    pub from: Option<String>,
    /// Inclusive end time (RFC 3339).
    pub to: Option<String>,
    /// Pagination offset.
    pub offset: usize,
    /// Maximum number of results.
    pub limit: usize,
}

impl Default for AuditFilter {
    fn default() -> (f: Self)
        ensures
            f.actor_id is None && f.action is None && f.tenant is None && f.success is None,
            f.from is None && f.to is None,
            f.offset == 0,
            f.limit == 100,
    {
        AuditFilter {
            actor_id: None,
            action: None,
            tenant: None,
            success: None,
            from: None,
            to: None,
            offset: 0,
            limit: 100,
        }
    }
}

/// One page of an audit log query.
#[derive(Debug, Clone)]
pub struct AuditPage {
    pub events: Vec<AuditEvent>,
    /// Number of events matching the filter.
    pub total: usize,
    pub offset: usize,
    /// Whether more results exist.
    pub has_more: bool,
}

} // verus!
