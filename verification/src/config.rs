//! Configuration sections and their defaults.
use vstd::prelude::*;

verus! {

/// Listening address.
#[derive(Debug, Clone)]
pub struct ServerConfig {
    pub host: String,
    pub port: u16,
}

impl Default for ServerConfig {
    fn default() -> (c: Self)
        ensures
            c.host@ == "0.0.0.0"@,
            c.port == 8080,
    {
        ServerConfig { host: "0.0.0.0".to_owned(), port: 8080 }
    }
}

/// Default per-tenant rate limit.
#[derive(Debug, Clone, Copy, PartialEq, Eq, Structural)]
pub struct RateLimitConfig {
    pub requests_per_minute: u32,
}

impl Default for RateLimitConfig {
    fn default() -> (c: Self)
        ensures
            c.requests_per_minute == 60,
    {
        RateLimitConfig { requests_per_minute: 60 }
    }
}

/// Response cache settings.
#[derive(Debug, Clone, Copy, PartialEq, Eq, Structural)]
pub struct CacheConfig {
    pub enabled: bool,
    pub max_capacity: u64,
    pub ttl_seconds: u64,
}

impl Default for CacheConfig {
    fn default() -> (c: Self)
        ensures
            c.enabled,
            c.max_capacity == 1000,
            c.ttl_seconds == 300,
    {
        CacheConfig { enabled: true, max_capacity: 1000, ttl_seconds: 300 }
    }
}

/// A configured key: (plaintext key, tenant id, role).
#[derive(Debug, Clone)]
pub struct StructuredKey(pub String, pub String, pub String);

/// Authentication settings.
#[derive(Debug, Clone)]
pub struct AuthConfig {
    pub enabled: bool,
    /// Plaintext startup keys (tenant `default`, role `developer`).
    pub api_keys: Vec<String>,
    /// Keys with tenant and role.
    pub structured_keys: Vec<StructuredKey>,
    pub required_hmac_secret: Option<String>,
    pub default_tenant: String,
    pub default_role: String,
}

impl Default for AuthConfig {
    fn default() -> (c: Self)
        ensures
            c.enabled,
            c.api_keys@.len() == 1 && c.api_keys@[0]@ == "test-key"@,
            c.structured_keys@.len() == 0,
            c.required_hmac_secret is None,
            c.default_tenant@ == "default"@,
            c.default_role@ == "developer"@,
    {
        AuthConfig {
            enabled: true,
            api_keys: vec!["test-key".to_owned()],
            structured_keys: Vec::new(),
            required_hmac_secret: None,
            default_tenant: "default".to_owned(),
            default_role: "developer".to_owned(),
        }
    }
}

} // verus!
