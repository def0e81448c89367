//! Verified core of a multi-tenant gateway for LLM providers: API-key
//! authentication, role-based access, per-tenant rate limits and quotas,
//! per-provider circuit breakers, retry/fallback planning and metering.
mod arith;
mod clock;
mod text;
pub mod strmap;

pub mod tenant;
pub mod rate_limit;
pub mod quota;
pub mod circuit_breaker;
pub mod auth_key;
pub mod error;
pub mod audit;
pub mod metering;
pub mod usage;
pub mod rbac;
pub mod middleware;
pub mod config;
pub mod admin;
pub mod retry;
pub mod state;
pub mod log_buffer;
pub mod convert;
pub mod stream;
