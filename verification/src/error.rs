//! Gateway errors, their HTTP status codes and their OpenAI-format bodies.
use vstd::prelude::*;

use crate::quota::QuotaViolation;

verus! {

/// The decimal digits of `n`.
pub open spec fn spec_decimal(n: nat) -> Seq<char>
    decreases n,
{
    if n < 10 {
        seq![(48 + n) as char]
    } else {
        spec_decimal(n / 10).push((48 + n % 10) as char)
    }
}

/// The digit `d` as a one-character string.
fn digit_str(d: u64) -> (r: &'static str)
    requires
        d < 10,
    ensures
        r@ == seq![(48 + d) as char],
{
    if d == 0 {
        proof { reveal_strlit("0"); }
        "0"
    } else if d == 1 {
        proof { reveal_strlit("1"); }
        "1"
    } else if d == 2 {
        proof { reveal_strlit("2"); }
        "2"
    } else if d == 3 {
        proof { reveal_strlit("3"); }
        "3"
    } else if d == 4 {
        proof { reveal_strlit("4"); }
        "4"
    } else if d == 5 {
        proof { reveal_strlit("5"); }
        "5"
    } else if d == 6 {
        proof { reveal_strlit("6"); }
        "6"
    } else if d == 7 {
        proof { reveal_strlit("7"); }
        "7"
    } else if d == 8 {
        proof { reveal_strlit("8"); }
        "8"
    } else {
        proof { reveal_strlit("9"); }
        "9"
    }
}

/// `n` in decimal, as `u64::to_string` writes it: the digits, no sign, no
/// leading zeros.
fn u64_to_decimal(n: u64) -> (s: String)
    ensures
        s@ == spec_decimal(n as nat),
    decreases n,
{
    if n < 10 {
        digit_str(n).to_owned()
    } else {
        let mut s = u64_to_decimal(n / 10);
        s.append(digit_str(n % 10));
        s
    }
}

/// Everything that can go wrong while serving a request.
#[derive(Debug)]
pub enum GatewayError {
    ProviderNotFound(String),
    AuthenticationFailed(String),
    Forbidden(String),
    RateLimited,
    QuotaExceeded { limit_type: String, limit: u64, current: u64 },
    UpstreamError(String),
    BadRequest(String),
    CacheError(String),
    ConfigError(String),
    Internal(String),
}

/// Abstract value of an error: its variant and the character sequences
/// of its payload.
pub enum ErrorView {
    ProviderNotFound(Seq<char>),
    AuthenticationFailed(Seq<char>),
    Forbidden(Seq<char>),
    RateLimited,
    QuotaExceeded { limit_type: Seq<char>, limit: u64, current: u64 },
    UpstreamError(Seq<char>),
    BadRequest(Seq<char>),
    CacheError(Seq<char>),
    ConfigError(Seq<char>),
    Internal(Seq<char>),
}

impl View for GatewayError {
    type V = ErrorView;

    open spec fn view(&self) -> ErrorView {
        match self {
            GatewayError::ProviderNotFound(s) => ErrorView::ProviderNotFound(s@),
            GatewayError::AuthenticationFailed(s) => ErrorView::AuthenticationFailed(s@),
            GatewayError::Forbidden(s) => ErrorView::Forbidden(s@),
            GatewayError::RateLimited => ErrorView::RateLimited,
            GatewayError::QuotaExceeded { limit_type, limit, current } => ErrorView::QuotaExceeded {
                limit_type: limit_type@,
                limit: *limit,
                current: *current,
            },
            GatewayError::UpstreamError(s) => ErrorView::UpstreamError(s@),
            GatewayError::BadRequest(s) => ErrorView::BadRequest(s@),
            GatewayError::CacheError(s) => ErrorView::CacheError(s@),
            GatewayError::ConfigError(s) => ErrorView::ConfigError(s@),
            GatewayError::Internal(s) => ErrorView::Internal(s@),
        }
    }
}

/// Body of an OpenAI-format error response.
#[derive(Debug, Clone)]
pub struct ErrorResponse {
    pub error: ErrorDetail,
}

/// The `error` object of an OpenAI-format error response.
#[derive(Debug, Clone)]
pub struct ErrorDetail {
    pub message: String,
    pub error_type: String,
    pub param: Option<String>,
    pub code: Option<String>,
}

/// HTTP status of each error.
pub open spec fn spec_status_code(e: GatewayError) -> u16 {
    match e {
        GatewayError::ProviderNotFound(_) => 404,
        GatewayError::AuthenticationFailed(_) => 401,
        GatewayError::Forbidden(_) => 403,
        GatewayError::RateLimited => 429,
        GatewayError::QuotaExceeded { .. } => 429,
        GatewayError::UpstreamError(_) => 502,
        GatewayError::BadRequest(_) => 400,
        GatewayError::CacheError(_) => 500,
        GatewayError::ConfigError(_) => 500,
        GatewayError::Internal(_) => 500,
    }
}

/// OpenAI-compatible error type of each error.
pub open spec fn spec_error_type(e: GatewayError) -> Seq<char> {
    match e {
        GatewayError::ProviderNotFound(_) => "model_not_found"@,
        GatewayError::AuthenticationFailed(_) => "authentication_error"@,
        GatewayError::Forbidden(_) => "insufficient_permissions"@,
        GatewayError::RateLimited => "rate_limit_exceeded"@,
        GatewayError::QuotaExceeded { .. } => "quota_exceeded"@,
        GatewayError::UpstreamError(_) => "upstream_error"@,
        GatewayError::BadRequest(_) => "invalid_request_error"@,
        GatewayError::CacheError(_) => "cache_error"@,
        GatewayError::ConfigError(_) => "config_error"@,
        GatewayError::Internal(_) => "internal_error"@,
    }
}

/// Human-readable message of each error.
pub open spec fn spec_message(e: GatewayError) -> Seq<char> {
    match e {
        GatewayError::ProviderNotFound(s) => "Provider not found for model: "@ + s@,
        GatewayError::AuthenticationFailed(s) => "Authentication failed: "@ + s@,
        GatewayError::Forbidden(s) => "Insufficient permissions: "@ + s@,
        GatewayError::RateLimited => "Rate limit exceeded"@,
        GatewayError::QuotaExceeded { limit_type, limit, current } => "Quota exceeded: "@ + limit_type@
            + " limit="@ + spec_decimal(limit as nat) + ", current="@ + spec_decimal(current as nat),
        GatewayError::UpstreamError(s) => "Upstream provider error: "@ + s@,
        GatewayError::BadRequest(s) => "Invalid request: "@ + s@,
        GatewayError::CacheError(s) => "Cache error: "@ + s@,
        GatewayError::ConfigError(s) => "Configuration error: "@ + s@,
        GatewayError::Internal(s) => "Internal error: "@ + s@,
    }
}

/// The `code` field of the error body.
pub open spec fn spec_error_code(e: GatewayError) -> Option<Seq<char>> {
    match e {
        GatewayError::QuotaExceeded { limit_type, .. } => Some("quota_exceeded:"@ + limit_type@),
        GatewayError::RateLimited => Some("rate_limit_exceeded"@),
        GatewayError::AuthenticationFailed(_) => Some("authentication_error"@),
        GatewayError::Forbidden(_) => Some("insufficient_permissions"@),
        _ => None,
    }
}

/// `prefix` followed by `rest`.
fn join(prefix: &str, rest: &str) -> (s: String)
    ensures
        s@ == prefix@ + rest@,
{
    let mut s = prefix.to_owned();
    s.append(rest);
    s
}

impl GatewayError {
    /// The HTTP status code of this error.
    pub fn status_code(&self) -> (c: u16)
        ensures
            c == spec_status_code(*self),
    {
        match self {
            GatewayError::ProviderNotFound(_) => 404,
            GatewayError::AuthenticationFailed(_) => 401,
            GatewayError::Forbidden(_) => 403,
            GatewayError::RateLimited => 429,
            GatewayError::QuotaExceeded { .. } => 429,
            GatewayError::UpstreamError(_) => 502,
            GatewayError::BadRequest(_) => 400,
            GatewayError::CacheError(_) => 500,
            GatewayError::ConfigError(_) => 500,
            GatewayError::Internal(_) => 500,
        }
    }

    /// The OpenAI-compatible error type string.
    pub fn error_type(&self) -> (t: &'static str)
        ensures
            t@ == spec_error_type(*self),
    {
        match self {
            GatewayError::ProviderNotFound(_) => "model_not_found",
            GatewayError::AuthenticationFailed(_) => "authentication_error",
            GatewayError::Forbidden(_) => "insufficient_permissions",
            GatewayError::RateLimited => "rate_limit_exceeded",
            GatewayError::QuotaExceeded { .. } => "quota_exceeded",
            GatewayError::UpstreamError(_) => "upstream_error",
            GatewayError::BadRequest(_) => "invalid_request_error",
            GatewayError::CacheError(_) => "cache_error",
            GatewayError::ConfigError(_) => "config_error",
            GatewayError::Internal(_) => "internal_error",
        }
    }

    /// The human-readable message of this error.
    pub fn message(&self) -> (m: String)
        ensures
            m@ == spec_message(*self),
    {
        match self {
            GatewayError::ProviderNotFound(s) => join("Provider not found for model: ", s.as_str()),
            GatewayError::AuthenticationFailed(s) => join("Authentication failed: ", s.as_str()),
            GatewayError::Forbidden(s) => join("Insufficient permissions: ", s.as_str()),
            GatewayError::RateLimited => "Rate limit exceeded".to_owned(),
            GatewayError::QuotaExceeded { limit_type, limit, current } => {
                let mut m = join("Quota exceeded: ", limit_type.as_str());
                m.append(" limit=");
                let l = u64_to_decimal(*limit);
                m.append(l.as_str());
                m.append(", current=");
                let c = u64_to_decimal(*current);
                m.append(c.as_str());
                m
            },
            GatewayError::UpstreamError(s) => join("Upstream provider error: ", s.as_str()),
            GatewayError::BadRequest(s) => join("Invalid request: ", s.as_str()),
            GatewayError::CacheError(s) => join("Cache error: ", s.as_str()),
            GatewayError::ConfigError(s) => join("Configuration error: ", s.as_str()),
            GatewayError::Internal(s) => join("Internal error: ", s.as_str()),
        }
    }

    /// The OpenAI-format error body.
    pub fn to_error_response(&self) -> (r: ErrorResponse)
        ensures
            r.error.message@ == spec_message(*self),
            r.error.error_type@ == spec_error_type(*self),
            r.error.param is None,
            match (r.error.code, spec_error_code(*self)) {
                (Some(c), Some(s)) => c@ == s,
                (None, None) => true,
                _ => false,
            },
    {
        let code: Option<String> = match self {
            GatewayError::QuotaExceeded { limit_type, .. } => Some(join("quota_exceeded:", limit_type.as_str())),
            GatewayError::RateLimited => Some("rate_limit_exceeded".to_owned()),
            GatewayError::AuthenticationFailed(_) => Some("authentication_error".to_owned()),
            GatewayError::Forbidden(_) => Some("insufficient_permissions".to_owned()),
            _ => None,
        };
        ErrorResponse {
            error: ErrorDetail {
                message: self.message(),
                error_type: self.error_type().to_owned(),
                param: None,
                code,
            },
        }
    }

    /// The quota-exceeded error of a quota violation.
    pub fn from_violation(v: QuotaViolation) -> (e: GatewayError)
        ensures
            e == (GatewayError::QuotaExceeded { limit_type: v.limit_type, limit: v.limit, current: v.current }),
    {
        GatewayError::QuotaExceeded { limit_type: v.limit_type, limit: v.limit, current: v.current }
    }
}

impl From<QuotaViolation> for GatewayError {
    fn from(v: QuotaViolation) -> (e: Self) {
        GatewayError::from_violation(v)
    }
}

impl vstd::std_specs::convert::FromSpecImpl<QuotaViolation> for GatewayError {
    open spec fn obeys_from_spec() -> bool {
        true
    }

    open spec fn from_spec(v: QuotaViolation) -> Self {
        GatewayError::QuotaExceeded { limit_type: v.limit_type, limit: v.limit, current: v.current }
    }
}

} // verus!
