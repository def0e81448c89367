//! Wall-clock readings. The gateway's windows (token-bucket refill, quota
//! minutes and days, circuit-breaker cooldowns, cost windows) are computed by
//! verified functions that take the current time as an argument; this is the
//! one place where the time is read.
use vstd::prelude::*;

verus! {

/// Milliseconds since the Unix epoch, read from `std::time::SystemTime::now`.
/// Nothing is promised of the value: it is the machine's clock. A clock set
/// before the epoch reads as 0.
#[verifier::external_body]
pub(crate) fn now_unix_ms() -> (ms: u64) {
    match std::time::SystemTime::now().duration_since(std::time::UNIX_EPOCH) {
        Ok(d) => d.as_millis() as u64,
        Err(_) => 0,
    }
}

} // verus!
