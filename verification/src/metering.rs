//! Metering primitives: token usage, the platform rate card, request
//! outcomes, and the selection of events for cost summaries.
use vstd::prelude::*;

use crate::arith::{div_ceil, sat_add, sat_mul, spec_div_ceil, spec_sat_add, spec_sat_mul};
use crate::text::str_eq;

verus! {

/// Token usage of one completion.
#[derive(Debug, Clone, Copy, PartialEq, Eq, Structural, Default)]
pub struct Usage {
    pub prompt_tokens: u32,
    pub completion_tokens: u32,
    pub total_tokens: u32,
}

/// Outcome of a completed request.
#[derive(Debug, Clone, Copy, PartialEq, Eq, Structural)]
pub enum RequestStatus {
    Success,
    Error,
    RateLimited,
    QuotaExceeded,
}

/// Cost per million tokens, in the smallest currency unit (e.g. cents).
#[derive(Debug, Clone, Copy, PartialEq, Eq, Structural, Default)]
pub struct RateCard {
    pub prompt_per_million: u64,
    pub completion_per_million: u64,
}

/// Cost of `usage` under `card`: each kind of token is billed per started
/// million (ceiling), sums and products saturating at `u64::MAX`.
pub open spec fn spec_estimate_cost(card: RateCard, usage: Usage) -> u64 {
    spec_sat_add(
        spec_sat_mul(spec_div_ceil(usage.prompt_tokens as u64, 1_000_000), card.prompt_per_million),
        spec_sat_mul(
            spec_div_ceil(usage.completion_tokens as u64, 1_000_000),
            card.completion_per_million,
        ),
    )
}

impl RateCard {
    /// Estimated cost of `usage` in the card's unit. Partial millions are
    /// rounded up so small requests are never free under a non-zero rate.
    pub fn estimate_cost(&self, usage: &Usage) -> (c: u64)
        ensures
            c == spec_estimate_cost(*self, *usage),
    {
        let prompt_units = div_ceil(usage.prompt_tokens as u64, 1_000_000);
        let completion_units = div_ceil(usage.completion_tokens as u64, 1_000_000);
        sat_add(
            sat_mul(prompt_units, self.prompt_per_million),
            sat_mul(completion_units, self.completion_per_million),
        )
    }
}

/// Usage below a million tokens of each kind costs exactly one unit of
/// each non-empty kind: the rate itself; an all-zero card charges nothing.
pub proof fn lemma_small_usage_cost(card: RateCard, usage: Usage)
    requires
        usage.prompt_tokens <= 1_000_000,
        usage.completion_tokens <= 1_000_000,
        card.prompt_per_million + card.completion_per_million <= u64::MAX,
    ensures
        spec_estimate_cost(card, usage) == (if usage.prompt_tokens > 0 {
            card.prompt_per_million
        } else {
            0
        }) + (if usage.completion_tokens > 0 {
            card.completion_per_million
        } else {
            0
        }),
        card.prompt_per_million == 0 && card.completion_per_million == 0 ==> spec_estimate_cost(card, usage) == 0,
{
    let p = usage.prompt_tokens as int;
    let c = usage.completion_tokens as int;
    assert((p + 1_000_000 - 1) / 1_000_000 == if p > 0 { 1int } else { 0int }) by (nonlinear_arith)
        requires
            0 <= p <= 1_000_000,
    ;
    assert((c + 1_000_000 - 1) / 1_000_000 == if c > 0 { 1int } else { 0int }) by (nonlinear_arith)
        requires
            0 <= c <= 1_000_000,
    ;
    let pu = spec_div_ceil(usage.prompt_tokens as u64, 1_000_000);
    let cu = spec_div_ceil(usage.completion_tokens as u64, 1_000_000);
    assert(pu * card.prompt_per_million == if p > 0 { card.prompt_per_million as int } else { 0 }) by (nonlinear_arith)
        requires
            pu == if p > 0 { 1int } else { 0int },
    ;
    assert(cu * card.completion_per_million == if c > 0 { card.completion_per_million as int } else { 0 }) by (nonlinear_arith)
        requires
            cu == if c > 0 { 1int } else { 0int },
    ;
}

/// Cost grows with usage: more tokens of either kind never cost less.
pub proof fn lemma_cost_monotone(card: RateCard, a: Usage, b: Usage)
    requires
        a.prompt_tokens <= b.prompt_tokens,
        a.completion_tokens <= b.completion_tokens,
    ensures
        spec_estimate_cost(card, a) <= spec_estimate_cost(card, b),
{
    let pa = spec_div_ceil(a.prompt_tokens as u64, 1_000_000);
    let pb = spec_div_ceil(b.prompt_tokens as u64, 1_000_000);
    let ca = spec_div_ceil(a.completion_tokens as u64, 1_000_000);
    let cb = spec_div_ceil(b.completion_tokens as u64, 1_000_000);
    assert(pa <= pb);
    assert(ca <= cb);
    assert(pa * card.prompt_per_million <= pb * card.prompt_per_million) by (nonlinear_arith)
        requires
            pa <= pb,
    ;
    assert(ca * card.completion_per_million <= cb * card.completion_per_million) by (nonlinear_arith)
        requires
            ca <= cb,
    ;
}

/// Whether an event at `timestamp_ms` of `tenant_id` belongs in a cost
/// summary over the `window_ms` milliseconds up to `now_ms`, restricted to
/// `tenant_filter` when given. The window is the closed interval
/// `[now_ms - window_ms, now_ms]` (its start clamped at 0).
pub open spec fn spec_event_selected(
    timestamp_ms: u64,
    tenant_id: Seq<char>,
    now_ms: u64,
    window_ms: u64,
    tenant_filter: Option<Seq<char>>,
) -> bool {
    let cutoff = if now_ms >= window_ms {
        now_ms - window_ms
    } else {
        0
    };
    &&& cutoff <= timestamp_ms
    &&& timestamp_ms <= now_ms
    &&& match tenant_filter {
        Some(f) => tenant_id == f,
        None => true,
    }
}

/// Whether an event belongs in a cost summary; see
/// [`spec_event_selected`].
pub fn event_selected(
    timestamp_ms: u64,
    tenant_id: &str,
    now_ms: u64,
    window_ms: u64,
    tenant_filter: Option<&str>,
) -> (r: bool)
    ensures
        r == spec_event_selected(
            timestamp_ms,
            tenant_id@,
            now_ms,
            window_ms,
            crate::text::opt_str_view(tenant_filter),
        ),
{
    let cutoff = if now_ms >= window_ms {
        now_ms - window_ms
    } else {
        0
    };
    if timestamp_ms < cutoff || timestamp_ms > now_ms {
        return false;
    }
    match tenant_filter {
        Some(f) => str_eq(tenant_id, f),
        None => true,
    }
}

/// Length and label of a cost-summary window: `7d`, `30d`, otherwise 24
/// hours.
pub open spec fn spec_cost_window(window: Option<Seq<char>>) -> (u64, Seq<char>) {
    match window {
        Some(w) => if w == "7d"@ {
            (604_800_000, "7d"@)
        } else if w == "30d"@ {
            (2_592_000_000, "30d"@)
        } else {
            (86_400_000, "24h"@)
        },
        None => (86_400_000, "24h"@),
    }
}

/// Parse the `window` parameter of the costs API into its length in
/// milliseconds and its label.
pub fn cost_window(window: Option<&str>) -> (r: (u64, &'static str))
    ensures
        r.0 == spec_cost_window(crate::text::opt_str_view(window)).0,
        r.1@ == spec_cost_window(crate::text::opt_str_view(window)).1,
{
    match window {
        Some(w) => {
            if str_eq(w, "7d") {
                (7 * 24 * 60 * 60 * 1000, "7d")
            } else if str_eq(w, "30d") {
                (30 * 24 * 60 * 60 * 1000, "30d")
            } else {
                (24 * 60 * 60 * 1000, "24h")
            }
        },
        None => (24 * 60 * 60 * 1000, "24h"),
    }
}

} // verus!
