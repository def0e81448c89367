//! Token-bucket rate limiting, one bucket per tenant.
//!
//! Tokens are counted in micro-tokens (1 token = 1000 micro-tokens) so that
//! fractional refills stay exact in integer arithmetic. A bucket holds at most
//! `capacity` tokens, where `capacity` is the configured requests per minute,
//! and refills at `capacity` tokens per minute.
use std::time::Duration;

use vstd::prelude::*;

use crate::arith::{div_ceil, sat_add, sat_mul, spec_div_ceil, spec_sat_add, spec_sat_mul};
use crate::clock::now_unix_ms;
use crate::text::{opt_str_view, str_eq};

verus! {

/// Micro-tokens per logical token.
pub const MICRO: u64 = 1000;

/// Refills are coalesced: less than this many elapsed milliseconds add nothing.
pub const MIN_REFILL_GAP_MS: u64 = 100;

/// The wait reported when the refill rate rounds to zero.
pub const ZERO_RATE_WAIT_MS: u64 = 60_000;

/// Bucket of the requests that carry no tenant context.
pub const UNAUTHENTICATED_TENANT: &'static str = "__unauthenticated__";

/// Micro-tokens refilled per millisecond for a bucket of `capacity` tokens
/// per minute, rounded up.
pub open spec fn spec_micro_per_ms(capacity: u64) -> u64 {
    spec_div_ceil(spec_sat_mul(capacity, MICRO), 60_000)
}

/// Ceiling of `capacity * 1000 / 60000`: micro-tokens refilled per
/// millisecond. Rounded up so that a minute refills at least `capacity`
/// tokens.
pub fn micro_per_ms(capacity: u64) -> (r: u64)
    ensures
        r == spec_micro_per_ms(capacity),
{
    div_ceil(sat_mul(capacity, MICRO), 60_000)
}

/// The abstract state of a bucket.
pub struct BucketView {
    /// Capacity in tokens (the requests-per-minute setting).
    pub capacity: u64,
    /// Available micro-tokens.
    pub tokens: u64,
    /// Time of the last refill, in milliseconds since the epoch.
    pub last_ms: u64,
}

/// A well-formed bucket: capacity between 1 and `u32::MAX`, never more
/// micro-tokens than the capacity allows.
pub open spec fn bucket_wf(v: BucketView) -> bool {
    &&& 1 <= v.capacity <= u32::MAX
    &&& v.tokens <= v.capacity * MICRO
}

/// The capacity a requested rate maps to: at least one token.
pub open spec fn spec_capacity_for(rpm: u32) -> u64 {
    if rpm == 0 {
        1
    } else {
        rpm as u64
    }
}

/// A full bucket for `rpm` requests per minute, last refilled at `now`.
pub open spec fn spec_new_bucket(rpm: u32, now: u64) -> BucketView {
    BucketView {
        capacity: spec_capacity_for(rpm),
        tokens: (spec_capacity_for(rpm) * MICRO) as u64,
        last_ms: now,
    }
}

/// The bucket after topping it up for the time elapsed since its last refill.
pub open spec fn spec_refill(v: BucketView, now: u64) -> BucketView {
    let elapsed: u64 = if now >= v.last_ms {
        (now - v.last_ms) as u64
    } else {
        0
    };
    if elapsed < MIN_REFILL_GAP_MS {
        v
    } else {
        let added = spec_sat_mul(elapsed, spec_micro_per_ms(v.capacity));
        let max_tokens = spec_sat_mul(v.capacity, MICRO);
        let topped = spec_sat_add(v.tokens, added);
        BucketView {
            capacity: v.capacity,
            tokens: if topped < max_tokens {
                topped
            } else {
                max_tokens
            },
            last_ms: now,
        }
    }
}

/// Refill, then take one token: the new bucket and, when no whole token was
/// available, the wait in milliseconds until one will be.
pub open spec fn spec_consume(v: BucketView, now: u64) -> (BucketView, Option<u64>) {
    let r = spec_refill(v, now);
    if r.tokens < MICRO {
        let rate = spec_micro_per_ms(r.capacity);
        if rate == 0 {
            (r, Some(ZERO_RATE_WAIT_MS))
        } else {
            (r, Some(spec_sat_add(((MICRO - r.tokens) as u64 / rate) as u64, 1)))
        }
    } else {
        (BucketView { capacity: r.capacity, tokens: (r.tokens - MICRO) as u64, last_ms: r.last_ms }, None)
    }
}

/// The bucket after changing its capacity to `rpm`: tokens above the new
/// capacity are dropped, nothing else changes.
pub open spec fn spec_set_rpm(v: BucketView, rpm: u32) -> BucketView {
    let max_tokens = (spec_capacity_for(rpm) * MICRO) as u64;
    BucketView {
        capacity: spec_capacity_for(rpm),
        tokens: if v.tokens > max_tokens {
            max_tokens
        } else {
            v.tokens
        },
        last_ms: v.last_ms,
    }
}

/// The `Duration` of a whole number of milliseconds.
pub uninterp spec fn spec_duration_from_millis(ms: u64) -> Duration;

/// `std::time::Duration::from_millis`. Claimed: the result is a function of
/// `ms` alone.
#[verifier::external_body]
fn duration_from_millis(ms: u64) -> (d: Duration)
    ensures
        d == spec_duration_from_millis(ms),
{
    Duration::from_millis(ms)
}

/// A token bucket holding up to `capacity` tokens and refilling at
/// `capacity` tokens per minute.
pub struct TokenBucket {
    capacity: u64,
    tokens: u64,
    last_ms: u64,
}

impl View for TokenBucket {
    type V = BucketView;

    closed spec fn view(&self) -> BucketView {
        BucketView { capacity: self.capacity, tokens: self.tokens, last_ms: self.last_ms }
    }
}

impl TokenBucket {
    /// Well-formedness of the bucket.
    pub open spec fn wf(&self) -> bool {
        bucket_wf(self@)
    }

    /// A full bucket for `rpm` requests per minute (0 counts as 1), with
    /// the clock read now.
    pub fn new(rpm: u32) -> (b: Self)
        ensures
            b.wf(),
            b@.capacity == spec_capacity_for(rpm),
            b@.tokens == spec_capacity_for(rpm) * MICRO,
    {
        let now = now_unix_ms();
        Self::new_at(rpm, now)
    }

    /// A full bucket for `rpm` requests per minute (0 counts as 1), last
    /// refilled at `now_ms`.
    pub fn new_at(rpm: u32, now_ms: u64) -> (b: Self)
        ensures
            b.wf(),
            b@ == spec_new_bucket(rpm, now_ms),
    {
        let cap: u64 = if rpm == 0 {
            1
        } else {
            rpm as u64
        };
        TokenBucket { capacity: cap, tokens: cap * MICRO, last_ms: now_ms }
    }

    /// Change the capacity to `rpm` tokens (0 counts as 1); available
    /// tokens above the new capacity are dropped.
    pub fn set_rpm(&mut self, rpm: u32)
        requires
            old(self).wf(),
        ensures
            final(self).wf(),
            final(self)@ == spec_set_rpm(old(self)@, rpm),
    {
        let cap: u64 = if rpm == 0 {
            1
        } else {
            rpm as u64
        };
        let max_tokens = cap * MICRO;
        let tokens = if self.tokens > max_tokens {
            max_tokens
        } else {
            self.tokens
        };
        *self = TokenBucket { capacity: cap, tokens, last_ms: self.last_ms };
    }

    /// Top up the bucket for the time elapsed up to `now_ms`.
    pub fn refill_at(&mut self, now_ms: u64)
        requires
            old(self).wf(),
        ensures
            final(self).wf(),
            final(self)@ == spec_refill(old(self)@, now_ms),
    {
        let elapsed = if now_ms >= self.last_ms {
            now_ms - self.last_ms
        } else {
            0
        };
        if elapsed < MIN_REFILL_GAP_MS {
            return ;
        }
        let added = sat_mul(elapsed, micro_per_ms(self.capacity));
        let max_tokens = sat_mul(self.capacity, MICRO);
        let topped = sat_add(self.tokens, added);
        let tokens = if topped < max_tokens {
            topped
        } else {
            max_tokens
        };
        *self = TokenBucket { capacity: self.capacity, tokens, last_ms: now_ms };
    }

    /// Try to take one token at time `now_ms`. `None`: the token was taken
    /// and the request may pass. `Some(ms)`: the request must be refused; a
    /// token will be available in about `ms` milliseconds.
    pub fn consume_at(&mut self, now_ms: u64) -> (wait_ms: Option<u64>)
        requires
            old(self).wf(),
        ensures
            final(self).wf(),
            (final(self)@, wait_ms) == spec_consume(old(self)@, now_ms),
    {
        self.refill_at(now_ms);
        if self.tokens < MICRO {
            let rate = micro_per_ms(self.capacity);
            if rate == 0 {
                return Some(ZERO_RATE_WAIT_MS);
            }
            let deficit = MICRO - self.tokens;
            return Some(sat_add(deficit / rate, 1));
        }
        *self = TokenBucket { capacity: self.capacity, tokens: self.tokens - MICRO, last_ms: self.last_ms };
        None
    }

    /// Try to take one token now. `None` when the request may pass;
    /// `Some(wait)` when it must be refused with HTTP 429 and a matching
    /// `Retry-After`.
    pub fn consume(&mut self) -> (wait: Option<Duration>)
        requires
            old(self).wf(),
        ensures
            final(self).wf(),
            exists|now: u64|
                {
                    let (b, w) = #[trigger] spec_consume(old(self)@, now);
                    &&& final(self)@ == b
                    &&& wait == match w {
                        Some(ms) => Some(spec_duration_from_millis(ms)),
                        None => None,
                    }
                },
    {
        let now = now_unix_ms();
        match self.consume_at(now) {
            Some(ms) => Some(duration_from_millis(ms)),
            None => None,
        }
    }
}

/// A refused request always reports a positive wait, and an allowed one
/// takes exactly one token from the refilled bucket.
pub proof fn lemma_consume_accounting(v: BucketView, now: u64)
    requires
        bucket_wf(v),
    ensures
        spec_consume(v, now).1 matches Some(ms) ==> ms >= 1,
        spec_consume(v, now).1 is None ==> spec_consume(v, now).0.tokens + MICRO == spec_refill(
            v,
            now,
        ).tokens,
        spec_consume(v, now).1 is Some <==> spec_refill(v, now).tokens < MICRO,
{
}

/// Refilling never takes tokens away and never goes above capacity.
pub proof fn lemma_refill_bounds(v: BucketView, now: u64)
    requires
        bucket_wf(v),
    ensures
        v.tokens <= spec_refill(v, now).tokens <= v.capacity * MICRO,
        spec_refill(v, now).capacity == v.capacity,
{
}

/// Within the refill gap after the last refill, a bucket with less than one
/// token refuses every request and stays unchanged.
pub proof fn lemma_empty_bucket_refuses(v: BucketView, now: u64)
    requires
        bucket_wf(v),
        v.tokens < MICRO,
        v.last_ms <= now < v.last_ms + MIN_REFILL_GAP_MS,
    ensures
        spec_consume(v, now).1 is Some,
        spec_consume(v, now).0 == v,
{
}

/// A fresh bucket allows `capacity` requests at the instant of its creation:
/// after `k < capacity` allowed requests at that instant, the next one is
/// allowed too; after `capacity` of them, the next is refused.
pub proof fn lemma_fresh_bucket_burst(rpm: u32, now: u64, k: u64)
    requires
        k <= spec_capacity_for(rpm),
    ensures
        ({
            let v = BucketView {
                capacity: spec_capacity_for(rpm),
                tokens: ((spec_capacity_for(rpm) - k) * MICRO) as u64,
                last_ms: now,
            };
            &&& bucket_wf(v)
            &&& (k < spec_capacity_for(rpm) ==> spec_consume(v, now).1 is None && spec_consume(
                v,
                now,
            ).0.tokens == (spec_capacity_for(rpm) - k - 1) * MICRO)
            &&& (k == spec_capacity_for(rpm) ==> spec_consume(v, now).1 is Some)
        }),
        spec_new_bucket(rpm, now).tokens == (spec_capacity_for(rpm) - 0) * MICRO,
{
}

/// Lowering the capacity never adds tokens, and the bucket stays
/// well-formed.
pub proof fn lemma_set_rpm_clamps(v: BucketView, rpm: u32)
    requires
        bucket_wf(v),
    ensures
        bucket_wf(spec_set_rpm(v, rpm)),
        spec_set_rpm(v, rpm).tokens <= v.tokens,
        spec_set_rpm(v, rpm).tokens <= spec_capacity_for(rpm) * MICRO,
{
}

/// The refill rate is the requests-per-minute setting spread over the
/// minute, rounded up: a minute refills at least the full capacity, and
/// less than one micro-token per millisecond more than that.
pub proof fn lemma_refill_rate(capacity: u64)
    requires
        1 <= capacity <= u32::MAX,
    ensures
        60_000 * spec_micro_per_ms(capacity) >= capacity * MICRO,
        60_000 * spec_micro_per_ms(capacity) < capacity * MICRO + 60_000,
{
    let n = capacity * 1000;
    assert(spec_sat_mul(capacity, MICRO) == n);
    let q = (n + 59_999) / 60_000;
    assert(60_000 * q <= n + 59_999 < 60_000 * q + 60_000) by (nonlinear_arith)
        requires
            q == (n + 59_999) / 60_000,
            n >= 0,
    ;
}

/// A bucket refilled a full minute or more after its last refill is full,
/// whatever it held.
pub proof fn lemma_minute_refills_fully(v: BucketView, now: u64)
    requires
        bucket_wf(v),
        now >= v.last_ms + 60_000,
    ensures
        spec_refill(v, now).tokens == v.capacity * MICRO,
        spec_refill(v, now).last_ms == now,
{
    lemma_refill_rate(v.capacity);
    let rate = spec_micro_per_ms(v.capacity);
    let elapsed = (now - v.last_ms) as u64;
    assert(elapsed * rate >= 60_000 * rate) by (nonlinear_arith)
        requires
            elapsed >= 60_000,
            rate >= 0,
    ;
}

/// A bucket after a run of requests at times `ts`, in order, and how many
/// of them were allowed.
pub open spec fn spec_run(v: BucketView, ts: Seq<u64>) -> (BucketView, nat)
    decreases ts.len(),
{
    if ts.len() == 0 {
        (v, 0)
    } else {
        let (b, allowed) = spec_run(v, ts.drop_last());
        let (b2, w) = spec_consume(b, ts.last());
        (
            b2,
            if w is None {
                allowed + 1
            } else {
                allowed
            },
        )
    }
}

/// Whether the times of `ts` never go backwards.
pub open spec fn spec_times_ordered(ts: Seq<u64>) -> bool {
    forall|i: int, j: int| 0 <= i <= j < ts.len() ==> ts[i] <= ts[j]
}

/// One step of a run: a refill adds at most the refill rate per
/// millisecond that the last-refill time advances, and an allowed request
/// takes one token.
proof fn lemma_consume_step(b: BucketView, t: u64)
    requires
        bucket_wf(b),
        b.last_ms <= t,
    ensures
        ({
            let (b2, w) = spec_consume(b, t);
            let rate = spec_micro_per_ms(b.capacity);
            &&& bucket_wf(b2)
            &&& b2.capacity == b.capacity
            &&& b.last_ms <= b2.last_ms <= t
            &&& b2.tokens + (if w is None {
                MICRO as int
            } else {
                0int
            }) <= b.tokens + rate * (b2.last_ms - b.last_ms)
        }),
{
    let rate = spec_micro_per_ms(b.capacity);
    let r = spec_refill(b, t);
    lemma_refill_bounds(b, t);
    if t - b.last_ms >= MIN_REFILL_GAP_MS {
        let elapsed = (t - b.last_ms) as u64;
        assert(spec_sat_mul(elapsed, rate) <= elapsed * rate);
        assert(r.tokens <= b.tokens + elapsed * rate);
    }
}

/// The number of requests a bucket allows over a span of time is bounded:
/// over requests at ordered times `ts` (none earlier than the bucket's last
/// refill), at most the bucket's capacity plus what the refill rate adds
/// over the span and one refill gap are allowed, counted in micro-tokens.
/// This holds for any window of a longer run too, since the bucket reached
/// before the window is well-formed and was last refilled no later than
/// the window's first request.
pub proof fn lemma_admissions_over_span(v: BucketView, ts: Seq<u64>)
    requires
        bucket_wf(v),
        ts.len() >= 1,
        spec_times_ordered(ts),
        v.last_ms <= ts[0],
    ensures
        spec_run(v, ts).1 * MICRO <= v.capacity * MICRO + (ts.last() - ts[0] + MIN_REFILL_GAP_MS)
            * spec_micro_per_ms(v.capacity),
{
    lemma_run_credit(v, ts);
    let (b, a) = spec_run(v, ts);
    let rate = spec_micro_per_ms(v.capacity);
    assert(rate * (b.last_ms + MIN_REFILL_GAP_MS - ts[0]) <= rate * (ts.last() + MIN_REFILL_GAP_MS
        - ts[0])) by (nonlinear_arith)
        requires
            b.last_ms <= ts.last(),
            rate >= 0,
    ;
    assert((ts.last() - ts[0] + MIN_REFILL_GAP_MS) * rate == rate * (ts.last() + MIN_REFILL_GAP_MS
        - ts[0])) by (nonlinear_arith);
}

/// The invariant behind [`lemma_admissions_over_span`]: the tokens left
/// plus the tokens taken never exceed the capacity plus the refill rate
/// times the time from one refill gap before the first request to the last
/// refill.
proof fn lemma_run_credit(v: BucketView, ts: Seq<u64>)
    requires
        bucket_wf(v),
        ts.len() >= 1,
        spec_times_ordered(ts),
        v.last_ms <= ts[0],
    ensures
        ({
            let (b, a) = spec_run(v, ts);
            let rate = spec_micro_per_ms(v.capacity);
            &&& bucket_wf(b)
            &&& b.capacity == v.capacity
            &&& b.last_ms <= ts.last()
            &&& b.last_ms + MIN_REFILL_GAP_MS > ts[0]
            &&& b.tokens + a * MICRO <= v.capacity * MICRO + rate * (b.last_ms + MIN_REFILL_GAP_MS
                - ts[0])
        }),
    decreases ts.len(),
{
    let rate = spec_micro_per_ms(v.capacity);
    if ts.len() == 1 {
        assert(ts.drop_last().len() == 0);
        assert(spec_run(v, ts.drop_last()) == (v, 0nat));
        assert(ts.last() == ts[0]);
        let (b, a) = spec_run(v, ts);
        lemma_refill_bounds(v, ts[0]);
        lemma_consume_step(v, ts[0]);
        assert(b.last_ms + MIN_REFILL_GAP_MS > ts[0]);
        assert(rate * (b.last_ms + MIN_REFILL_GAP_MS - ts[0]) >= 0) by (nonlinear_arith)
            requires
                b.last_ms + MIN_REFILL_GAP_MS > ts[0],
                rate >= 0,
        ;
    } else {
        let prefix = ts.drop_last();
        assert(prefix[0] == ts[0]);
        assert(spec_times_ordered(prefix));
        lemma_run_credit(v, prefix);
        let (b, a) = spec_run(v, prefix);
        let t = ts.last();
        assert(prefix.last() <= t);
        lemma_consume_step(b, t);
        let (b2, a2) = spec_run(v, ts);
        assert(rate * (b.last_ms + MIN_REFILL_GAP_MS - ts[0]) + rate * (b2.last_ms - b.last_ms) == rate
            * (b2.last_ms + MIN_REFILL_GAP_MS - ts[0])) by (nonlinear_arith);
    }
}

} // verus!

verus! {

/// Paths that are never rate limited: the liveness and readiness probes.
pub open spec fn spec_is_exempt_path(path: Seq<char>) -> bool {
    path == "/healthz"@ || path == "/readyz"@ || path == "/deep-health"@ || path == "/health"@
}

/// Whether requests to `path` bypass rate limiting.
pub fn is_exempt_path(path: &str) -> (r: bool)
    ensures
        r == spec_is_exempt_path(path@),
{
    str_eq(path, "/healthz") || str_eq(path, "/readyz") || str_eq(path, "/deep-health")
        || str_eq(path, "/health")
}

/// What the rate limiter decided for one request.
#[derive(Debug, Clone, Copy, PartialEq, Eq, Structural)]
pub enum RateDecision {
    /// The path is exempt; no bucket was touched.
    Exempt,
    /// A token was taken; the request may pass.
    Allowed,
    /// The tenant's bucket is empty: answer 429 with `Retry-After:
    /// retry_after_secs`. A token is expected after `wait_ms` milliseconds.
    Limited { wait_ms: u64, retry_after_secs: u64 },
}

/// The `Retry-After` value for a wait: whole seconds, at least one.
pub open spec fn spec_retry_after_secs(wait_ms: u64) -> u64 {
    if wait_ms / 1000 >= 1 {
        wait_ms / 1000
    } else {
        1
    }
}

/// The abstract state of a rate limiter.
pub struct LimiterView {
    /// Capacity given to buckets created from now on.
    pub default_rpm: u32,
    /// Bucket of each tenant seen so far.
    pub buckets: Map<Seq<char>, BucketView>,
}

/// The tenant whose bucket a request draws from.
pub open spec fn spec_bucket_tenant(tenant: Option<Seq<char>>) -> Seq<char> {
    match tenant {
        Some(t) => t,
        None => UNAUTHENTICATED_TENANT@,
    }
}

/// The limiter after deciding one request, and the decision.
pub open spec fn spec_check(
    v: LimiterView,
    path: Seq<char>,
    tenant: Option<Seq<char>>,
    now: u64,
) -> (LimiterView, RateDecision) {
    if spec_is_exempt_path(path) {
        (v, RateDecision::Exempt)
    } else {
        let t = spec_bucket_tenant(tenant);
        let b0 = if v.buckets.contains_key(t) {
            v.buckets[t]
        } else {
            spec_new_bucket(v.default_rpm, now)
        };
        let (b1, wait) = spec_consume(b0, now);
        (
            LimiterView { default_rpm: v.default_rpm, buckets: v.buckets.insert(t, b1) },
            match wait {
                None => RateDecision::Allowed,
                Some(ms) => RateDecision::Limited {
                    wait_ms: ms,
                    retry_after_secs: spec_retry_after_secs(ms),
                },
            },
        )
    }
}

/// The bucket list and the map agree, tenants are distinct, every bucket is
/// well-formed.
spec fn limiter_wf(buckets: Seq<TenantBucket>, model: Map<Seq<char>, BucketView>) -> bool {
    &&& forall|i: int|
        0 <= i < buckets.len() ==> {
            &&& #[trigger] model.contains_key(buckets[i].tenant_id@)
            &&& model[buckets[i].tenant_id@] == buckets[i].bucket@
            &&& buckets[i].bucket.wf()
        }
    &&& forall|k: Seq<char>|
        #[trigger] model.contains_key(k) ==> exists|i: int|
            0 <= i < buckets.len() && #[trigger] buckets[i].tenant_id@ == k
    &&& forall|i: int, j: int|
        0 <= i < j < buckets.len() ==> #[trigger] buckets[i].tenant_id@ != #[trigger] buckets[j].tenant_id@
}

/// One tenant's bucket.
pub struct TenantBucket {
    pub tenant_id: String,
    pub bucket: TokenBucket,
}

/// Per-tenant rate limiter: every tenant gets its own bucket, created on
/// its first request with the default capacity of that moment.
pub struct RateLimiter {
    buckets: Vec<TenantBucket>,
    default_rpm: u32,
    model: Ghost<Map<Seq<char>, BucketView>>,
}

impl View for RateLimiter {
    type V = LimiterView;

    closed spec fn view(&self) -> LimiterView {
        LimiterView { default_rpm: self.default_rpm, buckets: self.model@ }
    }
}

impl RateLimiter {
    /// The bucket list and the map agree, tenants are distinct, every bucket
    /// is well-formed.
    pub closed spec fn wf(&self) -> bool {
        limiter_wf(self.buckets@, self.model@)
    }

    /// Every bucket of a well-formed limiter is well-formed.
    pub proof fn lemma_wf_buckets(&self)
        requires
            self.wf(),
        ensures
            forall|k: Seq<char>| #[trigger]
                self@.buckets.contains_key(k) ==> bucket_wf(self@.buckets[k]),
    {
        assert forall|k: Seq<char>| #[trigger] self@.buckets.contains_key(k) implies bucket_wf(
            self@.buckets[k],
        ) by {
            let i = choose|i: int|
                0 <= i < self.buckets@.len() && #[trigger] self.buckets@[i].tenant_id@ == k;
            assert(self.model@.contains_key(self.buckets@[i].tenant_id@));
        }
    }

    /// A limiter with no buckets yet.
    pub fn new(default_rpm: u32) -> (r: Self)
        ensures
            r.wf(),
            r@.default_rpm == default_rpm,
            r@.buckets == Map::<Seq<char>, BucketView>::empty(),
    {
        RateLimiter { buckets: Vec::new(), default_rpm, model: Ghost(Map::empty()) }
    }

    /// Change the capacity of buckets created from now on; existing buckets
    /// keep theirs.
    pub fn set_default_rpm(&mut self, rpm: u32)
        requires
            old(self).wf(),
        ensures
            final(self).wf(),
            final(self)@.default_rpm == rpm,
            final(self)@.buckets == old(self)@.buckets,
    {
        self.default_rpm = rpm;
    }

    /// Position of `tenant`'s bucket, if it has one.
    fn find(&self, tenant: &str) -> (r: Option<usize>)
        requires
            self.wf(),
        ensures
            match r {
                Some(i) => i < self.buckets@.len() && self.buckets@[i as int].tenant_id@ == tenant@,
                None => !self@.buckets.contains_key(tenant@),
            },
    {
        let mut i: usize = 0;
        while i < self.buckets.len()
            invariant
                self.wf(),
                i <= self.buckets@.len(),
                forall|j: int| 0 <= j < i ==> self.buckets@[j].tenant_id@ != tenant@,
            decreases self.buckets@.len() - i,
        {
            if str_eq(self.buckets[i].tenant_id.as_str(), tenant) {
                return Some(i);
            }
            i = i + 1;
        }
        None
    }

    /// Decide one request to `path` from `tenant` (none when the request is
    /// unauthenticated) at time `now_ms`, drawing from the tenant's bucket.
    pub fn check_at(&mut self, path: &str, tenant: Option<&str>, now_ms: u64) -> (d: RateDecision)
        requires
            old(self).wf(),
        ensures
            final(self).wf(),
            (final(self)@, d) == spec_check(
                old(self)@,
                path@,
                opt_str_view(tenant),
                now_ms,
            ),
    {
        if is_exempt_path(path) {
            return RateDecision::Exempt;
        }
        let t: &str = match tenant {
            Some(t) => t,
            None => UNAUTHENTICATED_TENANT,
        };
        let ghost old_model = self.model@;
        let ghost old_buckets = self.buckets@;
        let idx: usize = match self.find(t) {
            Some(i) => i,
            None => {
                let nb = TenantBucket {
                    tenant_id: t.to_owned(),
                    bucket: TokenBucket::new_at(self.default_rpm, now_ms),
                };
                self.buckets.push(nb);
                proof {
                    self.model@ = self.model@.insert(t@, spec_new_bucket(self.default_rpm, now_ms));
                    assert forall|i: int| 0 <= i < self.buckets@.len() implies {
                        &&& #[trigger] self.model@.contains_key(self.buckets@[i].tenant_id@)
                        &&& self.model@[self.buckets@[i].tenant_id@] == self.buckets@[i].bucket@
                        &&& self.buckets@[i].bucket.wf()
                    } by {
                        if i < old_buckets.len() {
                            assert(old_model.contains_key(old_buckets[i].tenant_id@));
                        }
                    }
                    assert forall|k: Seq<char>| #[trigger] self.model@.contains_key(k) implies exists|i: int|
                        0 <= i < self.buckets@.len() && #[trigger] self.buckets@[i].tenant_id@ == k by {
                        if k == t@ {
                            assert(self.buckets@[self.buckets@.len() - 1].tenant_id@ == k);
                        } else {
                            let i = choose|i: int|
                                0 <= i < old_buckets.len() && #[trigger] old_buckets[i].tenant_id@ == k;
                            assert(self.buckets@[i].tenant_id@ == k);
                        }
                    }
                }
                self.buckets.len() - 1
            },
        };
        let ghost mid_buckets = self.buckets@;
        proof {
            assert(self.model@.contains_key(self.buckets@[idx as int].tenant_id@));
        }
        let mut tb = self.buckets.remove(idx);
        let wait = tb.bucket.consume_at(now_ms);
        let ghost new_b = tb.bucket@;
        self.buckets.insert(idx, tb);
        proof {
            self.model@ = self.model@.insert(t@, new_b);
            assert(self.buckets@ == mid_buckets.update(idx as int, self.buckets@[idx as int]));
            assert forall|k: Seq<char>| #[trigger] self.model@.contains_key(k) implies exists|i: int|
                0 <= i < self.buckets@.len() && #[trigger] self.buckets@[i].tenant_id@ == k by {
                let i = choose|i: int|
                    0 <= i < mid_buckets.len() && #[trigger] mid_buckets[i].tenant_id@ == k;
                assert(self.buckets@[i].tenant_id@ == k);
            }
        }
        assert(self@.buckets =~= old(self)@.buckets.insert(t@, new_b));
        match wait {
            None => RateDecision::Allowed,
            Some(ms) => {
                let secs = ms / 1000;
                RateDecision::Limited { wait_ms: ms, retry_after_secs: if secs >= 1 { secs } else { 1 } }
            },
        }
    }

    /// Decide one request to `path` from `tenant` with the clock read now.
    pub fn check(&mut self, path: &str, tenant: Option<&str>) -> (d: RateDecision)
        requires
            old(self).wf(),
        ensures
            final(self).wf(),
            exists|now: u64|
                (final(self)@, d) == #[trigger] spec_check(
                    old(self)@,
                    path@,
                    opt_str_view(tenant),
                    now,
                ),
    {
        let now = now_unix_ms();
        self.check_at(path, tenant, now)
    }
}

/// Requests of one tenant never touch another tenant's bucket, and exempt
/// paths touch no bucket at all.
pub proof fn lemma_tenant_isolation(
    v: LimiterView,
    path: Seq<char>,
    tenant: Option<Seq<char>>,
    other: Seq<char>,
    now: u64,
)
    requires
        other != spec_bucket_tenant(tenant) || spec_is_exempt_path(path),
    ensures
        spec_check(v, path, tenant, now).0.buckets.contains_key(other) == v.buckets.contains_key(
            other,
        ),
        v.buckets.contains_key(other) ==> spec_check(v, path, tenant, now).0.buckets[other]
            == v.buckets[other],
        spec_check(v, path, tenant, now).0.default_rpm == v.default_rpm,
{
}

} // verus!
