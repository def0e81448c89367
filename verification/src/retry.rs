//! Retry and fallback across the providers that serve a model.
//!
//! The providers are tried in fallback order (built-in adapters first);
//! one whose circuit breaker refuses is skipped. On a provider, a
//! retryable error is retried up to `max_retries` more times (the caller
//! waits a growing backoff in between); a final failure is recorded on its
//! breaker and the next provider is tried. A streaming request makes a
//! single attempt per provider (`max_retries == 0`). When every provider is
//! exhausted the last provider error is returned, or `ProviderNotFound`
//! when none was called.
//!
//! [`RetryPlanner`] holds these decisions; the caller performs the calls,
//! the waits and the provider lookups, and reports each outcome.
use vstd::prelude::*;

use crate::admin::spec_listed;
use crate::circuit_breaker::{
    spec_allow,
    spec_entry,
    spec_failure,
    spec_success,
    BreakerView,
    CircuitBreaker,
    CircuitBreakerConfig,
    CircuitBreakerView,
};
use crate::error::{ErrorView, GatewayError};
use crate::text::str_eq;

verus! {

// ---------------------------------------------------------------------------
// Retryable errors
// ---------------------------------------------------------------------------

/// Whether `c` is an ASCII decimal digit.
pub open spec fn spec_is_digit(c: char) -> bool {
    '0' <= c && c <= '9'
}

/// The value of an ASCII decimal digit.
pub open spec fn spec_digit_value(c: char) -> int {
    c as int - '0' as int
}

/// Whether `i` is the position of the first space of `m`.
pub open spec fn spec_first_space_at(m: Seq<char>, i: int) -> bool {
    &&& 0 <= i < m.len()
    &&& m[i] == ' '
    &&& forall|j: int| 0 <= j < i ==> m[j] != ' '
}

/// The three-digit status that follows the space at `i`, when the digits
/// end the message or are followed by a space or a colon.
pub open spec fn spec_status_after(m: Seq<char>, i: int) -> Option<int> {
    if i + 4 <= m.len() && spec_is_digit(m[i + 1]) && spec_is_digit(m[i + 2]) && spec_is_digit(
        m[i + 3],
    ) && (i + 4 == m.len() || m[i + 4] == ' ' || m[i + 4] == ':') {
        Some(
            100 * spec_digit_value(m[i + 1]) + 10 * spec_digit_value(m[i + 2]) + spec_digit_value(
                m[i + 3],
            ),
        )
    } else {
        None
    }
}

/// The HTTP status an upstream error message reports. The adapters word a
/// status reply as `<provider> <status> ...` (for example
/// `OpenAI 503 Service Unavailable: ...`), so the status is the three-digit
/// word after the first space; a message without one (a transport failure
/// such as a timeout or a refused connection) reports none.
pub open spec fn spec_upstream_status(m: Seq<char>) -> Option<int> {
    if exists|i: int| spec_first_space_at(m, i) {
        spec_status_after(m, choose|i: int| spec_first_space_at(m, i))
    } else {
        None
    }
}

/// Whether an error is worth retrying on the same provider: an upstream
/// reply with status 408, 429 or 5xx, an upstream failure that carries no
/// status (transport), and a rate limit. Nothing else is retried.
pub open spec fn spec_is_retryable(e: ErrorView) -> bool {
    match e {
        ErrorView::UpstreamError(m) => match spec_upstream_status(m) {
            Some(s) => s == 408 || s == 429 || (500 <= s && s <= 599),
            None => true,
        },
        ErrorView::RateLimited => true,
        _ => false,
    }
}

/// The three decimal digits of a status code.
pub open spec fn spec_status_digits(code: int) -> Seq<char> {
    seq![(48 + code / 100) as char, (48 + (code / 10) % 10) as char, (48 + code % 10) as char]
}

/// An adapter's report of an upstream reply, `<provider> <status>` then a
/// reason or a colon (or nothing), gives that status back, and it is
/// retried exactly when the status is 408, 429 or 5xx.
pub proof fn lemma_reply_status_read_back(name: Seq<char>, code: int, rest: Seq<char>)
    requires
        forall|i: int| 0 <= i < name.len() ==> name[i] != ' ',
        100 <= code <= 999,
        rest.len() == 0 || rest[0] == ' ' || rest[0] == ':',
    ensures
        spec_upstream_status(name + seq![' '] + spec_status_digits(code) + rest) == Some(code),
        spec_is_retryable(ErrorView::UpstreamError(name + seq![' '] + spec_status_digits(code) + rest)) == (code
            == 408 || code == 429 || (500 <= code && code <= 599)),
{
    let m = name + seq![' '] + spec_status_digits(code) + rest;
    let i = name.len() as int;
    assert(m[i] == ' ');
    assert forall|j: int| 0 <= j < i implies m[j] != ' ' by {
        assert(m[j] == name[j]);
    }
    assert(spec_first_space_at(m, i));
    let k = choose|k: int| spec_first_space_at(m, k);
    assert(k == i) by {
        if k < i {
            assert(m[k] != ' ');
        } else if k > i {
            assert(m[i] != ' ');
        }
    }
    assert(m[i + 1] == (48 + code / 100) as char);
    assert(m[i + 2] == (48 + (code / 10) % 10) as char);
    assert(m[i + 3] == (48 + code % 10) as char);
    if rest.len() > 0 {
        assert(m[i + 4] == rest[0]);
    }
    assert(100 * (code / 100) + 10 * ((code / 10) % 10) + code % 10 == code);
}

/// The status of an upstream error message; see [`spec_upstream_status`].
fn upstream_status(msg: &str) -> (r: Option<u16>)
    ensures
        match r {
            Some(st) => spec_upstream_status(msg@) == Some(st as int),
            None => spec_upstream_status(msg@) is None,
        },
{
    let n = msg.unicode_len();
    let mut i: usize = 0;
    loop
        invariant
            n == msg@.len(),
            i <= n,
            forall|j: int| 0 <= j < i ==> msg@[j] != ' ',
        ensures
            i < n,
            msg@[i as int] == ' ',
            forall|j: int| 0 <= j < i ==> msg@[j] != ' ',
        decreases n - i,
    {
        if i == n {
            assert(!exists|k: int| spec_first_space_at(msg@, k));
            return None;
        }
        if msg.get_char(i) == ' ' {
            break;
        }
        i = i + 1;
    }
    proof {
        assert(spec_first_space_at(msg@, i as int));
        let k = choose|k: int| spec_first_space_at(msg@, k);
        assert(k == i) by {
            if k < i {
                assert(msg@[k] != ' ');
            } else if k > i {
                assert(msg@[i as int] != ' ');
            }
        }
    }
    if n - i < 4 {
        return None;
    }
    let c1 = msg.get_char(i + 1);
    let c2 = msg.get_char(i + 2);
    let c3 = msg.get_char(i + 3);
    if !('0' <= c1 && c1 <= '9' && '0' <= c2 && c2 <= '9' && '0' <= c3 && c3 <= '9') {
        return None;
    }
    if n - i > 4 {
        let c4 = msg.get_char(i + 4);
        if !(c4 == ' ' || c4 == ':') {
            return None;
        }
    }
    let d1 = (c1 as u32) - 48;
    let d2 = (c2 as u32) - 48;
    let d3 = (c3 as u32) - 48;
    Some((100 * d1 + 10 * d2 + d3) as u16)
}

/// Whether an error is worth retrying on the same provider.
pub fn is_retryable(error: &GatewayError) -> (r: bool)
    ensures
        r == spec_is_retryable(error@),
{
    match error {
        GatewayError::UpstreamError(msg) => match upstream_status(msg.as_str()) {
            Some(st) => st == 408 || st == 429 || (500 <= st && st <= 599),
            None => true,
        },
        GatewayError::RateLimited => true,
        _ => false,
    }
}

// ---------------------------------------------------------------------------
// Fallback order
// ---------------------------------------------------------------------------

/// Priority of a provider name: the built-in adapters first (openai,
/// anthropic, gemini, ollama), every other provider after them.
pub open spec fn spec_builtin_rank(name: Seq<char>) -> u32 {
    if name == "openai"@ {
        0
    } else if name == "anthropic"@ {
        1
    } else if name == "gemini"@ {
        2
    } else if name == "ollama"@ {
        3
    } else {
        999
    }
}

/// Priority of a provider name.
fn builtin_rank(name: &str) -> (r: u32)
    ensures
        r == spec_builtin_rank(name@),
{
    if str_eq(name, "openai") {
        0
    } else if str_eq(name, "anthropic") {
        1
    } else if str_eq(name, "gemini") {
        2
    } else if str_eq(name, "ollama") {
        3
    } else {
        999
    }
}

/// Whether a configured provider (name, models) serves `model` and has
/// priority `rank`.
pub open spec fn spec_ranked(model: Seq<char>, rank: u32) -> spec_fn((String, Vec<String>)) -> bool {
    |p: (String, Vec<String>)| spec_listed(p.1@, model) && spec_builtin_rank(p.0@) == rank
}

/// The names of configured providers.
pub open spec fn spec_names(ps: Seq<(String, Vec<String>)>) -> Seq<String> {
    ps.map_values(|p: (String, Vec<String>)| p.0)
}

/// The providers serving `model` with priority `rank`, in configuration order.
pub open spec fn spec_rank_slice(ps: Seq<(String, Vec<String>)>, model: Seq<char>, rank: u32) -> Seq<String> {
    spec_names(ps.filter(spec_ranked(model, rank)))
}

/// The fallback chain of `model`: the providers that serve it, ordered by
/// priority, those of equal priority in configuration order.
pub open spec fn spec_fallback_chain(ps: Seq<(String, Vec<String>)>, model: Seq<char>) -> Seq<String> {
    spec_rank_slice(ps, model, 0) + spec_rank_slice(ps, model, 1) + spec_rank_slice(ps, model, 2)
        + spec_rank_slice(ps, model, 3) + spec_rank_slice(ps, model, 999)
}

/// Append the providers serving `model` with priority `rank`.
fn append_ranked(ps: &Vec<(String, Vec<String>)>, model: &str, rank: u32, out: &mut Vec<String>)
    ensures
        final(out)@ == old(out)@ + spec_rank_slice(ps@, model@, rank),
{
    let ghost start = out@;
    let ghost pred = spec_ranked(model@, rank);
    let mut i: usize = 0;
    while i < ps.len()
        invariant
            pred == spec_ranked(model@, rank),
            i <= ps@.len(),
            out@ == start + spec_names(ps@.take(i as int).filter(pred)),
        decreases ps@.len() - i,
    {
        let p = &ps[i];
        assert(ps@.take(i + 1) == ps@.take(i as int).push(*p));
        proof {
            ps@.take(i as int).lemma_filter_push(*p, pred);
        }
        let serves = crate::admin::listed(&p.1, model);
        if serves && builtin_rank(p.0.as_str()) == rank {
            let ghost before = ps@.take(i as int).filter(pred);
            assert(spec_names(before.push(*p)) =~= spec_names(before).push(p.0));
            out.push(p.0.clone());
            assert(out@ =~= start + spec_names(ps@.take(i + 1).filter(pred)));
        }
        i = i + 1;
    }
    assert(ps@.take(ps@.len() as int) == ps@);
}

/// The providers to try for `model`, given the configured providers as
/// (name, models): those serving the model, built-in adapters first
/// (openai, anthropic, gemini, ollama), a stable order otherwise.
pub fn build_fallback_chain(providers: &Vec<(String, Vec<String>)>, model: &str) -> (chain: Vec<String>)
    ensures
        chain@ == spec_fallback_chain(providers@, model@),
{
    let mut chain: Vec<String> = Vec::new();
    append_ranked(providers, model, 0, &mut chain);
    append_ranked(providers, model, 1, &mut chain);
    append_ranked(providers, model, 2, &mut chain);
    append_ranked(providers, model, 3, &mut chain);
    append_ranked(providers, model, 999, &mut chain);
    assert(chain@ =~= spec_fallback_chain(providers@, model@));
    chain
}

// ---------------------------------------------------------------------------
// Breaker tables as functions
// ---------------------------------------------------------------------------

/// The breaker of each provider in a table (`None`: never seen).
pub open spec fn spec_table(b: CircuitBreakerView) -> spec_fn(Seq<char>) -> Option<BreakerView> {
    |p: Seq<char>| spec_entry(b.breakers, p)
}

/// Table `t` with the breaker of `p` replaced by `nb`.
pub open spec fn spec_set(t: spec_fn(Seq<char>) -> Option<BreakerView>, p: Seq<char>, nb: Option<BreakerView>) -> spec_fn(
    Seq<char>,
) -> Option<BreakerView> {
    |q: Seq<char>| if q == p {
        nb
    } else {
        t(q)
    }
}

/// Look for a provider to call, from position `i` of `chain`, asking each
/// breaker in turn at `now`: the position found (`None`: none left), the
/// breakers after the questions, and the refusal count after them.
pub open spec fn spec_scan(
    t: spec_fn(Seq<char>) -> Option<BreakerView>,
    rejected: u64,
    chain: Seq<String>,
    i: int,
    now: u64,
    c: CircuitBreakerConfig,
) -> (Option<int>, spec_fn(Seq<char>) -> Option<BreakerView>, u64)
    decreases chain.len() - i,
{
    if i < 0 || i >= chain.len() {
        (None, t, rejected)
    } else {
        let p = chain[i]@;
        let (nb, allowed) = spec_allow(t(p), now, c);
        if allowed {
            (Some(i), spec_set(t, p, nb), rejected)
        } else {
            spec_scan(spec_set(t, p, nb), rejected.wrapping_add(1), chain, i + 1, now, c)
        }
    }
}

// ---------------------------------------------------------------------------
// The planner
// ---------------------------------------------------------------------------

/// Which provider served a request, on which attempt, and whether it was
/// a fallback (not the first in the chain).
#[derive(Debug, Clone)]
pub struct AttemptInfo {
    pub provider_name: String,
    pub attempt_number: u32,
    pub is_fallback: bool,
}

/// What the caller does next.
#[derive(Debug)]
pub enum RetryAction {
    /// Make attempt `attempt_number` (from 1) on the provider; before an
    /// attempt above the first, wait the backoff.
    Call(AttemptInfo),
    /// Every provider was tried or skipped: the request fails.
    GiveUp(GatewayError),
}

/// Abstract state of a planner.
pub struct RetryView {
    pub chain: Seq<String>,
    pub model: Seq<char>,
    pub max_retries: u32,
    /// Position of the provider in progress, or of the next one to look at.
    pub pos: int,
    /// Attempt in progress on the provider at `pos`; 0 between providers.
    pub attempt: u32,
    /// Error of the last provider that failed for good.
    pub last_error: Option<ErrorView>,
}

/// Retry and fallback decisions for one request.
pub struct RetryPlanner {
    chain: Vec<String>,
    model: String,
    max_retries: u32,
    pos: usize,
    attempt: u32,
    last_error: Option<GatewayError>,
}

/// The view of an optional error.
pub open spec fn spec_opt_error(e: Option<GatewayError>) -> Option<ErrorView> {
    match e {
        Some(e) => Some(e@),
        None => None,
    }
}

impl View for RetryPlanner {
    type V = RetryView;

    closed spec fn view(&self) -> RetryView {
        RetryView {
            chain: self.chain@,
            model: self.model@,
            max_retries: self.max_retries,
            pos: self.pos as int,
            attempt: self.attempt,
            last_error: spec_opt_error(self.last_error),
        }
    }
}

/// Whether `a` is the call of attempt `attempt` on position `k` of `chain`.
pub open spec fn spec_is_call(a: RetryAction, chain: Seq<String>, k: int, attempt: u32) -> bool {
    a matches RetryAction::Call(info) && {
        &&& info.provider_name@ == chain[k]@
        &&& info.attempt_number == attempt
        &&& info.is_fallback == (k > 0)
    }
}

/// The error a request fails with when no provider is left.
pub open spec fn spec_give_up_error(v: RetryView) -> ErrorView {
    match v.last_error {
        Some(e) => e,
        None => ErrorView::ProviderNotFound(v.model),
    }
}

/// Whether planner `nv`, breakers `nb` and action `a` are the outcome of
/// looking for the next provider from planner `v` and breakers `b` at `now`:
/// the first provider its breaker lets through gets attempt 1; when none is
/// left the request fails.
pub open spec fn spec_scanned(
    v: RetryView,
    b: CircuitBreakerView,
    now: u64,
    nv: RetryView,
    nb: CircuitBreakerView,
    a: RetryAction,
) -> bool {
    let r = spec_scan(spec_table(b), b.total_rejected, v.chain, v.pos, now, b.config);
    &&& forall|p: Seq<char>| #[trigger] spec_entry(nb.breakers, p) == (r.1)(p)
    &&& nb.config == b.config
    &&& nb.total_rejected == r.2
    &&& match r.0 {
        Some(k) => {
            &&& nv == RetryView { pos: k, attempt: 1, ..v }
            &&& spec_is_call(a, v.chain, k, 1)
        },
        None => {
            &&& nv == RetryView { pos: v.chain.len() as int, attempt: 0, last_error: None, ..v }
            &&& a matches RetryAction::GiveUp(e) && e@ == spec_give_up_error(v)
        },
    }
}

impl RetryPlanner {
    /// Internal consistency.
    pub closed spec fn wf(&self) -> bool {
        &&& self.pos <= self.chain@.len()
        &&& self.attempt <= self.max_retries as int + 1
        &&& self.attempt > 0 ==> self.pos < self.chain@.len()
    }

    /// A planner for `model` over `chain` (see [`build_fallback_chain`]),
    /// retrying each provider at most `max_retries` times.
    pub fn new(chain: Vec<String>, model: String, max_retries: u32) -> (p: Self)
        requires
            max_retries < u32::MAX,
        ensures
            p.wf(),
            p@ == (RetryView {
                chain: chain@,
                model: model@,
                max_retries,
                pos: 0,
                attempt: 0,
                last_error: None,
            }),
    {
        RetryPlanner { chain, model, max_retries, pos: 0, attempt: 0, last_error: None }
    }

    /// Look for the next provider from the current position.
    fn scan(&mut self, breaker: &mut CircuitBreaker, now_ms: u64) -> (a: RetryAction)
        requires
            old(self).wf(),
            old(self)@.attempt == 0,
            old(self)@.max_retries < u32::MAX,
            old(breaker).wf(),
        ensures
            final(self).wf(),
            final(breaker).wf(),
            spec_scanned(old(self)@, old(breaker)@, now_ms, final(self)@, final(breaker)@, a),
    {
        let ghost v0 = self@;
        let ghost b0 = breaker@;
        let ghost goal = spec_scan(spec_table(b0), b0.total_rejected, v0.chain, v0.pos, now_ms, b0.config);
        while self.pos < self.chain.len()
            invariant
                v0 == old(self)@,
                b0 == old(breaker)@,
                goal == spec_scan(spec_table(b0), b0.total_rejected, v0.chain, v0.pos, now_ms, b0.config),
                self.wf(),
                self.attempt == 0,
                self@ == (RetryView { pos: self@.pos, ..v0 }),
                breaker.wf(),
                breaker@.config == b0.config,
                spec_scan(spec_table(breaker@), breaker@.total_rejected, v0.chain, self@.pos, now_ms, b0.config)
                    == goal,
            decreases self.chain@.len() - self.pos,
        {
            let ghost t = spec_table(breaker@);
            let ghost p = self.chain@[self.pos as int]@;
            let allowed = breaker.allow_request_at(self.chain[self.pos].as_str(), now_ms);
            proof {
                let (nb, _) = spec_allow(t(p), now_ms, b0.config);
                assert(spec_table(breaker@) =~= spec_set(t, p, nb));
            }
            if allowed {
                self.attempt = 1;
                let info = AttemptInfo {
                    provider_name: self.chain[self.pos].clone(),
                    attempt_number: 1,
                    is_fallback: self.pos > 0,
                };
                return RetryAction::Call(info);
            }
            self.pos = self.pos + 1;
        }
        let err = match self.last_error.take() {
            Some(e) => e,
            None => GatewayError::ProviderNotFound(self.model.clone()),
        };
        RetryAction::GiveUp(err)
    }

    /// Start: the first provider to call, or the failure when none is
    /// available (an empty chain fails with `ProviderNotFound`).
    pub fn start(&mut self, breaker: &mut CircuitBreaker, now_ms: u64) -> (a: RetryAction)
        requires
            old(self).wf(),
            old(self)@.attempt == 0,
            old(self)@.max_retries < u32::MAX,
            old(breaker).wf(),
        ensures
            final(self).wf(),
            final(breaker).wf(),
            spec_scanned(old(self)@, old(breaker)@, now_ms, final(self)@, final(breaker)@, a),
    {
        self.scan(breaker, now_ms)
    }

    /// The provider about to be called has no adapter: skip it, nothing
    /// recorded, and look for the next one.
    pub fn provider_missing(&mut self, breaker: &mut CircuitBreaker, now_ms: u64) -> (a: RetryAction)
        requires
            old(self).wf(),
            old(self)@.attempt > 0,
            old(self)@.max_retries < u32::MAX,
            old(breaker).wf(),
        ensures
            final(self).wf(),
            final(breaker).wf(),
            spec_scanned(
                RetryView { pos: old(self)@.pos + 1, attempt: 0, ..old(self)@ },
                old(breaker)@,
                now_ms,
                final(self)@,
                final(breaker)@,
                a,
            ),
    {
        let n = self.chain.len();
        assert(self.pos < n);
        self.pos = self.pos + 1;
        self.attempt = 0;
        self.scan(breaker, now_ms)
    }

    /// The attempt succeeded: it is recorded on the provider's breaker and
    /// the request is served by it.
    pub fn succeeded(&mut self, breaker: &mut CircuitBreaker) -> (info: AttemptInfo)
        requires
            old(self).wf(),
            old(self)@.attempt > 0,
            old(breaker).wf(),
        ensures
            final(self).wf(),
            final(breaker).wf(),
            info.provider_name@ == old(self)@.chain[old(self)@.pos]@,
            info.attempt_number == old(self)@.attempt,
            info.is_fallback == (old(self)@.pos > 0),
            final(self)@ == (RetryView { pos: old(self)@.chain.len() as int, attempt: 0, ..old(self)@ }),
            ({
                let p = old(self)@.chain[old(self)@.pos]@;
                &&& spec_entry(final(breaker)@.breakers, p) == spec_success(spec_entry(old(breaker)@.breakers, p), old(breaker)@.config)
                &&& forall|q: Seq<char>| q != p ==> #[trigger] spec_entry(final(breaker)@.breakers, q) == spec_entry(old(breaker)@.breakers, q)
            }),
            final(breaker)@.config == old(breaker)@.config,
            final(breaker)@.total_rejected == old(breaker)@.total_rejected,
    {
        breaker.record_success(self.chain[self.pos].as_str());
        let info = AttemptInfo {
            provider_name: self.chain[self.pos].clone(),
            attempt_number: self.attempt,
            is_fallback: self.pos > 0,
        };
        self.pos = self.chain.len();
        self.attempt = 0;
        info
    }

    /// The attempt failed with `error` at `now_ms`. A retryable error with
    /// retries left is retried on the same provider; otherwise the failure
    /// is recorded on its breaker, the error is kept, and the next provider
    /// is looked for.
    pub fn failed(&mut self, breaker: &mut CircuitBreaker, now_ms: u64, error: GatewayError) -> (a: RetryAction)
        requires
            old(self).wf(),
            old(self)@.attempt > 0,
            old(self)@.max_retries < u32::MAX,
            old(breaker).wf(),
        ensures
            final(self).wf(),
            final(breaker).wf(),
            ({
                let v = old(self)@;
                let b = old(breaker)@;
                let p = v.chain[v.pos]@;
                if spec_is_retryable(error@) && v.attempt <= v.max_retries {
                    &&& final(self)@ == (RetryView { attempt: (v.attempt + 1) as u32, ..v })
                    &&& final(breaker)@ == b
                    &&& spec_is_call(a, v.chain, v.pos, (v.attempt + 1) as u32)
                } else {
                    let t = spec_set(spec_table(b), p, Some(spec_failure(spec_entry(b.breakers, p), now_ms, b.config)));
                    let v2 = RetryView { pos: v.pos + 1, attempt: 0, last_error: Some(error@), ..v };
                    let (k, t2, rejected) = spec_scan(t, b.total_rejected, v.chain, v.pos + 1, now_ms, b.config);
                    &&& forall|q: Seq<char>| #[trigger] spec_entry(final(breaker)@.breakers, q) == t2(q)
                    &&& final(breaker)@.config == b.config
                    &&& final(breaker)@.total_rejected == rejected
                    &&& match k {
                        Some(k) => {
                            &&& final(self)@ == (RetryView { pos: k, attempt: 1, ..v2 })
                            &&& spec_is_call(a, v.chain, k, 1)
                        },
                        None => {
                            &&& final(self)@ == (RetryView { pos: v.chain.len() as int, attempt: 0, last_error: None, ..v2 })
                            &&& a matches RetryAction::GiveUp(e) && e@ == error@
                        },
                    }
                }
            }),
    {
        if is_retryable(&error) && self.attempt <= self.max_retries {
            self.attempt = self.attempt + 1;
            let info = AttemptInfo {
                provider_name: self.chain[self.pos].clone(),
                attempt_number: self.attempt,
                is_fallback: self.pos > 0,
            };
            return RetryAction::Call(info);
        }
        let ghost b = breaker@;
        let ghost p = self.chain@[self.pos as int]@;
        breaker.record_failure_at(self.chain[self.pos].as_str(), now_ms);
        proof {
            assert(spec_table(breaker@) =~= spec_set(
                spec_table(b),
                p,
                Some(spec_failure(spec_entry(b.breakers, p), now_ms, b.config)),
            ));
        }
        self.last_error = Some(error);
        let n = self.chain.len();
        assert(self.pos < n);
        self.pos = self.pos + 1;
        self.attempt = 0;
        self.scan(breaker, now_ms)
    }
}

// ---------------------------------------------------------------------------
// Laws
// ---------------------------------------------------------------------------

/// Every name in a priority slice belongs to a provider that serves the
/// model with that priority.
proof fn lemma_rank_slice_members(ps: Seq<(String, Vec<String>)>, model: Seq<char>, rank: u32, i: int)
    requires
        0 <= i < spec_rank_slice(ps, model, rank).len(),
    ensures
        exists|j: int|
            0 <= j < ps.len() && ps[j].0 == spec_rank_slice(ps, model, rank)[i] && spec_listed(#[trigger] ps[j].1@, model)
                && spec_builtin_rank(ps[j].0@) == rank,
{
    let f = ps.filter(spec_ranked(model, rank));
    ps.lemma_filter_pred(spec_ranked(model, rank), i);
    ps.lemma_filter_contains_rev(spec_ranked(model, rank), f[i]);
    let j = choose|j: int| 0 <= j < ps.len() && ps[j] == f[i];
    assert(ps[j].0 == spec_rank_slice(ps, model, rank)[i]);
}

/// Where position `i` of the fallback chain comes from, and its priority:
/// positions run through the priorities 0, 1, 2, 3 and 999 in turn.
proof fn lemma_chain_position(ps: Seq<(String, Vec<String>)>, model: Seq<char>, i: int)
    requires
        0 <= i < spec_fallback_chain(ps, model).len(),
    ensures
        exists|j: int|
            #![trigger ps[j]]
            0 <= j < ps.len() && ps[j].0@ == spec_fallback_chain(ps, model)[i]@ && spec_listed(ps[j].1@, model),
        spec_builtin_rank(spec_fallback_chain(ps, model)[i]@) == spec_position_rank(ps, model, i),
{
    let s0 = spec_rank_slice(ps, model, 0);
    let s1 = spec_rank_slice(ps, model, 1);
    let s2 = spec_rank_slice(ps, model, 2);
    let s3 = spec_rank_slice(ps, model, 3);
    let s9 = spec_rank_slice(ps, model, 999);
    let c = spec_fallback_chain(ps, model);
    let b1 = s0.len() as int;
    let b2 = b1 + s1.len();
    let b3 = b2 + s2.len();
    let b4 = b3 + s3.len();
    assert(c =~= s0 + s1 + s2 + s3 + s9);
    if i < b1 {
        lemma_rank_slice_members(ps, model, 0, i);
        assert(c[i] == s0[i]);
    } else if i < b2 {
        lemma_rank_slice_members(ps, model, 1, i - b1);
        assert(c[i] == s1[i - b1]);
    } else if i < b3 {
        lemma_rank_slice_members(ps, model, 2, i - b2);
        assert(c[i] == s2[i - b2]);
    } else if i < b4 {
        lemma_rank_slice_members(ps, model, 3, i - b3);
        assert(c[i] == s3[i - b3]);
    } else {
        lemma_rank_slice_members(ps, model, 999, i - b4);
        assert(c[i] == s9[i - b4]);
    }
}

/// The priority slice that position `i` of the fallback chain falls in.
pub open spec fn spec_position_rank(ps: Seq<(String, Vec<String>)>, model: Seq<char>, i: int) -> u32 {
    let b1 = spec_rank_slice(ps, model, 0).len() as int;
    let b2 = b1 + spec_rank_slice(ps, model, 1).len();
    let b3 = b2 + spec_rank_slice(ps, model, 2).len();
    let b4 = b3 + spec_rank_slice(ps, model, 3).len();
    if i < b1 {
        0
    } else if i < b2 {
        1
    } else if i < b3 {
        2
    } else if i < b4 {
        3
    } else {
        999
    }
}

/// The fallback chain holds only providers that serve the model.
pub proof fn lemma_fallback_chain_serves(ps: Seq<(String, Vec<String>)>, model: Seq<char>, i: int)
    requires
        0 <= i < spec_fallback_chain(ps, model).len(),
    ensures
        exists|j: int|
            #![trigger ps[j]]
            0 <= j < ps.len() && ps[j].0@ == spec_fallback_chain(ps, model)[i]@ && spec_listed(ps[j].1@, model),
{
    lemma_chain_position(ps, model, i);
}

/// The fallback chain is in priority order: built-in adapters (openai,
/// anthropic, gemini, ollama, in that order) before any other provider.
pub proof fn lemma_fallback_chain_ordered(ps: Seq<(String, Vec<String>)>, model: Seq<char>, i: int, k: int)
    requires
        0 <= i < k < spec_fallback_chain(ps, model).len(),
    ensures
        spec_builtin_rank(spec_fallback_chain(ps, model)[i]@) <= spec_builtin_rank(spec_fallback_chain(ps, model)[k]@),
{
    lemma_chain_position(ps, model, i);
    lemma_chain_position(ps, model, k);
}

/// A provider that serves the model is in its priority slice.
proof fn lemma_in_rank_slice(ps: Seq<(String, Vec<String>)>, model: Seq<char>, j: int)
    requires
        0 <= j < ps.len(),
        spec_listed(ps[j].1@, model),
    ensures
        exists|t: int|
            0 <= t < spec_rank_slice(ps, model, spec_builtin_rank(ps[j].0@)).len() && #[trigger] spec_rank_slice(
                ps,
                model,
                spec_builtin_rank(ps[j].0@),
            )[t] == ps[j].0,
{
    let r = spec_builtin_rank(ps[j].0@);
    let pred = spec_ranked(model, r);
    ps.filter_lemma(pred);
    assert(pred(ps[j]));
    let f = ps.filter(pred);
    assert(f.contains(ps[j]));
    let t = choose|t: int| 0 <= t < f.len() && f[t] == ps[j];
    assert(spec_rank_slice(ps, model, r)[t] == ps[j].0);
}

/// Every provider that serves the model is in its fallback chain.
pub proof fn lemma_fallback_chain_complete(ps: Seq<(String, Vec<String>)>, model: Seq<char>, j: int)
    requires
        0 <= j < ps.len(),
        spec_listed(ps[j].1@, model),
    ensures
        exists|i: int|
            0 <= i < spec_fallback_chain(ps, model).len() && #[trigger] spec_fallback_chain(ps, model)[i] == ps[j].0,
{
    lemma_in_rank_slice(ps, model, j);
    let r = spec_builtin_rank(ps[j].0@);
    let s0 = spec_rank_slice(ps, model, 0);
    let s1 = spec_rank_slice(ps, model, 1);
    let s2 = spec_rank_slice(ps, model, 2);
    let s3 = spec_rank_slice(ps, model, 3);
    let s9 = spec_rank_slice(ps, model, 999);
    let c = spec_fallback_chain(ps, model);
    assert(c =~= s0 + s1 + s2 + s3 + s9);
    let sr = spec_rank_slice(ps, model, r);
    let t = choose|t: int| 0 <= t < sr.len() && #[trigger] sr[t] == ps[j].0;
    let b1 = s0.len() as int;
    let b2 = b1 + s1.len();
    let b3 = b2 + s2.len();
    let b4 = b3 + s3.len();
    if r == 0 {
        assert(c[t] == ps[j].0);
    } else if r == 1 {
        assert(c[b1 + t] == ps[j].0);
    } else if r == 2 {
        assert(c[b2 + t] == ps[j].0);
    } else if r == 3 {
        assert(c[b3 + t] == ps[j].0);
    } else {
        assert(r == 999);
        assert(c[b4 + t] == ps[j].0);
    }
}

/// The built-in adapters, in their order of priority.
pub open spec fn spec_builtin_names() -> Seq<Seq<char>> {
    seq!["openai"@, "anthropic"@, "gemini"@, "ollama"@]
}

/// The built-in adapters come first in a fallback chain, in their order of
/// priority: a provider that follows a built-in adapter in the chain is
/// itself a built-in adapter of the same or a lower priority. So a custom
/// provider never precedes a built-in one, and anthropic (say) never
/// precedes openai.
pub proof fn lemma_builtins_first(ps: Seq<(String, Vec<String>)>, model: Seq<char>, i: int, k: int, b: int)
    requires
        0 <= i < k < spec_fallback_chain(ps, model).len(),
        0 <= b < 4,
        spec_fallback_chain(ps, model)[k]@ == spec_builtin_names()[b],
    ensures
        exists|a: int| 0 <= a <= b && spec_fallback_chain(ps, model)[i]@ == #[trigger] spec_builtin_names()[a],
{
    reveal_strlit("openai");
    reveal_strlit("anthropic");
    reveal_strlit("gemini");
    reveal_strlit("ollama");
    let names = spec_builtin_names();
    assert(spec_builtin_rank(names[0]) == 0);
    assert(names[1].len() != names[0].len());
    assert(names[1] != names[0]);
    assert(spec_builtin_rank(names[1]) == 1);
    assert(names[2][0] != names[0][0] && names[2].len() != names[1].len());
    assert(names[2] != names[0] && names[2] != names[1]);
    assert(spec_builtin_rank(names[2]) == 2);
    assert(names[3][1] != names[0][1] && names[3].len() != names[1].len() && names[3][0] != names[2][0]);
    assert(names[3] != names[0] && names[3] != names[1] && names[3] != names[2]);
    assert(spec_builtin_rank(names[3]) == 3);
    lemma_fallback_chain_ordered(ps, model, i, k);
    let x = spec_fallback_chain(ps, model)[i]@;
    let r = spec_builtin_rank(x);
    assert(r <= b);
    if r == 0 {
        assert(x == names[0]);
    } else if r == 1 {
        assert(x == names[1]);
    } else if r == 2 {
        assert(x == names[2]);
    } else {
        assert(x == names[3]);
    }
}

/// A scan for the next provider stays within the chain, from where it
/// starts.
pub proof fn lemma_scan_in_range(
    t: spec_fn(Seq<char>) -> Option<BreakerView>,
    rejected: u64,
    chain: Seq<String>,
    i: int,
    now: u64,
    c: CircuitBreakerConfig,
)
    requires
        0 <= i,
    ensures
        spec_scan(t, rejected, chain, i, now, c).0 matches Some(k) ==> i <= k < chain.len(),
    decreases chain.len() - i,
{
    if i < chain.len() {
        let p = chain[i]@;
        let (nb, allowed) = spec_allow(t(p), now, c);
        if !allowed {
            lemma_scan_in_range(spec_set(t, p, nb), rejected.wrapping_add(1), chain, i + 1, now, c);
        }
    }
}

/// The scan lets a request through exactly where a breaker allowed it: the
/// provider it stops at was allowed by its breaker, and a provider whose
/// circuit is open and cooling down is never chosen at that moment.
pub proof fn lemma_scan_respects_breakers(
    t: spec_fn(Seq<char>) -> Option<BreakerView>,
    rejected: u64,
    chain: Seq<String>,
    i: int,
    now: u64,
    c: CircuitBreakerConfig,
)
    requires
        0 <= i,
        spec_scan(t, rejected, chain, i, now, c).0 == Some(i),
    ensures
        spec_allow(t(chain[i]@), now, c).1,
{
    if i < chain.len() {
        let p = chain[i]@;
        let (nb, allowed) = spec_allow(t(p), now, c);
        if !allowed {
            lemma_scan_in_range(spec_set(t, p, nb), rejected.wrapping_add(1), chain, i + 1, now, c);
        }
    }
}

} // verus!
