//! Per-provider circuit breakers.
//!
//! Closed: requests pass; failures within the failure window are counted and
//! reaching the threshold opens the circuit. Open: requests are refused until
//! the cooldown has elapsed since opening, then the circuit goes half-open.
//! Half-open: requests pass as probes; a failure reopens the circuit, enough
//! successes close it.
use vstd::prelude::*;

use crate::strmap::StrMap;

verus! {

/// Circuit breaker states.
#[derive(Debug, Clone, Copy, PartialEq, Eq, Structural)]
pub enum CircuitState {
    /// Normal operation: requests pass.
    Closed,
    /// Failing: requests are refused.
    Open,
    /// Testing recovery: requests pass as probes.
    HalfOpen,
}

/// The wire name of a circuit state.
pub open spec fn spec_state_name(s: CircuitState) -> Seq<char> {
    match s {
        CircuitState::Closed => "closed"@,
        CircuitState::Open => "open"@,
        CircuitState::HalfOpen => "half_open"@,
    }
}

impl CircuitState {
    /// The wire name: `closed`, `open` or `half_open`.
    pub fn as_str(&self) -> (s: &'static str)
        ensures
            s@ == spec_state_name(*self),
    {
        match self {
            CircuitState::Closed => "closed",
            CircuitState::Open => "open",
            CircuitState::HalfOpen => "half_open",
        }
    }
}

/// Breaker settings. Durations are in milliseconds.
#[derive(Debug, Clone, Copy, PartialEq, Eq, Structural)]
pub struct CircuitBreakerConfig {
    /// Only failures within this window count.
    pub failure_window_ms: u64,
    /// Failures within the window that open the circuit.
    pub failure_threshold: u32,
    /// How long the circuit stays open before probing.
    pub cooldown_ms: u64,
    /// Successful probes that close a half-open circuit.
    pub half_open_success_threshold: u32,
}

impl Default for CircuitBreakerConfig {
    fn default() -> (c: Self)
        ensures
            c.failure_window_ms == 30_000,
            c.failure_threshold == 5,
            c.cooldown_ms == 60_000,
            c.half_open_success_threshold == 1,
    {
        CircuitBreakerConfig {
            failure_window_ms: 30_000,
            failure_threshold: 5,
            cooldown_ms: 60_000,
            half_open_success_threshold: 1,
        }
    }
}

/// The breaker of one provider.
pub struct BreakerInner {
    pub state: CircuitState,
    /// Times (ms) of recent failures.
    pub failures: Vec<u64>,
    /// When the circuit was last opened.
    pub opened_at: Option<u64>,
    /// Consecutive successful probes while half-open.
    pub half_open_successes: u32,
}

/// Abstract state of one provider's breaker.
pub struct BreakerView {
    pub state: CircuitState,
    pub failures: Seq<u64>,
    pub opened_at: Option<u64>,
    pub half_open_successes: u32,
}

impl View for BreakerInner {
    type V = BreakerView;

    open spec fn view(&self) -> BreakerView {
        BreakerView {
            state: self.state,
            failures: self.failures@,
            opened_at: self.opened_at,
            half_open_successes: self.half_open_successes,
        }
    }
}

/// Milliseconds from `t` to `now`, zero if `t` is later.
pub open spec fn spec_elapsed(now: u64, t: u64) -> u64 {
    if now >= t {
        (now - t) as u64
    } else {
        0
    }
}

/// A provider never seen: closed, no failures.
pub open spec fn spec_fresh() -> BreakerView {
    BreakerView { state: CircuitState::Closed, failures: Seq::empty(), opened_at: None, half_open_successes: 0 }
}

/// The failures still within the window at `now`.
pub open spec fn spec_prune(failures: Seq<u64>, now: u64, window: u64) -> Seq<u64> {
    failures.filter(spec_in_window(now, window))
}

/// Whether a failure at time `t` is still within the window at `now`.
pub open spec fn spec_in_window(now: u64, window: u64) -> spec_fn(u64) -> bool {
    |t: u64| spec_elapsed(now, t) < window
}

/// Whether the cooldown of an open breaker has elapsed at `now`.
pub open spec fn spec_cooldown_done(b: BreakerView, now: u64, cooldown: u64) -> bool {
    match b.opened_at {
        Some(t) => spec_elapsed(now, t) >= cooldown,
        None => false,
    }
}

/// The outcome of asking whether a request may go to a provider whose breaker
/// is `b` (`None`: never seen): the new breaker (`None`: still unseen), and
/// the answer.
pub open spec fn spec_allow(b: Option<BreakerView>, now: u64, c: CircuitBreakerConfig) -> (
    Option<BreakerView>,
    bool,
) {
    match b {
        None => (None, true),
        Some(e) => match e.state {
            CircuitState::Closed => (b, true),
            CircuitState::HalfOpen => (b, true),
            CircuitState::Open => if spec_cooldown_done(e, now, c.cooldown_ms) {
                (
                    Some(
                        BreakerView {
                            state: CircuitState::HalfOpen,
                            failures: spec_prune(e.failures, now, c.failure_window_ms),
                            opened_at: e.opened_at,
                            half_open_successes: 0,
                        },
                    ),
                    true,
                )
            } else {
                (b, false)
            },
        },
    }
}

/// The breaker after a successful request.
pub open spec fn spec_success(b: Option<BreakerView>, c: CircuitBreakerConfig) -> Option<BreakerView> {
    match b {
        None => None,
        Some(e) => match e.state {
            CircuitState::HalfOpen => if e.half_open_successes + 1 >= c.half_open_success_threshold {
                Some(spec_fresh())
            } else {
                Some(BreakerView { half_open_successes: (e.half_open_successes + 1) as u32, ..e })
            },
            CircuitState::Closed => Some(BreakerView { failures: Seq::empty(), ..e }),
            CircuitState::Open => b,
        },
    }
}

/// The breaker after a failed request at `now`.
pub open spec fn spec_failure(b: Option<BreakerView>, now: u64, c: CircuitBreakerConfig) -> BreakerView {
    let e = match b {
        Some(e) => e,
        None => spec_fresh(),
    };
    let failures = spec_prune(e.failures, now, c.failure_window_ms).push(now);
    match e.state {
        CircuitState::Closed => if (failures.len() as u32) >= c.failure_threshold {
            BreakerView { state: CircuitState::Open, failures, opened_at: Some(now), ..e }
        } else {
            BreakerView { failures, ..e }
        },
        CircuitState::HalfOpen => BreakerView {
            state: CircuitState::Open,
            failures,
            opened_at: Some(now),
            half_open_successes: 0,
        },
        CircuitState::Open => BreakerView { failures, ..e },
    }
}

/// The breaker view of a provider in a table, if present.
pub open spec fn spec_entry(m: Map<Seq<char>, BreakerInner>, p: Seq<char>) -> Option<BreakerView> {
    if m.contains_key(p) {
        Some(m[p]@)
    } else {
        None
    }
}

/// A half-open breaker's probe count stays below its threshold (or at 0).
pub open spec fn inner_wf(b: BreakerView, c: CircuitBreakerConfig) -> bool {
    b.half_open_successes == 0 || b.half_open_successes < c.half_open_success_threshold
}

/// Keep the failures still within the window at `now`.
fn prune(failures: &Vec<u64>, now: u64, window: u64) -> (r: Vec<u64>)
    ensures
        r@ == spec_prune(failures@, now, window),
{
    let mut out: Vec<u64> = Vec::new();
    let mut i: usize = 0;
    while i < failures.len()
        invariant
            i <= failures@.len(),
            out@ == spec_prune(failures@.take(i as int), now, window),
        decreases failures@.len() - i,
    {
        let t = failures[i];
        let elapsed = if now >= t {
            now - t
        } else {
            0
        };
        assert(failures@.take(i + 1) == failures@.take(i as int).push(t));
        proof {
            failures@.take(i as int).lemma_filter_push(t, spec_in_window(now, window));
        }
        if elapsed < window {
            assert(spec_prune(failures@.take(i + 1), now, window) == spec_prune(failures@.take(i as int), now, window).push(t));
            out.push(t);
        } else {
            assert(spec_prune(failures@.take(i + 1), now, window) == spec_prune(failures@.take(i as int), now, window));
        }
        i = i + 1;
    }
    assert(failures@.take(failures@.len() as int) == failures@);
    out
}

/// Thread-unaware per-provider circuit breaker table.
pub struct CircuitBreaker {
    inner: StrMap<BreakerInner>,
    config: CircuitBreakerConfig,
    total_rejected: u64,
    /// Start of the breaker's own clock (monotonic).
    origin: std::time::Instant,
}

/// `std::time::Instant`, carried opaquely.
#[verifier::external_type_specification]
#[verifier::external_body]
pub struct ExInstant(std::time::Instant);

/// `std::time::Instant::now`: a reading of the monotonic clock. Nothing is
/// promised of it.
#[verifier::external_body]
fn instant_now() -> (i: std::time::Instant) {
    std::time::Instant::now()
}

/// Whole milliseconds elapsed since `origin` on the monotonic clock, from
/// `Instant::elapsed`. Nothing is promised of the value: it is the time.
#[verifier::external_body]
fn millis_since(origin: &std::time::Instant) -> (ms: u64) {
    origin.elapsed().as_millis() as u64
}

/// Abstract state of the breaker table.
pub struct CircuitBreakerView {
    pub breakers: Map<Seq<char>, BreakerInner>,
    pub config: CircuitBreakerConfig,
    pub total_rejected: u64,
}

impl View for CircuitBreaker {
    type V = CircuitBreakerView;

    closed spec fn view(&self) -> CircuitBreakerView {
        CircuitBreakerView { breakers: self.inner@, config: self.config, total_rejected: self.total_rejected }
    }
}

impl CircuitBreaker {
    /// Well-formedness of the table.
    pub closed spec fn wf(&self) -> bool {
        &&& self.inner.wf()
        &&& forall|k: Seq<char>| #[trigger]
            self.inner@.contains_key(k) ==> inner_wf(self.inner@[k]@, self.config)
    }

    /// A breaker table that has seen no provider.
    pub fn new(config: CircuitBreakerConfig) -> (cb: Self)
        ensures
            cb.wf(),
            cb@.config == config,
            cb@.breakers == Map::<Seq<char>, BreakerInner>::empty(),
            cb@.total_rejected == 0,
    {
        CircuitBreaker { inner: StrMap::new(), config, total_rejected: 0, origin: instant_now() }
    }

    /// Whether `provider_name` may receive a request at `now_ms`. An open
    /// circuit whose cooldown has elapsed goes half-open and lets the
    /// request through as a probe. Every refusal is counted.
    pub fn allow_request_at(&mut self, provider_name: &str, now_ms: u64) -> (allowed: bool)
        requires
            old(self).wf(),
        ensures
            final(self).wf(),
            ({
                let (nb, a) = spec_allow(spec_entry(old(self)@.breakers, provider_name@), now_ms, old(self)@.config);
                &&& allowed == a
                &&& spec_entry(final(self)@.breakers, provider_name@) == nb
                &&& forall|p: Seq<char>| p != provider_name@ ==> #[trigger] spec_entry(final(self)@.breakers, p) == spec_entry(old(self)@.breakers, p)
                &&& final(self)@.config == old(self)@.config
                &&& final(self)@.total_rejected == if a {
                    old(self)@.total_rejected
                } else {
                    old(self)@.total_rejected.wrapping_add(1)
                }
            }),
    {
        let ghost old_map = self.inner@;
        let state = match self.inner.get(provider_name) {
            None => {
                return true;
            },
            Some(e) => (e.state, e.opened_at),
        };
        match state.0 {
            CircuitState::Closed => true,
            CircuitState::HalfOpen => true,
            CircuitState::Open => {
                let done = match state.1 {
                    Some(t) => {
                        let elapsed = if now_ms >= t {
                            now_ms - t
                        } else {
                            0
                        };
                        elapsed >= self.config.cooldown_ms
                    },
                    None => false,
                };
                if !done {
                    self.total_rejected = self.total_rejected.wrapping_add(1);
                    return false;
                }
                let e = match self.inner.remove(provider_name) {
                    Some(e) => e,
                    None => {
                        return true;
                    },
                };
                let failures = prune(&e.failures, now_ms, self.config.failure_window_ms);
                let ne = BreakerInner {
                    state: CircuitState::HalfOpen,
                    failures,
                    opened_at: e.opened_at,
                    half_open_successes: 0,
                };
                self.inner.insert(provider_name, ne);
                proof {
                    assert forall|k: Seq<char>| #[trigger] self.inner@.contains_key(k) implies inner_wf(
                        self.inner@[k]@,
                        self.config,
                    ) by {
                        if k != provider_name@ {
                            assert(old_map.contains_key(k));
                        }
                    }
                }
                true
            },
        }
    }

    /// Record a successful request to `provider_name`: a half-open circuit
    /// counts the probe and closes once enough have succeeded (forgetting
    /// all failures); a closed circuit forgets its failures.
    pub fn record_success(&mut self, provider_name: &str)
        requires
            old(self).wf(),
        ensures
            final(self).wf(),
            spec_entry(final(self)@.breakers, provider_name@) == spec_success(
                spec_entry(old(self)@.breakers, provider_name@),
                old(self)@.config,
            ),
            forall|p: Seq<char>| p != provider_name@ ==> #[trigger] spec_entry(final(self)@.breakers, p) == spec_entry(old(self)@.breakers, p),
            final(self)@.config == old(self)@.config,
            final(self)@.total_rejected == old(self)@.total_rejected,
    {
        let ghost old_map = self.inner@;
        let e = match self.inner.remove(provider_name) {
            None => {
                return ;
            },
            Some(e) => e,
        };
        assert(old_map.contains_key(provider_name@));
        let ne = match e.state {
            CircuitState::HalfOpen => {
                let n = e.half_open_successes + 1;
                if n >= self.config.half_open_success_threshold {
                    BreakerInner {
                        state: CircuitState::Closed,
                        failures: Vec::new(),
                        opened_at: None,
                        half_open_successes: 0,
                    }
                } else {
                    BreakerInner { half_open_successes: n, ..e }
                }
            },
            CircuitState::Closed => BreakerInner { failures: Vec::new(), ..e },
            CircuitState::Open => e,
        };
        self.inner.insert(provider_name, ne);
        proof {
            assert forall|k: Seq<char>| #[trigger] self.inner@.contains_key(k) implies inner_wf(
                self.inner@[k]@,
                self.config,
            ) by {
                if k != provider_name@ {
                    assert(old_map.contains_key(k));
                }
            }
        }
    }

    /// Record a failed request to `provider_name` at `now_ms`: the failure
    /// is added to those within the window; a closed circuit opens when
    /// they reach the threshold; a half-open circuit reopens.
    pub fn record_failure_at(&mut self, provider_name: &str, now_ms: u64)
        requires
            old(self).wf(),
        ensures
            final(self).wf(),
            spec_entry(final(self)@.breakers, provider_name@) == Some(
                spec_failure(spec_entry(old(self)@.breakers, provider_name@), now_ms, old(self)@.config),
            ),
            forall|p: Seq<char>| p != provider_name@ ==> #[trigger] spec_entry(final(self)@.breakers, p) == spec_entry(old(self)@.breakers, p),
            final(self)@.config == old(self)@.config,
            final(self)@.total_rejected == old(self)@.total_rejected,
    {
        let ghost old_map = self.inner@;
        let e = match self.inner.remove(provider_name) {
            None => BreakerInner {
                state: CircuitState::Closed,
                failures: Vec::new(),
                opened_at: None,
                half_open_successes: 0,
            },
            Some(e) => e,
        };
        proof {
            if old_map.contains_key(provider_name@) {
                assert(e@ == old_map[provider_name@]@);
            } else {
                assert(e@.failures =~= Seq::<u64>::empty());
            }
        }
        let mut failures = prune(&e.failures, now_ms, self.config.failure_window_ms);
        failures.push(now_ms);
        let ne = match e.state {
            CircuitState::Closed => {
                if (failures.len() as u32) >= self.config.failure_threshold {
                    BreakerInner { state: CircuitState::Open, failures, opened_at: Some(now_ms), ..e }
                } else {
                    BreakerInner { failures, ..e }
                }
            },
            CircuitState::HalfOpen => BreakerInner {
                state: CircuitState::Open,
                failures,
                opened_at: Some(now_ms),
                half_open_successes: 0,
            },
            CircuitState::Open => BreakerInner { failures, ..e },
        };
        self.inner.insert(provider_name, ne);
        proof {
            assert forall|k: Seq<char>| #[trigger] self.inner@.contains_key(k) implies inner_wf(
                self.inner@[k]@,
                self.config,
            ) by {
                if k != provider_name@ {
                    assert(old_map.contains_key(k));
                }
            }
        }
    }

    /// Whether `provider_name` may receive a request now; see
    /// [`Self::allow_request_at`].
    pub fn allow_request(&mut self, provider_name: &str) -> (allowed: bool)
        requires
            old(self).wf(),
        ensures
            final(self).wf(),
            exists|now: u64| {
                let (nb, a) = #[trigger] spec_allow(spec_entry(old(self)@.breakers, provider_name@), now, old(self)@.config);
                &&& allowed == a
                &&& spec_entry(final(self)@.breakers, provider_name@) == nb
            },
            forall|p: Seq<char>| p != provider_name@ ==> #[trigger] spec_entry(final(self)@.breakers, p) == spec_entry(old(self)@.breakers, p),
            final(self)@.total_rejected == if allowed {
                old(self)@.total_rejected
            } else {
                old(self)@.total_rejected.wrapping_add(1)
            },
    {
        let now = self.now_ms();
        self.allow_request_at(provider_name, now)
    }

    /// Record a failed request now; see [`Self::record_failure_at`].
    pub fn record_failure(&mut self, provider_name: &str)
        requires
            old(self).wf(),
        ensures
            final(self).wf(),
            exists|now: u64| spec_entry(final(self)@.breakers, provider_name@) == Some(
                #[trigger] spec_failure(spec_entry(old(self)@.breakers, provider_name@), now, old(self)@.config),
            ),
            forall|p: Seq<char>| p != provider_name@ ==> #[trigger] spec_entry(final(self)@.breakers, p) == spec_entry(old(self)@.breakers, p),
            final(self)@.total_rejected == old(self)@.total_rejected,
    {
        let now = self.now_ms();
        self.record_failure_at(provider_name, now)
    }

    /// The state of `provider_name`'s circuit; closed if never seen.
    pub fn state(&self, provider_name: &str) -> (s: CircuitState)
        requires
            self.wf(),
        ensures
            s == match spec_entry(self@.breakers, provider_name@) {
                Some(e) => e.state,
                None => CircuitState::Closed,
            },
    {
        match self.inner.get(provider_name) {
            Some(e) => e.state,
            None => CircuitState::Closed,
        }
    }

    /// The state of every provider seen so far.
    pub fn all_states(&self) -> (r: Vec<(String, CircuitState)>)
        requires
            self.wf(),
        ensures
            forall|i: int| #![trigger r@[i]] 0 <= i < r@.len() ==> self@.breakers.contains_key(r@[i].0@)
                && self@.breakers[r@[i].0@].state == r@[i].1,
            forall|p: Seq<char>| #[trigger] self@.breakers.contains_key(p) ==> exists|i: int|
                0 <= i < r@.len() && #[trigger] r@[i].0@ == p,
            forall|i: int, j: int| 0 <= i < j < r@.len() ==> #[trigger] r@[i].0@ != #[trigger] r@[j].0@,
    {
        proof { self.inner.lemma_seqs(); }
        let mut out: Vec<(String, CircuitState)> = Vec::new();
        let n = self.inner.len();
        let mut i: usize = 0;
        while i < n
            invariant
                self.wf(),
                n == self.inner.key_seq().len(),
                self.inner.key_seq().len() == self.inner.val_seq().len(),
                forall|j: int| 0 <= j < self.inner.key_seq().len() ==> #[trigger] self.inner@.contains_key(self.inner.key_seq()[j])
                    && self.inner@[self.inner.key_seq()[j]] == self.inner.val_seq()[j],
                forall|a: int, b: int| 0 <= a < b < self.inner.key_seq().len() ==> #[trigger] self.inner.key_seq()[a]
                    != #[trigger] self.inner.key_seq()[b],
                i <= n,
                out@.len() == i,
                forall|j: int| 0 <= j < i ==> #[trigger] out@[j].0@ == self.inner.key_seq()[j],
                forall|j: int| 0 <= j < i ==> #[trigger] out@[j].1 == self.inner.val_seq()[j].state,
            decreases n - i,
        {
            let k = self.inner.key_at(i).clone();
            let s = self.inner.val_at(i).state;
            let ghost prev = out@;
            out.push((k, s));
            assert(out@[i as int].0@ == self.inner.key_seq()[i as int]);
            assert forall|j: int| 0 <= j < i + 1 implies #[trigger] out@[j].0@ == self.inner.key_seq()[j] by {
                if j < i {
                    assert(out@[j] == prev[j]);
                }
            }
            assert forall|j: int| 0 <= j < i + 1 implies #[trigger] out@[j].1 == self.inner.val_seq()[j].state by {
                if j < i {
                    assert(out@[j] == prev[j]);
                }
            }
            i = i + 1;
        }
        proof {
            assert forall|j: int| #![trigger out@[j]] 0 <= j < out@.len() implies self@.breakers.contains_key(out@[j].0@)
                && self@.breakers[out@[j].0@].state == out@[j].1 by {
                assert(out@[j].0@ == self.inner.key_seq()[j]);
                assert(self.inner@.contains_key(self.inner.key_seq()[j]));
            }
            assert forall|p: Seq<char>| #[trigger] self@.breakers.contains_key(p) implies exists|j: int|
                0 <= j < out@.len() && #[trigger] out@[j].0@ == p by {
                let j = choose|j: int| 0 <= j < self.inner.key_seq().len() && #[trigger] self.inner.key_seq()[j] == p;
                assert(out@[j].0@ == p);
            }
            assert forall|a: int, b: int| 0 <= a < b < out@.len() implies #[trigger] out@[a].0@ != #[trigger] out@[b].0@ by {
                assert(self.inner.key_seq()[a] != self.inner.key_seq()[b]);
            }
        }
        out
    }

    /// The breaker's clock: milliseconds since the table was made, on the
    /// monotonic clock, so that a change of the wall clock moves no window
    /// or cooldown. The times given to the `_at` methods are on this clock.
    pub fn now_ms(&self) -> (ms: u64) {
        millis_since(&self.origin)
    }

    /// Requests refused because a circuit was open.
    pub fn total_rejected(&self) -> (n: u64)
        ensures
            n == self@.total_rejected,
    {
        self.total_rejected
    }
}

/// An open circuit refuses every request until its cooldown has elapsed; at
/// or after that point the next request is let through as a probe and the
/// circuit is half-open.
pub proof fn lemma_open_until_cooldown(e: BreakerView, now: u64, c: CircuitBreakerConfig)
    requires
        e.state == CircuitState::Open,
        e.opened_at is Some,
    ensures
        spec_elapsed(now, e.opened_at->0) < c.cooldown_ms ==> spec_allow(Some(e), now, c) == (Some(e), false),
        spec_elapsed(now, e.opened_at->0) >= c.cooldown_ms ==> spec_allow(Some(e), now, c).1 && spec_allow(
            Some(e),
            now,
            c,
        ).0->0.state == CircuitState::HalfOpen,
{
}

/// A closed circuit opens on a failure exactly when the failures within
/// the window, this one included, reach the threshold; a failed probe
/// reopens a half-open circuit at once.
pub proof fn lemma_failure_transitions(e: BreakerView, now: u64, c: CircuitBreakerConfig)
    ensures
        e.state == CircuitState::Closed ==> (spec_failure(Some(e), now, c).state == CircuitState::Open
            <==> (spec_prune(e.failures, now, c.failure_window_ms).len() + 1) as u32 >= c.failure_threshold),
        e.state == CircuitState::HalfOpen ==> spec_failure(Some(e), now, c).state == CircuitState::Open
            && spec_failure(Some(e), now, c).opened_at == Some(now),
        spec_failure(Some(e), now, c).state != CircuitState::HalfOpen,
{
}

/// Closed and half-open circuits always let requests through, and only an
/// open circuit ever refuses.
pub proof fn lemma_only_open_refuses(b: Option<BreakerView>, now: u64, c: CircuitBreakerConfig)
    ensures
        !spec_allow(b, now, c).1 ==> b is Some && b->0.state == CircuitState::Open,
{
}

/// A successful probe closes a half-open circuit whose success threshold is
/// at most one, and the closed circuit has no failures on record.
pub proof fn lemma_probe_success_closes(e: BreakerView, c: CircuitBreakerConfig)
    requires
        e.state == CircuitState::HalfOpen,
        e.half_open_successes == 0,
        c.half_open_success_threshold <= 1,
    ensures
        spec_success(Some(e), c) == Some(spec_fresh()),
{
}

/// The failures kept on record are those within the failure window: after a
/// failure at `now`, the record holds, in order, exactly the earlier
/// failures less than `failure_window_ms` old at `now`, then `now`.
pub proof fn lemma_failures_within_window(b: Option<BreakerView>, now: u64, c: CircuitBreakerConfig)
    ensures
        ({
            let old_f = match b {
                Some(e) => e.failures,
                None => Seq::<u64>::empty(),
            };
            let f = spec_failure(b, now, c).failures;
            let kept = f.drop_last();
            &&& f.len() >= 1
            &&& f.last() == now
            &&& forall|i: int| 0 <= i < kept.len() ==> (if now >= #[trigger] kept[i] {
                now - kept[i]
            } else {
                0
            }) < c.failure_window_ms && old_f.contains(kept[i])
            &&& forall|i: int|
                0 <= i < old_f.len() && (if now >= #[trigger] old_f[i] {
                    now - old_f[i]
                } else {
                    0
                }) < c.failure_window_ms ==> kept.contains(old_f[i])
        }),
{
    let old_f = match b {
        Some(e) => e.failures,
        None => Seq::<u64>::empty(),
    };
    let pred = spec_in_window(now, c.failure_window_ms);
    old_f.filter_lemma(pred);
    let f = spec_failure(b, now, c).failures;
    assert(f.drop_last() =~= old_f.filter(pred));
    assert forall|i: int| 0 <= i < old_f.filter(pred).len() implies old_f.contains(#[trigger] old_f.filter(pred)[i]) by {
        old_f.lemma_filter_contains_rev(pred, old_f.filter(pred)[i]);
    }
}

/// A half-open circuit counts its successful probes: a success closes it,
/// with no failures and no opening time on record, exactly when the probes
/// so far, this one included, reach the success threshold; otherwise it
/// stays half-open with one more probe counted.
pub proof fn lemma_half_open_successes(e: BreakerView, c: CircuitBreakerConfig)
    requires
        e.state == CircuitState::HalfOpen,
    ensures
        ({
            let r = spec_success(Some(e), c)->0;
            &&& spec_success(Some(e), c) is Some
            &&& (e.half_open_successes + 1 >= c.half_open_success_threshold ==> r.state == CircuitState::Closed
                && r.failures.len() == 0 && r.opened_at is None && r.half_open_successes == 0)
            &&& (e.half_open_successes + 1 < c.half_open_success_threshold ==> r.state == CircuitState::HalfOpen
                && r.half_open_successes == e.half_open_successes + 1 && r.failures == e.failures)
        }),
{
}

} // verus!
