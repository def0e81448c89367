//! Per-tenant quotas: requests and tokens per minute and per day.
//!
//! Each tenant has counters for the current Unix minute and the current Unix
//! day; a counter restarts at zero when its window changes. A limit of 0 means
//! unlimited. A request is refused when it would take a counter above its
//! limit; a refused request is not counted.
use vstd::prelude::*;

use crate::arith::{sat_add, spec_sat_add};
use crate::clock::now_unix_ms;
use crate::strmap::StrMap;
use crate::tenant::TenantQuotas;

verus! {

/// Which limit a request ran into.
#[derive(Debug, Clone, Copy, PartialEq, Eq, Structural)]
pub enum LimitKind {
    Rpm,
    Tpm,
    Rpd,
    Tpd,
}

/// The wire name of a limit kind.
pub open spec fn spec_limit_name(k: LimitKind) -> Seq<char> {
    match k {
        LimitKind::Rpm => "rpm"@,
        LimitKind::Tpm => "tpm"@,
        LimitKind::Rpd => "rpd"@,
        LimitKind::Tpd => "tpd"@,
    }
}

impl LimitKind {
    /// The wire name of this limit kind (`rpm`, `tpm`, `rpd`, `tpd`).
    pub fn as_str(&self) -> (r: &'static str)
        ensures
            r@ == spec_limit_name(*self),
    {
        match self {
            LimitKind::Rpm => "rpm",
            LimitKind::Tpm => "tpm",
            LimitKind::Rpd => "rpd",
            LimitKind::Tpd => "tpd",
        }
    }
}

/// Details of a refused request: which limit, its value, and the count
/// before this request.
#[derive(Debug, Clone)]
pub struct QuotaViolation {
    pub limit_type: String,
    pub limit: u64,
    pub current: u64,
}

/// Usage counters of one tenant.
#[derive(Debug, Clone, Copy, PartialEq, Eq, Structural)]
pub struct TenantQuotaState {
    /// The Unix minute the per-minute counters belong to.
    pub current_minute: u64,
    pub rpm_this_minute: u64,
    pub tpm_this_minute: u64,
    /// The Unix day the per-day counters belong to.
    pub current_day: u64,
    pub rpd_today: u64,
    pub tpd_today: u64,
}

impl Default for TenantQuotaState {
    fn default() -> (s: Self)
        ensures
            s == spec_empty_state(),
    {
        TenantQuotaState {
            current_minute: 0,
            rpm_this_minute: 0,
            tpm_this_minute: 0,
            current_day: 0,
            rpd_today: 0,
            tpd_today: 0,
        }
    }
}

/// The counters of a tenant never seen before.
pub open spec fn spec_empty_state() -> TenantQuotaState {
    TenantQuotaState {
        current_minute: 0,
        rpm_this_minute: 0,
        tpm_this_minute: 0,
        current_day: 0,
        rpd_today: 0,
        tpd_today: 0,
    }
}

/// The Unix minute of a time in milliseconds.
pub open spec fn spec_minute_of(now_ms: u64) -> u64 {
    (now_ms / 1000 / 60) as u64
}

/// The Unix day of a time in milliseconds.
pub open spec fn spec_day_of(now_ms: u64) -> u64 {
    (now_ms / 1000 / 86400) as u64
}

/// The Unix minute of a time in milliseconds.
pub fn current_unix_minute(now_ms: u64) -> (m: u64)
    ensures
        m == spec_minute_of(now_ms),
{
    now_ms / 1000 / 60
}

/// The Unix day of a time in milliseconds.
pub fn current_unix_day(now_ms: u64) -> (d: u64)
    ensures
        d == spec_day_of(now_ms),
{
    now_ms / 1000 / 86400
}

/// The counters moved to the given minute and day: a counter whose window
/// changed restarts at zero.
pub open spec fn spec_roll(s: TenantQuotaState, minute: u64, day: u64) -> TenantQuotaState {
    let s1 = if s.current_minute != minute {
        TenantQuotaState { current_minute: minute, rpm_this_minute: 0, tpm_this_minute: 0, ..s }
    } else {
        s
    };
    if s1.current_day != day {
        TenantQuotaState { current_day: day, rpd_today: 0, tpd_today: 0, ..s1 }
    } else {
        s1
    }
}

/// The first limit (in the order rpm, tpm, rpd, tpd) that one more request
/// of `tokens` tokens would exceed, with its limit and current count.
pub open spec fn spec_first_violation(s: TenantQuotaState, q: TenantQuotas, tokens: u64) -> Option<
    (LimitKind, u64, u64),
> {
    if q.max_rpm > 0 && s.rpm_this_minute + 1 > q.max_rpm {
        Some((LimitKind::Rpm, q.max_rpm as u64, s.rpm_this_minute))
    } else if q.max_tpm > 0 && s.tpm_this_minute + tokens > q.max_tpm {
        Some((LimitKind::Tpm, q.max_tpm, s.tpm_this_minute))
    } else if q.max_rpd > 0 && s.rpd_today + 1 > q.max_rpd {
        Some((LimitKind::Rpd, q.max_rpd, s.rpd_today))
    } else if q.max_tpd > 0 && s.tpd_today + tokens > q.max_tpd {
        Some((LimitKind::Tpd, q.max_tpd, s.tpd_today))
    } else {
        None
    }
}

/// The counters after recording one request of `tokens` tokens (sums
/// saturate at `u64::MAX`).
pub open spec fn spec_record(s: TenantQuotaState, tokens: u64) -> TenantQuotaState {
    TenantQuotaState {
        rpm_this_minute: spec_sat_add(s.rpm_this_minute, 1),
        tpm_this_minute: spec_sat_add(s.tpm_this_minute, tokens),
        rpd_today: spec_sat_add(s.rpd_today, 1),
        tpd_today: spec_sat_add(s.tpd_today, tokens),
        ..s
    }
}

/// One quota check on a tenant's counters at time `now_ms`: the new
/// counters, and the violation if the request is refused.
pub open spec fn spec_check(s: TenantQuotaState, q: TenantQuotas, tokens: u64, now_ms: u64) -> (
    TenantQuotaState,
    Option<(LimitKind, u64, u64)>,
) {
    let rolled = spec_roll(s, spec_minute_of(now_ms), spec_day_of(now_ms));
    match spec_first_violation(rolled, q, tokens) {
        Some(v) => (rolled, Some(v)),
        None => (spec_record(rolled, tokens), None),
    }
}

/// The counters a tenant has in a map, or fresh ones.
pub open spec fn spec_state_of(m: Map<Seq<char>, TenantQuotaState>, t: Seq<char>) -> TenantQuotaState {
    if m.contains_key(t) {
        m[t]
    } else {
        spec_empty_state()
    }
}

/// Enforces per-tenant RPM / TPM / RPD / TPD limits.
pub struct QuotaEngine {
    states: StrMap<TenantQuotaState>,
}

impl View for QuotaEngine {
    type V = Map<Seq<char>, TenantQuotaState>;

    closed spec fn view(&self) -> Map<Seq<char>, TenantQuotaState> {
        self.states@
    }
}

impl QuotaEngine {
    /// Well-formedness of the state table.
    pub closed spec fn wf(&self) -> bool {
        self.states.wf()
    }

    /// An engine that has seen no tenant.
    pub fn new() -> (e: Self)
        ensures
            e.wf(),
            e@ == Map::<Seq<char>, TenantQuotaState>::empty(),
    {
        QuotaEngine { states: StrMap::new() }
    }

    /// Check one request of `tenant_id`, estimated at `tokens_estimated`
    /// tokens, against `quotas` at time `now_ms`. On success the request is
    /// counted; on refusal nothing is counted and the violated limit is
    /// returned. Either way the tenant's counters move to the current
    /// minute and day, and no other tenant's counters change.
    pub fn check_at(
        &mut self,
        tenant_id: &str,
        quotas: &TenantQuotas,
        tokens_estimated: u64,
        now_ms: u64,
    ) -> (r: Result<(), QuotaViolation>)
        requires
            old(self).wf(),
        ensures
            final(self).wf(),
            ({
                let (s, v) = spec_check(
                    spec_state_of(old(self)@, tenant_id@),
                    *quotas,
                    tokens_estimated,
                    now_ms,
                );
                &&& final(self)@ == old(self)@.insert(tenant_id@, s)
                &&& match (v, r) {
                    (None, Ok(())) => true,
                    (Some((kind, limit, current)), Err(e)) => e.limit_type@ == spec_limit_name(kind)
                        && e.limit == limit && e.current == current,
                    _ => false,
                }
            }),
    {
        let mut state = match self.states.get(tenant_id) {
            Some(s) => *s,
            None => TenantQuotaState::default(),
        };
        let now_minute = current_unix_minute(now_ms);
        let now_day = current_unix_day(now_ms);
        if state.current_minute != now_minute {
            state.current_minute = now_minute;
            state.rpm_this_minute = 0;
            state.tpm_this_minute = 0;
        }
        if state.current_day != now_day {
            state.current_day = now_day;
            state.rpd_today = 0;
            state.tpd_today = 0;
        }
        let violation: Option<(LimitKind, u64, u64)> = if quotas.max_rpm > 0 && state.rpm_this_minute
            >= quotas.max_rpm as u64 {
            Some((LimitKind::Rpm, quotas.max_rpm as u64, state.rpm_this_minute))
        } else if quotas.max_tpm > 0 && state.tpm_this_minute > quotas.max_tpm
            || quotas.max_tpm > 0 && tokens_estimated > quotas.max_tpm - state.tpm_this_minute {
            Some((LimitKind::Tpm, quotas.max_tpm, state.tpm_this_minute))
        } else if quotas.max_rpd > 0 && state.rpd_today >= quotas.max_rpd {
            Some((LimitKind::Rpd, quotas.max_rpd, state.rpd_today))
        } else if quotas.max_tpd > 0 && state.tpd_today > quotas.max_tpd
            || quotas.max_tpd > 0 && tokens_estimated > quotas.max_tpd - state.tpd_today {
            Some((LimitKind::Tpd, quotas.max_tpd, state.tpd_today))
        } else {
            None
        };
        match violation {
            Some((kind, limit, current)) => {
                self.states.insert(tenant_id, state);
                let name = kind.as_str();
                Err(QuotaViolation { limit_type: name.to_owned(), limit, current })
            },
            None => {
                state.rpm_this_minute = sat_add(state.rpm_this_minute, 1);
                state.tpm_this_minute = sat_add(state.tpm_this_minute, tokens_estimated);
                state.rpd_today = sat_add(state.rpd_today, 1);
                state.tpd_today = sat_add(state.tpd_today, tokens_estimated);
                self.states.insert(tenant_id, state);
                Ok(())
            },
        }
    }

    /// Check one request with the clock read now; see [`Self::check_at`].
    pub fn check(&mut self, tenant_id: &str, quotas: &TenantQuotas, tokens_estimated: u64) -> (r:
        Result<(), QuotaViolation>)
        requires
            old(self).wf(),
        ensures
            final(self).wf(),
            exists|now_ms: u64|
                {
                    let (s, v) = #[trigger] spec_check(
                        spec_state_of(old(self)@, tenant_id@),
                        *quotas,
                        tokens_estimated,
                        now_ms,
                    );
                    &&& final(self)@ == old(self)@.insert(tenant_id@, s)
                    &&& match (v, r) {
                        (None, Ok(())) => true,
                        (Some((kind, limit, current)), Err(e)) => e.limit_type@ == spec_limit_name(kind)
                            && e.limit == limit && e.current == current,
                        _ => false,
                    }
                },
    {
        let now = now_unix_ms();
        self.check_at(tenant_id, quotas, tokens_estimated, now)
    }

    /// The tenant's (requests this minute, tokens this minute, requests
    /// today, tokens today), if it has been seen.
    pub fn tenant_state(&self, tenant_id: &str) -> (r: Option<(u64, u64, u64, u64)>)
        requires
            self.wf(),
        ensures
            match r {
                Some((a, b, c, d)) => self@.contains_key(tenant_id@) && a == self@[tenant_id@].rpm_this_minute
                    && b == self@[tenant_id@].tpm_this_minute && c == self@[tenant_id@].rpd_today && d
                    == self@[tenant_id@].tpd_today,
                None => !self@.contains_key(tenant_id@),
            },
    {
        match self.states.get(tenant_id) {
            Some(s) => Some((s.rpm_this_minute, s.tpm_this_minute, s.rpd_today, s.tpd_today)),
            None => None,
        }
    }

    /// Forget every tenant's counters.
    pub fn reset(&mut self)
        requires
            old(self).wf(),
        ensures
            final(self).wf(),
            final(self)@ == Map::<Seq<char>, TenantQuotaState>::empty(),
    {
        self.states.clear();
    }
}

/// With every limit at 0 (unlimited) no request is ever refused.
pub proof fn lemma_zero_is_unlimited(s: TenantQuotaState, q: TenantQuotas, tokens: u64, now_ms: u64)
    requires
        q.max_rpm == 0 && q.max_tpm == 0 && q.max_rpd == 0 && q.max_tpd == 0,
    ensures
        spec_check(s, q, tokens, now_ms).1 is None,
{
}

/// An accepted request never leaves a counter above its (non-zero) limit,
/// and a refused one changes no counter within the current windows.
pub proof fn lemma_limits_hold(s: TenantQuotaState, q: TenantQuotas, tokens: u64, now_ms: u64)
    ensures
        ({
            let (s2, v) = spec_check(s, q, tokens, now_ms);
            &&& v is None ==> {
                &&& (q.max_rpm > 0 ==> s2.rpm_this_minute <= q.max_rpm)
                &&& (q.max_tpm > 0 ==> s2.tpm_this_minute <= q.max_tpm)
                &&& (q.max_rpd > 0 ==> s2.rpd_today <= q.max_rpd)
                &&& (q.max_tpd > 0 ==> s2.tpd_today <= q.max_tpd)
            }
            &&& v is Some ==> s2 == spec_roll(s, spec_minute_of(now_ms), spec_day_of(now_ms))
        }),
{
}

/// Within one minute, a tenant limited to `max_rpm` requests per minute
/// (and nothing else) gets exactly `max_rpm` requests through: while its
/// count is below the limit the next request passes and adds one; at the
/// limit it is refused.
pub proof fn lemma_rpm_window(
    s: TenantQuotaState,
    max_rpm: u32,
    now_ms: u64,
)
    requires
        max_rpm > 0,
        s.current_minute == spec_minute_of(now_ms),
        s.current_day == spec_day_of(now_ms),
        s.rpm_this_minute <= max_rpm,
    ensures
        ({
            let q = TenantQuotas { max_rpm, max_rpd: 0, max_tpm: 0, max_tpd: 0 };
            let (s2, v) = spec_check(s, q, 0, now_ms);
            &&& (s.rpm_this_minute < max_rpm ==> v is None && s2.rpm_this_minute == s.rpm_this_minute
                + 1)
            &&& (s.rpm_this_minute == max_rpm ==> v == Some((LimitKind::Rpm, max_rpm as u64, s.rpm_this_minute))
                && s2 == s)
        }),
{
}

/// An accepted check counts the request in every window: its day's
/// token count and request count grow by `tokens` and by one (saturating),
/// starting from zero when the day changed, and likewise its minute's
/// counts; the counters then belong to the minute and day of `now_ms`.
pub proof fn lemma_accepted_check_counts(s: TenantQuotaState, q: TenantQuotas, tokens: u64, now_ms: u64)
    requires
        spec_check(s, q, tokens, now_ms).1 is None,
    ensures
        ({
            let s2 = spec_check(s, q, tokens, now_ms).0;
            let same_day = s.current_day == spec_day_of(now_ms);
            let same_minute = s.current_minute == spec_minute_of(now_ms);
            &&& s2.current_day == spec_day_of(now_ms)
            &&& s2.current_minute == spec_minute_of(now_ms)
            &&& s2.tpd_today == spec_sat_add(if same_day { s.tpd_today } else { 0 }, tokens)
            &&& s2.rpd_today == spec_sat_add(if same_day { s.rpd_today } else { 0 }, 1)
            &&& s2.tpm_this_minute == spec_sat_add(if same_minute { s.tpm_this_minute } else { 0 }, tokens)
            &&& s2.rpm_this_minute == spec_sat_add(if same_minute { s.rpm_this_minute } else { 0 }, 1)
        }),
{
}

/// Tokens of one day add up against the daily token limit: with only a
/// daily token limit `L`, after a check of `n1` tokens is accepted, a
/// second check of `n2` tokens later the same day is refused exactly when
/// the day's tokens so far (the first check's included) plus `n2` exceed
/// `L`, and the refusal reports that count.
pub proof fn lemma_daily_tokens_accumulate(
    s: TenantQuotaState,
    max_tpd: u64,
    n1: u64,
    t1: u64,
    n2: u64,
    t2: u64,
)
    requires
        max_tpd > 0,
        spec_day_of(t1) == spec_day_of(t2),
        spec_check(s, TenantQuotas { max_rpm: 0, max_tpm: 0, max_rpd: 0, max_tpd }, n1, t1).1 is None,
    ensures
        ({
            let q = TenantQuotas { max_rpm: 0, max_tpm: 0, max_rpd: 0, max_tpd };
            let before = if s.current_day == spec_day_of(t1) { s.tpd_today } else { 0 };
            let so_far = spec_sat_add(before, n1);
            let second = spec_check(spec_check(s, q, n1, t1).0, q, n2, t2).1;
            &&& so_far <= max_tpd
            &&& (so_far + n2 > max_tpd ==> second == Some((LimitKind::Tpd, max_tpd, so_far)))
            &&& (so_far + n2 <= max_tpd ==> second is None)
        }),
{
    let q = TenantQuotas { max_rpm: 0, max_tpm: 0, max_rpd: 0, max_tpd };
    lemma_accepted_check_counts(s, q, n1, t1);
    lemma_limits_hold(s, q, n1, t1);
}

/// A check refuses a request exactly when counting it would take a counter
/// above its non-zero limit, counting from zero in a new minute or day. The
/// limit reported is the first so exceeded in the order requests per
/// minute, tokens per minute, requests per day, tokens per day, with the
/// count before the request; a refused request changes no count.
pub proof fn lemma_refusal_exact(s: TenantQuotaState, q: TenantQuotas, tokens: u64, now_ms: u64)
    ensures
        ({
            let (s2, v) = spec_check(s, q, tokens, now_ms);
            let same_day = s.current_day == spec_day_of(now_ms);
            let same_minute = s.current_minute == spec_minute_of(now_ms);
            let rpm = if same_minute { s.rpm_this_minute } else { 0 };
            let tpm = if same_minute { s.tpm_this_minute } else { 0 };
            let rpd = if same_day { s.rpd_today } else { 0 };
            let tpd = if same_day { s.tpd_today } else { 0 };
            let over_rpm = q.max_rpm > 0 && rpm + 1 > q.max_rpm;
            let over_tpm = q.max_tpm > 0 && tpm + tokens > q.max_tpm;
            let over_rpd = q.max_rpd > 0 && rpd + 1 > q.max_rpd;
            let over_tpd = q.max_tpd > 0 && tpd + tokens > q.max_tpd;
            &&& (v is Some <==> over_rpm || over_tpm || over_rpd || over_tpd)
            &&& (over_rpm ==> v == Some((LimitKind::Rpm, q.max_rpm as u64, rpm)))
            &&& (!over_rpm && over_tpm ==> v == Some((LimitKind::Tpm, q.max_tpm, tpm)))
            &&& (!over_rpm && !over_tpm && over_rpd ==> v == Some((LimitKind::Rpd, q.max_rpd, rpd)))
            &&& (!over_rpm && !over_tpm && !over_rpd && over_tpd ==> v == Some((LimitKind::Tpd, q.max_tpd, tpd)))
            &&& (v is Some ==> s2.rpm_this_minute == rpm && s2.tpm_this_minute == tpm && s2.rpd_today == rpd
                && s2.tpd_today == tpd)
        }),
{
}

/// Tenants are isolated: recording a check for one tenant leaves every
/// other tenant's counters as they were.
pub proof fn lemma_quota_isolation(m: Map<Seq<char>, TenantQuotaState>, t: Seq<char>, s: TenantQuotaState, other: Seq<char>)
    requires
        other != t,
    ensures
        spec_state_of(m.insert(t, s), other) == spec_state_of(m, other),
{
}

} // verus!
