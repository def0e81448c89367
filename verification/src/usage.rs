//! The usage ledger of the metering service: per-tenant and per-model
//! request, token and error counts, and the bounded log of detail events.
//!
//! Counts accumulate across billing windows; starting a new billing window
//! empties the detail log and leaves every count as it was. Counts saturate
//! at `u64::MAX`.
use vstd::prelude::*;

use crate::arith::{sat_add, spec_sat_add};
use crate::strmap::StrMap;

verus! {

/// Detail events kept in memory; when the log is full the oldest goes.
pub const MAX_EVENTS: usize = 10_000;

/// Request and token counts of one model within a tenant.
#[derive(Debug, Clone, Copy, PartialEq, Eq, Structural)]
pub struct ModelTally {
    pub requests: u64,
    pub prompt_tokens: u64,
    pub completion_tokens: u64,
}

/// Request, token and error counts of one tenant.
pub struct TenantTally {
    pub total_requests: u64,
    pub total_prompt_tokens: u64,
    pub total_completion_tokens: u64,
    pub total_tokens: u64,
    pub total_errors: u64,
    /// Counts per model.
    pub per_model: StrMap<ModelTally>,
}

/// Abstract value of a tenant's counts.
pub struct TallyView {
    pub total_requests: u64,
    pub total_prompt_tokens: u64,
    pub total_completion_tokens: u64,
    pub total_tokens: u64,
    pub total_errors: u64,
    pub per_model: Map<Seq<char>, ModelTally>,
}

impl View for TenantTally {
    type V = TallyView;

    open spec fn view(&self) -> TallyView {
        TallyView {
            total_requests: self.total_requests,
            total_prompt_tokens: self.total_prompt_tokens,
            total_completion_tokens: self.total_completion_tokens,
            total_tokens: self.total_tokens,
            total_errors: self.total_errors,
            per_model: self.per_model@,
        }
    }
}

/// The counts of a tenant not seen yet.
pub open spec fn spec_zero_tally() -> TallyView {
    TallyView {
        total_requests: 0,
        total_prompt_tokens: 0,
        total_completion_tokens: 0,
        total_tokens: 0,
        total_errors: 0,
        per_model: Map::empty(),
    }
}

/// The counts of `key` in `m`, zero when it has none.
pub open spec fn spec_tally_of(m: Map<Seq<char>, TallyView>, key: Seq<char>) -> TallyView {
    if m.contains_key(key) {
        m[key]
    } else {
        spec_zero_tally()
    }
}

/// The counts of `model` in `m`, zero when it has none.
pub open spec fn spec_model_of(m: Map<Seq<char>, ModelTally>, model: Seq<char>) -> ModelTally {
    if m.contains_key(model) {
        m[model]
    } else {
        ModelTally { requests: 0, prompt_tokens: 0, completion_tokens: 0 }
    }
}

/// Tenant counts after one more request with the given token counts.
pub open spec fn spec_count_request(t: TallyView, prompt: u64, completion: u64) -> TallyView {
    TallyView {
        total_requests: spec_sat_add(t.total_requests, 1),
        total_prompt_tokens: spec_sat_add(t.total_prompt_tokens, prompt),
        total_completion_tokens: spec_sat_add(t.total_completion_tokens, completion),
        total_tokens: spec_sat_add(t.total_tokens, spec_sat_add(prompt, completion)),
        ..t
    }
}

/// Model counts after one more request with the given token counts.
pub open spec fn spec_count_model(m: ModelTally, prompt: u64, completion: u64) -> ModelTally {
    ModelTally {
        requests: spec_sat_add(m.requests, 1),
        prompt_tokens: spec_sat_add(m.prompt_tokens, prompt),
        completion_tokens: spec_sat_add(m.completion_tokens, completion),
    }
}

/// Tenant counts after one more metered request to `model`, which failed
/// when `is_error`.
pub open spec fn spec_count_event(
    t: TallyView,
    model: Seq<char>,
    prompt: u64,
    completion: u64,
    is_error: bool,
) -> TallyView {
    TallyView {
        total_errors: if is_error {
            spec_sat_add(t.total_errors, 1)
        } else {
            t.total_errors
        },
        per_model: t.per_model.insert(
            model,
            spec_count_model(spec_model_of(t.per_model, model), prompt, completion),
        ),
        ..spec_count_request(t, prompt, completion)
    }
}

/// The log after appending `e`: a full log drops its oldest event first.
pub open spec fn spec_log_push<E>(s: Seq<E>, e: E) -> Seq<E> {
    if s.len() >= MAX_EVENTS {
        s.drop_first().push(e)
    } else {
        s.push(e)
    }
}

/// Abstract value of a ledger: the detail log, oldest first, and the counts
/// of each tenant.
pub struct LedgerView<E> {
    pub events: Seq<E>,
    pub tenants: Map<Seq<char>, TallyView>,
}

/// Usage counts of every tenant and the recent detail events.
pub struct UsageLedger<E> {
    events: Vec<E>,
    tenants: StrMap<TenantTally>,
}

impl<E> View for UsageLedger<E> {
    type V = LedgerView<E>;

    closed spec fn view(&self) -> LedgerView<E> {
        LedgerView { events: self.events@, tenants: self.tenants@.map_values(|t: TenantTally| t@) }
    }
}

impl TenantTally {
    /// A tenant with no counts.
    fn zero() -> (t: Self)
        ensures
            t.per_model.wf(),
            t@ == spec_zero_tally(),
    {
        TenantTally {
            total_requests: 0,
            total_prompt_tokens: 0,
            total_completion_tokens: 0,
            total_tokens: 0,
            total_errors: 0,
            per_model: StrMap::new(),
        }
    }
}

impl<E> UsageLedger<E> {
    /// Internal consistency: both maps well formed and the log within its
    /// bound.
    pub closed spec fn wf(&self) -> bool {
        &&& self.tenants.wf()
        &&& forall|k: Seq<char>| #[trigger]
            self.tenants@.contains_key(k) ==> self.tenants@[k].per_model.wf()
        &&& self.events@.len() <= MAX_EVENTS
    }

    /// An empty ledger.
    pub fn new() -> (l: Self)
        ensures
            l.wf(),
            l@.events == Seq::<E>::empty(),
            l@.tenants == Map::<Seq<char>, TallyView>::empty(),
    {
        let l = UsageLedger { events: Vec::new(), tenants: StrMap::new() };
        assert(l@.tenants =~= Map::<Seq<char>, TallyView>::empty());
        l
    }

    /// Take the counts of `tenant` out of the map (zero when it has none).
    fn take_tenant(&mut self, tenant: &str) -> (t: TenantTally)
        requires
            old(self).wf(),
        ensures
            final(self).tenants.wf(),
            final(self).events == old(self).events,
            final(self).tenants@ == old(self).tenants@.remove(tenant@),
            forall|k: Seq<char>| #[trigger]
                final(self).tenants@.contains_key(k) ==> final(self).tenants@[k].per_model.wf(),
            t.per_model.wf(),
            t@ == spec_tally_of(old(self)@.tenants, tenant@),
    {
        match self.tenants.remove(tenant) {
            Some(t) => t,
            None => TenantTally::zero(),
        }
    }

    /// Count a request of `tenant` with the given token counts, without
    /// detail (no model, no event).
    pub fn record_request(&mut self, tenant: &str, prompt_tokens: u64, completion_tokens: u64)
        requires
            old(self).wf(),
        ensures
            final(self).wf(),
            final(self)@.events == old(self)@.events,
            final(self)@.tenants == old(self)@.tenants.insert(
                tenant@,
                spec_count_request(
                    spec_tally_of(old(self)@.tenants, tenant@),
                    prompt_tokens,
                    completion_tokens,
                ),
            ),
    {
        let ghost before = self.tenants@;
        let t = self.take_tenant(tenant);
        let counted = TenantTally {
            total_requests: sat_add(t.total_requests, 1),
            total_prompt_tokens: sat_add(t.total_prompt_tokens, prompt_tokens),
            total_completion_tokens: sat_add(t.total_completion_tokens, completion_tokens),
            total_tokens: sat_add(t.total_tokens, sat_add(prompt_tokens, completion_tokens)),
            total_errors: t.total_errors,
            per_model: t.per_model,
        };
        self.tenants.insert(tenant, counted);
        assert(self.tenants@.map_values(|t: TenantTally| t@) =~= before.map_values(
            |t: TenantTally| t@,
        ).insert(
            tenant@,
            spec_count_request(
                spec_tally_of(before.map_values(|t: TenantTally| t@), tenant@),
                prompt_tokens,
                completion_tokens,
            ),
        ));
    }

    /// Record a metered request of `tenant` to `model` and keep its detail
    /// `event` in the log (dropping the oldest event of a full log).
    pub fn record(
        &mut self,
        tenant: &str,
        model: &str,
        prompt_tokens: u64,
        completion_tokens: u64,
        is_error: bool,
        event: E,
    )
        requires
            old(self).wf(),
        ensures
            final(self).wf(),
            final(self)@.events == spec_log_push(old(self)@.events, event),
            final(self)@.tenants == old(self)@.tenants.insert(
                tenant@,
                spec_count_event(
                    spec_tally_of(old(self)@.tenants, tenant@),
                    model@,
                    prompt_tokens,
                    completion_tokens,
                    is_error,
                ),
            ),
    {
        let ghost before = self.tenants@;
        let ghost old_events = self.events@;
        let t = self.take_tenant(tenant);
        let mut per_model = t.per_model;
        let m = match per_model.remove(model) {
            Some(m) => m,
            None => ModelTally { requests: 0, prompt_tokens: 0, completion_tokens: 0 },
        };
        per_model.insert(
            model,
            ModelTally {
                requests: sat_add(m.requests, 1),
                prompt_tokens: sat_add(m.prompt_tokens, prompt_tokens),
                completion_tokens: sat_add(m.completion_tokens, completion_tokens),
            },
        );
        let counted = TenantTally {
            total_requests: sat_add(t.total_requests, 1),
            total_prompt_tokens: sat_add(t.total_prompt_tokens, prompt_tokens),
            total_completion_tokens: sat_add(t.total_completion_tokens, completion_tokens),
            total_tokens: sat_add(t.total_tokens, sat_add(prompt_tokens, completion_tokens)),
            total_errors: if is_error {
                sat_add(t.total_errors, 1)
            } else {
                t.total_errors
            },
            per_model,
        };
        assert(counted@.per_model =~= t@.per_model.insert(
            model@,
            spec_count_model(spec_model_of(t@.per_model, model@), prompt_tokens, completion_tokens),
        ));
        self.tenants.insert(tenant, counted);
        assert(self.tenants@.map_values(|t: TenantTally| t@) =~= before.map_values(
            |t: TenantTally| t@,
        ).insert(
            tenant@,
            spec_count_event(
                spec_tally_of(before.map_values(|t: TenantTally| t@), tenant@),
                model@,
                prompt_tokens,
                completion_tokens,
                is_error,
            ),
        ));
        if self.events.len() >= MAX_EVENTS {
            let _ = self.events.remove(0);
        }
        self.events.push(event);
        assert(self.events@ =~= spec_log_push(old_events, event));
    }

    /// Start a new billing window: the detail log is emptied; every count
    /// stays.
    pub fn reset_billing_window(&mut self)
        requires
            old(self).wf(),
        ensures
            final(self).wf(),
            final(self)@.events == Seq::<E>::empty(),
            final(self)@.tenants == old(self)@.tenants,
    {
        self.events.clear();
    }

    /// The detail events, oldest first.
    pub fn events(&self) -> (v: &Vec<E>)
        ensures
            v@ == self@.events,
    {
        &self.events
    }

    /// The counts of every tenant.
    pub fn tenants(&self) -> (m: &StrMap<TenantTally>)
        requires
            self.wf(),
        ensures
            m.wf(),
            m@.map_values(|t: TenantTally| t@) == self@.tenants,
    {
        &self.tenants
    }

    /// The counts of `tenant`, if it has any.
    pub fn tenant(&self, tenant: &str) -> (r: Option<&TenantTally>)
        requires
            self.wf(),
        ensures
            match r {
                Some(t) => self@.tenants.contains_key(tenant@) && t@ == self@.tenants[tenant@],
                None => !self@.tenants.contains_key(tenant@),
            },
    {
        self.tenants.get(tenant)
    }
}

/// Recording a metered request to `model` of `prompt` and `completion`
/// tokens raises that model's counts by one request and by those tokens,
/// and the tenant's totals likewise (all saturating; a model or tenant not
/// seen before starts from zero); the errors grow by one exactly when the
/// request failed, and every other model's counts stay.
pub proof fn lemma_record_counts(
    t: TallyView,
    model: Seq<char>,
    prompt: u64,
    completion: u64,
    is_error: bool,
    other: Seq<char>,
)
    requires
        other != model,
    ensures
        ({
            let r = spec_count_event(t, model, prompt, completion, is_error);
            let (req0, p0, c0) = if t.per_model.contains_key(model) {
                (t.per_model[model].requests, t.per_model[model].prompt_tokens, t.per_model[model].completion_tokens)
            } else {
                (0u64, 0u64, 0u64)
            };
            &&& r.per_model.contains_key(model)
            &&& r.per_model[model].requests == spec_sat_add(req0, 1)
            &&& r.per_model[model].prompt_tokens == spec_sat_add(p0, prompt)
            &&& r.per_model[model].completion_tokens == spec_sat_add(c0, completion)
            &&& r.per_model.contains_key(other) == t.per_model.contains_key(other)
            &&& (t.per_model.contains_key(other) ==> r.per_model[other] == t.per_model[other])
            &&& r.total_requests == spec_sat_add(t.total_requests, 1)
            &&& r.total_prompt_tokens == spec_sat_add(t.total_prompt_tokens, prompt)
            &&& r.total_completion_tokens == spec_sat_add(t.total_completion_tokens, completion)
            &&& r.total_tokens == spec_sat_add(t.total_tokens, spec_sat_add(prompt, completion))
            &&& r.total_errors == (if is_error { spec_sat_add(t.total_errors, 1) } else { t.total_errors })
        }),
{
}

/// Counting a request without detail raises the tenant's request count by
/// one and its token counts by the tokens given (saturating), and touches
/// neither its errors nor its per-model counts.
pub proof fn lemma_request_counts(t: TallyView, prompt: u64, completion: u64)
    ensures
        ({
            let r = spec_count_request(t, prompt, completion);
            &&& r.total_requests == spec_sat_add(t.total_requests, 1)
            &&& r.total_prompt_tokens == spec_sat_add(t.total_prompt_tokens, prompt)
            &&& r.total_completion_tokens == spec_sat_add(t.total_completion_tokens, completion)
            &&& r.total_tokens == spec_sat_add(t.total_tokens, spec_sat_add(prompt, completion))
            &&& r.total_errors == t.total_errors
            &&& r.per_model == t.per_model
        }),
{
}

/// The detail log keeps the newest events: after appending `e` to a log of
/// at most `MAX_EVENTS` events it holds at most `MAX_EVENTS`, ends with `e`,
/// and before `e` holds the newest of the earlier events, in order; only a
/// full log loses an event, its oldest.
pub proof fn lemma_log_keeps_newest<E>(s: Seq<E>, e: E)
    requires
        s.len() <= MAX_EVENTS,
    ensures
        ({
            let r = spec_log_push(s, e);
            let kept = if s.len() == MAX_EVENTS { s.len() - 1 } else { s.len() as int };
            &&& r.len() == kept + 1
            &&& r.len() <= MAX_EVENTS
            &&& r[r.len() - 1] == e
            &&& forall|i: int| 0 <= i < kept ==> #[trigger] r[i] == s[s.len() - kept + i]
        }),
{
}

} // verus!
