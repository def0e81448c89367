//! Gateway state decisions: which adapter serves a configured provider,
//! how models are routed to providers, which keys the store starts with,
//! and the global usage counters.
use vstd::prelude::*;

use crate::auth_key::{spec_made_from, ApiKeyStore};
use crate::circuit_breaker::CircuitState;
use crate::config::AuthConfig;
use crate::error::GatewayError;
use crate::metering::Usage;
use crate::strmap::StrMap;
use crate::text::str_eq;

verus! {

// ---------------------------------------------------------------------------
// Adapters
// ---------------------------------------------------------------------------

/// The adapter that talks to a provider.
#[derive(Debug, Clone, Copy, PartialEq, Eq, Structural)]
pub enum ProviderKind {
    OpenAi,
    Anthropic,
    Gemini,
    Ollama,
    /// Any OpenAI-compatible endpoint.
    OpenAiCompat,
}

/// Whether `name` is one of the providers with a dedicated adapter.
pub open spec fn spec_is_builtin(name: Seq<char>) -> bool {
    name == "openai"@ || name == "anthropic"@ || name == "gemini"@ || name == "ollama"@
}

/// The adapter of provider `name`: unknown names, and any provider with
/// field overrides, go through the OpenAI-compatible adapter.
pub open spec fn spec_adapter_kind(name: Seq<char>, has_field_overrides: bool) -> ProviderKind {
    if has_field_overrides || !spec_is_builtin(name) {
        ProviderKind::OpenAiCompat
    } else if name == "openai"@ {
        ProviderKind::OpenAi
    } else if name == "anthropic"@ {
        ProviderKind::Anthropic
    } else if name == "gemini"@ {
        ProviderKind::Gemini
    } else {
        ProviderKind::Ollama
    }
}

/// The adapter of provider `name`.
pub fn adapter_kind(name: &str, has_field_overrides: bool) -> (k: ProviderKind)
    ensures
        k == spec_adapter_kind(name@, has_field_overrides),
{
    let builtin = str_eq(name, "openai") || str_eq(name, "anthropic") || str_eq(name, "gemini") || str_eq(
        name,
        "ollama",
    );
    if has_field_overrides || !builtin {
        ProviderKind::OpenAiCompat
    } else if str_eq(name, "openai") {
        ProviderKind::OpenAi
    } else if str_eq(name, "anthropic") {
        ProviderKind::Anthropic
    } else if str_eq(name, "gemini") {
        ProviderKind::Gemini
    } else {
        ProviderKind::Ollama
    }
}

/// Base URL of an OpenAI-compatible provider: the configured one, else
/// OpenAI's public endpoint.
pub fn compat_base_url(base_url: &Option<String>) -> (u: String)
    ensures
        u@ == (match base_url {
            Some(b) => b@,
            None => "https://api.openai.com/v1"@,
        }),
{
    match base_url {
        Some(b) => b.clone(),
        None => "https://api.openai.com/v1".to_owned(),
    }
}

// ---------------------------------------------------------------------------
// Model routing
// ---------------------------------------------------------------------------

/// Routing table `m` with each of `models` routed to provider `name`.
pub open spec fn spec_insert_models(m: Map<Seq<char>, String>, models: Seq<String>, name: String) -> Map<
    Seq<char>,
    String,
>
    decreases models.len(),
{
    if models.len() == 0 {
        m
    } else {
        spec_insert_models(m, models.drop_last(), name).insert(models.last()@, name)
    }
}

/// Routing table `m` without any of `models`.
pub open spec fn spec_remove_models(m: Map<Seq<char>, String>, models: Seq<String>) -> Map<Seq<char>, String>
    decreases models.len(),
{
    if models.len() == 0 {
        m
    } else {
        spec_remove_models(m, models.drop_last()).remove(models.last()@)
    }
}

/// The routing table of configured providers (name, models), registered in
/// order: a model served by several providers goes to the last of them.
pub open spec fn spec_routes(ps: Seq<(String, Vec<String>)>) -> Map<Seq<char>, String>
    decreases ps.len(),
{
    if ps.len() == 0 {
        Map::empty()
    } else {
        spec_insert_models(spec_routes(ps.drop_last()), ps.last().1@, ps.last().0)
    }
}

/// Route each of `models` to provider `name` (a model already routed
/// elsewhere moves to `name`).
pub fn register_models(routes: &mut StrMap<String>, name: &String, models: &Vec<String>)
    requires
        old(routes).wf(),
    ensures
        final(routes).wf(),
        final(routes)@ == spec_insert_models(old(routes)@, models@, *name),
{
    let mut i: usize = 0;
    while i < models.len()
        invariant
            routes.wf(),
            i <= models@.len(),
            routes@ == spec_insert_models(old(routes)@, models@.take(i as int), *name),
        decreases models@.len() - i,
    {
        assert(models@.take(i + 1).drop_last() == models@.take(i as int));
        routes.insert(models[i].as_str(), name.clone());
        i = i + 1;
    }
    assert(models@.take(models@.len() as int) == models@);
}

/// Stop routing each of `models`.
pub fn unregister_models(routes: &mut StrMap<String>, models: &Vec<String>)
    requires
        old(routes).wf(),
    ensures
        final(routes).wf(),
        final(routes)@ == spec_remove_models(old(routes)@, models@),
{
    let mut i: usize = 0;
    while i < models.len()
        invariant
            routes.wf(),
            i <= models@.len(),
            routes@ == spec_remove_models(old(routes)@, models@.take(i as int)),
        decreases models@.len() - i,
    {
        assert(models@.take(i + 1).drop_last() == models@.take(i as int));
        let _ = routes.remove(models[i].as_str());
        i = i + 1;
    }
    assert(models@.take(models@.len() as int) == models@);
}

/// Whether `k` is one of `models`.
pub open spec fn spec_model_listed(models: Seq<String>, k: Seq<char>) -> bool {
    exists|i: int| 0 <= i < models.len() && #[trigger] models[i]@ == k
}

/// Routing table `m` after a provider that served `old_models` is
/// registered again, as `name`, serving `new_models`: each new model routes
/// to `name`, each old model that is no longer served is dropped, and every
/// other route stays.
pub open spec fn spec_replace_models(
    m: Map<Seq<char>, String>,
    old_models: Seq<String>,
    new_models: Seq<String>,
    name: String,
) -> Map<Seq<char>, String> {
    Map::new(
        |k: Seq<char>|
            spec_model_listed(new_models, k) || (m.contains_key(k) && !spec_model_listed(old_models, k)),
        |k: Seq<char>|
            if spec_model_listed(new_models, k) {
                name
            } else {
                m[k]
            },
    )
}

/// Re-register provider `name`: its previous configuration served
/// `old_models`, the new one serves `new_models`. Routes of old models it
/// no longer serves are removed; its new models route to it.
pub fn replace_provider_models(
    routes: &mut StrMap<String>,
    name: &String,
    old_models: &Vec<String>,
    new_models: &Vec<String>,
)
    requires
        old(routes).wf(),
    ensures
        final(routes).wf(),
        final(routes)@ == spec_replace_models(old(routes)@, old_models@, new_models@, *name),
{
    let ghost m0 = routes@;
    let mut i: usize = 0;
    while i < old_models.len()
        invariant
            routes.wf(),
            i <= old_models@.len(),
            routes@ == Map::new(
                |k: Seq<char>| m0.contains_key(k) && !spec_model_listed(old_models@.take(i as int), k),
                |k: Seq<char>| m0[k],
            ),
        decreases old_models@.len() - i,
    {
        let ghost before = routes@;
        let _ = routes.remove(old_models[i].as_str());
        proof {
            let t = old_models@.take(i as int);
            let t1 = old_models@.take(i + 1);
            assert forall|k: Seq<char>| spec_model_listed(t1, k) == (spec_model_listed(t, k) || k
                == old_models@[i as int]@) by {
                if spec_model_listed(t1, k) {
                    let j = choose|j: int| 0 <= j < t1.len() && #[trigger] t1[j]@ == k;
                    if j < i {
                        assert(t[j]@ == k);
                    }
                }
                if spec_model_listed(t, k) {
                    let j = choose|j: int| 0 <= j < t.len() && #[trigger] t[j]@ == k;
                    assert(t1[j]@ == k);
                }
                if k == old_models@[i as int]@ {
                    assert(t1[i as int]@ == k);
                }
            }
            assert(routes@ =~= Map::new(
                |k: Seq<char>| m0.contains_key(k) && !spec_model_listed(t1, k),
                |k: Seq<char>| m0[k],
            ));
        }
        i = i + 1;
    }
    assert(old_models@.take(old_models@.len() as int) == old_models@);
    let ghost m1 = routes@;
    let mut j: usize = 0;
    while j < new_models.len()
        invariant
            routes.wf(),
            j <= new_models@.len(),
            m1 == Map::new(
                |k: Seq<char>| m0.contains_key(k) && !spec_model_listed(old_models@, k),
                |k: Seq<char>| m0[k],
            ),
            routes@ == Map::new(
                |k: Seq<char>| spec_model_listed(new_models@.take(j as int), k) || m1.contains_key(k),
                |k: Seq<char>|
                    if spec_model_listed(new_models@.take(j as int), k) {
                        *name
                    } else {
                        m1[k]
                    },
            ),
        decreases new_models@.len() - j,
    {
        routes.insert(new_models[j].as_str(), name.clone());
        proof {
            let t = new_models@.take(j as int);
            let t1 = new_models@.take(j + 1);
            assert forall|k: Seq<char>| spec_model_listed(t1, k) == (spec_model_listed(t, k) || k
                == new_models@[j as int]@) by {
                if spec_model_listed(t1, k) {
                    let q = choose|q: int| 0 <= q < t1.len() && #[trigger] t1[q]@ == k;
                    if q < j {
                        assert(t[q]@ == k);
                    }
                }
                if spec_model_listed(t, k) {
                    let q = choose|q: int| 0 <= q < t.len() && #[trigger] t[q]@ == k;
                    assert(t1[q]@ == k);
                }
                if k == new_models@[j as int]@ {
                    assert(t1[j as int]@ == k);
                }
            }
            assert(routes@ =~= Map::new(
                |k: Seq<char>| spec_model_listed(t1, k) || m1.contains_key(k),
                |k: Seq<char>|
                    if spec_model_listed(t1, k) {
                        *name
                    } else {
                        m1[k]
                    },
            ));
        }
        j = j + 1;
    }
    assert(new_models@.take(new_models@.len() as int) == new_models@);
    assert(routes@ =~= spec_replace_models(m0, old_models@, new_models@, *name));
}

/// Registering models routes each of them to the provider and leaves
/// every other route as it was.
pub proof fn lemma_insert_models_pointwise(m: Map<Seq<char>, String>, models: Seq<String>, name: String)
    ensures
        spec_insert_models(m, models, name) == Map::new(
            |k: Seq<char>| spec_model_listed(models, k) || m.contains_key(k),
            |k: Seq<char>|
                if spec_model_listed(models, k) {
                    name
                } else {
                    m[k]
                },
        ),
    decreases models.len(),
{
    if models.len() > 0 {
        let pre = models.drop_last();
        lemma_insert_models_pointwise(m, pre, name);
        assert forall|k: Seq<char>| spec_model_listed(models, k) == (spec_model_listed(pre, k) || k == models.last()@) by {
            if spec_model_listed(models, k) {
                let j = choose|j: int| 0 <= j < models.len() && #[trigger] models[j]@ == k;
                if j < pre.len() {
                    assert(pre[j]@ == k);
                }
            }
            if spec_model_listed(pre, k) {
                let j = choose|j: int| 0 <= j < pre.len() && #[trigger] pre[j]@ == k;
                assert(models[j]@ == k);
            }
            if k == models.last()@ {
                assert(models[models.len() - 1]@ == k);
            }
        }
        assert(spec_insert_models(m, models, name) =~= Map::new(
            |k: Seq<char>| spec_model_listed(models, k) || m.contains_key(k),
            |k: Seq<char>|
                if spec_model_listed(models, k) {
                    name
                } else {
                    m[k]
                },
        ));
    } else {
        assert(spec_insert_models(m, models, name) =~= Map::new(
            |k: Seq<char>| spec_model_listed(models, k) || m.contains_key(k),
            |k: Seq<char>|
                if spec_model_listed(models, k) {
                    name
                } else {
                    m[k]
                },
        ));
    }
}

/// Unregistering models drops their routes and leaves every other route as
/// it was.
pub proof fn lemma_remove_models_pointwise(m: Map<Seq<char>, String>, models: Seq<String>)
    ensures
        spec_remove_models(m, models) == Map::new(
            |k: Seq<char>| m.contains_key(k) && !spec_model_listed(models, k),
            |k: Seq<char>| m[k],
        ),
    decreases models.len(),
{
    if models.len() > 0 {
        let pre = models.drop_last();
        lemma_remove_models_pointwise(m, pre);
        assert forall|k: Seq<char>| spec_model_listed(models, k) == (spec_model_listed(pre, k) || k == models.last()@) by {
            if spec_model_listed(models, k) {
                let j = choose|j: int| 0 <= j < models.len() && #[trigger] models[j]@ == k;
                if j < pre.len() {
                    assert(pre[j]@ == k);
                }
            }
            if spec_model_listed(pre, k) {
                let j = choose|j: int| 0 <= j < pre.len() && #[trigger] pre[j]@ == k;
                assert(models[j]@ == k);
            }
            if k == models.last()@ {
                assert(models[models.len() - 1]@ == k);
            }
        }
        assert(spec_remove_models(m, models) =~= Map::new(
            |k: Seq<char>| m.contains_key(k) && !spec_model_listed(models, k),
            |k: Seq<char>| m[k],
        ));
    } else {
        assert(spec_remove_models(m, models) =~= Map::new(
            |k: Seq<char>| m.contains_key(k) && !spec_model_listed(models, k),
            |k: Seq<char>| m[k],
        ));
    }
}

/// The routing table of the configured providers routes exactly the models
/// some provider serves, each to the last provider in the configuration
/// that serves it.
pub proof fn lemma_routes_to_last_server(ps: Seq<(String, Vec<String>)>, k: Seq<char>)
    ensures
        spec_routes(ps).contains_key(k) <==> exists|i: int| 0 <= i < ps.len() && spec_model_listed(#[trigger] ps[i].1@, k),
        spec_routes(ps).contains_key(k) ==> exists|i: int|
            #![trigger ps[i]]
            0 <= i < ps.len() && spec_model_listed(ps[i].1@, k) && spec_routes(ps)[k] == ps[i].0 && forall|j: int|
                i < j < ps.len() ==> !spec_model_listed(#[trigger] ps[j].1@, k),
    decreases ps.len(),
{
    if ps.len() > 0 {
        let pre = ps.drop_last();
        let n = ps.len() - 1;
        assert forall|i: int| 0 <= i < n implies #[trigger] pre[i] == ps[i] by {}
        lemma_routes_to_last_server(pre, k);
        lemma_insert_models_pointwise(spec_routes(pre), ps.last().1@, ps.last().0);
        assert(ps.last() == ps[n]);
        if spec_model_listed(ps[n].1@, k) {
        } else {
            if spec_routes(pre).contains_key(k) {
                let i = choose|i: int|
                    #![trigger pre[i]]
                    0 <= i < pre.len() && spec_model_listed(pre[i].1@, k) && spec_routes(pre)[k] == pre[i].0 && forall|
                        j: int,
                    |
                        i < j < pre.len() ==> !spec_model_listed(#[trigger] pre[j].1@, k);
                assert(ps[i] == pre[i]);
                assert forall|j: int| i < j < ps.len() implies !spec_model_listed(#[trigger] ps[j].1@, k) by {
                    if j < n {
                        assert(pre[j] == ps[j]);
                    }
                }
            }
            assert((exists|i: int| 0 <= i < ps.len() && spec_model_listed(#[trigger] ps[i].1@, k)) ==> (exists|
                i: int,
            |
                0 <= i < pre.len() && spec_model_listed(#[trigger] pre[i].1@, k))) by {
                if exists|i: int| 0 <= i < ps.len() && spec_model_listed(#[trigger] ps[i].1@, k) {
                    let i = choose|i: int| 0 <= i < ps.len() && spec_model_listed(#[trigger] ps[i].1@, k);
                    assert(i < n);
                    assert(pre[i] == ps[i]);
                }
            }
            assert((exists|i: int| 0 <= i < pre.len() && spec_model_listed(#[trigger] pre[i].1@, k)) ==> (exists|
                i: int,
            |
                0 <= i < ps.len() && spec_model_listed(#[trigger] ps[i].1@, k))) by {
                if exists|i: int| 0 <= i < pre.len() && spec_model_listed(#[trigger] pre[i].1@, k) {
                    let i = choose|i: int| 0 <= i < pre.len() && spec_model_listed(#[trigger] pre[i].1@, k);
                    assert(ps[i] == pre[i]);
                }
            }
        }
    }
}

/// The model to provider table of the configured providers (name,
/// models), registered in order.
pub fn model_routing(providers: &Vec<(String, Vec<String>)>) -> (m: StrMap<String>)
    ensures
        m.wf(),
        m@ == spec_routes(providers@),
{
    let mut routes: StrMap<String> = StrMap::new();
    let mut i: usize = 0;
    while i < providers.len()
        invariant
            routes.wf(),
            i <= providers@.len(),
            routes@ == spec_routes(providers@.take(i as int)),
        decreases providers@.len() - i,
    {
        assert(providers@.take(i + 1).drop_last() == providers@.take(i as int));
        register_models(&mut routes, &providers[i].0, &providers[i].1);
        i = i + 1;
    }
    assert(providers@.take(providers@.len() as int) == providers@);
    routes
}

/// The routing table the gateway starts with; a configuration that routes
/// no model at all is refused.
pub fn build_routes(providers: &Vec<(String, Vec<String>)>) -> (r: Result<StrMap<String>, GatewayError>)
    ensures
        match r {
            Ok(m) => m.wf() && m@ == spec_routes(providers@) && exists|k: Seq<char>| m@.contains_key(k),
            Err(e) => e@ == crate::error::ErrorView::ConfigError("No providers/models configured"@)
                && spec_routes(providers@) == Map::<Seq<char>, String>::empty(),
        },
{
    let routes = model_routing(providers);
    proof {
        routes.lemma_seqs();
    }
    if routes.len() == 0 {
        proof {
            assert(routes@ =~= Map::<Seq<char>, String>::empty());
        }
        return Err(GatewayError::ConfigError("No providers/models configured".to_owned()));
    }
    proof {
        let k = routes.key_seq()[0];
        assert(routes@.contains_key(k));
    }
    Ok(routes)
}

// ---------------------------------------------------------------------------
// The key store at startup
// ---------------------------------------------------------------------------

/// The key store the gateway starts with: the structured keys when any are
/// configured, else the plaintext keys (tenant `default`, role
/// `developer`), else none.
pub fn initial_key_store(auth: &AuthConfig) -> (s: ApiKeyStore)
    ensures
        auth.structured_keys@.len() > 0 ==> {
            &&& s@.len() == auth.structured_keys@.len()
            &&& forall|i: int|
                0 <= i < s@.len() ==> spec_made_from(
                    #[trigger] s@[i],
                    auth.structured_keys@[i].0@,
                    auth.structured_keys@[i].1@,
                    auth.structured_keys@[i].2@,
                )
        },
        auth.structured_keys@.len() == 0 && auth.api_keys@.len() > 0 ==> {
            &&& s@.len() == auth.api_keys@.len()
            &&& forall|i: int|
                0 <= i < s@.len() ==> spec_made_from(#[trigger] s@[i], auth.api_keys@[i]@, "default"@, "developer"@)
        },
        auth.structured_keys@.len() == 0 && auth.api_keys@.len() == 0 ==> s@.len() == 0,
{
    if auth.structured_keys.len() > 0 {
        let mut tuples: Vec<(String, String, String)> = Vec::new();
        let mut i: usize = 0;
        while i < auth.structured_keys.len()
            invariant
                i <= auth.structured_keys@.len(),
                tuples@.len() == i,
                forall|j: int|
                    0 <= j < i ==> {
                        &&& (#[trigger] tuples@[j]).0@ == auth.structured_keys@[j].0@
                        &&& tuples@[j].1@ == auth.structured_keys@[j].1@
                        &&& tuples@[j].2@ == auth.structured_keys@[j].2@
                    },
            decreases auth.structured_keys@.len() - i,
        {
            let k = &auth.structured_keys[i];
            tuples.push((k.0.clone(), k.1.clone(), k.2.clone()));
            i = i + 1;
        }
        ApiKeyStore::from_structured_keys(tuples.as_slice())
    } else if auth.api_keys.len() > 0 {
        ApiKeyStore::from_plaintext_keys(auth.api_keys.as_slice())
    } else {
        ApiKeyStore::new()
    }
}

// ---------------------------------------------------------------------------
// Global usage counters
// ---------------------------------------------------------------------------

/// Usage counters of the whole gateway; every counter saturates at
/// `u64::MAX`.
pub struct Metrics {
    pub total_requests: u64,
    pub total_prompt_tokens: u64,
    pub total_completion_tokens: u64,
    pub total_errors: u64,
    /// Requests per model.
    pub per_model: StrMap<u64>,
}

impl Metrics {
    /// Internal consistency.
    pub open spec fn wf(&self) -> bool {
        self.per_model.wf()
    }

    /// All counters at zero.
    pub fn new() -> (m: Self)
        ensures
            m.wf(),
            m.total_requests == 0,
            m.total_prompt_tokens == 0,
            m.total_completion_tokens == 0,
            m.total_errors == 0,
            m.per_model@ == Map::<Seq<char>, u64>::empty(),
    {
        Metrics {
            total_requests: 0,
            total_prompt_tokens: 0,
            total_completion_tokens: 0,
            total_errors: 0,
            per_model: StrMap::new(),
        }
    }

    /// Count a served request to `model` and its tokens.
    pub fn record_usage(&mut self, model: &str, usage: &Usage)
        requires
            old(self).wf(),
        ensures
            final(self).wf(),
            final(self).total_requests == crate::arith::spec_sat_add(old(self).total_requests, 1),
            final(self).total_prompt_tokens == crate::arith::spec_sat_add(
                old(self).total_prompt_tokens,
                usage.prompt_tokens as u64,
            ),
            final(self).total_completion_tokens == crate::arith::spec_sat_add(
                old(self).total_completion_tokens,
                usage.completion_tokens as u64,
            ),
            final(self).total_errors == old(self).total_errors,
            final(self).per_model@ == old(self).per_model@.insert(
                model@,
                crate::arith::spec_sat_add(
                    if old(self).per_model@.contains_key(model@) {
                        old(self).per_model@[model@]
                    } else {
                        0
                    },
                    1,
                ),
            ),
    {
        self.total_requests = crate::arith::sat_add(self.total_requests, 1);
        self.total_prompt_tokens = crate::arith::sat_add(self.total_prompt_tokens, usage.prompt_tokens as u64);
        self.total_completion_tokens = crate::arith::sat_add(
            self.total_completion_tokens,
            usage.completion_tokens as u64,
        );
        let n = match self.per_model.get(model) {
            Some(c) => *c,
            None => 0,
        };
        self.per_model.insert(model, crate::arith::sat_add(n, 1));
    }

    /// Count a failed request.
    pub fn record_error(&mut self)
        requires
            old(self).wf(),
        ensures
            final(self).wf(),
            final(self).total_errors == crate::arith::spec_sat_add(old(self).total_errors, 1),
            final(self).total_requests == old(self).total_requests,
            final(self).total_prompt_tokens == old(self).total_prompt_tokens,
            final(self).total_completion_tokens == old(self).total_completion_tokens,
            final(self).per_model@ == old(self).per_model@,
    {
        self.total_errors = crate::arith::sat_add(self.total_errors, 1);
    }
}

// ---------------------------------------------------------------------------
// Readiness
// ---------------------------------------------------------------------------

/// Ready to serve: the configuration is usable and some provider accepts
/// requests (closed or half-open circuit); with no provider tracked yet,
/// every provider counts as accepting.
pub fn is_ready(config_ok: bool, states: &Vec<(String, CircuitState)>) -> (r: bool)
    ensures
        r == (config_ok && (states@.len() == 0 || exists|i: int|
            0 <= i < states@.len() && (#[trigger] states@[i]).1 != CircuitState::Open)),
{
    if states.len() == 0 {
        return config_ok;
    }
    let mut i: usize = 0;
    while i < states.len()
        invariant
            i <= states@.len(),
            forall|j: int| 0 <= j < i ==> (#[trigger] states@[j]).1 == CircuitState::Open,
        decreases states@.len() - i,
    {
        match states[i].1 {
            CircuitState::Open => {},
            _ => {
                assert(states@[i as int].1 != CircuitState::Open);
                return config_ok;
            },
        }
        i = i + 1;
    }
    false
}

// ---------------------------------------------------------------------------
// Errors at the HTTP boundary
// ---------------------------------------------------------------------------

/// An error on its way to becoming an HTTP response.
#[derive(Debug)]
pub struct ApiError(pub GatewayError);

impl From<GatewayError> for ApiError {
    fn from(e: GatewayError) -> (r: Self) {
        ApiError(e)
    }
}

impl vstd::std_specs::convert::FromSpecImpl<GatewayError> for ApiError {
    open spec fn obeys_from_spec() -> bool {
        true
    }

    open spec fn from_spec(e: GatewayError) -> Self {
        ApiError(e)
    }
}

} // verus!
