//! The routing decision: which provider and model serve a request.
use std::time::Instant;
use vstd::prelude::*;
use crate::provider::config::{FallbackCondition as RuleCondition, RouteRule};
use crate::provider::decision::{
    CostPreference, FallbackCondition, FallbackEntry, LatencyTracker, RouteContext, RouteDecision,
};
use crate::provider::error::ProviderError;
use crate::provider::model_info::{spec_satisfies, CapabilityRequest, ModelInfo};
use crate::provider::decision::decision_entries;
use crate::provider::error::spec_is_retryable;
use crate::text::{push_str, str_eq};

verus! {

#[verifier::external_type_specification]
#[verifier::external_body]
pub struct ExInstant(std::time::Instant);

/// `Instant` is `Copy`: its `clone` is the same value.
pub assume_specification[ <Instant as Clone>::clone ](t: &Instant) -> (r: Instant)
    ensures
        r == *t,
;

/// Health of a provider.
#[derive(Debug, Clone)]
pub enum HealthState {
    Healthy,
    Degraded { failure_count: u32 },
    CircuitOpen { until: Instant },
}

/// The names of the models a provider serves.
#[derive(Debug, Clone)]
pub struct ProviderModels {
    pub name: String,
    pub models: Vec<String>,
}

/// Everything the router decides from: the providers (in the order in which the
/// router's provider map is walked) with the models each serves, the model
/// registry, the named routes, the default model, the latency history and the
/// health of each provider.
#[derive(Debug, Clone)]
pub struct RouterTable {
    pub providers: Vec<ProviderModels>,
    pub model_registry: Vec<ModelInfo>,
    pub routing_rules: Vec<(String, RouteRule)>,
    pub default_model: String,
    pub latency_tracker: LatencyTracker,
    pub health_states: Vec<(String, HealthState)>,
}

/// Whether provider `p` serves `model`.
pub open spec fn offers(p: ProviderModels, model: Seq<char>) -> bool {
    exists|k: int| 0 <= k < p.models@.len() && (#[trigger] p.models@[k])@ == model
}

/// The first provider that serves `model`.
pub open spec fn find_provider(ps: Seq<ProviderModels>, model: Seq<char>) -> Option<Seq<char>>
    decreases ps.len(),
{
    if ps.len() == 0 {
        None
    } else if offers(ps[0], model) {
        Some(ps[0].name@)
    } else {
        find_provider(ps.skip(1), model)
    }
}

/// Whether a provider of this name exists.
pub open spec fn has_provider(ps: Seq<ProviderModels>, name: Seq<char>) -> bool {
    exists|i: int| 0 <= i < ps.len() && (#[trigger] ps[i]).name@ == name
}

/// The provider of the first registry entry for `model` whose provider exists.
pub open spec fn find_in_registry(reg: Seq<ModelInfo>, ps: Seq<ProviderModels>, model: Seq<char>) -> Option<Seq<char>>
    decreases reg.len(),
{
    if reg.len() == 0 {
        None
    } else if reg[0].name@ == model && (reg[0].provider matches Some(p) && has_provider(ps, p@)) {
        Some(reg[0].provider->0@)
    } else {
        find_in_registry(reg.skip(1), ps, model)
    }
}

/// The provider that serves `model`: the first provider offering it, else the first
/// registry entry naming an existing provider.
pub open spec fn route_for_model(ps: Seq<ProviderModels>, reg: Seq<ModelInfo>, model: Seq<char>) -> Option<Seq<char>> {
    match find_provider(ps, model) {
        Some(p) => Some(p),
        None => find_in_registry(reg, ps, model),
    }
}

/// `r` is what routing straight to `model` gives.
pub open spec fn model_outcome(
    ps: Seq<ProviderModels>,
    reg: Seq<ModelInfo>,
    model: Seq<char>,
    r: Result<RouteDecision, ProviderError>,
) -> bool {
    match route_for_model(ps, reg, model) {
        Some(p) => r matches Ok(d) && d.model@ == model && d.provider@ == p && d.fallback_chain@.len() == 0,
        None => r matches Err(ProviderError::ModelNotFound(m)) && m@ == model,
    }
}

/// The provider of a named route: its pinned provider, else the first provider
/// serving its model, else the empty name.
pub open spec fn rule_provider(ps: Seq<ProviderModels>, rule: RouteRule) -> Seq<char> {
    match rule.provider {
        Some(p) => p@,
        None => match find_provider(ps, rule.model@) {
            Some(p) => p,
            None => Seq::empty(),
        },
    }
}

/// A fallback condition carried over from a rule.
pub open spec fn same_condition(c: FallbackCondition, r: RuleCondition) -> bool {
    match (c, r) {
        (FallbackCondition::Always, RuleCondition::Always) => true,
        (FallbackCondition::RateLimitOnly, RuleCondition::RateLimitOnly) => true,
        (FallbackCondition::ErrorStatus(a), RuleCondition::ErrorStatus(b)) => a@ == b@,
        _ => false,
    }
}

/// `r` is what routing by named route `rule` gives.
pub open spec fn rule_outcome(ps: Seq<ProviderModels>, rule: RouteRule, r: Result<RouteDecision, ProviderError>) -> bool {
    r matches Ok(d) && {
        &&& d.model@ == rule.model@
        &&& d.provider@ == rule_provider(ps, rule)
        &&& d.fallback_chain@.len() == rule.fallback@.len()
        &&& forall|k: int| 0 <= k < d.fallback_chain@.len() ==> {
            let e = #[trigger] d.fallback_chain@[k];
            let f = rule.fallback@[k];
            &&& e.model@ == f.model@
            &&& e.provider@ == match f.provider { Some(p) => p@, None => rule_provider(ps, rule) }
            &&& same_condition(e.condition, f.condition)
        }
    }
}

/// Position of the named route `name` among the rules.
pub open spec fn find_rule(rules: Seq<(String, RouteRule)>, name: Seq<char>) -> Option<int>
    decreases rules.len(),
{
    if rules.len() == 0 {
        None
    } else if rules[0].0@ == name {
        Some(0)
    } else {
        match find_rule(rules.skip(1), name) {
            Some(i) => Some(i + 1),
            None => None,
        }
    }
}

/// Whether a provider in this health state takes requests.
pub open spec fn state_usable(s: HealthState) -> bool {
    !(s is CircuitOpen)
}

/// Whether the provider `p` takes requests: its first recorded state is not an open
/// circuit (a provider with no recorded state takes requests).
pub open spec fn provider_usable(hs: Seq<(String, HealthState)>, p: Seq<char>) -> bool
    decreases hs.len(),
{
    if hs.len() == 0 {
        true
    } else if hs[0].0@ == p {
        state_usable(hs[0].1)
    } else {
        provider_usable(hs.skip(1), p)
    }
}

/// Registry positions below `n` whose model meets `req`, in order.
pub open spec fn satisfying(reg: Seq<ModelInfo>, req: CapabilityRequest, n: int) -> Seq<int>
    decreases n,
{
    if n <= 0 {
        Seq::empty()
    } else if spec_satisfies(reg[n - 1].capabilities, req) {
        satisfying(reg, req, n - 1).push(n - 1)
    } else {
        satisfying(reg, req, n - 1)
    }
}

/// The positions of `c` (registry positions) whose provider takes requests, or
/// which name no provider.
pub open spec fn healthy_among(reg: Seq<ModelInfo>, hs: Seq<(String, HealthState)>, c: Seq<int>) -> Seq<int>
    decreases c.len(),
{
    if c.len() == 0 {
        Seq::empty()
    } else {
        let rest = healthy_among(reg, hs, c.drop_last());
        let m = reg[c.last()];
        if m.provider matches Some(p) && !provider_usable(hs, p@) {
            rest
        } else {
            rest.push(c.last())
        }
    }
}

/// The candidate pool: healthy candidates when there are any, else all candidates.
pub open spec fn candidate_pool(reg: Seq<ModelInfo>, hs: Seq<(String, HealthState)>, req: CapabilityRequest) -> Seq<int> {
    let c = satisfying(reg, req, reg.len() as int);
    let h = healthy_among(reg, hs, c);
    if h.len() > 0 { h } else { c }
}

/// Whether an `f64` bit pattern is a NaN.
pub open spec fn f64_is_nan(b: u64) -> bool {
    (b / 0x10_0000_0000_0000) % 0x800 == 0x7ff && b % 0x10_0000_0000_0000 != 0
}

/// A key that orders non-NaN `f64` bit patterns as their values are ordered.
pub open spec fn f64_order_key(b: u64) -> int {
    if b >= 0x8000_0000_0000_0000 {
        -((b - 0x8000_0000_0000_0000) as int)
    } else {
        b as int
    }
}

/// `a.partial_cmp(&b) == Some(Greater)` for the `f64` values of two bit patterns.
pub open spec fn f64_greater(a: u64, b: u64) -> bool {
    !f64_is_nan(a) && !f64_is_nan(b) && f64_order_key(a) > f64_order_key(b)
}

/// Position in `pool` of the model `min_by` on input price picks: a later model
/// replaces the current pick only when the pick's price compares greater.
pub open spec fn cheapest_pos(reg: Seq<ModelInfo>, pool: Seq<int>) -> int
    decreases pool.len(),
{
    if pool.len() <= 1 {
        0
    } else {
        let a = cheapest_pos(reg, pool.drop_last());
        if f64_greater(
            reg[pool[a]].pricing.input_per_million_bits,
            reg[pool.last()].pricing.input_per_million_bits,
        ) {
            pool.len() - 1
        } else {
            a
        }
    }
}

/// The names of the registry entries at the positions of `pool`.
pub open spec fn pool_names(reg: Seq<ModelInfo>, pool: Seq<int>) -> Seq<Seq<char>> {
    pool.map_values(|i: int| reg[i].name@)
}

/// Position in `pool` of the model picked for preference `pref`.
pub open spec fn pick_pos(t: RouterTable, pool: Seq<int>, pref: CostPreference) -> int {
    match pref {
        CostPreference::Cheapest => cheapest_pos(t.model_registry@, pool),
        CostPreference::Fastest => match t.latency_tracker.fastest_pick(pool_names(t.model_registry@, pool)) {
            Some(i) => i,
            None => 0,
        },
        _ => 0,
    }
}

proof fn lemma_cheapest_range(reg: Seq<ModelInfo>, pool: Seq<int>)
    requires
        pool.len() > 0,
    ensures
        0 <= cheapest_pos(reg, pool) < pool.len(),
    decreases pool.len(),
{
    if pool.len() > 1 {
        lemma_cheapest_range(reg, pool.drop_last());
    }
}

proof fn lemma_satisfying_range(reg: Seq<ModelInfo>, req: CapabilityRequest, n: int)
    requires
        n <= reg.len(),
    ensures
        forall|k: int| 0 <= k < satisfying(reg, req, n).len() ==> 0 <= #[trigger] satisfying(reg, req, n)[k] < n,
    decreases n,
{
    if n > 0 {
        lemma_satisfying_range(reg, req, n - 1);
        let prev = satisfying(reg, req, n - 1);
        if spec_satisfies(reg[n - 1].capabilities, req) {
            assert forall|k: int| 0 <= k < prev.push(n - 1).len() implies 0 <= #[trigger] prev.push(n - 1)[k] < n by {
                if k < prev.len() {
                    assert(prev.push(n - 1)[k] == prev[k]);
                }
            }
        }
    }
}

proof fn lemma_healthy_subset(reg: Seq<ModelInfo>, hs: Seq<(String, HealthState)>, c: Seq<int>, bound: int)
    requires
        forall|k: int| 0 <= k < c.len() ==> 0 <= #[trigger] c[k] < bound,
    ensures
        forall|k: int| 0 <= k < healthy_among(reg, hs, c).len() ==> 0 <= #[trigger] healthy_among(reg, hs, c)[k] < bound,
    decreases c.len(),
{
    if c.len() > 0 {
        assert forall|k: int| 0 <= k < c.drop_last().len() implies 0 <= #[trigger] c.drop_last()[k] < bound by {
            assert(c.drop_last()[k] == c[k]);
        }
        lemma_healthy_subset(reg, hs, c.drop_last(), bound);
        let rest = healthy_among(reg, hs, c.drop_last());
        assert(0 <= c.last() < bound);
        assert forall|k: int| 0 <= k < rest.push(c.last()).len() implies 0 <= #[trigger] rest.push(c.last())[k] < bound by {
            if k < rest.len() {
                assert(rest.push(c.last())[k] == rest[k]);
            }
        }
    }
}

impl RouterTable {
    /// Whether every registry model's latency history sums within `u64`, so that
    /// averages can be taken.
    pub open spec fn latency_sums_fit(&self) -> bool {
        forall|i: int| 0 <= i < self.model_registry@.len() ==>
            self.latency_tracker.sum_fits(#[trigger] self.model_registry@[i].name@)
    }

    /// Whether every registry model's latency history sums within `u64`.
    pub fn check_latency_sums(&self) -> (r: bool)
        ensures
            r == self.latency_sums_fit(),
    {
        let mut i: usize = 0;
        while i < self.model_registry.len()
            invariant
                i <= self.model_registry@.len(),
                forall|j: int| 0 <= j < i ==> self.latency_tracker.sum_fits(#[trigger] self.model_registry@[j].name@),
            decreases self.model_registry.len() - i,
        {
            if !self.latency_tracker.history_sum_fits(self.model_registry[i].name.as_str()) {
                return false;
            }
            i = i + 1;
        }
        true
    }

    fn find_provider_exec(&self, model: &str) -> (r: Option<String>)
        ensures
            r matches Some(p) ==> find_provider(self.providers@, model@) == Some(p@),
            r is None ==> find_provider(self.providers@, model@) is None,
    {
        let mut i: usize = 0;
        proof {
            assert(self.providers@.skip(0) =~= self.providers@);
        }
        while i < self.providers.len()
            invariant
                i <= self.providers@.len(),
                find_provider(self.providers@, model@) == find_provider(self.providers@.skip(i as int), model@),
            decreases self.providers.len() - i,
        {
            let p = &self.providers[i];
            proof {
                assert(self.providers@.skip(i as int)[0] == *p);
                assert(self.providers@.skip(i as int).skip(1) =~= self.providers@.skip(i + 1));
            }
            let mut k: usize = 0;
            while k < p.models.len()
                invariant
                    i < self.providers@.len(),
                    *p == self.providers@[i as int],
                    self.providers@.skip(i as int)[0] == *p,
                    find_provider(self.providers@, model@) == find_provider(self.providers@.skip(i as int), model@),
                    k <= p.models@.len(),
                    forall|j: int| 0 <= j < k ==> (#[trigger] p.models@[j])@ != model@,
                decreases p.models.len() - k,
            {
                if str_eq(p.models[k].as_str(), model) {
                    proof {
                        assert(p.models@[k as int]@ == model@);
                        assert(offers(*p, model@));
                    }
                    return Some(p.name.clone());
                }
                k = k + 1;
            }
            i = i + 1;
        }
        None
    }

    fn has_provider_exec(&self, name: &str) -> (r: bool)
        ensures
            r == has_provider(self.providers@, name@),
    {
        let mut i: usize = 0;
        while i < self.providers.len()
            invariant
                i <= self.providers@.len(),
                forall|j: int| 0 <= j < i ==> (#[trigger] self.providers@[j]).name@ != name@,
            decreases self.providers.len() - i,
        {
            if str_eq(self.providers[i].name.as_str(), name) {
                return true;
            }
            i = i + 1;
        }
        false
    }

    /// Routes straight to `model`: the first provider that serves it, else the first
    /// registry entry for it whose provider exists; `ModelNotFound` otherwise.
    pub fn resolve_by_model(&self, model: &str) -> (r: Result<RouteDecision, ProviderError>)
        ensures
            model_outcome(self.providers@, self.model_registry@, model@, r),
    {
        if let Some(p) = self.find_provider_exec(model) {
            return Ok(RouteDecision { model: model.to_string(), provider: p, fallback_chain: Vec::new() });
        }
        let mut i: usize = 0;
        proof {
            assert(self.model_registry@.skip(0) =~= self.model_registry@);
        }
        while i < self.model_registry.len()
            invariant
                find_provider(self.providers@, model@) is None,
                i <= self.model_registry@.len(),
                find_in_registry(self.model_registry@, self.providers@, model@)
                    == find_in_registry(self.model_registry@.skip(i as int), self.providers@, model@),
            decreases self.model_registry.len() - i,
        {
            let m = &self.model_registry[i];
            proof {
                assert(self.model_registry@.skip(i as int)[0] == *m);
                assert(self.model_registry@.skip(i as int).skip(1) =~= self.model_registry@.skip(i + 1));
            }
            if str_eq(m.name.as_str(), model) {
                if let Some(p) = &m.provider {
                    if self.has_provider_exec(p.as_str()) {
                        return Ok(RouteDecision { model: model.to_string(), provider: p.clone(), fallback_chain: Vec::new() });
                    }
                }
            }
            i = i + 1;
        }
        Err(ProviderError::ModelNotFound(model.to_string()))
    }

    fn copy_condition(c: &RuleCondition) -> (r: FallbackCondition)
        ensures
            same_condition(r, *c),
    {
        match c {
            RuleCondition::Always => FallbackCondition::Always,
            RuleCondition::RateLimitOnly => FallbackCondition::RateLimitOnly,
            RuleCondition::ErrorStatus(codes) => {
                let mut v: Vec<u16> = Vec::new();
                let mut i: usize = 0;
                while i < codes.len()
                    invariant
                        i <= codes@.len(),
                        v@ == codes@.take(i as int),
                    decreases codes.len() - i,
                {
                    proof {
                        assert(codes@.take(i + 1) =~= codes@.take(i as int).push(codes@[i as int]));
                    }
                    v.push(codes[i]);
                    i = i + 1;
                }
                proof {
                    assert(codes@.take(codes@.len() as int) =~= codes@);
                }
                FallbackCondition::ErrorStatus(v)
            },
        }
    }

    /// Routes by a named route: its model on its provider, with its fallbacks.
    pub fn resolve_rule(&self, name: &str, rule: &RouteRule) -> (r: Result<RouteDecision, ProviderError>)
        ensures
            rule_outcome(self.providers@, *rule, r),
    {
        let provider_name: String = match &rule.provider {
            Some(p) => p.clone(),
            None => match self.find_provider_exec(rule.model.as_str()) {
                Some(p) => p,
                None => String::new(),
            },
        };
        let mut chain: Vec<FallbackEntry> = Vec::new();
        let mut i: usize = 0;
        while i < rule.fallback.len()
            invariant
                i <= rule.fallback@.len(),
                provider_name@ == rule_provider(self.providers@, *rule),
                chain@.len() == i,
                forall|k: int| 0 <= k < i ==> {
                    let e = #[trigger] chain@[k];
                    let f = rule.fallback@[k];
                    &&& e.model@ == f.model@
                    &&& e.provider@ == match f.provider { Some(p) => p@, None => rule_provider(self.providers@, *rule) }
                    &&& same_condition(e.condition, f.condition)
                },
            decreases rule.fallback.len() - i,
        {
            let f = &rule.fallback[i];
            let provider = match &f.provider {
                Some(p) => p.clone(),
                None => provider_name.clone(),
            };
            chain.push(FallbackEntry {
                model: f.model.clone(),
                provider,
                condition: RouterTable::copy_condition(&f.condition),
            });
            i = i + 1;
        }
        Ok(RouteDecision { model: rule.model.clone(), provider: provider_name, fallback_chain: chain })
    }

    fn is_healthy(&self, p: &str) -> (r: bool)
        ensures
            r == provider_usable(self.health_states@, p@),
    {
        let mut i: usize = 0;
        proof {
            assert(self.health_states@.skip(0) =~= self.health_states@);
        }
        while i < self.health_states.len()
            invariant
                i <= self.health_states@.len(),
                provider_usable(self.health_states@, p@) == provider_usable(self.health_states@.skip(i as int), p@),
            decreases self.health_states.len() - i,
        {
            proof {
                assert(self.health_states@.skip(i as int)[0] == self.health_states@[i as int]);
                assert(self.health_states@.skip(i as int).skip(1) =~= self.health_states@.skip(i + 1));
            }
            if str_eq(self.health_states[i].0.as_str(), p) {
                return match &self.health_states[i].1 {
                    HealthState::CircuitOpen { .. } => false,
                    _ => true,
                };
            }
            i = i + 1;
        }
        true
    }

    fn find_rule_exec(&self, name: &str) -> (r: Option<usize>)
        ensures
            r matches Some(i) ==> find_rule(self.routing_rules@, name@) == Some(i as int) && i < self.routing_rules@.len(),
            r is None ==> find_rule(self.routing_rules@, name@) is None,
    {
        let mut i: usize = 0;
        proof {
            assert(self.routing_rules@.skip(0) =~= self.routing_rules@);
        }
        while i < self.routing_rules.len()
            invariant
                i <= self.routing_rules@.len(),
                find_rule(self.routing_rules@, name@) == match find_rule(self.routing_rules@.skip(i as int), name@) {
                    Some(j) => Some(j + i),
                    None => None,
                },
            decreases self.routing_rules.len() - i,
        {
            proof {
                assert(self.routing_rules@.skip(i as int)[0] == self.routing_rules@[i as int]);
                assert(self.routing_rules@.skip(i as int).skip(1) =~= self.routing_rules@.skip(i + 1));
            }
            if str_eq(self.routing_rules[i].0.as_str(), name) {
                return Some(i);
            }
            i = i + 1;
        }
        None
    }

    /// Registry positions of the candidate pool for `req`.
    fn pool_for(&self, req: &CapabilityRequest) -> (r: (Vec<usize>, bool))
        ensures
            r.0@.map_values(|i: usize| i as int) == candidate_pool(self.model_registry@, self.health_states@, *req),
            r.1 == (satisfying(self.model_registry@, *req, self.model_registry@.len() as int).len() > 0),
            forall|k: int| 0 <= k < r.0@.len() ==> (#[trigger] r.0@[k]) < self.model_registry@.len(),
    {
        let ghost reg = self.model_registry@;
        let mut cands: Vec<usize> = Vec::new();
        let mut i: usize = 0;
        while i < self.model_registry.len()
            invariant
                reg == self.model_registry@,
                i <= reg.len(),
                cands@.map_values(|i: usize| i as int) == satisfying(reg, *req, i as int),
            decreases self.model_registry.len() - i,
        {
            if self.model_registry[i].satisfies(req) {
                proof {
                    assert(cands@.push(i).map_values(|i: usize| i as int) =~= cands@.map_values(|i: usize| i as int).push(i as int));
                }
                cands.push(i);
            }
            i = i + 1;
        }
        let ghost c = satisfying(reg, *req, reg.len() as int);
        proof {
            lemma_satisfying_range(reg, *req, reg.len() as int);
        }
        let mut healthy: Vec<usize> = Vec::new();
        let mut k: usize = 0;
        while k < cands.len()
            invariant
                reg == self.model_registry@,
                k <= cands@.len(),
                cands@.map_values(|i: usize| i as int) == c,
                forall|j: int| 0 <= j < c.len() ==> 0 <= #[trigger] c[j] < reg.len(),
                healthy@.map_values(|i: usize| i as int) == healthy_among(reg, self.health_states@, c.take(k as int)),
            decreases cands.len() - k,
        {
            let idx = cands[k];
            proof {
                assert(c[k as int] == idx as int);
                assert(c.take(k + 1).drop_last() =~= c.take(k as int));
                assert(c.take(k + 1).last() == idx as int);
            }
            let keep = match &self.model_registry[idx].provider {
                Some(p) => self.is_healthy(p.as_str()),
                None => true,
            };
            if keep {
                proof {
                    assert(healthy@.push(idx).map_values(|i: usize| i as int) =~= healthy@.map_values(|i: usize| i as int).push(idx as int));
                }
                healthy.push(idx);
            }
            k = k + 1;
        }
        proof {
            assert(c.take(c.len() as int) =~= c);
            lemma_healthy_subset(reg, self.health_states@, c, reg.len() as int);
            assert forall|j: int| 0 <= j < cands@.len() implies (#[trigger] cands@[j]) < reg.len() by {
                assert(c[j] == cands@[j] as int);
            }
            assert forall|j: int| 0 <= j < healthy@.len() implies (#[trigger] healthy@[j]) < reg.len() by {
                assert(healthy@.map_values(|i: usize| i as int)[j] == healthy@[j] as int);
            }
        }
        let nonempty = cands.len() > 0;
        if healthy.len() > 0 {
            (healthy, nonempty)
        } else {
            (cands, nonempty)
        }
    }

    fn cheapest_in(&self, pool: &Vec<usize>) -> (r: usize)
        requires
            pool@.len() > 0,
            forall|k: int| 0 <= k < pool@.len() ==> (#[trigger] pool@[k]) < self.model_registry@.len(),
        ensures
            r as int == cheapest_pos(self.model_registry@, pool@.map_values(|i: usize| i as int)),
    {
        let ghost ps = pool@.map_values(|i: usize| i as int);
        let mut best: usize = 0;
        let mut k: usize = 1;
        while k < pool.len()
            invariant
                1 <= k <= pool@.len(),
                ps == pool@.map_values(|i: usize| i as int),
                forall|j: int| 0 <= j < pool@.len() ==> (#[trigger] pool@[j]) < self.model_registry@.len(),
                best as int == cheapest_pos(self.model_registry@, ps.take(k as int)),
                best < k,
            decreases pool.len() - k,
        {
            proof {
                assert(ps.take(k + 1).drop_last() =~= ps.take(k as int));
                lemma_cheapest_range(self.model_registry@, ps.take(k as int));
            }
            let a = self.model_registry[pool[best]].pricing.input_per_million_bits;
            let b = self.model_registry[pool[k]].pricing.input_per_million_bits;
            if f64_bits_greater(a, b) {
                best = k;
            }
            k = k + 1;
        }
        proof {
            assert(ps.take(pool@.len() as int) =~= ps);
        }
        best
    }

    /// The routing decision for `ctx`:
    /// 1. a requested model is routed to directly;
    /// 2. else a named route that exists is followed, with its fallbacks;
    /// 3. else a capability request picks among the registry models that meet it
    ///    (the healthy ones when there are any): the cheapest by input price, the
    ///    fastest by latency history, or the first; `NoModelForCapability` when no
    ///    model meets it. Only the fastest choice sums latency histories, and only
    ///    it needs those sums to fit in `u64`;
    /// 4. else the default model is routed to.
    pub fn resolve(&self, ctx: &RouteContext) -> (r: Result<RouteDecision, ProviderError>)
        requires
            (ctx.model is None && !(ctx.named_route matches Some(n) && find_rule(self.routing_rules@, n@) is Some)
                && ctx.capabilities is Some && ctx.cost_preference is Fastest) ==> self.latency_sums_fit(),
        ensures
            ctx.model matches Some(m) ==> model_outcome(self.providers@, self.model_registry@, m@, r),
            (ctx.model is None && (ctx.named_route matches Some(n) && find_rule(self.routing_rules@, n@) is Some))
                ==> rule_outcome(self.providers@, self.routing_rules@[find_rule(self.routing_rules@, ctx.named_route->0@)->0].1, r),
            (ctx.model is None && !(ctx.named_route matches Some(n) && find_rule(self.routing_rules@, n@) is Some)
                && ctx.capabilities is Some) ==> {
                    let req = ctx.capabilities->0;
                    let pool = candidate_pool(self.model_registry@, self.health_states@, req);
                    if satisfying(self.model_registry@, req, self.model_registry@.len() as int).len() == 0 {
                        r matches Err(ProviderError::NoModelForCapability { required }) && required == req
                    } else {
                        model_outcome(
                            self.providers@,
                            self.model_registry@,
                            self.model_registry@[pool[pick_pos(*self, pool, ctx.cost_preference)]].name@,
                            r,
                        )
                    }
                },
            (ctx.model is None && !(ctx.named_route matches Some(n) && find_rule(self.routing_rules@, n@) is Some)
                && ctx.capabilities is None) ==> model_outcome(self.providers@, self.model_registry@, self.default_model@, r),
    {
        if let Some(model) = &ctx.model {
            return self.resolve_by_model(model.as_str());
        }
        if let Some(name) = &ctx.named_route {
            if let Some(i) = self.find_rule_exec(name.as_str()) {
                return self.resolve_rule(self.routing_rules[i].0.as_str(), &self.routing_rules[i].1);
            }
        }
        if let Some(req) = &ctx.capabilities {
            let (pool, any) = self.pool_for(req);
            if !any {
                return Err(ProviderError::NoModelForCapability { required: *req });
            }
            let ghost ps = pool@.map_values(|i: usize| i as int);
            proof {
                lemma_satisfying_range(self.model_registry@, *req, self.model_registry@.len() as int);
                assert(ps.len() > 0);
                assert(pool@.len() > 0);
            }
            let pos: usize = match ctx.cost_preference {
                CostPreference::Cheapest => self.cheapest_in(&pool),
                CostPreference::Fastest => {
                    let mut names: Vec<&str> = Vec::new();
                    let mut k: usize = 0;
                    while k < pool.len()
                        invariant
                            k <= pool@.len(),
                            names@.len() == k,
                            forall|j: int| 0 <= j < pool@.len() ==> (#[trigger] pool@[j]) < self.model_registry@.len(),
                            forall|j: int| 0 <= j < k ==> (#[trigger] names@[j])@ == self.model_registry@[pool@[j] as int].name@,
                        decreases pool.len() - k,
                    {
                        names.push(self.model_registry[pool[k]].name.as_str());
                        k = k + 1;
                    }
                    proof {
                        assert(names@.map_values(|s: &str| s@) =~= pool_names(self.model_registry@, ps));
                        assert forall|j: int| 0 <= j < names@.len() implies self.latency_tracker.sum_fits(#[trigger] names@[j]@) by {
                            assert(self.latency_tracker.sum_fits(self.model_registry@[pool@[j] as int].name@));
                        }
                    }
                    match self.latency_tracker.fastest_index(&names) {
                        Some(i) => i,
                        None => 0,
                    }
                },
                _ => 0,
            };
            proof {
                lemma_cheapest_range(self.model_registry@, ps);
            }
            let target = self.model_registry[pool[pos]].name.as_str();
            return self.resolve_by_model(target);
        }
        self.resolve_by_model(self.default_model.as_str())
    }
}

/// The pairs of `es` whose provider exists, in order.
pub open spec fn available(ps: Seq<ProviderModels>, es: Seq<(Seq<char>, Seq<char>)>) -> Seq<(Seq<char>, Seq<char>)>
    decreases es.len(),
{
    if es.len() == 0 {
        Seq::empty()
    } else if has_provider(ps, es.last().0) {
        available(ps, es.drop_last()).push(es.last())
    } else {
        available(ps, es.drop_last())
    }
}

impl RouterTable {
    /// A table for the given providers, every one of them healthy, with an empty
    /// latency history of capacity 10.
    pub fn new(
        providers: Vec<ProviderModels>,
        model_registry: Vec<ModelInfo>,
        routing_rules: Vec<(String, RouteRule)>,
        default_model: String,
    ) -> (t: Self)
        ensures
            t.providers@ == providers@,
            t.model_registry@ == model_registry@,
            t.routing_rules@ == routing_rules@,
            t.default_model == default_model,
            t.latency_tracker.wf(),
            t.latency_tracker.capacity() == 10,
            forall|m: Seq<char>| t.latency_tracker.history(m) is None,
            t.health_states@.len() == providers@.len(),
            forall|i: int| 0 <= i < providers@.len() ==> (#[trigger] t.health_states@[i]).0@ == providers@[i].name@
                && t.health_states@[i].1 is Healthy,
    {
        let mut health: Vec<(String, HealthState)> = Vec::new();
        let mut i: usize = 0;
        while i < providers.len()
            invariant
                i <= providers@.len(),
                health@.len() == i,
                forall|j: int| 0 <= j < i ==> (#[trigger] health@[j]).0@ == providers@[j].name@ && health@[j].1 is Healthy,
            decreases providers.len() - i,
        {
            health.push((providers[i].name.clone(), HealthState::Healthy));
            i = i + 1;
        }
        RouterTable {
            providers,
            model_registry,
            routing_rules,
            default_model,
            latency_tracker: LatencyTracker::default(),
            health_states: health,
        }
    }

    /// The (provider, model) pairs to try for a decision: a `Config` error when its
    /// primary provider does not exist, else its pairs, primary first, whose
    /// provider exists.
    pub fn fallback_plan(&self, decision: &RouteDecision) -> (r: Result<Vec<(String, String)>, ProviderError>)
        ensures
            !has_provider(self.providers@, decision.provider@) ==> (r matches Err(ProviderError::Config(m))
                && m@ == "Provider "@ + decision.provider@ + " not found"@),
            has_provider(self.providers@, decision.provider@) ==> (r matches Ok(v)
                && v@.map_values(|e: (String, String)| (e.0@, e.1@)) == available(self.providers@, decision_entries(*decision))),
    {
        if !self.has_provider_exec(decision.provider.as_str()) {
            let mut m = String::from_str("Provider ");
            push_str(&mut m, decision.provider.as_str());
            push_str(&mut m, " not found");
            return Err(ProviderError::Config(m));
        }
        let entries = decision.iter_entries();
        let ghost es = decision_entries(*decision);
        let mut out: Vec<(String, String)> = Vec::new();
        let mut i: usize = 0;
        while i < entries.len()
            invariant
                i <= entries@.len(),
                entries@.len() == es.len(),
                es == decision_entries(*decision),
                forall|k: int| 0 <= k < entries@.len() ==> ((#[trigger] entries@[k]).0@, entries@[k].1@) == es[k],
                out@.map_values(|e: (String, String)| (e.0@, e.1@)) == available(self.providers@, es.take(i as int)),
            decreases entries.len() - i,
        {
            proof {
                assert(es.take(i + 1).drop_last() =~= es.take(i as int));
                assert(es.take(i + 1).last() == es[i as int]);
            }
            if self.has_provider_exec(entries[i].0.as_str()) {
                let ghost before = out@;
                out.push((entries[i].0.clone(), entries[i].1.clone()));
                proof {
                    assert(out@.map_values(|e: (String, String)| (e.0@, e.1@)) =~= before.map_values(
                        |e: (String, String)| (e.0@, e.1@)).push(es[i as int]));
                }
            }
            i = i + 1;
        }
        proof {
            assert(es.take(es.len() as int) =~= es);
        }
        Ok(out)
    }

    /// Books the outcome of one attempt on `model` and says whether to try the
    /// next pair: a success records its latency and stops; a transient error
    /// records a failure and goes on; any other error stops with the history
    /// unchanged.
    pub fn record_attempt(&mut self, model: &str, outcome: &Result<u64, ProviderError>) -> (go_on: bool)
        requires
            old(self).latency_tracker.wf(),
        ensures
            final(self).latency_tracker.wf(),
            final(self).providers == old(self).providers,
            final(self).model_registry == old(self).model_registry,
            final(self).routing_rules == old(self).routing_rules,
            final(self).health_states == old(self).health_states,
            final(self).latency_tracker.capacity() == old(self).latency_tracker.capacity(),
            outcome is Ok ==> !go_on && final(self).latency_tracker.history(model@) == Some(
                crate::provider::decision::trimmed(
                    match old(self).latency_tracker.history(model@) { Some(h) => h, None => Seq::<u64>::empty() }.push(outcome->Ok_0),
                    old(self).latency_tracker.capacity(),
                ),
            ),
            outcome is Err && spec_is_retryable(outcome->Err_0) ==> go_on && final(self).latency_tracker.history(model@) == Some(
                crate::provider::decision::trimmed(
                    match old(self).latency_tracker.history(model@) { Some(h) => h, None => Seq::<u64>::empty() }.push(
                        crate::provider::decision::error_latency(),
                    ),
                    old(self).latency_tracker.capacity(),
                ),
            ),
            outcome is Err && !spec_is_retryable(outcome->Err_0) ==> !go_on && final(self).latency_tracker == old(self).latency_tracker,
            forall|m: Seq<char>| m != model@ ==> final(self).latency_tracker.history(m) == old(self).latency_tracker.history(m),
    {
        match outcome {
            Ok(latency) => {
                self.latency_tracker.record(model, *latency);
                false
            },
            Err(e) => {
                if e.is_retryable() {
                    self.latency_tracker.record_error(model);
                    true
                } else {
                    false
                }
            },
        }
    }
}

/// The error after every pair failed: the last transient error, or a `Config`
/// error when no pair could be tried.
pub fn exhausted_error(last: Option<ProviderError>) -> (e: ProviderError)
    ensures
        last matches Some(l) ==> e == l,
        last is None ==> (e matches ProviderError::Config(m) && m@ == "No provider available"@),
{
    match last {
        Some(l) => l,
        None => ProviderError::Config(String::from_str("No provider available")),
    }
}

/// The model a request is sent with on one attempt: its own, else the pair's.
pub fn request_model(own: &Option<String>, fallback: &str) -> (r: Option<String>)
    ensures
        own matches Some(m) ==> (r matches Some(x) && x@ == m@),
        own is None ==> (r matches Some(x) && x@ == fallback@),
{
    match own {
        Some(m) => Some(m.clone()),
        None => Some(String::from_str(fallback)),
    }
}

/// `a.partial_cmp(&b) == Some(Greater)` on the `f64` values of two bit patterns.
pub fn f64_bits_greater(a: u64, b: u64) -> (r: bool)
    ensures
        r == f64_greater(a, b),
{
    let a_nan = (a / 0x10_0000_0000_0000) % 0x800 == 0x7ff && a % 0x10_0000_0000_0000 != 0;
    let b_nan = (b / 0x10_0000_0000_0000) % 0x800 == 0x7ff && b % 0x10_0000_0000_0000 != 0;
    if a_nan || b_nan {
        return false;
    }
    let a_neg = a >= 0x8000_0000_0000_0000;
    let b_neg = b >= 0x8000_0000_0000_0000;
    let am = if a_neg { a - 0x8000_0000_0000_0000 } else { a };
    let bm = if b_neg { b - 0x8000_0000_0000_0000 } else { b };
    if a_neg && b_neg {
        am < bm
    } else if a_neg {
        // a <= -0 < b, or both are zeros
        false
    } else if b_neg {
        !(am == 0 && bm == 0) && am > 0 || (am == 0 && bm > 0)
    } else {
        am > bm
    }
}


/// Law: the cheapest choice has the least input price in its pool: when no
/// price in the pool is NaN, no candidate is priced below the one picked.
pub proof fn law_cheapest_is_least(reg: Seq<ModelInfo>, pool: Seq<int>)
    requires
        pool.len() > 0,
        forall|k: int| 0 <= k < pool.len() ==> 0 <= #[trigger] pool[k] < reg.len(),
        forall|k: int| 0 <= k < pool.len() ==> !f64_is_nan(#[trigger] reg[pool[k]].pricing.input_per_million_bits),
    ensures
        0 <= cheapest_pos(reg, pool) < pool.len(),
        forall|j: int| 0 <= j < pool.len() ==>
            f64_order_key(reg[pool[cheapest_pos(reg, pool)]].pricing.input_per_million_bits)
                <= f64_order_key(#[trigger] reg[pool[j]].pricing.input_per_million_bits),
    decreases pool.len(),
{
    lemma_cheapest_range(reg, pool);
    if pool.len() > 1 {
        let d = pool.drop_last();
        assert forall|k: int| 0 <= k < d.len() implies 0 <= #[trigger] d[k] < reg.len() by {
            assert(d[k] == pool[k]);
        }
        assert forall|k: int| 0 <= k < d.len() implies !f64_is_nan(#[trigger] reg[d[k]].pricing.input_per_million_bits) by {
            assert(d[k] == pool[k]);
        }
        law_cheapest_is_least(reg, d);
        let a = cheapest_pos(reg, d);
        assert(d[a] == pool[a]);
        assert forall|j: int| 0 <= j < pool.len() implies
            f64_order_key(reg[pool[cheapest_pos(reg, pool)]].pricing.input_per_million_bits)
                <= f64_order_key(#[trigger] reg[pool[j]].pricing.input_per_million_bits) by {
            if j < d.len() {
                assert(d[j] == pool[j]);
                assert(f64_order_key(reg[d[a]].pricing.input_per_million_bits)
                    <= f64_order_key(reg[d[j]].pricing.input_per_million_bits));
            }
        }
    }
}


/// `find_provider` gives the name of the first provider that serves `model`, and
/// nothing when none does.
proof fn lemma_find_provider_first(ps: Seq<ProviderModels>, model: Seq<char>)
    ensures
        find_provider(ps, model) is None <==> forall|j: int| 0 <= j < ps.len() ==> !offers(#[trigger] ps[j], model),
        find_provider(ps, model) matches Some(p) ==> exists|i: int| {
            &&& 0 <= i < ps.len()
            &&& offers(ps[i], model)
            &&& p == ps[i].name@
            &&& forall|j: int| 0 <= j < i ==> !offers(#[trigger] ps[j], model)
        },
    decreases ps.len(),
{
    if ps.len() > 0 {
        let t = ps.skip(1);
        lemma_find_provider_first(t, model);
        assert forall|j: int| 0 <= j < t.len() implies t[j] == ps[j + 1] by {}
        if offers(ps[0], model) {
            let i = 0int;
            assert(0 <= i < ps.len() && offers(ps[i], model));
        } else {
            if find_provider(t, model) is None {
                assert forall|j: int| 0 <= j < ps.len() implies !offers(#[trigger] ps[j], model) by {
                    if j > 0 {
                        assert(ps[j] == t[j - 1]);
                    }
                }
            } else {
                let p = find_provider(t, model)->0;
                let i0 = choose|i: int| {
                    &&& 0 <= i < t.len()
                    &&& offers(t[i], model)
                    &&& p == t[i].name@
                    &&& forall|j: int| 0 <= j < i ==> !offers(#[trigger] t[j], model)
                };
                let i = i0 + 1;
                assert(ps[i] == t[i0]);
                assert forall|j: int| 0 <= j < i implies !offers(#[trigger] ps[j], model) by {
                    if j > 0 {
                        assert(ps[j] == t[j - 1]);
                    }
                }
                assert(offers(ps[i], model));
            }
        }
    }
}

/// Law: a named route's fallbacks inherit its provider. Routing by a named route
/// gives its model on its primary provider: the provider it pins, else the first
/// provider that serves its model (none at all when no provider does). Each
/// fallback runs on the provider it names, and a fallback that names none runs on
/// that same primary provider, with the fallback's model and condition.
pub proof fn law_rule_fallback_inherits_provider(
    ps: Seq<ProviderModels>,
    rule: RouteRule,
    r: Result<RouteDecision, ProviderError>,
)
    requires
        rule_outcome(ps, rule, r),
    ensures
        r matches Ok(d) && {
            &&& d.model@ == rule.model@
            &&& rule.provider matches Some(p) ==> d.provider@ == p@
            &&& rule.provider is None ==> (
                (exists|i: int| {
                    &&& 0 <= i < ps.len()
                    &&& offers(ps[i], rule.model@)
                    &&& d.provider@ == ps[i].name@
                    &&& forall|j: int| 0 <= j < i ==> !offers(#[trigger] ps[j], rule.model@)
                })
                || ((forall|j: int| 0 <= j < ps.len() ==> !offers(#[trigger] ps[j], rule.model@))
                    && d.provider@ == Seq::<char>::empty()))
            &&& d.fallback_chain@.len() == rule.fallback@.len()
            &&& forall|k: int| 0 <= k < rule.fallback@.len() ==> {
                &&& (#[trigger] d.fallback_chain@[k]).model@ == rule.fallback@[k].model@
                &&& rule.fallback@[k].provider is None ==> d.fallback_chain@[k].provider@ == d.provider@
                &&& rule.fallback@[k].provider matches Some(p) ==> d.fallback_chain@[k].provider@ == p@
                &&& same_condition(d.fallback_chain@[k].condition, rule.fallback@[k].condition)
            }
        },
{
    lemma_find_provider_first(ps, rule.model@);
}

} // verus!
