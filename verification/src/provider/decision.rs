//! Routing decisions and the latency history that the `Fastest` preference reads.
use vstd::prelude::*;
use crate::provider::model_info::{CapabilityRequest, ModelInfo};
use crate::text::str_eq;

verus! {

/// Cost preference of a routing request.
#[derive(Debug, Clone, Copy, PartialEq, Eq, Structural)]
pub enum CostPreference {
    Cheapest,
    Fastest,
    Balanced,
    NoPreference,
}

impl Default for CostPreference {
    fn default() -> (r: Self)
        ensures
            r == CostPreference::NoPreference,
    {
        CostPreference::NoPreference
    }
}

/// Everything one routing decision reads.
#[derive(Debug, Clone)]
pub struct RouteContext {
    pub capabilities: Option<CapabilityRequest>,
    pub named_route: Option<String>,
    pub model: Option<String>,
    pub cost_preference: CostPreference,
}

impl Default for RouteContext {
    fn default() -> (r: Self)
        ensures
            r.capabilities is None,
            r.named_route is None,
            r.model is None,
            r.cost_preference == CostPreference::NoPreference,
    {
        RouteContext { capabilities: None, named_route: None, model: None, cost_preference: CostPreference::NoPreference }
    }
}

/// When a fallback entry is tried.
#[derive(Debug, Clone)]
pub enum FallbackCondition {
    Always,
    RateLimitOnly,
    ErrorStatus(Vec<u16>),
}

/// A resolved fallback: a model on a named provider.
#[derive(Debug, Clone)]
pub struct FallbackEntry {
    pub model: String,
    pub provider: String,
    pub condition: FallbackCondition,
}

/// The outcome of routing: the primary model and provider, then the fallbacks.
#[derive(Debug, Clone)]
pub struct RouteDecision {
    pub model: String,
    pub provider: String,
    pub fallback_chain: Vec<FallbackEntry>,
}

/// The (provider, model) pairs of a decision, primary first.
pub open spec fn decision_entries(d: RouteDecision) -> Seq<(Seq<char>, Seq<char>)> {
    seq![(d.provider@, d.model@)] + d.fallback_chain@.map_values(|e: FallbackEntry| (e.provider@, e.model@))
}

impl RouteDecision {
    /// The (provider, model) pairs to try, primary first, then the fallbacks in order.
    pub fn iter_entries(&self) -> (r: Vec<(String, String)>)
        ensures
            r@.len() == decision_entries(*self).len(),
            forall|i: int| 0 <= i < r@.len() ==>
                ((#[trigger] r@[i]).0@, r@[i].1@) == decision_entries(*self)[i],
    {
        let mut r: Vec<(String, String)> = Vec::new();
        r.push((self.provider.clone(), self.model.clone()));
        let mut i: usize = 0;
        while i < self.fallback_chain.len()
            invariant
                i <= self.fallback_chain@.len(),
                r@.len() == i + 1,
                forall|k: int| 0 <= k < r@.len() ==>
                    ((#[trigger] r@[k]).0@, r@[k].1@) == decision_entries(*self)[k],
            decreases self.fallback_chain.len() - i,
        {
            let e = &self.fallback_chain[i];
            r.push((e.provider.clone(), e.model.clone()));
            i = i + 1;
        }
        r
    }
}

/// Sum of a list of latencies.
pub open spec fn sum_of(s: Seq<u64>) -> nat
    decreases s.len(),
{
    if s.len() == 0 { 0 } else { sum_of(s.drop_last()) + (s.last() as nat) }
}

/// A history after one more sample, keeping at most `max` samples.
pub open spec fn trimmed(s: Seq<u64>, max: nat) -> Seq<u64> {
    if s.len() > max { s.drop_first() } else { s }
}

/// Latency recorded for a failed request.
pub open spec fn error_latency() -> u64 {
    (u64::MAX / 2) as u64
}

/// One model's latency history.
#[derive(Debug, Clone)]
pub struct LatencyHistory {
    pub model: String,
    pub samples: Vec<u64>,
}

/// Per-model latency history, feeding the `Fastest` routing preference.
#[derive(Debug, Clone)]
pub struct LatencyTracker {
    entries: Vec<LatencyHistory>,
    max_history: usize,
}

/// Position of the history of `model` in `es`, if it has one.
pub open spec fn find_entry(es: Seq<LatencyHistory>, model: Seq<char>) -> Option<int>
    decreases es.len(),
{
    if es.len() == 0 {
        None
    } else if es.last().model@ == model {
        Some(es.len() - 1)
    } else {
        find_entry(es.drop_last(), model)
    }
}

proof fn lemma_find_entry(es: Seq<LatencyHistory>, model: Seq<char>)
    ensures
        find_entry(es, model) matches Some(i) ==> 0 <= i < es.len() && es[i].model@ == model,
        find_entry(es, model) is None ==> forall|i: int| 0 <= i < es.len() ==> es[i].model@ != model,
    decreases es.len(),
{
    if es.len() > 0 {
        lemma_find_entry(es.drop_last(), model);
        if es.last().model@ != model {
            assert forall|i: int| 0 <= i < es.len() - 1 implies es[i] == es.drop_last()[i] by {}
        }
    }
}

/// The key by which `fastest` orders a model: its average latency, or `u64::MAX`
/// when it has none.
pub open spec fn order_key(avg: Option<nat>) -> nat {
    match avg {
        Some(a) => a,
        None => u64::MAX as nat,
    }
}

impl LatencyTracker {
    /// The recorded history of `model`, if any.
    pub closed spec fn history(&self, model: Seq<char>) -> Option<Seq<u64>> {
        match find_entry(self.entries@, model) {
            Some(i) => Some(self.entries@[i].samples@),
            None => None,
        }
    }

    /// The most samples kept per model.
    pub closed spec fn capacity(&self) -> nat {
        self.max_history as nat
    }

    /// Well-formedness: one history per model, none longer than the capacity.
    pub closed spec fn wf(&self) -> bool {
        &&& forall|i: int, j: int| 0 <= i < j < self.entries@.len() ==>
            (#[trigger] self.entries@[i]).model@ != (#[trigger] self.entries@[j]).model@
        &&& forall|i: int| 0 <= i < self.entries@.len() ==> (#[trigger] self.entries@[i]).samples@.len() <= self.max_history
    }

    /// The average latency of `model`, when it has a non-empty history.
    pub open spec fn spec_avg(&self, model: Seq<char>) -> Option<nat> {
        match self.history(model) {
            Some(h) => if h.len() == 0 { None } else { Some(sum_of(h) / h.len()) },
            None => None,
        }
    }

    /// Whether summing the history of `model` stays within `u64` (the sum the
    /// average is computed from).
    pub open spec fn sum_fits(&self, model: Seq<char>) -> bool {
        self.history(model) matches Some(h) ==> sum_of(h) <= u64::MAX
    }

    pub fn new(max_history: usize) -> (r: Self)
        ensures
            r.wf(),
            r.capacity() == max_history,
            forall|m: Seq<char>| r.history(m) is None,
    {
        LatencyTracker { entries: Vec::new(), max_history }
    }

    fn locate(&self, model: &str) -> (r: Option<usize>)
        ensures
            r matches Some(i) ==> find_entry(self.entries@, model@) == Some(i as int) && i < self.entries@.len(),
            r is None ==> find_entry(self.entries@, model@) is None,
    {
        let mut i = self.entries.len();
        proof {
            assert(self.entries@.take(i as int) =~= self.entries@);
        }
        while i > 0
            invariant
                i <= self.entries@.len(),
                find_entry(self.entries@, model@) == find_entry(self.entries@.take(i as int), model@),
            decreases i,
        {
            proof {
                assert(self.entries@.take(i as int).drop_last() =~= self.entries@.take(i - 1));
            }
            if str_eq(self.entries[i - 1].model.as_str(), model) {
                return Some(i - 1);
            }
            i = i - 1;
        }
        None
    }

    fn push_sample(&mut self, model: &str, latency_ms: u64)
        requires
            old(self).wf(),
        ensures
            final(self).wf(),
            final(self).capacity() == old(self).capacity(),
            final(self).history(model@) == Some(trimmed(
                match old(self).history(model@) { Some(h) => h, None => Seq::<u64>::empty() }.push(latency_ms),
                old(self).capacity(),
            )),
            forall|m: Seq<char>| m != model@ ==> final(self).history(m) == old(self).history(m),
    {
        proof {
            lemma_find_entry(self.entries@, model@);
        }
        let ghost before = self.entries@;
        let idx = match self.locate(model) {
            Some(i) => i,
            None => {
                self.entries.push(LatencyHistory { model: model.to_string(), samples: Vec::new() });
                proof {
                    assert(self.entries@.drop_last() =~= before);
                }
                self.entries.len() - 1
            },
        };
        let ghost mid = self.entries@;
        proof {
            lemma_find_entry(mid, model@);
            lemma_find_entry(before, model@);
            assert(forall|m: Seq<char>| m != model@ ==> find_entry(mid, m) == find_entry(before, m));
            assert(forall|j: int| 0 <= j < before.len() ==> mid[j] == before[j]);
        }
        let mut samples = self.entries[idx].samples.clone();
        samples.push(latency_ms);
        if samples.len() > self.max_history {
            samples.remove(0);
            proof {
                assert(samples@ =~= trimmed(mid[idx as int].samples@.push(latency_ms), self.max_history as nat));
            }
        }
        let name = self.entries[idx].model.clone();
        self.entries.set(idx, LatencyHistory { model: name, samples });
        proof {
            assert(self.entries@.len() == mid.len());
            assert forall|m: Seq<char>| #![auto] find_entry(self.entries@, m) == find_entry(mid, m) by {
                lemma_find_entry_same_keys(self.entries@, mid, m);
            }
            assert forall|m: Seq<char>| m != model@ implies final(self).history(m) == old(self).history(m) by {
                lemma_find_entry(mid, m);
                lemma_find_entry(before, m);
                if let Some(j) = find_entry(mid, m) {
                    assert(j != idx);
                    assert(self.entries@[j] == mid[j]);
                }
            }
        }
    }

    /// Records the latency of a successful request to `model`, dropping the oldest
    /// sample when the history is over capacity.
    pub fn record(&mut self, model: &str, latency_ms: u64)
        requires
            old(self).wf(),
        ensures
            final(self).wf(),
            final(self).capacity() == old(self).capacity(),
            final(self).history(model@) == Some(trimmed(
                match old(self).history(model@) { Some(h) => h, None => Seq::<u64>::empty() }.push(latency_ms),
                old(self).capacity(),
            )),
            forall|m: Seq<char>| m != model@ ==> final(self).history(m) == old(self).history(m),
    {
        self.push_sample(model, latency_ms);
    }

    /// Records a failed request to `model` as a latency of `u64::MAX / 2`.
    pub fn record_error(&mut self, model: &str)
        requires
            old(self).wf(),
        ensures
            final(self).wf(),
            final(self).capacity() == old(self).capacity(),
            final(self).history(model@) == Some(trimmed(
                match old(self).history(model@) { Some(h) => h, None => Seq::<u64>::empty() }.push(error_latency()),
                old(self).capacity(),
            )),
            forall|m: Seq<char>| m != model@ ==> final(self).history(m) == old(self).history(m),
    {
        self.push_sample(model, u64::MAX / 2);
    }

    /// Whether `model` has a history.
    pub fn contains(&self, model: &str) -> (r: bool)
        ensures
            r == self.history(model@) is Some,
    {
        self.locate(model).is_some()
    }

    /// Whether the sum of the history of `model` fits in a `u64`.
    pub fn history_sum_fits(&self, model: &str) -> (r: bool)
        ensures
            r == self.sum_fits(model@),
    {
        match self.locate(model) {
            None => true,
            Some(i) => {
                let h = &self.entries[i].samples;
                let mut s: u128 = 0;
                let mut k: usize = 0;
                while k < h.len()
                    invariant
                        self.history(model@) == Some(h@),
                        k <= h@.len(),
                        s == sum_of(h@.take(k as int)),
                        s <= k * (u64::MAX as nat),
                    decreases h.len() - k,
                {
                    proof {
                        assert(h@.take(k + 1).drop_last() =~= h@.take(k as int));
                    }
                    if s > u64::MAX as u128 {
                        proof {
                            lemma_sum_prefix_le(h@, k as nat);
                            assert(sum_of(h@) > u64::MAX);
                            assert(self.history(model@) == Some(h@));
                        }
                        return false;
                    }
                    s = s + h[k] as u128;
                    k = k + 1;
                }
                proof {
                    assert(h@.take(h@.len() as int) =~= h@);
                }
                s <= u64::MAX as u128
            },
        }
    }

    /// Average latency of `model`, when it has a non-empty history.
    pub fn avg_latency(&self, model: &str) -> (r: Option<u64>)
        requires
            self.sum_fits(model@),
        ensures
            r matches Some(a) ==> self.spec_avg(model@) == Some(a as nat),
            r is None <==> self.spec_avg(model@) is None,
    {
        match self.locate(model) {
            None => None,
            Some(i) => {
                let h = &self.entries[i].samples;
                if h.len() == 0 {
                    return None;
                }
                let mut s: u64 = 0;
                let mut k: usize = 0;
                while k < h.len()
                    invariant
                        k <= h@.len(),
                        s == sum_of(h@.take(k as int)),
                        sum_of(h@) <= u64::MAX,
                    decreases h.len() - k,
                {
                    proof {
                        assert(h@.take(k + 1).drop_last() =~= h@.take(k as int));
                        lemma_sum_prefix_le(h@, (k + 1) as nat);
                    }
                    s = s + h[k];
                    k = k + 1;
                }
                proof {
                    assert(h@.take(h@.len() as int) =~= h@);
                }
                Some(s / (h.len() as u64))
            },
        }
    }

    /// Position, in `names`, of the model `fastest` picks.
    pub open spec fn fastest_pick(&self, names: Seq<Seq<char>>) -> Option<int> {
        match self.fastest_known(names, names.len() as int) {
            Some(i) => Some(i),
            None => if names.len() > 0 { Some(0) } else { None },
        }
    }

    /// Among `names[..n]` with a history, the first of least average latency.
    pub open spec fn fastest_known(&self, names: Seq<Seq<char>>, n: int) -> Option<int>
        decreases n,
    {
        if n <= 0 {
            None
        } else {
            let best = self.fastest_known(names, n - 1);
            if self.history(names[n - 1]) is Some {
                match best {
                    None => Some(n - 1),
                    Some(i) => if order_key(self.spec_avg(names[n - 1])) < order_key(self.spec_avg(names[i])) {
                        Some(n - 1)
                    } else {
                        Some(i)
                    },
                }
            } else {
                best
            }
        }
    }

    fn key_of(&self, model: &str) -> (k: u64)
        requires
            self.sum_fits(model@),
        ensures
            k == order_key(self.spec_avg(model@)),
    {
        match self.avg_latency(model) {
            Some(a) => a,
            None => u64::MAX,
        }
    }

    /// Position, in `names`, of the model with a history and the least average
    /// latency (the first such on ties); the first name when none has a history.
    pub fn fastest_index(&self, names: &Vec<&str>) -> (r: Option<usize>)
        requires
            forall|i: int| 0 <= i < names@.len() ==> self.sum_fits(#[trigger] names@[i]@),
        ensures
            r matches Some(i) ==> self.fastest_pick(names@.map_values(|s: &str| s@)) == Some(i as int)
                && i < names@.len(),
            r is None ==> self.fastest_pick(names@.map_values(|s: &str| s@)) is None,
    {
        let ghost ns = names@.map_values(|s: &str| s@);
        let mut best: Option<usize> = None;
        let mut best_key: u64 = 0;
        let mut i: usize = 0;
        while i < names.len()
            invariant
                i <= names@.len(),
                ns == names@.map_values(|s: &str| s@),
                forall|j: int| 0 <= j < names@.len() ==> self.sum_fits(#[trigger] names@[j]@),
                best matches Some(b) ==> self.fastest_known(ns, i as int) == Some(b as int)
                    && best_key == order_key(self.spec_avg(ns[b as int])),
                best is None ==> self.fastest_known(ns, i as int) is None,
            decreases names.len() - i,
        {
            proof {
                assert(ns[i as int] == names@[i as int]@);
            }
            if self.contains(names[i]) {
                let k = self.key_of(names[i]);
                match best {
                    None => {
                        best = Some(i);
                        best_key = k;
                    },
                    Some(_) => {
                        if k < best_key {
                            best = Some(i);
                            best_key = k;
                        }
                    },
                }
            }
            i = i + 1;
        }
        proof {
            self.lemma_fastest_known_range(ns, names@.len() as int);
        }
        match best {
            Some(b) => Some(b),
            None => if names.len() > 0 { Some(0) } else { None },
        }
    }

    proof fn lemma_fastest_known_range(&self, names: Seq<Seq<char>>, n: int)
        ensures
            self.fastest_known(names, n) matches Some(i) ==> 0 <= i < n,
        decreases n,
    {
        if n > 0 {
            self.lemma_fastest_known_range(names, n - 1);
        }
    }

    /// The name of the model `fastest_index` picks among `models`.
    pub fn fastest(&self, models: &[&ModelInfo]) -> (r: Option<String>)
        requires
            forall|i: int| 0 <= i < models@.len() ==> self.sum_fits(#[trigger] models@[i].name@),
        ensures
            r matches Some(n) ==> exists|i: int| self.fastest_pick(models@.map_values(|m: &ModelInfo| m.name@)) == Some(i)
                && n@ == models@[i].name@,
            r is None ==> self.fastest_pick(models@.map_values(|m: &ModelInfo| m.name@)) is None,
    {
        let mut names: Vec<&str> = Vec::new();
        let mut i: usize = 0;
        while i < models.len()
            invariant
                i <= models@.len(),
                names@.len() == i,
                forall|j: int| 0 <= j < i ==> (#[trigger] names@[j])@ == models@[j].name@,
            decreases models.len() - i,
        {
            names.push(models[i].name.as_str());
            i = i + 1;
        }
        proof {
            assert(names@.map_values(|s: &str| s@) =~= models@.map_values(|m: &ModelInfo| m.name@));
        }
        match self.fastest_index(&names) {
            Some(k) => Some(models[k].name.clone()),
            None => None,
        }
    }
}

impl Default for LatencyTracker {
    fn default() -> (r: Self)
        ensures
            r.wf(),
            r.capacity() == 10,
            forall|m: Seq<char>| r.history(m) is None,
    {
        LatencyTracker::new(10)
    }
}

proof fn lemma_sum_prefix_le(h: Seq<u64>, k: nat)
    requires
        k <= h.len(),
    ensures
        sum_of(h.take(k as int)) <= sum_of(h),
    decreases h.len(),
{
    if k < h.len() {
        assert(h.drop_last().take(k as int) =~= h.take(k as int));
        lemma_sum_prefix_le(h.drop_last(), k);
    } else {
        assert(h.take(k as int) =~= h);
    }
}

/// Two entry lists with the same keys at the same positions find the same entries.
proof fn lemma_find_entry_same_keys(a: Seq<LatencyHistory>, b: Seq<LatencyHistory>, m: Seq<char>)
    requires
        a.len() == b.len(),
        forall|i: int| 0 <= i < a.len() ==> (#[trigger] a[i]).model@ == b[i].model@,
    ensures
        find_entry(a, m) == find_entry(b, m),
    decreases a.len(),
{
    if a.len() > 0 {
        lemma_find_entry_same_keys(a.drop_last(), b.drop_last(), m);
    }
}


/// Law: a booked latency is remembered. Once a latency has been recorded for a
/// model (by `record`, `record_error`, or a router booking an attempt), the model
/// has an average latency; for a model with no history before, that average is
/// the latency itself. Holds for a tracker that keeps at least one sample.
pub proof fn law_latency_is_remembered(before: LatencyTracker, after: LatencyTracker, model: Seq<char>, latency: u64)
    requires
        before.wf(),
        before.capacity() > 0,
        after.history(model) == Some(trimmed(
            match before.history(model) { Some(h) => h, None => Seq::<u64>::empty() }.push(latency),
            before.capacity(),
        )),
    ensures
        after.spec_avg(model) is Some,
        before.history(model) is None ==> after.spec_avg(model) == Some(latency as nat),
{
    lemma_find_entry(before.entries@, model);
    let h = match before.history(model) { Some(h) => h, None => Seq::<u64>::empty() };
    if let Some(i) = find_entry(before.entries@, model) {
        assert(h.len() <= before.capacity());
    }
    let s = h.push(latency);
    if before.history(model) is None {
        assert(s =~= seq![latency]);
        assert(s.drop_last() =~= Seq::<u64>::empty());
        assert(sum_of(s.drop_last()) == 0);
        assert(sum_of(s) == latency as nat);
        assert(trimmed(s, before.capacity()) == s);
    }
}


/// Law: a well-formed tracker, as every tracker method keeps it, holds no
/// history longer than its capacity.
pub proof fn law_history_within_capacity(t: LatencyTracker, model: Seq<char>)
    requires
        t.wf(),
    ensures
        t.history(model) matches Some(h) ==> h.len() <= t.capacity(),
{
    lemma_find_entry(t.entries@, model);
}


/// Among the first `n` names, the fastest known is the first name with a history
/// whose average latency is least; there is one exactly when some name has a history.
proof fn lemma_fastest_known_least(t: LatencyTracker, names: Seq<Seq<char>>, n: int)
    requires
        0 <= n <= names.len(),
    ensures
        t.fastest_known(names, n) is Some <==> exists|j: int| 0 <= j < n && (#[trigger] t.history(names[j])) is Some,
        t.fastest_known(names, n) matches Some(i) ==> {
            &&& 0 <= i < n
            &&& t.history(names[i]) is Some
            &&& forall|j: int| 0 <= j < n && (#[trigger] t.history(names[j])) is Some ==>
                order_key(t.spec_avg(names[i])) <= order_key(t.spec_avg(names[j]))
            &&& forall|j: int| 0 <= j < i && (#[trigger] t.history(names[j])) is Some ==>
                order_key(t.spec_avg(names[i])) < order_key(t.spec_avg(names[j]))
        },
    decreases n,
{
    if n > 0 {
        lemma_fastest_known_least(t, names, n - 1);
        if t.history(names[n - 1]) is Some {
            assert(t.history(names[n - 1]) is Some);
        }
    }
}

/// Law: the fastest pick has the least average latency. When some name in the
/// pool has a history, the pick is a name with a history whose average latency
/// is no greater than that of any other name with a history, and strictly less
/// than that of every such name before it (the first on ties); a name without an
/// average counts as slowest. When no name has a history, the pick is the first
/// name, if there is one.
pub proof fn law_fastest_is_least(t: LatencyTracker, names: Seq<Seq<char>>)
    ensures
        (exists|j: int| 0 <= j < names.len() && (#[trigger] t.history(names[j])) is Some) ==> {
            &&& t.fastest_pick(names) matches Some(i)
            &&& 0 <= i < names.len()
            &&& t.history(names[i]) is Some
            &&& forall|j: int| 0 <= j < names.len() && (#[trigger] t.history(names[j])) is Some ==>
                order_key(t.spec_avg(names[i])) <= order_key(t.spec_avg(names[j]))
            &&& forall|j: int| 0 <= j < i && (#[trigger] t.history(names[j])) is Some ==>
                order_key(t.spec_avg(names[i])) < order_key(t.spec_avg(names[j]))
        },
        (forall|j: int| 0 <= j < names.len() ==> (#[trigger] t.history(names[j])) is None) ==>
            t.fastest_pick(names) == (if names.len() > 0 { Some(0int) } else { None }),
{
    lemma_fastest_known_least(t, names, names.len() as int);
}

} // verus!
