//! The pools of all providers.
use crate::clock::{Moment, now_moment, now_seconds};
use crate::config::{KeyConfig, KeyTier, RoutingConfig, RoutingStrategy};
use crate::error::{
    auth_failure, error_retry, GatewayError, GatewayResult, key_attributable, status_of,
};
use crate::keyhub::pool::{
    acquired, all_maskable, candidate_views, CandidateView, count_keys, free_candidates_of,
    free_model_count, free_models_of, FreeKeyCandidate, id_index, id_maskable, is_free_ready,
    is_paid_for, is_probe_key, is_ready, key_index, KeyPool, keys_and_tiers, new_pool, pair_views,
    PoolView, random_index, ranks_before, RoundRobin, sort_key_before, summary_text, with_limits,
    with_models,
};
use crate::keystate::{clamp32, KeyState, KeyStateView, KeyStatus, state_views, to_u32_clamped};
use crate::lists::{first_where, kept, kept_all, kept_next, rotated, rotated_is_permutation};
use crate::registry::{entries, index_get, index_insert, index_walk, lists_entries, new_index};
use crate::sorting::{
    pair_order, sort_and_dedup_pairs, sort_stably, sorted, sorted_is_permutation, sorted_maps,
    strictly_ordered, text_pairs,
};
use crate::text::{decimal, join, joined, push_decimal, str_view, views};
use dashmap::DashMap;
use vstd::string::StringSliceAdditionalSpecFns;
use vstd::utf8::*;
use vstd::prelude::*;

verus! {

/// KeyHub: manages key pools for all providers.
pub struct KeyHub {
    index: DashMap<String, usize>,
    pools: Vec<KeyPool>,
    routing: RoutingConfig,
}

/// What a [`KeyHub`] holds.
pub struct HubView {
    pub pools: Map<Seq<char>, PoolView>,
    pub routing: RoutingConfig,
}

impl View for KeyHub {
    type V = HubView;

    closed spec fn view(&self) -> HubView {
        HubView {
            pools: Map::new(
                |name: Seq<char>| entries(self.index).contains_key(name),
                |name: Seq<char>| self.pools@[entries(self.index)[name] as int]@,
            ),
            routing: self.routing,
        }
    }
}

impl HubView {
    /// The hub with one pool changed, where it has that provider.
    pub open spec fn with_pool(
        self,
        provider: Seq<char>,
        f: spec_fn(PoolView) -> PoolView,
    ) -> HubView {
        if self.pools.contains_key(provider) {
            HubView { pools: self.pools.insert(provider, f(self.pools[provider])), ..self }
        } else {
            self
        }
    }

    /// The hub with a provider registered.
    pub open spec fn registered(
        self,
        provider: Seq<char>,
        keys: Seq<KeyConfig>,
        now: u64,
    ) -> HubView {
        HubView {
            pools: self.pools.insert(provider, new_pool(provider, keys, self.routing, now)),
            ..self
        }
    }

    /// The hub with the keys of a provider refreshed.
    pub open spec fn refreshed(self, provider: Seq<char>, now: u64) -> HubView {
        self.with_pool(provider, |p: PoolView| p.refreshed(now))
    }

    /// The hub with all keys refreshed.
    pub open spec fn all_refreshed(self, now: u64) -> HubView {
        HubView {
            pools: Map::new(
                |name: Seq<char>| self.pools.contains_key(name),
                |name: Seq<char>| self.pools[name].refreshed(now),
            ),
            ..self
        }
    }

    /// The hub with all keys recovered.
    pub open spec fn all_recovered(self, now: u64) -> HubView {
        HubView {
            pools: Map::new(
                |name: Seq<char>| self.pools.contains_key(name),
                |name: Seq<char>| self.pools[name].recovered(now),
            ),
            ..self
        }
    }

    /// The hub after a success on a key.
    pub open spec fn succeeded(
        self,
        provider: Seq<char>,
        key: Seq<char>,
        prompt: Option<u32>,
        completion: Option<u32>,
        reserved: bool,
        now: u64,
    ) -> HubView {
        self.with_pool(
            provider,
            |p: PoolView| p.succeeded(key, prompt, completion, reserved, now),
        )
    }

    /// Whether a key of a provider can be reserved.
    pub open spec fn can_reserve(self, provider: Seq<char>, key: Seq<char>, now: u64) -> bool {
        self.pools.contains_key(provider) && self.pools[provider].can_reserve(key, now)
    }

    /// The hub after an attempt to reserve a key.
    pub open spec fn reserved(self, provider: Seq<char>, key: Seq<char>, now: u64) -> HubView {
        self.with_pool(provider, |p: PoolView| p.reserved(key, now))
    }

    /// The hub after a failure with an HTTP status.
    pub open spec fn failed(
        self,
        provider: Seq<char>,
        key: Seq<char>,
        status: u16,
        retry_after: Option<u64>,
        now: u64,
    ) -> HubView {
        self.with_pool(provider, |p: PoolView| p.failed(key, status, retry_after, now))
    }

    /// The hub after a failure that says nothing of credentials or limits.
    pub open spec fn failed_transiently(
        self,
        provider: Seq<char>,
        key: Seq<char>,
        status: u16,
        now: u64,
    ) -> HubView {
        self.with_pool(provider, |p: PoolView| p.failed_transiently(key, status, now))
    }

    /// The hub after a key was put into a cooldown at once.
    pub open spec fn forced_to_cool(
        self,
        provider: Seq<char>,
        key: Seq<char>,
        status: u16,
        now: u64,
    ) -> HubView {
        self.with_pool(provider, |p: PoolView| p.forced_to_cool(key, status, now))
    }

    /// The hub after an error of a provider: what does not speak against the
    /// key leaves it as it is; rate limits and refused credentials go by their
    /// status, everything else is transient.
    pub open spec fn charged(
        self,
        provider: Seq<char>,
        key: Seq<char>,
        error: GatewayError,
        moment: Moment,
        now: u64,
    ) -> HubView {
        if !key_attributable(error) {
            self
        } else if status_of(error) == 429 || auth_failure(error) {
            self.failed(provider, key, status_of(error), error_retry(error, moment), now)
        } else {
            self.failed_transiently(provider, key, status_of(error), now)
        }
    }

    /// The hub with persisted state restored.
    pub open spec fn with_saved_states(
        self,
        provider: Seq<char>,
        saved: Seq<KeyStateView>,
        now: u64,
    ) -> HubView {
        self.with_pool(provider, |p: PoolView| p.with_saved_states(saved, now))
    }

    /// The hub with a key restored by hand.
    pub open spec fn with_restored(self, provider: Seq<char>, id: Seq<char>, now: u64) -> HubView {
        self.with_pool(
            provider,
            |p: PoolView|
                match id_index(p.keys, id, 0) {
                    Some(i) => p.with_keys(p.keys.update(i, p.keys[i].restored(now))),
                    None => p,
                },
        )
    }

    /// The hub with the models of a key replaced.
    pub open spec fn with_models(
        self,
        provider: Seq<char>,
        key: Seq<char>,
        models: Seq<Seq<char>>,
        now: u64,
    ) -> HubView {
        self.with_pool(
            provider,
            |p: PoolView| p.with_key(key, |k: KeyStateView| with_models(k, models, now)),
        )
    }

    /// The hub with what is said of the models of a key that could not be
    /// discovered.
    pub open spec fn with_model_error(
        self,
        provider: Seq<char>,
        key: Seq<char>,
        error: Seq<char>,
    ) -> HubView {
        self.with_pool(
            provider,
            |p: PoolView|
                p.with_key(key, |k: KeyStateView| KeyStateView { models_last_error: error, ..k }),
        )
    }

    /// The hub as a search for candidates leaves it.
    pub open spec fn searched(self, provider: Seq<char>, now: u64) -> HubView {
        self.with_pool(provider, |p: PoolView| p.searched(now))
    }

    /// The free keys of a provider that can take a request.
    pub open spec fn free_infos(
        self,
        provider: Seq<char>,
        model: Option<Seq<char>>,
        now: u64,
    ) -> Seq<CandidateView> {
        if self.pools.contains_key(provider) && !self.pools[provider].cooling(now) {
            free_candidates_of(self.pools[provider].searched(now).keys, model, now)
        } else {
            Seq::empty()
        }
    }
}

// ---------------------------------------------------------------- ordering candidates
/// By what a strategy orders candidates.
pub open spec fn candidate_rank(c: CandidateView, strategy: RoutingStrategy) -> (
    u32,
    u32,
    u32,
    u32,
    u32,
) {
    if strategy == RoutingStrategy::LeastRate {
        c.usage_sort_key
    } else {
        (c.fail_count, clamp32(c.total_fail_count), 0, 0, 0)
    }
}

/// The order in which a strategy prefers candidates.
pub open spec fn preferred(strategy: RoutingStrategy) -> spec_fn(CandidateView, CandidateView) -> bool {
    |a: CandidateView, b: CandidateView|
        ranks_before(candidate_rank(a, strategy), candidate_rank(b, strategy))
}

/// Candidates in the order of a strategy: sorted where it sorts, else turned so
/// that another comes first; `draw` is the turn or the random number.
pub open spec fn by_strategy(
    list: Seq<CandidateView>,
    strategy: RoutingStrategy,
    draw: usize,
) -> Seq<CandidateView> {
    match strategy {
        RoutingStrategy::LeastRate => sorted(list, preferred(strategy)),
        RoutingStrategy::LeastFailed => sorted(list, preferred(strategy)),
        RoutingStrategy::Priority => list,
        _ => if list.len() > 1 {
            rotated(list, draw as int % list.len() as int)
        } else {
            list
        },
    }
}

/// The sum of some bytes, modulo 2^32.
pub open spec fn byte_sum(bytes: Seq<u8>) -> u32
    decreases bytes.len(),
{
    if bytes.len() == 0 {
        0
    } else {
        byte_sum(bytes.drop_last()).wrapping_add(bytes.last() as u32)
    }
}

/// Keys turned by the name of an agent, so that different agents start at
/// different keys.
pub open spec fn for_agent(keys: Seq<Seq<char>>, agent: Option<Seq<char>>) -> Seq<Seq<char>> {
    match agent {
        Some(name) => if keys.len() > 1 && name.len() > 0 {
            rotated(keys, byte_sum(encode_utf8(name)) as int % keys.len() as int)
        } else {
            keys
        },
        None => keys,
    }
}

/// The keys of candidates, in the order in which they are tried.
pub open spec fn tried_order(
    list: Seq<CandidateView>,
    strategy: RoutingStrategy,
    draw: usize,
    agent: Option<Seq<char>>,
) -> Seq<Seq<char>> {
    for_agent(by_strategy(list, strategy, draw).map_values(|c: CandidateView| c.key), agent)
}

fn rank_of(c: &FreeKeyCandidate, strategy: RoutingStrategy) -> (r: (u32, u32, u32, u32, u32))
    ensures
        r == candidate_rank(c@, strategy),
{
    if strategy == RoutingStrategy::LeastRate {
        c.usage_sort_key
    } else {
        (c.fail_count, to_u32_clamped(c.total_fail_count), 0, 0, 0)
    }
}

fn rotate_strings(list: Vec<String>, k: usize) -> (r: Vec<String>)
    requires
        k <= list@.len(),
    ensures
        views(r@) == rotated(views(list@), k as int),
{
    let ghost all = views(list@);
    let mut front = list;
    let mut back = front.split_off(k);
    back.append(&mut front);
    assert(views(back@) =~= rotated(all, k as int));
    back
}

fn agent_hash(agent: &str) -> (r: u32)
    ensures
        r == byte_sum(encode_utf8(agent@)),
{
    let bytes = agent.as_bytes();
    let mut sum: u32 = 0;
    let mut i: usize = 0;
    assert(bytes@.take(0) =~= Seq::<u8>::empty());
    while i < bytes.len()
        invariant
            i <= bytes@.len(),
            sum == byte_sum(bytes@.take(i as int)),
        decreases bytes@.len() - i,
    {
        assert(bytes@.take(i + 1).drop_last() =~= bytes@.take(i as int));
        sum = sum.wrapping_add(bytes[i] as u32);
        i += 1;
    }
    assert(bytes@.take(bytes@.len() as int) =~= bytes@);
    sum
}

/// The keys of candidates, in the order in which they are tried: by strategy,
/// then turned by the name of the agent.
pub fn order_candidates(
    candidates: Vec<FreeKeyCandidate>,
    strategy: RoutingStrategy,
    draw: usize,
    agent_name: Option<&str>,
) -> (r: Vec<String>)
    ensures
        views(r@) == tried_order(candidate_views(candidates@), strategy, draw, str_view(agent_name)),
{
    let ghost given = candidate_views(candidates@);
    let sorts = strategy == RoutingStrategy::LeastRate || strategy == RoutingStrategy::LeastFailed;
    let ordered = if sorts {
        let ghost precedes = |a: FreeKeyCandidate, b: FreeKeyCandidate|
            ranks_before(candidate_rank(a@, strategy), candidate_rank(b@, strategy));
        let comes = |a: &FreeKeyCandidate, b: &FreeKeyCandidate| -> (c: bool)
            ensures
                c == ranks_before(candidate_rank(a@, strategy), candidate_rank(b@, strategy)),
            { sort_key_before(rank_of(a, strategy), rank_of(b, strategy)) };
        let ghost list = candidates@;
        let done = sort_stably(candidates, comes, Ghost(precedes));
        proof {
            sorted_maps(list, precedes, |c: FreeKeyCandidate| c@, preferred(strategy));
        }
        done
    } else {
        candidates
    };
    let ghost middle = candidate_views(ordered@);
    let mut keys: Vec<String> = Vec::new();
    let mut i: usize = 0;
    while i < ordered.len()
        invariant
            i <= ordered@.len(),
            keys@.len() == i,
            forall|j: int| 0 <= j < i ==> #[trigger] keys@[j]@ == ordered@[j].key@,
        decreases ordered@.len() - i,
    {
        keys.push(ordered[i].key.clone());
        i += 1;
    }
    assert(views(keys@) =~= middle.map_values(|c: CandidateView| c.key));
    let turns = strategy == RoutingStrategy::RoundRobin || strategy == RoutingStrategy::Random;
    if turns && keys.len() > 1 {
        let k: usize = draw % keys.len();
        keys = rotate_strings(keys, k);
        assert(rotated(middle.map_values(|c: CandidateView| c.key), k as int) =~= rotated(
            middle,
            k as int,
        ).map_values(|c: CandidateView| c.key));
    }
    assert(views(keys@) == by_strategy(given, strategy, draw).map_values(|c: CandidateView| c.key));
    if keys.len() > 1 {
        if let Some(agent) = agent_name {
            if !agent.is_empty() {
                let k: usize = (agent_hash(agent) as usize) % keys.len();
                keys = rotate_strings(keys, k);
            }
        }
    }
    keys
}

// ---------------------------------------------------------------- summaries
/// The views of names with counts.
pub open spec fn count_views(list: Seq<(String, usize)>) -> Seq<(Seq<char>, usize)> {
    list.map_values(|p: (String, usize)| (p.0@, p.1))
}

/// The order of providers in a summary: those with more models first.
pub open spec fn more_first() -> spec_fn((Seq<char>, usize), (Seq<char>, usize)) -> bool {
    |a: (Seq<char>, usize), b: (Seq<char>, usize)| a.1 > b.1
}

/// A provider and its count in a summary.
pub open spec fn count_text(entry: (Seq<char>, usize)) -> Seq<char> {
    entry.0 + "="@ + decimal(entry.1 as nat)
}

/// The summary of model counts: providers that have models, those with more
/// first.
pub open spec fn counts_summary(list: Seq<(Seq<char>, usize)>) -> Seq<char> {
    joined(
        sorted(
            kept(list, |e: (Seq<char>, usize)| e.1 > 0),
            more_first(),
        ).map_values(|e: (Seq<char>, usize)| count_text(e)),
        ", "@,
    )
}

/// The summary of model counts.
pub fn summarize_counts(counts: &Vec<(String, usize)>) -> (r: String)
    ensures
        r@ == counts_summary(count_views(counts@)),
{
    let ghost p = |e: (Seq<char>, usize)| e.1 > 0;
    let ghost all = count_views(counts@);
    let mut some: Vec<(String, usize)> = Vec::new();
    let mut i: usize = 0;
    proof {
        kept_all(all, p);
        assert(count_views(some@) =~= kept(all.take(0), p));
    }
    while i < counts.len()
        invariant
            i <= counts@.len(),
            all == count_views(counts@),
            p == (|e: (Seq<char>, usize)| e.1 > 0),
            count_views(some@) == kept(all.take(i as int), p),
        decreases counts@.len() - i,
    {
        proof {
            kept_next(all, p, i as int);
        }
        if counts[i].1 > 0 {
            let ghost so_far = count_views(some@);
            some.push((counts[i].0.clone(), counts[i].1));
            assert(count_views(some@) =~= so_far.push(all[i as int]));
        }
        i += 1;
    }
    let ghost precedes = |a: (String, usize), b: (String, usize)| a.1 > b.1;
    let comes = |a: &(String, usize), b: &(String, usize)| -> (c: bool)
        ensures
            c == (a.1 > b.1),
        { a.1 > b.1 };
    let ghost list = some@;
    let ordered = sort_stably(some, comes, Ghost(precedes));
    proof {
        sorted_maps(list, precedes, |e: (String, usize)| (e.0@, e.1), more_first());
    }
    let mut parts: Vec<String> = Vec::new();
    let mut j: usize = 0;
    while j < ordered.len()
        invariant
            j <= ordered@.len(),
            parts@.len() == j,
            forall|k: int|
                0 <= k < j ==> #[trigger] parts@[k]@ == count_text((ordered@[k].0@, ordered@[k].1)),
        decreases ordered@.len() - j,
    {
        let mut part = ordered[j].0.clone();
        part.push_str("=");
        push_decimal(&mut part, ordered[j].1 as u64);
        parts.push(part);
        j += 1;
    }
    assert(views(parts@) =~= count_views(ordered@).map_values(
        |e: (Seq<char>, usize)| count_text(e),
    ));
    join(&parts, ", ")
}

/// Whether a list holds every provider of a hub once, with the models that its
/// free keys serve.
pub open spec fn lists_free_counts(list: Seq<(Seq<char>, usize)>, hub: HubView) -> bool {
    &&& forall|i: int|
        0 <= i < list.len() ==> hub.pools.contains_key(#[trigger] list[i].0) && list[i].1
            == free_model_count(hub.pools[list[i].0])
    &&& forall|i: int, j: int| 0 <= i < j < list.len() ==> #[trigger] list[i].0 != #[trigger] list[j].0
    &&& forall|name: Seq<char>| #[trigger]
        hub.pools.contains_key(name) ==> exists|i: int| 0 <= i < list.len() && #[trigger] list[i].0 == name
}

/// Whether a list holds every provider of a hub once, with its keys masked.
pub open spec fn lists_masked(list: Seq<(String, Vec<KeyState>)>, hub: HubView) -> bool {
    &&& forall|i: int|
        0 <= i < list.len() ==> hub.pools.contains_key((#[trigger] list[i]).0@) && state_views(
            list[i].1@,
        ) == hub.pools[list[i].0@].keys.map_values(|k: KeyStateView| k.masked())
    &&& forall|i: int, j: int|
        0 <= i < j < list.len() ==> (#[trigger] list[i]).0@ != (#[trigger] list[j]).0@
    &&& forall|name: Seq<char>| #[trigger]
        hub.pools.contains_key(name) ==> exists|i: int|
            0 <= i < list.len() && (#[trigger] list[i]).0@ == name
}

/// Whether every key of every provider can be masked.
pub open spec fn hub_maskable(hub: HubView) -> bool {
    forall|name: Seq<char>| #[trigger] hub.pools.contains_key(name) ==> all_maskable(hub.pools[name])
}

impl KeyHub {
    /// Every name stands with the number of a pool of that name.
    pub closed spec fn wf(&self) -> bool {
        forall|name: Seq<char>| #[trigger]
            entries(self.index).contains_key(name) ==> entries(self.index)[name]
                < self.pools@.len() && self.pools@[entries(self.index)[name] as int]@.name == name
    }

    /// Changing the pool of one provider changes the view at its name.
    proof fn pool_changed(before: KeyHub, after: KeyHub, provider: Seq<char>, pool: KeyPool)
        requires
            before.wf(),
            entries(before.index).contains_key(provider),
            after.index == before.index,
            after.routing == before.routing,
            after.pools@ == before.pools@.update(entries(before.index)[provider] as int, pool),
            pool@.name == provider,
        ensures
            after.wf(),
            after@ == (HubView { pools: before@.pools.insert(provider, pool@), ..before@ }),
    {
        let i = entries(before.index)[provider] as int;
        assert forall|name: Seq<char>| #[trigger] entries(after.index).contains_key(name) implies entries(
            after.index,
        )[name] < after.pools@.len() && after.pools@[entries(after.index)[name] as int]@.name
            == name by {
            let j = entries(before.index)[name] as int;
            if j == i {
                assert(before.pools@[i]@.name == provider);
                assert(name == provider);
            }
        }
        assert(after@.pools =~= before@.pools.insert(provider, pool@)) by {
            assert forall|name: Seq<char>| before@.pools.contains_key(name) && name != provider implies after@.pools[name]
                == before@.pools[name] by {
                let j = entries(before.index)[name] as int;
                assert(entries(before.index).contains_key(name));
                assert(before.pools@[j]@.name == name);
                assert(before.pools@[i]@.name == provider);
                assert(j != i);
            }
        }
    }

    fn position(&self, provider_name: &str) -> (r: Option<usize>)
        requires
            self.wf(),
        ensures
            match r {
                Some(i) => self@.pools.contains_key(provider_name@) && i < self.pools@.len()
                    && entries(self.index).contains_key(provider_name@)
                    && entries(self.index)[provider_name@] == i && self@.pools[provider_name@]
                    == self.pools@[i as int]@ && self.pools@[i as int]@.name == provider_name@,
                None => !self@.pools.contains_key(provider_name@),
            },
    {
        index_get(&self.index, provider_name)
    }

    /// Create a new KeyHub.
    pub fn new(routing: RoutingConfig) -> (r: KeyHub)
        ensures
            r.wf(),
            r@ == (HubView { pools: Map::empty(), routing }),
    {
        let r = KeyHub { index: new_index(), pools: Vec::new(), routing };
        assert(r@.pools =~= Map::<Seq<char>, PoolView>::empty());
        r
    }

    /// Register a provider's keys at second `now`.
    pub fn register_provider_at(&mut self, provider_name: &str, keys: Vec<KeyConfig>, now: u64)
        requires
            old(self).wf(),
        ensures
            final(self).wf(),
            final(self)@ == old(self)@.registered(provider_name@, keys@, now),
    {
        let ghost given = keys@;
        let pool = KeyPool::new_at(provider_name, keys, self.routing, now);
        match self.position(provider_name) {
            Some(i) => {
                let ghost before = *self;
                self.pools.set(i, pool);
                proof {
                    KeyHub::pool_changed(before, *self, provider_name@, pool);
                }
            },
            None => {
                let number: usize = self.pools.len();
                self.pools.push(pool);
                index_insert(&mut self.index, provider_name.to_owned(), number);
                assert(self@.pools =~= old(self)@.registered(provider_name@, given, now).pools) by {
                    assert forall|name: Seq<char>| old(self)@.pools.contains_key(name) implies self@.pools[name]
                        == old(self)@.pools[name] by {
                        assert(entries(old(self).index).contains_key(name));
                    }
                }
            },
        }
    }

    /// Register a provider's keys.
    pub fn register_provider(&mut self, provider_name: &str, keys: Vec<KeyConfig>)
        requires
            old(self).wf(),
        ensures
            final(self).wf(),
            exists|now: u64|
                final(self)@ == #[trigger] old(self)@.registered(provider_name@, keys@, now),
    {
        self.register_provider_at(provider_name, keys, now_seconds())
    }

    /// Acquire an available key for a provider.
    pub fn acquire_key(&mut self, provider_name: &str, counter: &mut RoundRobin) -> (r:
        GatewayResult<String>)
        requires
            old(self).wf(),
        ensures
            final(self).wf(),
            acquires(
                old(self)@,
                *old(counter),
                provider_name@,
                r,
                final(self)@,
                *final(counter),
            ),
    {
        match self.position(provider_name) {
            None => Err(GatewayError::ProviderNotFound(provider_name.to_owned())),
            Some(i) => {
                let ghost before = *self;
                let r = self.pools[i].acquire_key(counter);
                proof {
                    KeyHub::pool_changed(before, *self, provider_name@, self.pools@[i as int]);
                }
                r
            },
        }
    }

    /// Report success for a provider's key.
    pub fn report_success(
        &mut self,
        provider_name: &str,
        key: &str,
        prompt_tokens: Option<u32>,
        completion_tokens: Option<u32>,
    )
        requires
            old(self).wf(),
        ensures
            final(self).wf(),
            exists|now: u64|
                final(self)@ == #[trigger] old(self)@.succeeded(
                    provider_name@,
                    key@,
                    prompt_tokens,
                    completion_tokens,
                    false,
                    now,
                ),
    {
        let now = now_seconds();
        if let Some(i) = self.position(provider_name) {
            let ghost before = *self;
            self.pools[i].report_success_at(key, prompt_tokens, completion_tokens, now);
            proof {
                KeyHub::pool_changed(before, *self, provider_name@, self.pools@[i as int]);
            }
        }
        assert(self@ == old(self)@.succeeded(
            provider_name@,
            key@,
            prompt_tokens,
            completion_tokens,
            false,
            now,
        ));
    }

    /// Reserve one request before sending it upstream.
    pub fn reserve_key(&mut self, provider_name: &str, key: &str) -> (r: bool)
        requires
            old(self).wf(),
        ensures
            final(self).wf(),
            exists|now: u64|
                r == old(self)@.can_reserve(provider_name@, key@, now) && final(self)@
                    == #[trigger] old(self)@.reserved(provider_name@, key@, now),
    {
        let now = now_seconds();
        let r = match self.position(provider_name) {
            Some(i) => {
                let ghost before = *self;
                let reserved = self.pools[i].reserve_key_at(key, now);
                proof {
                    KeyHub::pool_changed(before, *self, provider_name@, self.pools@[i as int]);
                }
                reserved
            },
            None => false,
        };
        assert(self@ == old(self)@.reserved(provider_name@, key@, now));
        r
    }

    /// Report success for a provider key whose request was already reserved.
    pub fn report_reserved_success(
        &mut self,
        provider_name: &str,
        key: &str,
        prompt_tokens: Option<u32>,
        completion_tokens: Option<u32>,
    )
        requires
            old(self).wf(),
        ensures
            final(self).wf(),
            exists|now: u64|
                final(self)@ == #[trigger] old(self)@.succeeded(
                    provider_name@,
                    key@,
                    prompt_tokens,
                    completion_tokens,
                    true,
                    now,
                ),
    {
        let now = now_seconds();
        if let Some(i) = self.position(provider_name) {
            let ghost before = *self;
            self.pools[i].report_reserved_success_at(key, prompt_tokens, completion_tokens, now);
            proof {
                KeyHub::pool_changed(before, *self, provider_name@, self.pools@[i as int]);
            }
        }
        assert(self@ == old(self)@.succeeded(
            provider_name@,
            key@,
            prompt_tokens,
            completion_tokens,
            true,
            now,
        ));
    }

    /// Report failure for a provider's key.
    pub fn report_failure(&mut self, provider_name: &str, key: &str, http_status: u16)
        requires
            old(self).wf(),
        ensures
            final(self).wf(),
            exists|now: u64|
                final(self)@ == #[trigger] old(self)@.failed(
                    provider_name@,
                    key@,
                    http_status,
                    None,
                    now,
                ),
    {
        self.report_failure_with_retry_after(provider_name, key, http_status, None);
    }

    /// Report a transient provider/key failure that should not disable auth.
    pub fn report_transient_failure(&mut self, provider_name: &str, key: &str, http_status: u16)
        requires
            old(self).wf(),
        ensures
            final(self).wf(),
            exists|now: u64|
                final(self)@ == #[trigger] old(self)@.failed_transiently(
                    provider_name@,
                    key@,
                    http_status,
                    now,
                ),
    {
        let now = now_seconds();
        if let Some(i) = self.position(provider_name) {
            let ghost before = *self;
            self.pools[i].report_transient_failure_at(key, http_status, now);
            proof {
                KeyHub::pool_changed(before, *self, provider_name@, self.pools@[i as int]);
            }
        }
        assert(self@ == old(self)@.failed_transiently(provider_name@, key@, http_status, now));
    }

    /// Force a transient key cooldown when the response body fails after a stream was accepted.
    pub fn force_transient_cooldown(&mut self, provider_name: &str, key: &str, http_status: u16)
        requires
            old(self).wf(),
        ensures
            final(self).wf(),
            exists|now: u64|
                final(self)@ == #[trigger] old(self)@.forced_to_cool(
                    provider_name@,
                    key@,
                    http_status,
                    now,
                ),
    {
        let now = now_seconds();
        if let Some(i) = self.position(provider_name) {
            let ghost before = *self;
            self.pools[i].force_transient_cooldown_at(key, http_status, now);
            proof {
                KeyHub::pool_changed(before, *self, provider_name@, self.pools@[i as int]);
            }
        }
        assert(self@ == old(self)@.forced_to_cool(provider_name@, key@, http_status, now));
    }

    /// Report failure with optional upstream retry guidance.
    pub fn report_failure_with_retry_after(
        &mut self,
        provider_name: &str,
        key: &str,
        http_status: u16,
        retry_after_seconds: Option<u64>,
    )
        requires
            old(self).wf(),
        ensures
            final(self).wf(),
            exists|now: u64|
                final(self)@ == #[trigger] old(self)@.failed(
                    provider_name@,
                    key@,
                    http_status,
                    retry_after_seconds,
                    now,
                ),
    {
        let now = now_seconds();
        if let Some(i) = self.position(provider_name) {
            let ghost before = *self;
            self.pools[i].report_failure_with_retry_after_at(
                key,
                http_status,
                retry_after_seconds,
                now,
            );
            proof {
                KeyHub::pool_changed(before, *self, provider_name@, self.pools@[i as int]);
            }
        }
        assert(self@ == old(self)@.failed(
            provider_name@,
            key@,
            http_status,
            retry_after_seconds,
            now,
        ));
    }

    /// Report a structured upstream error, preserving auth vs WAF/Cloudflare semantics.
    pub fn report_gateway_error(&mut self, provider_name: &str, key: &str, error: &GatewayError)
        requires
            old(self).wf(),
        ensures
            final(self).wf(),
            exists|moment: Moment, now: u64|
                0 <= moment.seconds && final(self)@ == #[trigger] old(self)@.charged(
                    provider_name@,
                    key@,
                    *error,
                    moment,
                    now,
                ),
    {
        let moment = now_moment();
        if !error.is_key_attributable_failure() {
            assert(self@ == old(self)@.charged(provider_name@, key@, *error, moment, 0));
            return ;
        }
        let status = error.http_status();
        if status == 429 || error.is_auth_failure() {
            let retry_after = error.retry_after_seconds_at(moment);
            self.report_failure_with_retry_after(provider_name, key, status, retry_after);
            proof {
                let now = choose|now: u64|
                    self@ == #[trigger] old(self)@.failed(
                        provider_name@,
                        key@,
                        status,
                        retry_after,
                        now,
                    );
                assert(self@ == old(self)@.charged(provider_name@, key@, *error, moment, now));
            }
        } else {
            self.report_transient_failure(provider_name, key, status);
            proof {
                let now = choose|now: u64|
                    self@ == #[trigger] old(self)@.failed_transiently(
                        provider_name@,
                        key@,
                        status,
                        now,
                    );
                assert(self@ == old(self)@.charged(provider_name@, key@, *error, moment, now));
            }
        }
    }

    /// Restore persisted key metadata for a registered provider.
    pub fn restore_provider_states(&mut self, provider_name: &str, states: &[KeyState])
        requires
            old(self).wf(),
        ensures
            final(self).wf(),
            exists|now: u64|
                final(self)@ == #[trigger] old(self)@.with_saved_states(
                    provider_name@,
                    state_views(states@),
                    now,
                ),
    {
        let now = now_seconds();
        if let Some(i) = self.position(provider_name) {
            let ghost before = *self;
            self.pools[i].restore_states_at(states, now);
            proof {
                KeyHub::pool_changed(before, *self, provider_name@, self.pools@[i as int]);
            }
        }
        assert(self@ == old(self)@.with_saved_states(provider_name@, state_views(states@), now));
    }

    /// Manually restore a key by provider and key fingerprint.
    pub fn restore_key(&mut self, provider_name: &str, key_id: &str) -> (r: GatewayResult<KeyState>)
        requires
            old(self).wf(),
            old(self)@.pools.contains_key(provider_name@) ==> id_maskable(
                old(self)@.pools[provider_name@],
                key_id@,
            ),
        ensures
            final(self).wf(),
            exists|now: u64|
                final(self)@ == #[trigger] old(self)@.with_restored(provider_name@, key_id@, now)
                    && restored_result(old(self)@, provider_name@, key_id@, now, r),
    {
        let now = now_seconds();
        let r = match self.position(provider_name) {
            None => Err(GatewayError::ProviderNotFound(provider_name.to_owned())),
            Some(i) => {
                let ghost before = *self;
                let r = self.pools[i].restore_key_by_id_at(key_id, now);
                proof {
                    KeyHub::pool_changed(before, *self, provider_name@, self.pools@[i as int]);
                }
                r
            },
        };
        assert(self@ == old(self)@.with_restored(provider_name@, key_id@, now));
        r
    }

    /// Return raw key material for a provider for internal rule sync.
    pub fn provider_keys(&self, provider_name: &str) -> (r: Vec<String>)
        requires
            self.wf(),
        ensures
            views(r@) == if self@.pools.contains_key(provider_name@) {
                self@.pools[provider_name@].keys.map_values(|k: KeyStateView| k.key)
            } else {
                Seq::empty()
            },
    {
        match self.position(provider_name) {
            Some(i) => self.pools[i].key_values(),
            None => no_strings(),
        }
    }

    /// Return raw key material by stable fingerprint for explicit admin validation.
    pub fn key_by_id(&self, provider_name: &str, key_id: &str) -> (r: GatewayResult<String>)
        requires
            self.wf(),
        ensures
            if !self@.pools.contains_key(provider_name@) {
                r matches Err(GatewayError::ProviderNotFound(n)) && n@ == provider_name@
            } else {
                match id_index(self@.pools[provider_name@].keys, key_id@, 0) {
                    Some(i) => r matches Ok(key) && key@ == self@.pools[provider_name@].keys[i].key,
                    None => r matches Err(GatewayError::InvalidRequest(m)) && m@
                        == "Key id not found: "@ + key_id@,
                }
            },
    {
        match self.position(provider_name) {
            None => Err(GatewayError::ProviderNotFound(provider_name.to_owned())),
            Some(i) => self.pools[i].key_by_id(key_id),
        }
    }

    /// Return the discovered model inventory for one raw key.
    pub fn models_for_key(&self, provider_name: &str, key: &str) -> (r: Vec<String>)
        requires
            self.wf(),
        ensures
            views(r@) == if self@.pools.contains_key(provider_name@) {
                match key_index(self@.pools[provider_name@].keys, key@, 0) {
                    Some(i) => self@.pools[provider_name@].keys[i].models,
                    None => Seq::empty(),
                }
            } else {
                Seq::empty()
            },
    {
        match self.position(provider_name) {
            Some(i) => self.pools[i].models_for_key(key),
            None => no_strings(),
        }
    }

    /// Return the discovered model inventory for one key fingerprint.
    pub fn models_for_key_id(&self, provider_name: &str, key_id: &str) -> (r: Vec<String>)
        requires
            self.wf(),
        ensures
            views(r@) == if self@.pools.contains_key(provider_name@) {
                match id_index(self@.pools[provider_name@].keys, key_id@, 0) {
                    Some(i) => self@.pools[provider_name@].keys[i].models,
                    None => Seq::empty(),
                }
            } else {
                Seq::empty()
            },
    {
        match self.position(provider_name) {
            Some(i) => self.pools[i].models_for_key_id(key_id),
            None => no_strings(),
        }
    }

    /// Apply discovered request limits for a key without touching config files.
    pub fn apply_request_limits(
        &mut self,
        provider_name: &str,
        key: &str,
        rpm_limit: Option<u32>,
        rpd_limit: Option<u32>,
        source: &str,
    ) -> (r: bool)
        requires
            old(self).wf(),
        ensures
            final(self).wf(),
            r == (old(self)@.pools.contains_key(provider_name@) && key_index(
                old(self)@.pools[provider_name@].keys,
                key@,
                0,
            ) is Some),
            final(self)@ == old(self)@.with_pool(
                provider_name@,
                |p: PoolView|
                    p.with_key(
                        key@,
                        |k: KeyStateView| with_limits(k, rpm_limit, rpd_limit, source@),
                    ),
            ),
    {
        match self.position(provider_name) {
            None => false,
            Some(i) => {
                let ghost before = *self;
                let r = self.pools[i].apply_request_limits(key, rpm_limit, rpd_limit, source);
                proof {
                    KeyHub::pool_changed(before, *self, provider_name@, self.pools@[i as int]);
                }
                r
            },
        }
    }

    /// Check if a provider has any available keys.
    pub fn has_available_keys(&mut self, provider_name: &str) -> (r: bool)
        requires
            old(self).wf(),
        ensures
            final(self).wf(),
            exists|now: u64|
                final(self)@ == #[trigger] old(self)@.refreshed(provider_name@, now) && r == (old(
                    self,
                )@.pools.contains_key(provider_name@) && count_keys(
                    old(self)@.pools[provider_name@].refreshed(now).keys,
                    is_ready(now),
                ) > 0),
    {
        self.available_count(provider_name) > 0
    }

    /// Get the exact number of currently available keys for a provider.
    pub fn available_count(&mut self, provider_name: &str) -> (r: usize)
        requires
            old(self).wf(),
        ensures
            final(self).wf(),
            exists|now: u64|
                final(self)@ == #[trigger] old(self)@.refreshed(provider_name@, now) && r == (
                if old(self)@.pools.contains_key(provider_name@) {
                    count_keys(
                        old(self)@.pools[provider_name@].refreshed(now).keys,
                        is_ready(now),
                    )
                } else {
                    0
                }),
    {
        let now = now_seconds();
        let r = match self.position(provider_name) {
            None => 0,
            Some(i) => {
                let ghost before = *self;
                let r = self.pools[i].available_count_at(now);
                proof {
                    KeyHub::pool_changed(before, *self, provider_name@, self.pools@[i as int]);
                }
                r
            },
        };
        assert(self@ == old(self)@.refreshed(provider_name@, now));
        r
    }

    /// Summarize key status for diagnostics without exposing key material.
    pub fn provider_key_status_summary(&mut self, provider_name: &str) -> (r: String)
        requires
            old(self).wf(),
        ensures
            final(self).wf(),
            exists|now: u64|
                final(self)@ == #[trigger] old(self)@.refreshed(provider_name@, now) && r@ == (
                if old(self)@.pools.contains_key(provider_name@) {
                    summary_text(old(self)@.pools[provider_name@], now)
                } else {
                    "provider_not_registered"@
                }),
    {
        let now = now_seconds();
        let r = match self.position(provider_name) {
            None => "provider_not_registered".to_owned(),
            Some(i) => {
                let ghost before = *self;
                let r = self.pools[i].key_status_summary_at(now);
                proof {
                    KeyHub::pool_changed(before, *self, provider_name@, self.pools@[i as int]);
                }
                r
            },
        };
        assert(self@ == old(self)@.refreshed(provider_name@, now));
        r
    }

    /// The keys with which a provider's models are discovered.
    pub fn discovery_keys(&mut self, provider_name: &str) -> (r: Vec<(String, KeyTier)>)
        requires
            old(self).wf(),
        ensures
            final(self).wf(),
            exists|now: u64|
                final(self)@ == #[trigger] old(self)@.refreshed(provider_name@, now) && pair_views(
                    r@,
                ) == (if old(self)@.pools.contains_key(provider_name@) {
                    keys_and_tiers(
                        old(self)@.pools[provider_name@].refreshed(now).keys,
                        is_ready(now),
                    )
                } else {
                    Seq::empty()
                }),
    {
        let now = now_seconds();
        let r = match self.position(provider_name) {
            None => no_pairs(),
            Some(i) => {
                let ghost before = *self;
                let r = self.pools[i].discovery_keys_at(now);
                proof {
                    KeyHub::pool_changed(before, *self, provider_name@, self.pools@[i as int]);
                }
                r
            },
        };
        assert(self@ == old(self)@.refreshed(provider_name@, now));
        r
    }

    /// The keys whose models are probed: those ready, and those disabled.
    pub fn model_probe_keys(&mut self, provider_name: &str) -> (r: Vec<(String, KeyTier)>)
        requires
            old(self).wf(),
        ensures
            final(self).wf(),
            exists|now: u64|
                final(self)@ == #[trigger] old(self)@.refreshed(provider_name@, now) && pair_views(
                    r@,
                ) == (if old(self)@.pools.contains_key(provider_name@) {
                    keys_and_tiers(
                        old(self)@.pools[provider_name@].refreshed(now).keys,
                        is_probe_key(now),
                    )
                } else {
                    Seq::empty()
                }),
    {
        let now = now_seconds();
        let r = match self.position(provider_name) {
            None => no_pairs(),
            Some(i) => {
                let ghost before = *self;
                let r = self.pools[i].model_probe_keys_at(now);
                proof {
                    KeyHub::pool_changed(before, *self, provider_name@, self.pools@[i as int]);
                }
                r
            },
        };
        assert(self@ == old(self)@.refreshed(provider_name@, now));
        r
    }

    /// The status of a key.
    pub fn key_status(&self, provider_name: &str, key: &str) -> (r: Option<KeyStatus>)
        requires
            self.wf(),
        ensures
            r == if self@.pools.contains_key(provider_name@) {
                match key_index(self@.pools[provider_name@].keys, key@, 0) {
                    Some(i) => Some(self@.pools[provider_name@].keys[i].status),
                    None => None,
                }
            } else {
                None
            },
    {
        match self.position(provider_name) {
            Some(i) => self.pools[i].key_status(key),
            None => None,
        }
    }

    /// Replaces the models of a key: sorted, each once.
    pub fn update_models(&mut self, provider_name: &str, key: &str, models: Vec<String>)
        requires
            old(self).wf(),
        ensures
            final(self).wf(),
            exists|now: u64|
                final(self)@ == #[trigger] old(self)@.with_models(
                    provider_name@,
                    key@,
                    views(models@),
                    now,
                ),
    {
        let now = now_seconds();
        let ghost given = views(models@);
        if let Some(i) = self.position(provider_name) {
            let ghost before = *self;
            self.pools[i].update_models_at(key, models, now);
            proof {
                KeyHub::pool_changed(before, *self, provider_name@, self.pools@[i as int]);
            }
        }
        assert(self@ == old(self)@.with_models(provider_name@, key@, given, now));
    }

    /// Records why the models of a key could not be discovered.
    pub fn record_model_error(&mut self, provider_name: &str, key: &str, error: &str)
        requires
            old(self).wf(),
        ensures
            final(self).wf(),
            final(self)@ == old(self)@.with_model_error(provider_name@, key@, error@),
    {
        if let Some(i) = self.position(provider_name) {
            let ghost before = *self;
            self.pools[i].record_model_error(key, error);
            proof {
                KeyHub::pool_changed(before, *self, provider_name@, self.pools@[i as int]);
            }
        }
    }

    /// The free keys of a provider that can take a request at second `now`, for
    /// a model where one is given.
    pub fn free_infos_at(&mut self, provider_name: &str, model: Option<&str>, now: u64) -> (r: Vec<
        FreeKeyCandidate,
    >)
        requires
            old(self).wf(),
        ensures
            final(self).wf(),
            final(self)@ == old(self)@.searched(provider_name@, now),
            candidate_views(r@) == old(self)@.free_infos(provider_name@, str_view(model), now),
    {
        match self.position(provider_name) {
            None => {
                let r: Vec<FreeKeyCandidate> = Vec::new();
                assert(candidate_views(r@) =~= Seq::<CandidateView>::empty());
                r
            },
            Some(i) => {
                let ghost before = *self;
                let r = self.pools[i].free_candidate_infos_at(model, now);
                proof {
                    KeyHub::pool_changed(before, *self, provider_name@, self.pools@[i as int]);
                }
                r
            },
        }
    }

    /// The free keys of a provider that can serve a model.
    pub fn free_candidate_infos(&mut self, provider_name: &str, model: &str) -> (r: Vec<
        FreeKeyCandidate,
    >)
        requires
            old(self).wf(),
        ensures
            final(self).wf(),
            exists|now: u64|
                final(self)@ == #[trigger] old(self)@.searched(provider_name@, now)
                    && candidate_views(r@) == old(self)@.free_infos(
                    provider_name@,
                    Some(model@),
                    now,
                ),
    {
        self.free_infos_at(provider_name, Some(model), now_seconds())
    }

    /// The free keys of a provider that can take a request.
    pub fn free_provider_candidate_infos(&mut self, provider_name: &str) -> (r: Vec<
        FreeKeyCandidate,
    >)
        requires
            old(self).wf(),
        ensures
            final(self).wf(),
            exists|now: u64|
                final(self)@ == #[trigger] old(self)@.searched(provider_name@, now)
                    && candidate_views(r@) == old(self)@.free_infos(provider_name@, None, now),
    {
        self.free_infos_at(provider_name, None, now_seconds())
    }

    /// The free keys of a provider that can serve a model, in the order in
    /// which they are tried.
    pub fn free_candidates(
        &mut self,
        provider_name: &str,
        model: &str,
        agent_name: Option<&str>,
        counter: &mut RoundRobin,
    ) -> (r: Vec<String>)
        requires
            old(self).wf(),
        ensures
            final(self).wf(),
            exists|now: u64, draw: usize|
                {
                    &&& views(r@) == #[trigger] tried_order(
                        old(self)@.free_infos(provider_name@, Some(model@), now),
                        old(self)@.routing.strategy,
                        draw,
                        str_view(agent_name),
                    )
                    &&& final(self)@ == old(self)@.searched(provider_name@, now)
                    &&& *final(counter) == old(counter).after(
                        old(self)@.routing.strategy == RoutingStrategy::RoundRobin && old(
                            self,
                        )@.free_infos(provider_name@, Some(model@), now).len() > 1,
                    )
                    &&& old(self)@.routing.strategy == RoutingStrategy::RoundRobin ==> draw == old(
                        counter,
                    ).turns as usize
                },
    {
        let now = now_seconds();
        let candidates = self.free_infos_at(provider_name, Some(model), now);
        let ghost infos = candidate_views(candidates@);
        let draw: usize = match self.routing.strategy {
            RoutingStrategy::RoundRobin => counter.turns as usize,
            RoutingStrategy::Random => random_index(),
            _ => 0,
        };
        counter.take_turn(
            self.routing.strategy == RoutingStrategy::RoundRobin && candidates.len() > 1,
        );
        let r = order_candidates(candidates, self.routing.strategy, draw, agent_name);
        assert(views(r@) == tried_order(
            infos,
            old(self)@.routing.strategy,
            draw,
            str_view(agent_name),
        ));
        r
    }

    /// Get any available free key from a provider, ignoring model inventory.
    /// Used for emergency cross-provider fallback when model-specific
    /// candidates are exhausted or unreachable.
    pub fn any_free_key(&mut self, provider_name: &str) -> (r: Option<String>)
        requires
            old(self).wf(),
        ensures
            final(self).wf(),
            exists|now: u64|
                final(self)@ == #[trigger] old(self)@.searched(provider_name@, now) && found_key(
                    old(self)@,
                    provider_name@,
                    is_free_ready(now),
                    now,
                    r,
                ),
    {
        let now = now_seconds();
        let r = match self.position(provider_name) {
            None => None,
            Some(i) => {
                let ghost before = *self;
                let r = self.pools[i].any_free_key_at(now);
                proof {
                    KeyHub::pool_changed(before, *self, provider_name@, self.pools@[i as int]);
                }
                r
            },
        };
        assert(self@ == old(self)@.searched(provider_name@, now));
        r
    }

    /// Get an available paid key that can serve the requested model.
    /// Used only for last-resort paid escalation after free keys are exhausted.
    pub fn paid_candidate_for_model(&mut self, provider_name: &str, model: &str) -> (r: Option<
        String,
    >)
        requires
            old(self).wf(),
        ensures
            final(self).wf(),
            exists|now: u64|
                final(self)@ == #[trigger] old(self)@.searched(provider_name@, now) && found_key(
                    old(self)@,
                    provider_name@,
                    is_paid_for(model@, now),
                    now,
                    r,
                ),
    {
        let now = now_seconds();
        let r = match self.position(provider_name) {
            None => None,
            Some(i) => {
                let ghost before = *self;
                let r = self.pools[i].paid_candidate_for_model_at(model, now);
                proof {
                    KeyHub::pool_changed(before, *self, provider_name@, self.pools@[i as int]);
                }
                r
            },
        };
        assert(self@ == old(self)@.searched(provider_name@, now));
        r
    }
}

/// Whether a result is what acquiring a key of a provider gives, where the hub
/// and the counter go from one state to another. Round robin takes the turn of
/// the counter, where a key is found; what a random choice draws is open.
pub open spec fn acquires(
    before: HubView,
    counter: RoundRobin,
    provider: Seq<char>,
    r: GatewayResult<String>,
    after: HubView,
    counter_after: RoundRobin,
) -> bool {
    if before.pools.contains_key(provider) {
        exists|now: u64, draw: usize|
            {
                &&& #[trigger] acquired(before.pools[provider].refreshed(now), now, draw, r)
                &&& after == before.refreshed(provider, now)
                &&& counter_after == counter.after(
                    before.pools[provider].refreshed(now).takes_turn(now),
                )
                &&& before.pools[provider].routing.strategy == RoutingStrategy::RoundRobin ==> draw
                    == counter.turns as usize
            }
    } else {
        after == before && counter_after == counter && (r matches Err(
            GatewayError::ProviderNotFound(n),
        ) && n@ == provider)
    }
}

/// What the restoration of a key by hand gives back.
pub open spec fn restored_result(
    hub: HubView,
    provider: Seq<char>,
    id: Seq<char>,
    now: u64,
    r: GatewayResult<KeyState>,
) -> bool {
    if !hub.pools.contains_key(provider) {
        r matches Err(GatewayError::ProviderNotFound(n)) && n@ == provider
    } else {
        match id_index(hub.pools[provider].keys, id, 0) {
            Some(i) => r matches Ok(state) && state@ == hub.pools[provider].keys[i].restored(
                now,
            ).masked(),
            None => r matches Err(GatewayError::InvalidRequest(m)) && m@ == "Key id not found: "@
                + id,
        }
    }
}

/// The first key of a provider that satisfies a condition is found, unless the
/// provider is unknown or cools down.
pub open spec fn found_key(
    hub: HubView,
    provider: Seq<char>,
    p: spec_fn(KeyStateView) -> bool,
    now: u64,
    r: Option<String>,
) -> bool {
    let found = if hub.pools.contains_key(provider) && !hub.pools[provider].cooling(now) {
        first_where(hub.pools[provider].searched(now).keys, p, 0)
    } else {
        None
    };
    match found {
        Some(i) => r matches Some(key) && key@ == hub.pools[provider].searched(now).keys[i].key,
        None => r is None,
    }
}

fn no_strings() -> (r: Vec<String>)
    ensures
        views(r@) == Seq::<Seq<char>>::empty(),
{
    let r: Vec<String> = Vec::new();
    assert(views(r@) =~= Seq::<Seq<char>>::empty());
    r
}

fn no_pairs() -> (r: Vec<(String, KeyTier)>)
    ensures
        pair_views(r@) == Seq::<(Seq<char>, KeyTier)>::empty(),
{
    let r: Vec<(String, KeyTier)> = Vec::new();
    assert(pair_views(r@) =~= Seq::<(Seq<char>, KeyTier)>::empty());
    r
}

/// Whether the first `i` entries of a walk hold the number `k`.
spec fn visited(walk: Seq<(String, usize)>, i: int, k: int) -> bool {
    exists|j: int| 0 <= j < i && #[trigger] walk[j].1 == k
}

/// The pairs of a provider and the models that its free keys serve.
pub open spec fn serves_free(hub: HubView, provider: Seq<char>, model: Seq<char>, now: u64) -> bool {
    hub.pools.contains_key(provider) && free_models_of(
        hub.pools[provider].refreshed(now),
        now,
    ).contains(model)
}

impl KeyHub {
    /// A walk visits each pool once.
    proof fn walk_is_fresh(&self, walk: Seq<(String, usize)>, i: int)
        requires
            self.wf(),
            lists_entries(walk, entries(self.index)),
            0 <= i < walk.len(),
        ensures
            walk[i].1 < self.pools@.len(),
            self.pools@[walk[i].1 as int]@.name == walk[i].0@,
            !visited(walk, i, walk[i].1 as int),
            self@.pools.contains_key(walk[i].0@),
            self@.pools[walk[i].0@] == self.pools@[walk[i].1 as int]@,
    {
        assert(entries(self.index).contains_key(walk[i].0@));
        if visited(walk, i, walk[i].1 as int) {
            let j = choose|j: int| 0 <= j < i && #[trigger] walk[j].1 == walk[i].1;
            assert(entries(self.index).contains_key(walk[j].0@));
            assert(walk[j].0@ != walk[i].0@);
        }
    }

    /// Get a snapshot of all key pools (keys are masked), in an order that is
    /// not stated.
    pub fn snapshot(&mut self) -> (r: Vec<(String, Vec<KeyState>)>)
        requires
            old(self).wf(),
            hub_maskable(old(self)@),
        ensures
            final(self).wf(),
            exists|now: u64|
                final(self)@ == #[trigger] old(self)@.all_recovered(now) && lists_masked(
                    r@,
                    old(self)@.all_recovered(now),
                ),
    {
        let now = now_seconds();
        let walk = index_walk(&self.index);
        let ghost start = *self;
        let mut out: Vec<(String, Vec<KeyState>)> = Vec::new();
        let mut i: usize = 0;
        while i < walk.len()
            invariant
                i <= walk@.len(),
                start.wf(),
                start == *old(self),
                hub_maskable(start@),
                lists_entries(walk@, entries(start.index)),
                self.index == start.index,
                self.routing == start.routing,
                self.pools@.len() == start.pools@.len(),
                forall|k: int|
                    0 <= k < self.pools@.len() ==> #[trigger] self.pools@[k]@ == if visited(
                        walk@,
                        i as int,
                        k,
                    ) {
                        start.pools@[k]@.recovered(now)
                    } else {
                        start.pools@[k]@
                    },
                out@.len() == i,
                forall|j: int|
                    0 <= j < i ==> (#[trigger] out@[j]).0@ == walk@[j].0@ && state_views(
                        out@[j].1@,
                    ) == start@.pools[walk@[j].0@].recovered(now).keys.map_values(
                        |k: KeyStateView| k.masked(),
                    ),
            decreases walk@.len() - i,
        {
            let idx = walk[i].1;
            proof {
                start.walk_is_fresh(walk@, i as int);
            }
            let ghost mid = self.pools@;
            assert(self.pools@[idx as int]@ == start.pools@[idx as int]@);
            let states = self.pools[idx].snapshot_at(now);
            out.push((walk[i].0.clone(), states));
            assert forall|k: int| 0 <= k < self.pools@.len() implies #[trigger] self.pools@[k]@
                == if visited(walk@, i + 1, k) {
                start.pools@[k]@.recovered(now)
            } else {
                start.pools@[k]@
            } by {
                assert(mid[k]@ == if visited(walk@, i as int, k) {
                    start.pools@[k]@.recovered(now)
                } else {
                    start.pools@[k]@
                });
                if k == idx {
                    assert(walk@[i as int].1 == k);
                    assert(visited(walk@, i + 1, k));
                } else {
                    assert(visited(walk@, i + 1, k) == visited(walk@, i as int, k)) by {
                        if visited(walk@, i + 1, k) {
                            let j = choose|j: int| 0 <= j < i + 1 && #[trigger] walk@[j].1 == k;
                            assert(j != i);
                        }
                    }
                }
            }
            i += 1;
        }
        proof {
            self.walked(start, walk@, |p: PoolView| p.recovered(now));
            assert(self@.pools =~= start@.all_recovered(now).pools);
            let after = start@.all_recovered(now);
            assert forall|j: int| 0 <= j < out@.len() implies after.pools.contains_key(
                (#[trigger] out@[j]).0@,
            ) && state_views(out@[j].1@) == after.pools[out@[j].0@].keys.map_values(
                |k: KeyStateView| k.masked(),
            ) by {
                start.walk_is_fresh(walk@, j);
            }
            assert forall|a: int, b: int| 0 <= a < b < out@.len() implies (#[trigger] out@[a]).0@
                != (#[trigger] out@[b]).0@ by {
                assert(walk@[a].0@ != walk@[b].0@);
            }
            assert forall|name: Seq<char>| #[trigger] after.pools.contains_key(name) implies exists|
                j: int,
            | 0 <= j < out@.len() && (#[trigger] out@[j]).0@ == name by {
                assert(entries(start.index).contains_key(name));
                let j = choose|j: int| 0 <= j < walk@.len() && #[trigger] walk@[j].0@ == name;
                assert(out@[j].0@ == name);
            }
        }
        out
    }

    /// After a walk that changes each pool alike, every pool is changed.
    proof fn walked(
        &self,
        start: KeyHub,
        walk: Seq<(String, usize)>,
        f: spec_fn(PoolView) -> PoolView,
    )
        requires
            start.wf(),
            lists_entries(walk, entries(start.index)),
            self.index == start.index,
            self.pools@.len() == start.pools@.len(),
            forall|p: PoolView| (#[trigger] f(p)).name == p.name,
            forall|k: int|
                0 <= k < self.pools@.len() ==> #[trigger] self.pools@[k]@ == if visited(
                    walk,
                    walk.len() as int,
                    k,
                ) {
                    f(start.pools@[k]@)
                } else {
                    start.pools@[k]@
                },
        ensures
            self.wf(),
            forall|name: Seq<char>| #[trigger]
                self@.pools.contains_key(name) ==> self@.pools[name] == f(start@.pools[name]),
            self@.pools.dom() == start@.pools.dom(),
    {
        assert forall|name: Seq<char>| #[trigger] entries(self.index).contains_key(name) implies entries(
            self.index,
        )[name] < self.pools@.len() && self.pools@[entries(self.index)[name] as int]@.name == name
            && self.pools@[entries(self.index)[name] as int]@ == f(
            start.pools@[entries(self.index)[name] as int]@,
        ) by {
            let k = entries(self.index)[name] as int;
            let j = choose|j: int| 0 <= j < walk.len() && #[trigger] walk[j].0@ == name;
            assert(walk[j].1 == k);
            assert(visited(walk, walk.len() as int, k));
            assert(self.pools@[k]@ == f(start.pools@[k]@));
        }
        assert forall|name: Seq<char>| #[trigger] self@.pools.contains_key(name) implies self@.pools[name]
            == f(start@.pools[name]) by {
            assert(entries(self.index).contains_key(name));
        }
        assert(self@.pools.dom() =~= start@.pools.dom());
    }

    /// Lightweight summary of free key model counts per provider, for example
    /// "nvidia=42, github=15". It counts what the keys are known to be and changes
    /// none of them.
    pub fn free_model_summary(&self) -> (r: String)
        requires
            self.wf(),
        ensures
            exists|list: Seq<(Seq<char>, usize)>| #[trigger]
                lists_free_counts(list, self@) && r@ == counts_summary(list),
    {
        let walk = index_walk(&self.index);
        let mut counts: Vec<(String, usize)> = Vec::new();
        let mut i: usize = 0;
        while i < walk.len()
            invariant
                i <= walk@.len(),
                self.wf(),
                lists_entries(walk@, entries(self.index)),
                counts@.len() == i,
                forall|j: int|
                    0 <= j < i ==> (#[trigger] counts@[j]).0@ == walk@[j].0@ && counts@[j].1
                        == free_model_count(self@.pools[walk@[j].0@]),
            decreases walk@.len() - i,
        {
            let idx = walk[i].1;
            proof {
                self.walk_is_fresh(walk@, i as int);
            }
            let count = self.pools[idx].count_free_models();
            counts.push((walk[i].0.clone(), count));
            i += 1;
        }
        proof {
            let list = count_views(counts@);
            assert forall|j: int| 0 <= j < list.len() implies self@.pools.contains_key(
                (#[trigger] list[j]).0,
            ) && list[j].1 == free_model_count(self@.pools[list[j].0]) by {
                assert(counts@[j].0@ == walk@[j].0@);
                self.walk_is_fresh(walk@, j);
            }
            assert forall|a: int, b: int| 0 <= a < b < list.len() implies (#[trigger] list[a]).0 != (
            #[trigger] list[b]).0 by {
                assert(counts@[a].0@ == walk@[a].0@);
                assert(counts@[b].0@ == walk@[b].0@);
                assert(walk@[a].0@ != walk@[b].0@);
            }
            assert forall|name: Seq<char>| #[trigger] self@.pools.contains_key(name) implies exists|
                j: int,
            | 0 <= j < list.len() && (#[trigger] list[j]).0 == name by {
                assert(entries(self.index).contains_key(name));
                let j = choose|j: int| 0 <= j < walk@.len() && #[trigger] walk@[j].0@ == name;
                assert(counts@[j].0@ == walk@[j].0@);
                assert(list[j].0 == name);
            }
            assert(lists_free_counts(list, self@));
        }
        summarize_counts(&counts)
    }

    /// The models that free keys serve, with their providers, each pair once
    /// and in order.
    pub fn available_free_models(&mut self) -> (r: Vec<(String, String)>)
        requires
            old(self).wf(),
        ensures
            final(self).wf(),
            strictly_ordered(text_pairs(r@), pair_order()),
            exists|now: u64|
                final(self)@ == #[trigger] old(self)@.all_refreshed(now) && forall|
                    p: Seq<char>,
                    m: Seq<char>,
                | #[trigger]
                    text_pairs(r@).contains((p, m)) <==> serves_free(old(self)@, p, m, now),
    {
        let now = now_seconds();
        let walk = index_walk(&self.index);
        let ghost start = *self;
        let mut models: Vec<(String, String)> = Vec::new();
        let mut i: usize = 0;
        while i < walk.len()
            invariant
                i <= walk@.len(),
                start.wf(),
                start == *old(self),
                lists_entries(walk@, entries(start.index)),
                self.index == start.index,
                self.routing == start.routing,
                self.pools@.len() == start.pools@.len(),
                forall|k: int|
                    0 <= k < self.pools@.len() ==> #[trigger] self.pools@[k]@ == if visited(
                        walk@,
                        i as int,
                        k,
                    ) {
                        start.pools@[k]@.refreshed(now)
                    } else {
                        start.pools@[k]@
                    },
                forall|p: Seq<char>, m: Seq<char>| #[trigger]
                    text_pairs(models@).contains((p, m)) <==> (named_before(walk@, i as int, p)
                        && serves_free(start@, p, m, now)),
            decreases walk@.len() - i,
        {
            let idx = walk[i].1;
            proof {
                start.walk_is_fresh(walk@, i as int);
            }
            let ghost mid = self.pools@;
            assert(self.pools@[idx as int]@ == start.pools@[idx as int]@);
            let more = self.pools[idx].free_models_at(now);
            assert forall|k: int| 0 <= k < self.pools@.len() implies #[trigger] self.pools@[k]@
                == if visited(walk@, i + 1, k) {
                start.pools@[k]@.refreshed(now)
            } else {
                start.pools@[k]@
            } by {
                assert(mid[k]@ == if visited(walk@, i as int, k) {
                    start.pools@[k]@.refreshed(now)
                } else {
                    start.pools@[k]@
                });
                if k == idx {
                    assert(walk@[i as int].1 == k);
                    assert(visited(walk@, i + 1, k));
                } else {
                    assert(visited(walk@, i + 1, k) == visited(walk@, i as int, k)) by {
                        if visited(walk@, i + 1, k) {
                            let j = choose|j: int| 0 <= j < i + 1 && #[trigger] walk@[j].1 == k;
                            assert(j != i);
                        }
                    }
                }
            }
            let ghost provider = walk@[i as int].0@;
            let ghost served = views(more@);
            let ghost had = text_pairs(models@);
            add_pairs(&mut models, walk[i].0.as_str(), &more);
            assert forall|p: Seq<char>, m: Seq<char>| #[trigger]
                text_pairs(models@).contains((p, m)) <==> (named_before(walk@, i + 1, p)
                    && serves_free(start@, p, m, now)) by {
                assert(text_pairs(models@).contains((p, m)) <==> had.contains((p, m)) || (p
                    == provider && served.contains(m)));
                assert(had.contains((p, m)) <==> named_before(walk@, i as int, p) && serves_free(
                    start@,
                    p,
                    m,
                    now,
                ));
                if named_before(walk@, i + 1, p) && !named_before(walk@, i as int, p) {
                    let j = choose|j: int| 0 <= j < i + 1 && #[trigger] walk@[j].0@ == p;
                    assert(j == i);
                }
                if p == provider {
                    assert(walk@[i as int].0@ == p);
                    assert(named_before(walk@, i + 1, p));
                }
                if named_before(walk@, i as int, p) {
                    let j = choose|j: int| 0 <= j < i && #[trigger] walk@[j].0@ == p;
                    assert(named_before(walk@, i + 1, p));
                }
            }
            i += 1;
        }
        let ghost collected = text_pairs(models@);
        let r = sort_and_dedup_pairs(models);
        proof {
            self.walked(start, walk@, |p: PoolView| p.refreshed(now));
            assert(self@.pools =~= start@.all_refreshed(now).pools);
            assert forall|p: Seq<char>, m: Seq<char>| #[trigger]
                text_pairs(r@).contains((p, m)) <==> serves_free(start@, p, m, now) by {
                assert(text_pairs(r@).contains((p, m)) <==> collected.contains((p, m)));
                if serves_free(start@, p, m, now) {
                    assert(entries(start.index).contains_key(p));
                    let j = choose|j: int| 0 <= j < walk@.len() && #[trigger] walk@[j].0@ == p;
                    assert(named_before(walk@, walk@.len() as int, p));
                }
            }
            assert(self@ == old(self)@.all_refreshed(now));
        }
        r
    }
}

/// Whether the first `i` entries of a walk hold a name.
spec fn named_before(walk: Seq<(String, usize)>, i: int, name: Seq<char>) -> bool {
    exists|j: int| 0 <= j < i && #[trigger] walk[j].0@ == name
}

fn add_pairs(out: &mut Vec<(String, String)>, provider: &str, models: &Vec<String>)
    ensures
        forall|p: Seq<char>, m: Seq<char>| #[trigger]
            text_pairs(final(out)@).contains((p, m)) <==> text_pairs(old(out)@).contains((p, m))
                || (p == provider@ && views(models@).contains(m)),
{
    let ghost had = text_pairs(out@);
    let ghost added = views(models@);
    let mut i: usize = 0;
    while i < models.len()
        invariant
            i <= models@.len(),
            added == views(models@),
            text_pairs(out@) == had + added.take(i as int).map_values(
                |m: Seq<char>| (provider@, m),
            ),
        decreases models@.len() - i,
    {
        let ghost so_far = text_pairs(out@);
        out.push((provider.to_owned(), models[i].clone()));
        assert(text_pairs(out@) =~= so_far.push((provider@, added[i as int])));
        i += 1;
        assert(text_pairs(out@) =~= had + added.take(i as int).map_values(
            |m: Seq<char>| (provider@, m),
        ));
    }
    let ghost tail = added.map_values(|m: Seq<char>| (provider@, m));
    assert(added.take(added.len() as int) =~= added);
    assert forall|p: Seq<char>, m: Seq<char>| #[trigger]
        text_pairs(out@).contains((p, m)) <==> had.contains((p, m)) || (p == provider@
            && added.contains(m)) by {
        let all = had + tail;
        if all.contains((p, m)) {
            let k = choose|k: int| 0 <= k < all.len() && all[k] == (p, m);
            if k < had.len() {
                assert(had[k] == (p, m));
            } else {
                assert(added[k - had.len()] == m);
            }
        }
        if had.contains((p, m)) {
            let k = choose|k: int| 0 <= k < had.len() && had[k] == (p, m);
            assert(all[k] == (p, m));
        }
        if p == provider@ && added.contains(m) {
            let k = choose|k: int| 0 <= k < added.len() && added[k] == m;
            assert(all[had.len() + k] == (p, m));
        }
    }
}

/// Every candidate is tried, none twice: the order in which keys are tried is a
/// rearrangement of the candidates, whatever the strategy, the draw and the
/// agent.
pub proof fn every_candidate_is_tried(
    list: Seq<CandidateView>,
    strategy: RoutingStrategy,
    draw: usize,
    agent: Option<Seq<char>>,
)
    ensures
        tried_order(list, strategy, draw, agent).to_multiset() =~= list.map_values(
            |c: CandidateView| c.key,
        ).to_multiset(),
{
    let key = |c: CandidateView| c.key;
    let by = by_strategy(list, strategy, draw);
    if list.len() > 0 {
        vstd::arithmetic::div_mod::lemma_mod_bound(draw as int, list.len() as int);
    }
    sorted_is_permutation(list, preferred(strategy));
    if list.len() > 1 {
        rotated_is_permutation(list, draw as int % list.len() as int);
    }
    assert(by.to_multiset() =~= list.to_multiset());
    mapped_multisets(by, list, key);
    let keys = by.map_values(key);
    if keys.len() > 1 {
        if let Some(name) = agent {
            let n = byte_sum(encode_utf8(name)) as int;
            vstd::arithmetic::div_mod::lemma_mod_bound(n, keys.len() as int);
            rotated_is_permutation(keys, n % keys.len() as int);
        }
    }
}

/// Rearranged sequences have rearranged images.
proof fn mapped_multisets<A, B>(a: Seq<A>, b: Seq<A>, f: spec_fn(A) -> B)
    requires
        a.to_multiset() == b.to_multiset(),
    ensures
        a.map_values(f).to_multiset() == b.map_values(f).to_multiset(),
    decreases a.len(),
{
    broadcast use vstd::seq_lib::group_to_multiset_ensures;

    assert(a.len() == b.len()) by {
        assert(a.to_multiset().len() == a.len());
        assert(b.to_multiset().len() == b.len());
    }
    if a.len() == 0 {
        assert(a.map_values(f) =~= b.map_values(f));
    } else {
        let x = a.last();
        let rest = a.drop_last();
        assert(a =~= rest.push(x));
        assert(a[a.len() - 1] == x);
        assert(a.to_multiset().count(x) > 0) by {
            assert(a.contains(x));
        }
        assert(b.contains(x));
        let k = choose|k: int| 0 <= k < b.len() && b[k] == x;
        let others = b.remove(k);
        assert(others.to_multiset() =~= b.to_multiset().remove(x));
        assert(rest.to_multiset() =~= a.to_multiset().remove(x));
        mapped_multisets(rest, others, f);
        assert(a.map_values(f) =~= rest.map_values(f).push(f(x)));
        assert(others.map_values(f) =~= b.map_values(f).remove(k));
        assert(b.map_values(f)[k] == f(x));
        assert(b.map_values(f).remove(k).to_multiset() =~= b.map_values(f).to_multiset().remove(
            f(x),
        ));
        assert(b.map_values(f).contains(f(x)));
        assert(b.map_values(f).to_multiset() =~= others.map_values(f).to_multiset().insert(f(x)));
    }
}

} // verus!
