//! The keys of one provider.
use crate::clock::now_seconds;
use crate::config::{KeyConfig, KeyConfigView, KeyTier, RoutingConfig, RoutingStrategy};
use crate::error::{GatewayError, GatewayResult};
use crate::keystate::{
    fingerprint, is_request_selectable, key_fingerprint, key_usage_sort_key_for_selection,
    KeyState, KeyStateView, KeyStatus, maskable, new_key, offered_limit, plus64, set_request_limit,
    state_views, state_views_push, state_views_update,
};
use crate::lists::{capped_sum, first_where, kept, kept_all, kept_next};
use crate::sorting::{sort_and_dedup, sorted_set};
use crate::text::{concat2, copy_opt, copy_strings, decimal, list_has, push_decimal, same, views};
use vstd::prelude::*;

verus! {

/// Key pool for a single provider.
#[derive(Debug)]
pub struct KeyPool {
    provider_name: String,
    keys: Vec<KeyState>,
    routing: RoutingConfig,
    /// Aggregate consecutive failure count across all keys.
    /// Reset on any key success. Used for provider-level cooldown.
    provider_fail_count: u64,
    /// Epoch seconds when provider-level cooldown expires. 0 = not in cooldown.
    provider_cooldown_until: u64,
}

/// Counter for round-robin key selection: how many turns were taken. One
/// counter serves all pools of a process.
#[derive(Debug, PartialEq, Eq)]
pub struct RoundRobin {
    pub turns: u64,
}

impl RoundRobin {
    /// The counter after a call that took a turn, or none.
    pub open spec fn after(self, taken: bool) -> RoundRobin {
        if taken {
            RoundRobin { turns: self.turns.wrapping_add(1) }
        } else {
            self
        }
    }

    /// A counter before the first turn.
    pub fn new() -> (r: RoundRobin)
        ensures
            r.turns == 0,
    {
        RoundRobin { turns: 0 }
    }

    /// Takes a turn where `taken` says so.
    pub(crate) fn take_turn(&mut self, taken: bool)
        ensures
            *final(self) == old(self).after(taken),
    {
        if taken {
            self.turns = self.turns.wrapping_add(1);
        }
    }
}

/// What a [`KeyPool`] holds.
pub struct PoolView {
    pub name: Seq<char>,
    pub keys: Seq<KeyStateView>,
    pub routing: RoutingConfig,
    pub fail_count: u64,
    pub cooldown_until: u64,
}

impl View for KeyPool {
    type V = PoolView;

    closed spec fn view(&self) -> PoolView {
        PoolView {
            name: self.provider_name@,
            keys: state_views(self.keys@),
            routing: self.routing,
            fail_count: self.provider_fail_count,
            cooldown_until: self.provider_cooldown_until,
        }
    }
}

/// Candidate metadata used by the router to compare keys across providers
/// without exposing raw key state or credentials.
#[derive(Debug, PartialEq, Eq)]
pub struct FreeKeyCandidate {
    pub key: String,
    pub usage_sort_key: (u32, u32, u32, u32, u32),
    pub fail_count: u32,
    pub total_fail_count: u64,
}

/// What a [`FreeKeyCandidate`] holds.
pub struct CandidateView {
    pub key: Seq<char>,
    pub usage_sort_key: (u32, u32, u32, u32, u32),
    pub fail_count: u32,
    pub total_fail_count: u64,
}

impl View for FreeKeyCandidate {
    type V = CandidateView;

    open spec fn view(&self) -> CandidateView {
        CandidateView {
            key: self.key@,
            usage_sort_key: self.usage_sort_key,
            fail_count: self.fail_count,
            total_fail_count: self.total_fail_count,
        }
    }
}

/// The views of a list of candidates.
pub open spec fn candidate_views(list: Seq<FreeKeyCandidate>) -> Seq<CandidateView> {
    list.map_values(|c: FreeKeyCandidate| c@)
}

/// A key as a candidate.
pub open spec fn as_candidate(k: KeyStateView, now: u64) -> CandidateView {
    CandidateView {
        key: k.key,
        usage_sort_key: k.selection_sort_key(now),
        fail_count: k.fail_count,
        total_fail_count: k.total_fail_count,
    }
}

/// Whether a free key can take a request, for a model where one is given.
pub open spec fn is_free_candidate(model: Option<Seq<char>>, now: u64) -> spec_fn(
    KeyStateView,
) -> bool {
    |k: KeyStateView|
        k.tier == KeyTier::Free && k.selectable(now) && (model matches Some(m)
            ==> k.models.contains(m))
}

/// The free keys that can take a request, for a model where one is given.
pub open spec fn free_candidates_of(
    keys: Seq<KeyStateView>,
    model: Option<Seq<char>>,
    now: u64,
) -> Seq<CandidateView> {
    kept(keys, is_free_candidate(model, now)).map_values(|k: KeyStateView| as_candidate(k, now))
}

/// Keys and tiers of the keys for which a condition holds.
pub open spec fn keys_and_tiers(
    keys: Seq<KeyStateView>,
    p: spec_fn(KeyStateView) -> bool,
) -> Seq<(Seq<char>, KeyTier)> {
    kept(keys, p).map_values(|k: KeyStateView| (k.key, k.tier))
}

/// The views of keys and tiers.
pub open spec fn pair_views(list: Seq<(String, KeyTier)>) -> Seq<(Seq<char>, KeyTier)> {
    list.map_values(|p: (String, KeyTier)| (p.0@, p.1))
}

/// How many keys satisfy a condition.
pub open spec fn count_keys(keys: Seq<KeyStateView>, p: spec_fn(KeyStateView) -> bool) -> nat {
    kept(keys, p).len()
}

/// Whether a key is ready for discovery: available and within its limits.
pub open spec fn is_ready(now: u64) -> spec_fn(KeyStateView) -> bool {
    |k: KeyStateView| k.ready(now)
}

/// Whether the models of a key are to be probed: ready, or disabled and perhaps
/// fit again.
pub open spec fn is_probe_key(now: u64) -> spec_fn(KeyStateView) -> bool {
    |k: KeyStateView| k.ready(now) || k.status == KeyStatus::Disabled
}

/// What the summary of a provider counts.
pub struct KeyCounts {
    pub available: usize,
    pub free_available: usize,
    pub free_probing: usize,
    pub free_cooldown: usize,
    pub free_rate_limited: usize,
    pub free_disabled: usize,
    pub paid_or_unknown: usize,
}

/// Where a free key is counted.
pub open spec fn is_free_and(status: KeyStatus) -> spec_fn(KeyStateView) -> bool {
    |k: KeyStateView| k.tier == KeyTier::Free && k.status == status
}

/// Whether a free key is ready.
pub open spec fn is_free_ready(now: u64) -> spec_fn(KeyStateView) -> bool {
    |k: KeyStateView| k.tier == KeyTier::Free && k.ready(now)
}

/// Whether a free key is at its limits.
pub open spec fn is_free_limited(now: u64) -> spec_fn(KeyStateView) -> bool {
    |k: KeyStateView|
        k.tier == KeyTier::Free && (k.status == KeyStatus::RateLimited || (k.status
            == KeyStatus::Available && k.limited(now)))
}

/// Whether a key is not known to be free.
pub open spec fn is_not_free() -> spec_fn(KeyStateView) -> bool {
    |k: KeyStateView| k.tier != KeyTier::Free
}

/// The counts are those of the keys.
pub open spec fn counts_of(keys: Seq<KeyStateView>, now: u64, c: KeyCounts) -> bool {
    &&& c.available == count_keys(keys, is_ready(now))
    &&& c.free_available == count_keys(keys, is_free_ready(now))
    &&& c.free_probing == count_keys(keys, is_free_and(KeyStatus::Probing))
    &&& c.free_cooldown == count_keys(keys, is_free_and(KeyStatus::Cooldown))
    &&& c.free_rate_limited == count_keys(keys, is_free_limited(now))
    &&& c.free_disabled == count_keys(keys, is_free_and(KeyStatus::Disabled))
    &&& c.paid_or_unknown == count_keys(keys, is_not_free())
}

/// The summary of a provider's keys.
pub open spec fn summary_text(pool: PoolView, now: u64) -> Seq<char> {
    let keys = pool.refreshed(now).keys;
    "available="@ + decimal(count_keys(keys, is_ready(now))) + ", free_available="@ + decimal(
        count_keys(keys, is_free_ready(now)),
    ) + ", free_probing="@ + decimal(count_keys(keys, is_free_and(KeyStatus::Probing)))
        + ", free_cooldown="@ + decimal(count_keys(keys, is_free_and(KeyStatus::Cooldown)))
        + ", free_rate_limited="@ + decimal(count_keys(keys, is_free_limited(now)))
        + ", free_disabled="@ + decimal(count_keys(keys, is_free_and(KeyStatus::Disabled)))
        + ", paid_or_unknown="@ + decimal(count_keys(keys, is_not_free()))
        + ", provider_cooldown_remaining_s="@ + decimal(
        if pool.cooldown_until > now {
            (pool.cooldown_until - now) as nat
        } else {
            0
        },
    )
}

/// The models of a key after a discovery: sorted, each once, without an error.
/// A disabled key that serves models is available again.
pub open spec fn with_models(
    k: KeyStateView,
    models: Seq<Seq<char>>,
    now: u64,
) -> KeyStateView {
    let listed = KeyStateView {
        models: sorted_set(models),
        models_updated_at: Some(now as i64),
        models_last_error: Seq::empty(),
        ..k
    };
    if k.status == KeyStatus::Disabled && sorted_set(models).len() > 0 {
        listed.restored(now)
    } else {
        listed
    }
}

/// A key with limits offered by a source.
pub open spec fn with_limits(
    k: KeyStateView,
    rpm: Option<u32>,
    rpd: Option<u32>,
    source: Seq<char>,
) -> KeyStateView {
    let (rpm_limit, rpm_source) = match rpm {
        Some(limit) => offered_limit(k.rpm_limit, k.rpm_limit_source, limit, source),
        None => (k.rpm_limit, k.rpm_limit_source),
    };
    let (rpd_limit, rpd_source) = match rpd {
        Some(limit) => offered_limit(k.rpd_limit, k.rpd_limit_source, limit, source),
        None => (k.rpd_limit, k.rpd_limit_source),
    };
    KeyStateView {
        rpm_limit,
        rpm_limit_source: rpm_source,
        rpd_limit,
        rpd_limit_source: rpd_source,
        ..k
    }
}

/// Whether the values of all keys can be masked.
pub open spec fn all_maskable(pool: PoolView) -> bool {
    forall|i: int| 0 <= i < pool.keys.len() ==> maskable(#[trigger] pool.keys[i].key)
}

/// Whether the value of the key with an identifier, if there is one, can be
/// masked.
pub open spec fn id_maskable(pool: PoolView, id: Seq<char>) -> bool {
    id_index(pool.keys, id, 0) matches Some(i) ==> maskable(pool.keys[i].key)
}

/// How many models the free and available keys serve, each key counted.
pub open spec fn free_model_count(pool: PoolView) -> nat {
    capped_sum(
        kept(pool.keys, is_free_and(KeyStatus::Available)).map_values(
            |k: KeyStateView| k.models.len(),
        ),
    )
}

/// The models of the free keys that are ready, key by key.
pub open spec fn free_models_of(pool: PoolView, now: u64) -> Seq<Seq<char>> {
    kept(pool.keys, is_free_ready(now)).map_values(|k: KeyStateView| k.models).flatten()
}

/// The first key at or after `from` with the given value.
pub open spec fn key_index(keys: Seq<KeyStateView>, key: Seq<char>, from: int) -> Option<int>
    decreases keys.len() - from,
{
    if from < 0 || from >= keys.len() {
        None
    } else if keys[from].key == key {
        Some(from)
    } else {
        key_index(keys, key, from + 1)
    }
}

/// The first key at or after `from` with the given identifier.
pub open spec fn id_index(keys: Seq<KeyStateView>, id: Seq<char>, from: int) -> Option<int>
    decreases keys.len() - from,
{
    if from < 0 || from >= keys.len() {
        None
    } else if fingerprint(keys[from].key) == id {
        Some(from)
    } else {
        id_index(keys, id, from + 1)
    }
}

/// A position that is found is one of the list.
pub proof fn id_index_in_range(keys: Seq<KeyStateView>, id: Seq<char>, from: int)
    ensures
        id_index(keys, id, from) matches Some(i) ==> 0 <= i < keys.len(),
    decreases keys.len() - from,
{
    if 0 <= from < keys.len() && fingerprint(keys[from].key) != id {
        id_index_in_range(keys, id, from + 1);
    }
}

/// The configured key at second `now`.
pub open spec fn configured_key(config: KeyConfigView, now: u64) -> KeyStateView {
    KeyStateView {
        rpm_limit: config.rpm_limit,
        rpd_limit: config.rpd_limit,
        rpm_limit_source: if config.rpm_limit is Some {
            Some("config"@)
        } else {
            None
        },
        rpd_limit_source: if config.rpd_limit is Some {
            Some("config"@)
        } else {
            None
        },
        tpm_limit: config.tpm_limit,
        tpd_limit: config.tpd_limit,
        ..new_key(config.value, config.tier, now)
    }
}

/// A new pool at second `now`.
pub open spec fn new_pool(
    name: Seq<char>,
    keys: Seq<KeyConfig>,
    routing: RoutingConfig,
    now: u64,
) -> PoolView {
    PoolView {
        name,
        keys: keys.map_values(|k: KeyConfig| configured_key(k@, now)),
        routing,
        fail_count: 0,
        cooldown_until: 0,
    }
}

/// The positions of the keys that can take a request.
pub open spec fn open_positions(keys: Seq<KeyStateView>, now: u64) -> Seq<int>
    decreases keys.len(),
{
    if keys.len() == 0 {
        Seq::empty()
    } else {
        let before = open_positions(keys.drop_last(), now);
        if keys.last().selectable(now) {
            before.push(keys.len() - 1)
        } else {
            before
        }
    }
}

/// The order of sort keys: by the first component in which they differ.
pub open spec fn ranks_before(a: (u32, u32, u32, u32, u32), b: (u32, u32, u32, u32, u32)) -> bool {
    if a.0 != b.0 {
        a.0 < b.0
    } else if a.1 != b.1 {
        a.1 < b.1
    } else if a.2 != b.2 {
        a.2 < b.2
    } else if a.3 != b.3 {
        a.3 < b.3
    } else {
        a.4 < b.4
    }
}

/// The first of some positions whose key has the fewest failures in a row.
pub open spec fn least_failed(keys: Seq<KeyStateView>, positions: Seq<int>) -> int
    decreases positions.len(),
{
    if positions.len() <= 1 {
        positions[0]
    } else {
        let best = least_failed(keys, positions.drop_last());
        if keys[positions.last()].fail_count < keys[best].fail_count {
            positions.last()
        } else {
            best
        }
    }
}

/// The first of some positions whose key ranks lowest for selection.
pub open spec fn least_used(keys: Seq<KeyStateView>, positions: Seq<int>, now: u64) -> int
    decreases positions.len(),
{
    if positions.len() <= 1 {
        positions[0]
    } else {
        let best = least_used(keys, positions.drop_last(), now);
        if ranks_before(
            keys[positions.last()].selection_sort_key(now),
            keys[best].selection_sort_key(now),
        ) {
            positions.last()
        } else {
            best
        }
    }
}

/// The position of the key that a strategy chooses; `draw` is the turn or the
/// random number.
pub open spec fn chosen(
    keys: Seq<KeyStateView>,
    now: u64,
    strategy: RoutingStrategy,
    draw: usize,
) -> int {
    let positions = open_positions(keys, now);
    match strategy {
        RoutingStrategy::RoundRobin => positions[draw as int % positions.len() as int],
        RoutingStrategy::Random => positions[draw as int % positions.len() as int],
        RoutingStrategy::LeastFailed => least_failed(keys, positions),
        RoutingStrategy::LeastRate => least_used(keys, positions, now),
        RoutingStrategy::Priority => positions[0],
    }
}

/// Whether an acquisition from a refreshed pool gave what it should: the key
/// that the strategy chooses, or an error where no key can take a request.
pub open spec fn acquired(
    pool: PoolView,
    now: u64,
    draw: usize,
    r: GatewayResult<String>,
) -> bool {
    if open_positions(pool.keys, now).len() == 0 {
        r matches Err(GatewayError::NoAvailableKeys(name)) && name@ == pool.name
    } else {
        r matches Ok(key) && key@ == pool.keys[chosen(
            pool.keys,
            now,
            pool.routing.strategy,
            draw,
        )].key
    }
}

/// Whether persisted state belongs to the key with this identifier.
pub open spec fn belongs(saved: KeyStateView, id: Seq<char>) -> bool {
    if saved.key_id.len() == 0 && saved.key.len() > 0 {
        fingerprint(saved.key) == id
    } else {
        saved.key_id == id
    }
}

/// The first persisted state at or after `from` that belongs to the key.
pub open spec fn saved_index(saved: Seq<KeyStateView>, id: Seq<char>, from: int) -> Option<int>
    decreases saved.len() - from,
{
    if from < 0 || from >= saved.len() {
        None
    } else if belongs(saved[from], id) {
        Some(from)
    } else {
        saved_index(saved, id, from + 1)
    }
}

/// A configured key with what was persisted of it. Configured limits stay.
pub open spec fn with_saved(k: KeyStateView, saved: KeyStateView) -> KeyStateView {
    KeyStateView {
        key: k.key,
        key_id: fingerprint(k.key),
        tier: k.tier,
        tpm_limit: k.tpm_limit,
        tpd_limit: k.tpd_limit,
        rpm_limit: if k.rpm_limit is None {
            saved.rpm_limit
        } else {
            k.rpm_limit
        },
        rpm_limit_source: if k.rpm_limit is None {
            saved.rpm_limit_source
        } else {
            k.rpm_limit_source
        },
        rpd_limit: if k.rpd_limit is None {
            saved.rpd_limit
        } else {
            k.rpd_limit
        },
        rpd_limit_source: if k.rpd_limit is None {
            saved.rpd_limit_source
        } else {
            k.rpd_limit_source
        },
        ..saved
    }
}

/// A configured key with the persisted state that belongs to it, if any.
pub open spec fn restored_from(k: KeyStateView, saved: Seq<KeyStateView>) -> KeyStateView {
    match saved_index(saved, fingerprint(k.key), 0) {
        Some(i) => with_saved(k, saved[i]),
        None => k,
    }
}

impl PoolView {
    /// The pool with other keys.
    pub open spec fn with_keys(self, keys: Seq<KeyStateView>) -> PoolView {
        PoolView { keys, ..self }
    }

    /// The pool with cooldowns that have run out ended.
    pub open spec fn recovered(self, now: u64) -> PoolView {
        self.with_keys(self.keys.map_values(|k: KeyStateView| k.recovered(now)))
    }

    /// Whether handing out a key takes a turn: keys are handed out in turn, and
    /// there is one to hand out.
    pub open spec fn takes_turn(self, now: u64) -> bool {
        self.routing.strategy == RoutingStrategy::RoundRobin && open_positions(
            self.keys,
            now,
        ).len() > 0
    }

    /// The pool recovered and with fresh windows.
    pub open spec fn refreshed(self, now: u64) -> PoolView {
        self.with_keys(self.keys.map_values(|k: KeyStateView| k.refreshed(now)))
    }

    /// The pool with one key changed, where it has that key.
    pub open spec fn with_key(
        self,
        key: Seq<char>,
        f: spec_fn(KeyStateView) -> KeyStateView,
    ) -> PoolView {
        match key_index(self.keys, key, 0) {
            Some(i) => self.with_keys(self.keys.update(i, f(self.keys[i]))),
            None => self,
        }
    }

    /// The pool without failures of the provider as a whole.
    pub open spec fn provider_cleared(self) -> PoolView {
        PoolView { fail_count: 0, cooldown_until: 0, ..self }
    }

    /// The pool after one more failure of the provider as a whole: it cools
    /// down when there were as many in a row as the threshold allows its keys
    /// together.
    pub open spec fn provider_failed(self, now: u64) -> PoolView {
        let fails = plus64(self.fail_count, 1);
        PoolView {
            fail_count: fails,
            cooldown_until: if fails >= self.keys.len() * self.routing.fail_threshold {
                plus64(now, self.routing.cooldown_seconds)
            } else {
                self.cooldown_until
            },
            ..self
        }
    }

    /// Whether the provider as a whole cools down at second `now`.
    pub open spec fn cooling(self, now: u64) -> bool {
        self.cooldown_until > 0 && now < self.cooldown_until
    }

    /// The pool as a search for candidates leaves it: untouched while the
    /// provider cools down, else with an expired cooldown cleared, and
    /// refreshed.
    pub open spec fn searched(self, now: u64) -> PoolView {
        if self.cooling(now) {
            self
        } else if self.cooldown_until > 0 {
            self.provider_cleared().refreshed(now)
        } else {
            self.refreshed(now)
        }
    }

    /// The pool after a success on a key; the request is counted unless it was
    /// reserved.
    pub open spec fn succeeded(
        self,
        key: Seq<char>,
        prompt: Option<u32>,
        completion: Option<u32>,
        reserved: bool,
        now: u64,
    ) -> PoolView {
        self.with_key(
            key,
            |k: KeyStateView|
                {
                    let after = k.after_success(now);
                    (if reserved {
                        after
                    } else {
                        after.with_request()
                    }).with_tokens(prompt, completion)
                },
        ).provider_cleared()
    }

    /// Whether a key of a refreshed pool can be reserved.
    pub open spec fn can_reserve(self, key: Seq<char>, now: u64) -> bool {
        key_index(self.keys, key, 0) matches Some(i) && self.keys[i].recovered(
            now,
        ).with_fresh_windows(now).selectable(now)
    }

    /// The pool after an attempt to reserve a key.
    pub open spec fn reserved(self, key: Seq<char>, now: u64) -> PoolView {
        let ok = self.can_reserve(key, now);
        let cooldown = self.routing.cooldown_seconds;
        self.recovered(now).with_key(
            key,
            |k: KeyStateView|
                {
                    let fresh = k.with_fresh_windows(now);
                    if ok {
                        fresh.reserved(now, cooldown)
                    } else {
                        fresh
                    }
                },
        )
    }

    /// The pool after a failure with an HTTP status: what speaks of the key
    /// alone is not held against the provider.
    pub open spec fn failed(
        self,
        key: Seq<char>,
        status: u16,
        retry_after: Option<u64>,
        now: u64,
    ) -> PoolView {
        let routing = self.routing;
        let after = self.with_key(
            key,
            |k: KeyStateView|
                k.after_failure(
                    status,
                    retry_after,
                    now,
                    routing.fail_threshold,
                    routing.cooldown_seconds,
                ),
        );
        if key_index(self.keys, key, 0) is None || status == 401 || status == 403 || status == 429 {
            after
        } else {
            after.provider_failed(now)
        }
    }

    /// The pool after a failure that says nothing of credentials or limits.
    pub open spec fn failed_transiently(self, key: Seq<char>, status: u16, now: u64) -> PoolView {
        let routing = self.routing;
        self.with_key(
            key,
            |k: KeyStateView|
                k.after_general_failure(
                    status,
                    now,
                    routing.fail_threshold,
                    routing.cooldown_seconds,
                ),
        ).provider_failed(now)
    }

    /// The pool after a key was put into a cooldown at once.
    pub open spec fn forced_to_cool(self, key: Seq<char>, status: u16, now: u64) -> PoolView {
        let cooldown = self.routing.cooldown_seconds;
        self.with_key(
            key,
            |k: KeyStateView| k.after_forced_cooldown(status, now, cooldown),
        ).provider_failed(now)
    }

    /// The pool with persisted state restored.
    pub open spec fn with_saved_states(self, saved: Seq<KeyStateView>, now: u64) -> PoolView {
        self.with_keys(
            self.keys.map_values(|k: KeyStateView| restored_from(k, saved).recovered(now)),
        )
    }
}

/// The least failed of some positions is one of them, none has fewer failures.
pub proof fn least_failed_is_least(keys: Seq<KeyStateView>, positions: Seq<int>)
    requires
        positions.len() > 0,
    ensures
        positions.contains(least_failed(keys, positions)),
        forall|j: int|
            0 <= j < positions.len() ==> keys[least_failed(keys, positions)].fail_count
                <= #[trigger] keys[positions[j]].fail_count,
    decreases positions.len(),
{
    if positions.len() == 1 {
        assert(positions[0] == least_failed(keys, positions));
    } else {
        let before = positions.drop_last();
        least_failed_is_least(keys, before);
        let best = least_failed(keys, before);
        let w = choose|w: int| 0 <= w < before.len() && before[w] == best;
        assert(positions[w] == best);
        assert(positions[positions.len() - 1] == positions.last());
        assert forall|j: int| 0 <= j < positions.len() implies keys[least_failed(
            keys,
            positions,
        )].fail_count <= #[trigger] keys[positions[j]].fail_count by {
            if j < before.len() {
                assert(before[j] == positions[j]);
                assert(keys[best].fail_count <= keys[before[j]].fail_count);
            }
        }
    }
}

/// The least used of some positions is one of them, none ranks before it.
pub proof fn least_used_is_least(keys: Seq<KeyStateView>, positions: Seq<int>, now: u64)
    requires
        positions.len() > 0,
    ensures
        positions.contains(least_used(keys, positions, now)),
        forall|j: int|
            0 <= j < positions.len() ==> !ranks_before(
                #[trigger] keys[positions[j]].selection_sort_key(now),
                keys[least_used(keys, positions, now)].selection_sort_key(now),
            ),
    decreases positions.len(),
{
    if positions.len() == 1 {
        assert(positions[0] == least_used(keys, positions, now));
    } else {
        let before = positions.drop_last();
        least_used_is_least(keys, before, now);
        let best = least_used(keys, before, now);
        let w = choose|w: int| 0 <= w < before.len() && before[w] == best;
        assert(positions[w] == best);
        assert(positions[positions.len() - 1] == positions.last());
        assert forall|j: int| 0 <= j < positions.len() implies !ranks_before(
            #[trigger] keys[positions[j]].selection_sort_key(now),
            keys[least_used(keys, positions, now)].selection_sort_key(now),
        ) by {
            if j < before.len() {
                assert(before[j] == positions[j]);
                assert(!ranks_before(
                    keys[before[j]].selection_sort_key(now),
                    keys[best].selection_sort_key(now),
                ));
            }
        }
    }
}

/// The open positions are those of the keys that can take a request.
pub proof fn open_positions_are_selectable(keys: Seq<KeyStateView>, now: u64)
    ensures
        forall|j: int|
            0 <= j < open_positions(keys, now).len() ==> 0 <= (#[trigger] open_positions(
                keys,
                now,
            )[j]) < keys.len() && keys[open_positions(keys, now)[j]].selectable(now),
        forall|i: int|
            0 <= i < keys.len() && #[trigger] keys[i].selectable(now) ==> open_positions(
                keys,
                now,
            ).contains(i),
    decreases keys.len(),
{
    if keys.len() > 0 {
        let before = keys.drop_last();
        open_positions_are_selectable(before, now);
        let p = open_positions(before, now);
        let all = open_positions(keys, now);
        assert forall|j: int| 0 <= j < all.len() implies 0 <= (#[trigger] all[j]) < keys.len()
            && keys[all[j]].selectable(now) by {
            if j < p.len() {
                assert(all[j] == p[j]);
                assert(keys[p[j]] == before[p[j]]);
            }
        }
        assert forall|i: int| 0 <= i < keys.len() && #[trigger] keys[i].selectable(
            now,
        ) implies all.contains(i) by {
            if i < before.len() {
                assert(before[i].selectable(now));
                let w = choose|w: int| 0 <= w < p.len() && p[w] == i;
                assert(all[w] == i);
            } else {
                assert(all[all.len() - 1] == i);
            }
        }
    }
}

/// Whatever the strategy, the chosen key is one of the pool's that can take a
/// request.
pub proof fn chosen_key_is_selectable(
    keys: Seq<KeyStateView>,
    now: u64,
    strategy: RoutingStrategy,
    draw: usize,
)
    requires
        open_positions(keys, now).len() > 0,
    ensures
        0 <= chosen(keys, now, strategy, draw) < keys.len(),
        keys[chosen(keys, now, strategy, draw)].selectable(now),
{
    let positions = open_positions(keys, now);
    open_positions_are_selectable(keys, now);
    least_failed_is_least(keys, positions);
    least_used_is_least(keys, positions, now);
    vstd::arithmetic::div_mod::lemma_mod_bound(draw as int, positions.len() as int);
}

// ---------------------------------------------------------------- searching
fn find_key(keys: &Vec<KeyState>, key: &str) -> (r: Option<usize>)
    ensures
        match r {
            Some(i) => i < keys@.len() && key_index(state_views(keys@), key@, 0) == Some(i as int),
            None => key_index(state_views(keys@), key@, 0) is None,
        },
{
    let mut i: usize = 0;
    while i < keys.len()
        invariant
            i <= keys@.len(),
            key_index(state_views(keys@), key@, 0) == key_index(
                state_views(keys@),
                key@,
                i as int,
            ),
        decreases keys@.len() - i,
    {
        if same(keys[i].key.as_str(), key) {
            return Some(i);
        }
        i += 1;
    }
    None
}

fn find_id(keys: &Vec<KeyState>, key_id: &str) -> (r: Option<usize>)
    ensures
        match r {
            Some(i) => i < keys@.len() && id_index(state_views(keys@), key_id@, 0) == Some(
                i as int,
            ),
            None => id_index(state_views(keys@), key_id@, 0) is None,
        },
{
    let mut i: usize = 0;
    while i < keys.len()
        invariant
            i <= keys@.len(),
            id_index(state_views(keys@), key_id@, 0) == id_index(
                state_views(keys@),
                key_id@,
                i as int,
            ),
        decreases keys@.len() - i,
    {
        let id = key_fingerprint(keys[i].key.as_str());
        if same(id.as_str(), key_id) {
            return Some(i);
        }
        i += 1;
    }
    None
}

/// What a key holds lies within the pool.
pub proof fn key_index_in_range(keys: Seq<KeyStateView>, key: Seq<char>, from: int)
    requires
        0 <= from,
    ensures
        key_index(keys, key, from) matches Some(i) ==> from <= i < keys.len() && keys[i].key == key
            && forall|j: int| from <= j < i ==> #[trigger] keys[j].key != key,
        key_index(keys, key, from) is None ==> forall|j: int|
            from <= j < keys.len() ==> #[trigger] keys[j].key != key,
    decreases keys.len() - from,
{
    if from < keys.len() && keys[from].key != key {
        key_index_in_range(keys, key, from + 1);
    }
}

fn find_saved(saved: &[KeyState], key_id: &str) -> (r: Option<usize>)
    ensures
        match r {
            Some(i) => i < saved@.len() && saved_index(state_views(saved@), key_id@, 0) == Some(
                i as int,
            ),
            None => saved_index(state_views(saved@), key_id@, 0) is None,
        },
{
    let mut i: usize = 0;
    while i < saved.len()
        invariant
            i <= saved@.len(),
            saved_index(state_views(saved@), key_id@, 0) == saved_index(
                state_views(saved@),
                key_id@,
                i as int,
            ),
        decreases saved@.len() - i,
    {
        let candidate = &saved[i];
        let found = if candidate.key_id.as_str().is_empty() && !candidate.key.as_str().is_empty() {
            let id = key_fingerprint(candidate.key.as_str());
            same(id.as_str(), key_id)
        } else {
            same(candidate.key_id.as_str(), key_id)
        };
        if found {
            return Some(i);
        }
        i += 1;
    }
    None
}

impl KeyPool {
    /// Ends the cooldowns that have run out.
    fn recover_expired(&mut self, now: u64)
        ensures
            final(self)@ == old(self)@.recovered(now),
    {
        let ghost before = self@.keys;
        let mut i: usize = 0;
        while i < self.keys.len()
            invariant
                i <= self.keys@.len(),
                self.keys@.len() == before.len(),
                self@ == old(self)@.with_keys(self@.keys),
                before == old(self)@.keys,
                forall|j: int| 0 <= j < i ==> #[trigger] self@.keys[j] == before[j].recovered(now),
                forall|j: int| i <= j < before.len() ==> #[trigger] self@.keys[j] == before[j],
            decreases self.keys@.len() - i,
        {
            broadcast use state_views_update;

            let ghost mid = self.keys@;
            assert(self@.keys[i as int] == before[i as int]);
            self.keys[i].recover(now);
            assert(self.keys@ == mid.update(i as int, self.keys@[i as int]));
            i += 1;
        }
        assert(self@.keys =~= old(self)@.recovered(now).keys);
    }

    /// Ends the cooldowns that have run out, and resets expired windows.
    fn refresh(&mut self, now: u64)
        ensures
            final(self)@ == old(self)@.refreshed(now),
    {
        let ghost before = self@.keys;
        let mut i: usize = 0;
        while i < self.keys.len()
            invariant
                i <= self.keys@.len(),
                self.keys@.len() == before.len(),
                self@ == old(self)@.with_keys(self@.keys),
                before == old(self)@.keys,
                forall|j: int| 0 <= j < i ==> #[trigger] self@.keys[j] == before[j].refreshed(now),
                forall|j: int| i <= j < before.len() ==> #[trigger] self@.keys[j] == before[j],
            decreases self.keys@.len() - i,
        {
            broadcast use state_views_update;

            let ghost mid = self.keys@;
            assert(self@.keys[i as int] == before[i as int]);
            self.keys[i].recover(now);
            assert(self.keys@ == mid.update(i as int, self.keys@[i as int]));
            self.keys[i].reset_rate_windows(now);
            assert(self.keys@ == mid.update(i as int, self.keys@[i as int]));
            i += 1;
        }
        assert(self@.keys =~= old(self)@.refreshed(now).keys);
    }

    /// Create a new key pool from configured keys at second `now`.
    pub fn new_at(
        provider_name: &str,
        keys: Vec<KeyConfig>,
        routing: RoutingConfig,
        now: u64,
    ) -> (r: KeyPool)
        ensures
            r@ == new_pool(provider_name@, keys@, routing, now),
    {
        let mut states: Vec<KeyState> = Vec::new();
        let mut i: usize = 0;
        let ghost wanted = new_pool(provider_name@, keys@, routing, now).keys;
        assert(state_views(states@) =~= wanted.take(0));
        while i < keys.len()
            invariant
                i <= keys@.len(),
                wanted == new_pool(provider_name@, keys@, routing, now).keys,
                state_views(states@) == wanted.take(i as int),
            decreases keys@.len() - i,
        {
            broadcast use state_views_push;

            let config = &keys[i];
            let mut state = KeyState::with_tier_at(config.value().to_owned(), config.tier(), now);
            state.rpm_limit = config.rpm_limit();
            state.rpd_limit = config.rpd_limit();
            state.rpm_limit_source = if config.rpm_limit().is_some() {
                Some("config".to_owned())
            } else {
                None
            };
            state.rpd_limit_source = if config.rpd_limit().is_some() {
                Some("config".to_owned())
            } else {
                None
            };
            state.tpm_limit = config.tpm_limit();
            state.tpd_limit = config.tpd_limit();
            assert(state@ == configured_key(config@, now));
            states.push(state);
            i += 1;
            assert(wanted.take(i as int) =~= wanted.take(i - 1).push(wanted[i - 1]));
        }
        assert(wanted.take(keys@.len() as int) =~= wanted);
        KeyPool {
            provider_name: provider_name.to_owned(),
            keys: states,
            routing,
            provider_fail_count: 0,
            provider_cooldown_until: 0,
        }
    }

    /// Create a new key pool from configured keys.
    pub fn new(provider_name: &str, keys: Vec<KeyConfig>, routing: RoutingConfig) -> (r: KeyPool)
        ensures
            exists|now: u64| r@ == #[trigger] new_pool(provider_name@, keys@, routing, now),
    {
        KeyPool::new_at(provider_name, keys, routing, now_seconds())
    }

    /// The positions of the keys that can take a request.
    fn selectable_positions(&self, now: u64) -> (r: Vec<usize>)
        ensures
            r@.map_values(|p: usize| p as int) == open_positions(self@.keys, now),
            forall|j: int| 0 <= j < r@.len() ==> (#[trigger] r@[j]) < self@.keys.len(),
    {
        let mut out: Vec<usize> = Vec::new();
        let mut i: usize = 0;
        let ghost all = self@.keys;
        assert(out@.map_values(|p: usize| p as int) =~= open_positions(all.take(0), now));
        while i < self.keys.len()
            invariant
                i <= self.keys@.len(),
                all == state_views(self.keys@),
                out@.map_values(|p: usize| p as int) == open_positions(all.take(i as int), now),
                forall|j: int| 0 <= j < out@.len() ==> (#[trigger] out@[j]) < self.keys@.len(),
            decreases self.keys@.len() - i,
        {
            let ghost next = all.take(i + 1);
            assert(next.drop_last() =~= all.take(i as int));
            assert(next.last() == self.keys@[i as int]@);
            if is_request_selectable(&self.keys[i], now) {
                let ghost kept = out@;
                out.push(i);
                assert(out@.map_values(|p: usize| p as int) =~= kept.map_values(
                    |p: usize| p as int,
                ).push(i as int));
            }
            i += 1;
        }
        assert(all.take(all.len() as int) =~= all);
        out
    }

    /// Get an available key at second `now` using the configured routing
    /// strategy; `draw` is the turn or the random number.
    /// Skips keys that have exceeded rate limits.
    pub fn acquire_key_at(&mut self, now: u64, draw: usize) -> (r: GatewayResult<String>)
        ensures
            final(self)@ == old(self)@.refreshed(now),
            acquired(old(self)@.refreshed(now), now, draw, r),
    {
        self.refresh(now);
        let positions = self.selectable_positions(now);
        let ghost p = positions@.map_values(|p: usize| p as int);
        let ghost all = self@.keys;
        if positions.len() == 0 {
            return Err(GatewayError::NoAvailableKeys(self.provider_name.clone()));
        }
        let idx: usize = match self.routing.strategy {
            RoutingStrategy::RoundRobin => positions[draw % positions.len()],
            RoutingStrategy::Random => positions[draw % positions.len()],
            RoutingStrategy::LeastFailed => {
                let mut best: usize = positions[0];
                let mut j: usize = 1;
                assert(p.take(1)[0] == best as int);
                while j < positions.len()
                    invariant
                        1 <= j <= positions@.len(),
                        p == positions@.map_values(|p: usize| p as int),
                        all == state_views(self.keys@),
                        forall|i: int|
                            0 <= i < positions@.len() ==> (#[trigger] positions@[i])
                                < self.keys@.len(),
                        best < self.keys@.len(),
                        best == least_failed(all, p.take(j as int)),
                    decreases positions@.len() - j,
                {
                    let next = positions[j];
                    assert(p.take(j + 1).drop_last() =~= p.take(j as int));
                    assert(p.take(j + 1).last() == next as int);
                    assert(all[next as int] == self.keys@[next as int]@);
                    assert(all[best as int] == self.keys@[best as int]@);
                    if self.keys[next].fail_count < self.keys[best].fail_count {
                        best = next;
                    }
                    j += 1;
                }
                assert(p.take(p.len() as int) =~= p);
                best
            },
            RoutingStrategy::LeastRate => {
                let mut best: usize = positions[0];
                let mut j: usize = 1;
                assert(p.take(1)[0] == best as int);
                while j < positions.len()
                    invariant
                        1 <= j <= positions@.len(),
                        p == positions@.map_values(|p: usize| p as int),
                        all == state_views(self.keys@),
                        forall|i: int|
                            0 <= i < positions@.len() ==> (#[trigger] positions@[i])
                                < self.keys@.len(),
                        best < self.keys@.len(),
                        best == least_used(all, p.take(j as int), now),
                    decreases positions@.len() - j,
                {
                    let next = positions[j];
                    assert(p.take(j + 1).drop_last() =~= p.take(j as int));
                    assert(p.take(j + 1).last() == next as int);
                    assert(all[next as int] == self.keys@[next as int]@);
                    assert(all[best as int] == self.keys@[best as int]@);
                    if sort_key_before(
                        key_usage_sort_key_for_selection(&self.keys[next], now),
                        key_usage_sort_key_for_selection(&self.keys[best], now),
                    ) {
                        best = next;
                    }
                    j += 1;
                }
                assert(p.take(p.len() as int) =~= p);
                best
            },
            RoutingStrategy::Priority => positions[0],
        };
        assert(idx == chosen(all, now, self.routing.strategy, draw));
        assert(all[idx as int] == self.keys@[idx as int]@);
        Ok(self.keys[idx].key.clone())
    }

    /// Get an available key using the configured routing strategy.
    /// Skips keys that have exceeded rate limits.
    /// Returns the key string, or error if no keys are available; an error takes
    /// no turn.
    pub fn acquire_key(&mut self, counter: &mut RoundRobin) -> (r: GatewayResult<String>)
        ensures
            exists|now: u64, draw: usize|
                {
                    &&& #[trigger] acquired(old(self)@.refreshed(now), now, draw, r)
                    &&& final(self)@ == old(self)@.refreshed(now)
                    &&& *final(counter) == old(counter).after(
                        old(self)@.refreshed(now).takes_turn(now),
                    )
                    &&& old(self)@.routing.strategy == RoutingStrategy::RoundRobin ==> draw == old(
                        counter,
                    ).turns as usize
                },
    {
        let now = now_seconds();
        let draw: usize = match self.routing.strategy {
            RoutingStrategy::RoundRobin => counter.turns as usize,
            RoutingStrategy::Random => random_index(),
            _ => 0,
        };
        let r = self.acquire_key_at(now, draw);
        counter.take_turn(self.routing.strategy == RoutingStrategy::RoundRobin && r.is_ok());
        r
    }

    /// Restore persisted operational metadata onto configured keys.
    pub fn restore_states_at(&mut self, persisted: &[KeyState], now: u64)
        ensures
            final(self)@ == old(self)@.with_saved_states(state_views(persisted@), now),
    {
        let ghost before = self@.keys;
        let ghost saved_views = state_views(persisted@);
        let mut i: usize = 0;
        while i < self.keys.len()
            invariant
                i <= self.keys@.len(),
                self.keys@.len() == before.len(),
                saved_views == state_views(persisted@),
                self@ == old(self)@.with_keys(self@.keys),
                before == old(self)@.keys,
                forall|j: int|
                    0 <= j < i ==> #[trigger] self@.keys[j] == restored_from(
                        before[j],
                        saved_views,
                    ).recovered(now),
                forall|j: int| i <= j < before.len() ==> #[trigger] self@.keys[j] == before[j],
            decreases self.keys@.len() - i,
        {
            broadcast use state_views_update;

            let ghost mid = self.keys@;
            assert(self@.keys[i as int] == before[i as int]);
            let configured_id = key_fingerprint(self.keys[i].key.as_str());
            match find_saved(persisted, configured_id.as_str()) {
                Some(s) => {
                    let saved = &persisted[s];
                    let mut state = saved.copy();
                    let current = &self.keys[i];
                    state.key = current.key.clone();
                    state.key_id = configured_id;
                    state.tier = current.tier;
                    state.tpm_limit = current.tpm_limit;
                    state.tpd_limit = current.tpd_limit;
                    if current.rpm_limit.is_some() {
                        state.rpm_limit = current.rpm_limit;
                        state.rpm_limit_source = copy_opt(&current.rpm_limit_source);
                    }
                    if current.rpd_limit.is_some() {
                        state.rpd_limit = current.rpd_limit;
                        state.rpd_limit_source = copy_opt(&current.rpd_limit_source);
                    }
                    assert(state@ == with_saved(before[i as int], saved_views[s as int]));
                    state.recover(now);
                    self.keys.set(i, state);
                },
                None => {
                    self.keys[i].recover(now);
                    assert(self.keys@ == mid.update(i as int, self.keys@[i as int]));
                },
            }
            i += 1;
        }
        assert(self@.keys =~= old(self)@.with_saved_states(saved_views, now).keys);
    }

    /// Restore persisted operational metadata onto configured keys.
    pub fn restore_states(&mut self, persisted: &[KeyState])
        ensures
            exists|now: u64|
                final(self)@ == #[trigger] old(self)@.with_saved_states(
                    state_views(persisted@),
                    now,
                ),
    {
        self.restore_states_at(persisted, now_seconds())
    }

    /// Report a successful request for a key at second `now`.
    pub fn report_success_at(
        &mut self,
        key: &str,
        prompt_tokens: Option<u32>,
        completion_tokens: Option<u32>,
        now: u64,
    )
        ensures
            final(self)@ == old(self)@.succeeded(
                key@,
                prompt_tokens,
                completion_tokens,
                false,
                now,
            ),
    {
        broadcast use state_views_update;

        let ghost mid = self.keys@;
        if let Some(i) = find_key(&self.keys, key) {
            self.keys[i].record_success(now);
            self.keys[i].count_request();
            self.keys[i].count_tokens(prompt_tokens, completion_tokens);
            assert(self.keys@ == mid.update(i as int, self.keys@[i as int]));
        }
        self.provider_fail_count = 0;
        self.provider_cooldown_until = 0;
    }

    /// Report a successful request for a key.
    /// `prompt_tokens` and `completion_tokens` are optional for rate tracking.
    pub fn report_success(
        &mut self,
        key: &str,
        prompt_tokens: Option<u32>,
        completion_tokens: Option<u32>,
    )
        ensures
            exists|now: u64|
                final(self)@ == #[trigger] old(self)@.succeeded(
                    key@,
                    prompt_tokens,
                    completion_tokens,
                    false,
                    now,
                ),
    {
        self.report_success_at(key, prompt_tokens, completion_tokens, now_seconds())
    }

    /// Reserve one request against RPM/RPD at second `now`.
    pub fn reserve_key_at(&mut self, key: &str, now: u64) -> (r: bool)
        ensures
            r == old(self)@.can_reserve(key@, now),
            final(self)@ == old(self)@.reserved(key@, now),
    {
        broadcast use state_views_update;

        let ghost before = self@.keys;
        self.recover_expired(now);
        let ghost mid = self.keys@;
        proof {
            recovery_keeps_key_index(before, key@, now, 0);
        }
        match find_key(&self.keys, key) {
            None => false,
            Some(i) => {
                assert(state_views(mid)[i as int] == before[i as int].recovered(now));
                self.keys[i].reset_rate_windows(now);
                assert(self.keys@ == mid.update(i as int, self.keys@[i as int]));
                if !is_request_selectable(&self.keys[i], now) {
                    return false;
                }
                let cooldown = self.routing.cooldown_seconds;
                self.keys[i].reserve(now, cooldown);
                assert(self.keys@ == mid.update(i as int, self.keys@[i as int]));
                true
            },
        }
    }

    /// Reserve one request against RPM/RPD before sending it upstream.
    ///
    /// This prevents concurrent callers from all selecting the same key while
    /// seeing stale counters. Token counters are still recorded after success.
    pub fn reserve_key(&mut self, key: &str) -> (r: bool)
        ensures
            exists|now: u64|
                r == old(self)@.can_reserve(key@, now) && final(self)@
                    == #[trigger] old(self)@.reserved(key@, now),
    {
        self.reserve_key_at(key, now_seconds())
    }

    /// Report success at second `now` for a request that was already reserved.
    pub fn report_reserved_success_at(
        &mut self,
        key: &str,
        prompt_tokens: Option<u32>,
        completion_tokens: Option<u32>,
        now: u64,
    )
        ensures
            final(self)@ == old(self)@.succeeded(key@, prompt_tokens, completion_tokens, true, now),
    {
        broadcast use state_views_update;

        let ghost mid = self.keys@;
        if let Some(i) = find_key(&self.keys, key) {
            self.keys[i].record_success(now);
            self.keys[i].count_tokens(prompt_tokens, completion_tokens);
            assert(self.keys@ == mid.update(i as int, self.keys@[i as int]));
        }
        self.provider_fail_count = 0;
        self.provider_cooldown_until = 0;
    }

    /// Report success for a request that was already reserved.
    pub fn report_reserved_success(
        &mut self,
        key: &str,
        prompt_tokens: Option<u32>,
        completion_tokens: Option<u32>,
    )
        ensures
            exists|now: u64|
                final(self)@ == #[trigger] old(self)@.succeeded(
                    key@,
                    prompt_tokens,
                    completion_tokens,
                    true,
                    now,
                ),
    {
        self.report_reserved_success_at(key, prompt_tokens, completion_tokens, now_seconds())
    }

    fn record_provider_failure(&mut self, now: u64)
        ensures
            final(self)@ == old(self)@.provider_failed(now),
    {
        self.provider_fail_count = self.provider_fail_count.saturating_add(1);
        let threshold: Option<u64> = (self.keys.len() as u64).checked_mul(
            self.routing.fail_threshold as u64,
        );
        let reached = match threshold {
            Some(t) => self.provider_fail_count >= t,
            None => false,
        };
        if reached {
            self.provider_cooldown_until = now.saturating_add(self.routing.cooldown_seconds);
        }
        assert(self@.keys =~= old(self)@.keys);
    }

    /// Report a failure for a key, handling automatic status transitions.
    pub fn report_failure(&mut self, key: &str, http_status: u16)
        ensures
            exists|now: u64|
                final(self)@ == #[trigger] old(self)@.failed(key@, http_status, None, now),
    {
        self.report_failure_with_retry_after(key, http_status, None);
    }

    /// Report a transient upstream failure at second `now`.
    pub fn report_transient_failure_at(&mut self, key: &str, http_status: u16, now: u64)
        ensures
            final(self)@ == old(self)@.failed_transiently(key@, http_status, now),
    {
        broadcast use state_views_update;

        let ghost mid = self.keys@;
        if let Some(i) = find_key(&self.keys, key) {
            let threshold = self.routing.fail_threshold;
            let cooldown = self.routing.cooldown_seconds;
            self.keys[i].record_general_failure(http_status, now, threshold, cooldown);
            assert(self.keys@ == mid.update(i as int, self.keys@[i as int]));
        }
        self.record_provider_failure(now);
    }

    /// Report a transient upstream failure without auth/rate-limit special handling.
    pub fn report_transient_failure(&mut self, key: &str, http_status: u16)
        ensures
            exists|now: u64|
                final(self)@ == #[trigger] old(self)@.failed_transiently(key@, http_status, now),
    {
        self.report_transient_failure_at(key, http_status, now_seconds())
    }

    /// Force a transient key cooldown at second `now`.
    pub fn force_transient_cooldown_at(&mut self, key: &str, http_status: u16, now: u64)
        ensures
            final(self)@ == old(self)@.forced_to_cool(key@, http_status, now),
    {
        broadcast use state_views_update;

        let ghost mid = self.keys@;
        if let Some(i) = find_key(&self.keys, key) {
            let cooldown = self.routing.cooldown_seconds;
            self.keys[i].force_cooldown(http_status, now, cooldown);
            assert(self.keys@ == mid.update(i as int, self.keys@[i as int]));
        }
        self.record_provider_failure(now);
    }

    /// Force a transient key cooldown after a request has already reached the
    /// upstream response body. At that point the gateway cannot safely switch
    /// streams in-band, so the key must be removed for the client's next retry.
    pub fn force_transient_cooldown(&mut self, key: &str, http_status: u16)
        ensures
            exists|now: u64|
                final(self)@ == #[trigger] old(self)@.forced_to_cool(key@, http_status, now),
    {
        self.force_transient_cooldown_at(key, http_status, now_seconds())
    }

    /// Report a failure at second `now` with optional upstream retry guidance.
    pub fn report_failure_with_retry_after_at(
        &mut self,
        key: &str,
        http_status: u16,
        retry_after_seconds: Option<u64>,
        now: u64,
    )
        ensures
            final(self)@ == old(self)@.failed(key@, http_status, retry_after_seconds, now),
    {
        broadcast use state_views_update;

        let ghost mid = self.keys@;
        if let Some(i) = find_key(&self.keys, key) {
            let threshold = self.routing.fail_threshold;
            let cooldown = self.routing.cooldown_seconds;
            self.keys[i].record_failure(http_status, retry_after_seconds, now, threshold, cooldown);
            assert(self.keys@ == mid.update(i as int, self.keys@[i as int]));
            if http_status == 401 || http_status == 403 || http_status == 429 {
                return ;
            }
            self.record_provider_failure(now);
        }
    }

    /// Report a failure with optional upstream retry guidance.
    pub fn report_failure_with_retry_after(
        &mut self,
        key: &str,
        http_status: u16,
        retry_after_seconds: Option<u64>,
    )
        ensures
            exists|now: u64|
                final(self)@ == #[trigger] old(self)@.failed(
                    key@,
                    http_status,
                    retry_after_seconds,
                    now,
                ),
    {
        self.report_failure_with_retry_after_at(
            key,
            http_status,
            retry_after_seconds,
            now_seconds(),
        )
    }
}

/// Compares sort keys.
pub fn sort_key_before(a: (u32, u32, u32, u32, u32), b: (u32, u32, u32, u32, u32)) -> (r: bool)
    ensures
        r == ranks_before(a, b),
{
    if a.0 != b.0 {
        a.0 < b.0
    } else if a.1 != b.1 {
        a.1 < b.1
    } else if a.2 != b.2 {
        a.2 < b.2
    } else if a.3 != b.3 {
        a.3 < b.3
    } else {
        a.4 < b.4
    }
}

/// `rand::random`: a number by chance.
#[verifier::external_body]
pub(crate) fn random_index() -> (r: usize) {
    rand::random::<u64>() as usize
}

/// Recovery changes no key's value, so none is found elsewhere after it.
proof fn recovery_keeps_key_index(keys: Seq<KeyStateView>, key: Seq<char>, now: u64, from: int)
    requires
        0 <= from,
    ensures
        key_index(keys.map_values(|k: KeyStateView| k.recovered(now)), key, from) == key_index(
            keys,
            key,
            from,
        ),
    decreases keys.len() - from,
{
    if from < keys.len() {
        recovery_keeps_key_index(keys, key, now, from + 1);
    }
}

/// The condition under which a candidate is looked for.
enum Wanted {
    Ready,
    Probe,
}

impl KeyPool {
    /// Get the number of available keys at second `now`.
    pub fn available_count_at(&mut self, now: u64) -> (r: usize)
        ensures
            final(self)@ == old(self)@.refreshed(now),
            r == count_keys(old(self)@.refreshed(now).keys, is_ready(now)),
    {
        self.refresh(now);
        self.counts(now).available
    }

    /// Get the number of available keys.
    pub fn available_count(&mut self) -> (r: usize)
        ensures
            exists|now: u64|
                final(self)@ == #[trigger] old(self)@.refreshed(now) && r == count_keys(
                    old(self)@.refreshed(now).keys,
                    is_ready(now),
                ),
    {
        self.available_count_at(now_seconds())
    }

    /// Get the total number of keys.
    pub fn total_count(&self) -> (r: usize)
        ensures
            r == self@.keys.len(),
    {
        self.keys.len()
    }

    /// How the keys divide at second `now`.
    fn counts(&self, now: u64) -> (r: KeyCounts)
        ensures
            counts_of(self@.keys, now, r),
    {
        let mut c = KeyCounts {
            available: 0,
            free_available: 0,
            free_probing: 0,
            free_cooldown: 0,
            free_rate_limited: 0,
            free_disabled: 0,
            paid_or_unknown: 0,
        };
        let ghost all = self@.keys;
        proof {
            kept_all(all, is_ready(now));
            kept_all(all, is_free_ready(now));
            kept_all(all, is_free_and(KeyStatus::Probing));
            kept_all(all, is_free_and(KeyStatus::Cooldown));
            kept_all(all, is_free_limited(now));
            kept_all(all, is_free_and(KeyStatus::Disabled));
            kept_all(all, is_not_free());
        }
        let mut i: usize = 0;
        while i < self.keys.len()
            invariant
                i <= self.keys.len(),
                all == state_views(self.keys@),
                counts_of(all.take(i as int), now, c),
            decreases self.keys@.len() - i,
        {
            proof {
                kept_next(all, is_ready(now), i as int);
                kept_next(all, is_free_ready(now), i as int);
                kept_next(all, is_free_and(KeyStatus::Probing), i as int);
                kept_next(all, is_free_and(KeyStatus::Cooldown), i as int);
                kept_next(all, is_free_limited(now), i as int);
                kept_next(all, is_free_and(KeyStatus::Disabled), i as int);
                kept_next(all, is_not_free(), i as int);
                assert(all[i as int] == self.keys@[i as int]@);
            }
            let key = &self.keys[i];
            let limited = key.is_rate_limited(now);
            if key.status == KeyStatus::Available && !limited {
                c.available += 1;
            }
            if key.tier != KeyTier::Free {
                c.paid_or_unknown += 1;
            } else {
                match key.status {
                    KeyStatus::Available => if limited {
                        c.free_rate_limited += 1;
                    } else {
                        c.free_available += 1;
                    },
                    KeyStatus::Probing => c.free_probing += 1,
                    KeyStatus::Cooldown => c.free_cooldown += 1,
                    KeyStatus::RateLimited => c.free_rate_limited += 1,
                    KeyStatus::Disabled => c.free_disabled += 1,
                }
            }
            i += 1;
        }
        c
    }

    /// Summarize key status at second `now` without exposing key material.
    pub fn key_status_summary_at(&mut self, now: u64) -> (r: String)
        ensures
            final(self)@ == old(self)@.refreshed(now),
            r@ == summary_text(old(self)@, now),
    {
        self.refresh(now);
        let c = self.counts(now);
        let remaining = self.provider_cooldown_until.saturating_sub(now);
        let mut out = "available=".to_owned();
        push_decimal(&mut out, c.available as u64);
        out.push_str(", free_available=");
        push_decimal(&mut out, c.free_available as u64);
        out.push_str(", free_probing=");
        push_decimal(&mut out, c.free_probing as u64);
        out.push_str(", free_cooldown=");
        push_decimal(&mut out, c.free_cooldown as u64);
        out.push_str(", free_rate_limited=");
        push_decimal(&mut out, c.free_rate_limited as u64);
        out.push_str(", free_disabled=");
        push_decimal(&mut out, c.free_disabled as u64);
        out.push_str(", paid_or_unknown=");
        push_decimal(&mut out, c.paid_or_unknown as u64);
        out.push_str(", provider_cooldown_remaining_s=");
        push_decimal(&mut out, remaining);
        out
    }

    /// Get a snapshot of all key states at second `now` (keys are masked).
    pub fn snapshot_at(&mut self, now: u64) -> (r: Vec<KeyState>)
        requires
            all_maskable(old(self)@),
        ensures
            final(self)@ == old(self)@.recovered(now),
            state_views(r@) == old(self)@.recovered(now).keys.map_values(
                |k: KeyStateView| k.masked(),
            ),
    {
        self.recover_expired(now);
        let ghost wanted = self@.keys.map_values(|k: KeyStateView| k.masked());
        let mut out: Vec<KeyState> = Vec::new();
        let mut i: usize = 0;
        assert(state_views(out@) =~= wanted.take(0));
        assert(forall|j: int| 0 <= j < self@.keys.len() ==> maskable(#[trigger] self@.keys[j].key))
            by {
            assert forall|j: int| 0 <= j < self@.keys.len() implies maskable(
                #[trigger] self@.keys[j].key,
            ) by {
                assert(self@.keys[j] == old(self)@.keys[j].recovered(now));
                assert(maskable(old(self)@.keys[j].key));
            }
        }
        while i < self.keys.len()
            invariant
                i <= self.keys@.len(),
                wanted == state_views(self.keys@).map_values(|k: KeyStateView| k.masked()),
                forall|j: int|
                    0 <= j < self@.keys.len() ==> maskable(#[trigger] self@.keys[j].key),
                state_views(out@) == wanted.take(i as int),
            decreases self.keys@.len() - i,
        {
            broadcast use state_views_push;

            assert(maskable(self@.keys[i as int].key));
            let masked = self.keys[i].masked_copy();
            out.push(masked);
            i += 1;
            assert(wanted.take(i as int) =~= wanted.take(i - 1).push(wanted[i - 1]));
        }
        assert(wanted.take(wanted.len() as int) =~= wanted);
        out
    }

    /// Get a snapshot of all key states (keys are masked).
    pub fn snapshot(&mut self) -> (r: Vec<KeyState>)
        requires
            all_maskable(old(self)@),
        ensures
            exists|now: u64|
                final(self)@ == #[trigger] old(self)@.recovered(now) && state_views(r@) == old(
                    self,
                )@.recovered(now).keys.map_values(|k: KeyStateView| k.masked()),
    {
        self.snapshot_at(now_seconds())
    }

    /// Manually restore a key by its stable fingerprint at second `now`.
    pub fn restore_key_by_id_at(&mut self, key_id: &str, now: u64) -> (r: GatewayResult<KeyState>)
        requires
            id_maskable(old(self)@, key_id@),
        ensures
            match id_index(old(self)@.keys, key_id@, 0) {
                Some(i) => {
                    let restored = old(self)@.keys[i].restored(now);
                    &&& final(self)@ == old(self)@.with_keys(old(self)@.keys.update(i, restored))
                    &&& r matches Ok(state) && state@ == restored.masked()
                },
                None => final(self)@ == old(self)@ && (r matches Err(GatewayError::InvalidRequest(
                    m,
                )) && m@ == "Key id not found: "@ + key_id@),
            },
    {
        broadcast use state_views_update;

        let ghost mid = self.keys@;
        match find_id(&self.keys, key_id) {
            None => Err(GatewayError::InvalidRequest(concat2("Key id not found: ", key_id))),
            Some(i) => {
                assert(maskable(self@.keys[i as int].key));
                self.keys[i].restore(now);
                assert(self.keys@ == mid.update(i as int, self.keys@[i as int]));
                Ok(self.keys[i].masked_copy())
            },
        }
    }

    /// Manually restore a key by its stable fingerprint.
    ///
    /// This is intended for auth failures (401/403), where automatic recovery is
    /// deliberately disabled. Historical error timestamps are preserved for audit.
    pub fn restore_key_by_id(&mut self, key_id: &str) -> (r: GatewayResult<KeyState>)
        requires
            id_maskable(old(self)@, key_id@),
        ensures
            match id_index(old(self)@.keys, key_id@, 0) {
                Some(i) => exists|now: u64|
                    final(self)@ == old(self)@.with_keys(
                        old(self)@.keys.update(i, #[trigger] old(self)@.keys[i].restored(now)),
                    ) && (r matches Ok(state) && state@ == old(self)@.keys[i].restored(
                        now,
                    ).masked()),
                None => final(self)@ == old(self)@ && (r matches Err(GatewayError::InvalidRequest(
                    m,
                )) && m@ == "Key id not found: "@ + key_id@),
            },
    {
        self.restore_key_by_id_at(key_id, now_seconds())
    }

    /// The values of all keys.
    pub fn key_values(&self) -> (r: Vec<String>)
        ensures
            views(r@) == self@.keys.map_values(|k: KeyStateView| k.key),
    {
        let ghost wanted = self@.keys.map_values(|k: KeyStateView| k.key);
        let mut out: Vec<String> = Vec::new();
        let mut i: usize = 0;
        assert(views(out@) =~= wanted.take(0));
        while i < self.keys.len()
            invariant
                i <= self.keys@.len(),
                wanted == state_views(self.keys@).map_values(|k: KeyStateView| k.key),
                views(out@) == wanted.take(i as int),
            decreases self.keys@.len() - i,
        {
            let ghost kept_so_far = out@;
            out.push(self.keys[i].key.clone());
            i += 1;
            assert(views(out@) =~= views(kept_so_far).push(self.keys@[i - 1].key@));
            assert(wanted.take(i as int) =~= wanted.take(i - 1).push(wanted[i - 1]));
        }
        assert(wanted.take(wanted.len() as int) =~= wanted);
        out
    }

    /// The value of the key with a fingerprint.
    pub fn key_by_id(&self, key_id: &str) -> (r: GatewayResult<String>)
        ensures
            match id_index(self@.keys, key_id@, 0) {
                Some(i) => r matches Ok(key) && key@ == self@.keys[i].key,
                None => r matches Err(GatewayError::InvalidRequest(m)) && m@
                    == "Key id not found: "@ + key_id@,
            },
    {
        match find_id(&self.keys, key_id) {
            Some(i) => Ok(self.keys[i].key.clone()),
            None => Err(GatewayError::InvalidRequest(concat2("Key id not found: ", key_id))),
        }
    }

    /// The models of a key, none where the pool has no such key.
    pub fn models_for_key(&self, key: &str) -> (r: Vec<String>)
        ensures
            views(r@) == match key_index(self@.keys, key@, 0) {
                Some(i) => self@.keys[i].models,
                None => Seq::empty(),
            },
    {
        match find_key(&self.keys, key) {
            Some(i) => copy_strings(&self.keys[i].models),
            None => {
                let r: Vec<String> = Vec::new();
                assert(views(r@) =~= Seq::<Seq<char>>::empty());
                r
            },
        }
    }

    /// The models of the key with a fingerprint, none where there is no such key.
    pub fn models_for_key_id(&self, key_id: &str) -> (r: Vec<String>)
        ensures
            views(r@) == match id_index(self@.keys, key_id@, 0) {
                Some(i) => self@.keys[i].models,
                None => Seq::empty(),
            },
    {
        match find_id(&self.keys, key_id) {
            Some(i) => copy_strings(&self.keys[i].models),
            None => {
                let r: Vec<String> = Vec::new();
                assert(views(r@) =~= Seq::<Seq<char>>::empty());
                r
            },
        }
    }

    /// Apply discovered request limits for a key.
    pub fn apply_request_limits(
        &mut self,
        key: &str,
        rpm_limit: Option<u32>,
        rpd_limit: Option<u32>,
        source: &str,
    ) -> (r: bool)
        ensures
            r == (key_index(old(self)@.keys, key@, 0) is Some),
            final(self)@ == old(self)@.with_key(
                key@,
                |k: KeyStateView| with_limits(k, rpm_limit, rpd_limit, source@),
            ),
    {
        broadcast use state_views_update;

        match find_key(&self.keys, key) {
            None => false,
            Some(i) => {
                let mut state = self.keys[i].copy();
                if let Some(limit) = rpm_limit {
                    set_request_limit(
                        &mut state.rpm_limit,
                        &mut state.rpm_limit_source,
                        limit,
                        source,
                    );
                }
                if let Some(limit) = rpd_limit {
                    set_request_limit(
                        &mut state.rpd_limit,
                        &mut state.rpd_limit_source,
                        limit,
                        source,
                    );
                }
                self.keys.set(i, state);
                true
            },
        }
    }

    fn pairs(&self, wanted: Wanted, now: u64) -> (r: Vec<(String, KeyTier)>)
        ensures
            pair_views(r@) == keys_and_tiers(
                self@.keys,
                match wanted {
                    Wanted::Ready => is_ready(now),
                    Wanted::Probe => is_probe_key(now),
                },
            ),
    {
        let ghost p = match wanted {
            Wanted::Ready => is_ready(now),
            Wanted::Probe => is_probe_key(now),
        };
        let ghost all = self@.keys;
        let mut out: Vec<(String, KeyTier)> = Vec::new();
        let mut i: usize = 0;
        proof {
            kept_all(all, p);
            assert(pair_views(out@) =~= keys_and_tiers(all.take(0), p));
        }
        while i < self.keys.len()
            invariant
                i <= self.keys@.len(),
                all == state_views(self.keys@),
                p == (match wanted {
                    Wanted::Ready => is_ready(now),
                    Wanted::Probe => is_probe_key(now),
                }),
                pair_views(out@) == keys_and_tiers(all.take(i as int), p),
            decreases self.keys@.len() - i,
        {
            proof {
                kept_next(all, p, i as int);
                assert(all[i as int] == self.keys@[i as int]@);
            }
            let key = &self.keys[i];
            let ready = key.status == KeyStatus::Available && !key.is_rate_limited(now);
            let take = match wanted {
                Wanted::Ready => ready,
                Wanted::Probe => ready || key.status == KeyStatus::Disabled,
            };
            if take {
                let ghost so_far = out@;
                out.push((key.key.clone(), key.tier));
                assert(pair_views(out@) =~= pair_views(so_far).push((key.key@, key.tier)));
                assert(keys_and_tiers(all.take(i + 1), p) =~= keys_and_tiers(
                    all.take(i as int),
                    p,
                ).push((key.key@, key.tier)));
            }
            i += 1;
        }
        out
    }

    /// The keys with which models are discovered at second `now`.
    pub fn discovery_keys_at(&mut self, now: u64) -> (r: Vec<(String, KeyTier)>)
        ensures
            final(self)@ == old(self)@.refreshed(now),
            pair_views(r@) == keys_and_tiers(old(self)@.refreshed(now).keys, is_ready(now)),
    {
        self.refresh(now);
        self.pairs(Wanted::Ready, now)
    }

    /// The keys whose models are probed at second `now`.
    pub fn model_probe_keys_at(&mut self, now: u64) -> (r: Vec<(String, KeyTier)>)
        ensures
            final(self)@ == old(self)@.refreshed(now),
            pair_views(r@) == keys_and_tiers(old(self)@.refreshed(now).keys, is_probe_key(now)),
    {
        self.refresh(now);
        self.pairs(Wanted::Probe, now)
    }

    /// The status of a key.
    pub fn key_status(&self, key: &str) -> (r: Option<KeyStatus>)
        ensures
            r == match key_index(self@.keys, key@, 0) {
                Some(i) => Some(self@.keys[i].status),
                None => None,
            },
    {
        match find_key(&self.keys, key) {
            Some(i) => Some(self.keys[i].status),
            None => None,
        }
    }

    /// Replaces the models of a key at second `now`.
    pub fn update_models_at(&mut self, key: &str, models: Vec<String>, now: u64)
        requires
            now <= i64::MAX,
        ensures
            final(self)@ == old(self)@.with_key(
                key@,
                |k: KeyStateView| with_models(k, views(models@), now),
            ),
    {
        broadcast use state_views_update;

        let ghost mid = self.keys@;
        let sorted = sort_and_dedup(models);
        if let Some(i) = find_key(&self.keys, key) {
            let mut state = self.keys[i].copy();
            let recover = state.status == KeyStatus::Disabled && sorted.len() > 0;
            state.models = sorted;
            state.models_updated_at = Some(now as i64);
            state.models_last_error = String::new();
            if recover {
                state.restore(now);
            }
            assert(state@ == with_models(mid[i as int]@, views(models@), now));
            self.keys.set(i, state);
        }
    }

    /// Records why the models of a key could not be discovered.
    pub fn record_model_error(&mut self, key: &str, error: &str)
        ensures
            final(self)@ == old(self)@.with_key(
                key@,
                |k: KeyStateView| KeyStateView { models_last_error: error@, ..k },
            ),
    {
        broadcast use state_views_update;

        if let Some(i) = find_key(&self.keys, key) {
            let mut state = self.keys[i].copy();
            state.models_last_error = error.to_owned();
            self.keys.set(i, state);
        }
    }

    /// Ends a cooldown of the provider that has run out, and refreshes the
    /// keys. Tells whether the provider still cools down.
    fn open_search(&mut self, now: u64) -> (r: bool)
        ensures
            r == !old(self)@.cooling(now),
            final(self)@ == old(self)@.searched(now),
    {
        if self.provider_cooldown_until > 0 {
            if now < self.provider_cooldown_until {
                return false;
            }
            self.provider_cooldown_until = 0;
            self.provider_fail_count = 0;
        }
        self.refresh(now);
        true
    }

    /// The free keys that can take a request at second `now`, for a model where
    /// one is given; none while the provider cools down.
    pub fn free_candidate_infos_at(&mut self, model: Option<&str>, now: u64) -> (r: Vec<
        FreeKeyCandidate,
    >)
        ensures
            final(self)@ == old(self)@.searched(now),
            candidate_views(r@) == if old(self)@.cooling(now) {
                Seq::empty()
            } else {
                free_candidates_of(
                    old(self)@.searched(now).keys,
                    match model {
                        Some(m) => Some(m@),
                        None => None,
                    },
                    now,
                )
            },
    {
        let ghost m = match model {
            Some(m) => Some(m@),
            None => None,
        };
        let ghost p = is_free_candidate(m, now);
        let mut out: Vec<FreeKeyCandidate> = Vec::new();
        if !self.open_search(now) {
            assert(candidate_views(out@) =~= Seq::<CandidateView>::empty());
            return out;
        }
        let ghost all = self@.keys;
        let mut i: usize = 0;
        proof {
            kept_all(all, p);
            assert(candidate_views(out@) =~= free_candidates_of(all.take(0), m, now));
        }
        while i < self.keys.len()
            invariant
                i <= self.keys@.len(),
                all == state_views(self.keys@),
                p == is_free_candidate(m, now),
                m == (match model {
                    Some(m) => Some(m@),
                    None => None,
                }),
                candidate_views(out@) == free_candidates_of(all.take(i as int), m, now),
            decreases self.keys@.len() - i,
        {
            proof {
                kept_next(all, p, i as int);
                assert(all[i as int] == self.keys@[i as int]@);
            }
            let key = &self.keys[i];
            let serves = match model {
                Some(name) => list_has(&key.models, name),
                None => true,
            };
            if key.tier == KeyTier::Free && is_request_selectable(key, now) && serves {
                let ghost so_far = out@;
                let candidate = FreeKeyCandidate {
                    key: key.key.clone(),
                    usage_sort_key: key_usage_sort_key_for_selection(key, now),
                    fail_count: key.fail_count,
                    total_fail_count: key.total_fail_count,
                };
                out.push(candidate);
                assert(candidate@ == as_candidate(key@, now));
                assert(candidate_views(out@) =~= candidate_views(so_far).push(candidate@));
                assert(free_candidates_of(all.take(i + 1), m, now) =~= free_candidates_of(
                    all.take(i as int),
                    m,
                    now,
                ).push(as_candidate(key@, now)));
            }
            i += 1;
        }
        out
    }

    /// The first free key that is ready at second `now`.
    pub fn any_free_key_at(&mut self, now: u64) -> (r: Option<String>)
        ensures
            final(self)@ == old(self)@.searched(now),
            match r {
                Some(key) => !old(self)@.cooling(now) && (first_where(
                    old(self)@.searched(now).keys,
                    is_free_ready(now),
                    0,
                ) matches Some(i) && key@ == old(self)@.searched(now).keys[i].key),
                None => old(self)@.cooling(now) || first_where(
                    old(self)@.searched(now).keys,
                    is_free_ready(now),
                    0,
                ) is None,
            },
    {
        if !self.open_search(now) {
            return None;
        }
        let ghost all = self@.keys;
        let mut i: usize = 0;
        while i < self.keys.len()
            invariant
                i <= self.keys@.len(),
                all == state_views(self.keys@),
                first_where(all, is_free_ready(now), 0) == first_where(
                    all,
                    is_free_ready(now),
                    i as int,
                ),
                self@ == old(self)@.searched(now),
                !old(self)@.cooling(now),
            decreases self.keys@.len() - i,
        {
            let key = &self.keys[i];
            assert(all[i as int] == key@);
            if key.tier == KeyTier::Free && key.status == KeyStatus::Available
                && !key.is_rate_limited(now) {
                return Some(key.key.clone());
            }
            i += 1;
        }
        None
    }

    /// The first paid key that is ready at second `now` and serves a model.
    pub fn paid_candidate_for_model_at(&mut self, model: &str, now: u64) -> (r: Option<String>)
        ensures
            final(self)@ == old(self)@.searched(now),
            match r {
                Some(key) => !old(self)@.cooling(now) && (first_where(
                    old(self)@.searched(now).keys,
                    is_paid_for(model@, now),
                    0,
                ) matches Some(i) && key@ == old(self)@.searched(now).keys[i].key),
                None => old(self)@.cooling(now) || first_where(
                    old(self)@.searched(now).keys,
                    is_paid_for(model@, now),
                    0,
                ) is None,
            },
    {
        if !self.open_search(now) {
            return None;
        }
        let ghost all = self@.keys;
        let mut i: usize = 0;
        while i < self.keys.len()
            invariant
                i <= self.keys@.len(),
                all == state_views(self.keys@),
                first_where(all, is_paid_for(model@, now), 0) == first_where(
                    all,
                    is_paid_for(model@, now),
                    i as int,
                ),
                self@ == old(self)@.searched(now),
                !old(self)@.cooling(now),
            decreases self.keys@.len() - i,
        {
            let key = &self.keys[i];
            assert(all[i as int] == key@);
            if key.tier == KeyTier::Paid && key.status == KeyStatus::Available
                && !key.is_rate_limited(now) && list_has(&key.models, model) {
                return Some(key.key.clone());
            }
            i += 1;
        }
        None
    }

    /// How many models the free and available keys serve, each key counted.
    pub fn count_free_models(&self) -> (r: usize)
        ensures
            r == free_model_count(self@),
    {
        let ghost all = self@.keys;
        let ghost p = is_free_and(KeyStatus::Available);
        let mut sum: usize = 0;
        let mut i: usize = 0;
        proof {
            kept_all(all, p);
            assert(free_model_count(self@.with_keys(all.take(0))) == 0) by {
                assert(kept(all.take(0), p).map_values(|k: KeyStateView| k.models.len())
                    =~= Seq::<nat>::empty());
            }
        }
        while i < self.keys.len()
            invariant
                i <= self.keys@.len(),
                all == state_views(self.keys@),
                p == is_free_and(KeyStatus::Available),
                sum == free_model_count(self@.with_keys(all.take(i as int))),
            decreases self.keys@.len() - i,
        {
            let key = &self.keys[i];
            proof {
                kept_next(all, p, i as int);
                assert(all[i as int] == key@);
            }
            if key.tier == KeyTier::Free && key.status == KeyStatus::Available {
                sum = sum.saturating_add(key.models.len());
                proof {
                    let lens = kept(all.take(i + 1), p).map_values(
                        |k: KeyStateView| k.models.len(),
                    );
                    assert(lens.drop_last() =~= kept(all.take(i as int), p).map_values(
                        |k: KeyStateView| k.models.len(),
                    ));
                    assert(lens.last() == key.models@.len());
                }
            }
            i += 1;
        }
        assert(all.take(all.len() as int) =~= all);
        sum
    }

    /// The models of the free keys that are ready at second `now`, key by key.
    pub fn free_models_at(&mut self, now: u64) -> (r: Vec<String>)
        ensures
            final(self)@ == old(self)@.refreshed(now),
            views(r@) == free_models_of(old(self)@.refreshed(now), now),
    {
        self.refresh(now);
        let ghost all = self@.keys;
        let ghost p = is_free_ready(now);
        let mut out: Vec<String> = Vec::new();
        let mut i: usize = 0;
        proof {
            kept_all(all, p);
            assert(kept(all.take(0), p).map_values(|k: KeyStateView| k.models) =~= Seq::<
                Seq<Seq<char>>,
            >::empty());
            assert(views(out@) =~= free_models_of(self@.with_keys(all.take(0)), now));
        }
        while i < self.keys.len()
            invariant
                i <= self.keys@.len(),
                all == state_views(self.keys@),
                p == is_free_ready(now),
                views(out@) == free_models_of(self@.with_keys(all.take(i as int)), now),
            decreases self.keys@.len() - i,
        {
            let key = &self.keys[i];
            proof {
                kept_next(all, p, i as int);
                assert(all[i as int] == key@);
            }
            if key.tier == KeyTier::Free && key.status == KeyStatus::Available
                && !key.is_rate_limited(now) {
                let ghost so_far = out@;
                let mut more = copy_strings(&key.models);
                out.append(&mut more);
                proof {
                    assert(views(out@) =~= views(so_far) + key@.models);
                    let lists = kept(all.take(i as int), p).map_values(
                        |k: KeyStateView| k.models,
                    );
                    assert(kept(all.take(i + 1), p).map_values(|k: KeyStateView| k.models)
                        =~= lists.push(key@.models));
                    lists.lemma_flatten_push(key@.models);
                }
            }
            i += 1;
        }
        assert(all.take(all.len() as int) =~= all);
        out
    }
}

/// Whether a paid key is ready and serves a model.
pub open spec fn is_paid_for(model: Seq<char>, now: u64) -> spec_fn(KeyStateView) -> bool {
    |k: KeyStateView| k.tier == KeyTier::Paid && k.ready(now) && k.models.contains(model)
}

} // verus!
