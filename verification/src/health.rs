//! The health of the providers, as checks and requests show it.
use crate::config::ProviderConfig;
use crate::keystate::plus64;
use crate::models::HealthState;
use crate::registry::{entries, index_get, index_insert, index_walk, lists_entries, new_index};
use crate::text::same;
use vstd::prelude::*;

verus! {

/// What a [`HealthState`] holds.
pub struct HealthView {
    pub provider: Seq<char>,
    pub status: Seq<char>,
    pub latency_ms: u64,
    pub success_count: u64,
    pub fail_count: u64,
    pub last_error: Seq<char>,
    pub cooldown_until: Option<u64>,
    pub models_count: usize,
    pub available_keys: usize,
    pub total_keys: usize,
}

impl View for HealthState {
    type V = HealthView;

    open spec fn view(&self) -> HealthView {
        HealthView {
            provider: self.provider@,
            status: self.status@,
            latency_ms: self.latency_ms,
            success_count: self.success_count,
            fail_count: self.fail_count,
            last_error: self.last_error@,
            cooldown_until: self.cooldown_until,
            models_count: self.models_count,
            available_keys: self.available_keys,
            total_keys: self.total_keys,
        }
    }
}

/// The views of some states.
pub open spec fn health_views(list: Seq<HealthState>) -> Seq<HealthView> {
    list.map_values(|h: HealthState| h@)
}

impl HealthView {
    /// A provider that was not checked yet, with so many keys.
    pub open spec fn unknown(provider: Seq<char>, keys: usize) -> HealthView {
        HealthView {
            provider,
            status: "unknown"@,
            latency_ms: 0,
            success_count: 0,
            fail_count: 0,
            last_error: Seq::empty(),
            cooldown_until: None,
            models_count: 0,
            available_keys: keys,
            total_keys: keys,
        }
    }

    /// After a check. A healthy provider has no error; any other has no
    /// cooldown.
    pub open spec fn checked(
        self,
        status: Seq<char>,
        latency_ms: u64,
        models_count: usize,
        available_keys: usize,
        total_keys: usize,
    ) -> HealthView {
        if status == "healthy"@ {
            HealthView {
                status,
                latency_ms,
                models_count,
                available_keys,
                total_keys,
                success_count: plus64(self.success_count, 1),
                last_error: Seq::empty(),
                ..self
            }
        } else {
            HealthView {
                status,
                latency_ms,
                models_count,
                available_keys,
                total_keys,
                fail_count: plus64(self.fail_count, 1),
                cooldown_until: None,
                ..self
            }
        }
    }

    /// After an error.
    pub open spec fn failed(self, error: Seq<char>) -> HealthView {
        HealthView {
            status: "unhealthy"@,
            last_error: error,
            fail_count: plus64(self.fail_count, 1),
            ..self
        }
    }

    /// After an error, with the keys counted anew.
    pub open spec fn failed_with_counts(
        self,
        error: Seq<char>,
        available_keys: usize,
        total_keys: usize,
    ) -> HealthView {
        HealthView { available_keys, total_keys, ..self.failed(error) }
    }
}

impl HealthState {
    /// The same state.
    pub fn copy(&self) -> (r: HealthState)
        ensures
            r@ == self@,
    {
        HealthState {
            provider: self.provider.clone(),
            status: self.status.clone(),
            latency_ms: self.latency_ms,
            success_count: self.success_count,
            fail_count: self.fail_count,
            last_error: self.last_error.clone(),
            cooldown_until: self.cooldown_until,
            models_count: self.models_count,
            available_keys: self.available_keys,
            total_keys: self.total_keys,
        }
    }

    fn note_check(
        &mut self,
        status: &str,
        latency_ms: u64,
        models_count: usize,
        available_keys: usize,
        total_keys: usize,
    )
        ensures
            final(self)@ == old(self)@.checked(
                status@,
                latency_ms,
                models_count,
                available_keys,
                total_keys,
            ),
    {
        self.status = status.to_owned();
        self.latency_ms = latency_ms;
        self.models_count = models_count;
        self.available_keys = available_keys;
        self.total_keys = total_keys;
        if same(status, "healthy") {
            self.success_count = self.success_count.saturating_add(1);
            self.last_error = String::new();
            assert(self.last_error@ =~= Seq::empty());
        } else {
            self.fail_count = self.fail_count.saturating_add(1);
            self.cooldown_until = None;
        }
    }

    fn note_error(&mut self, error: &str)
        ensures
            final(self)@ == old(self)@.failed(error@),
    {
        self.status = "unhealthy".to_owned();
        self.last_error = error.to_owned();
        self.fail_count = self.fail_count.saturating_add(1);
    }
}

/// The health of every registered provider.
pub struct HealthRegistry {
    index: dashmap::DashMap<String, usize>,
    states: Vec<HealthState>,
}

impl View for HealthRegistry {
    type V = Map<Seq<char>, HealthView>;

    closed spec fn view(&self) -> Map<Seq<char>, HealthView> {
        Map::new(
            |name: Seq<char>| entries(self.index).contains_key(name),
            |name: Seq<char>| self.states@[entries(self.index)[name] as int]@,
        )
    }
}

/// Every provider stands under its own name.
pub open spec fn named_by_provider(registry: Map<Seq<char>, HealthView>) -> bool {
    forall|name: Seq<char>| #[trigger]
        registry.contains_key(name) ==> registry[name].provider == name
}

/// Whether a list holds every provider of a registry once.
pub open spec fn lists_health(
    list: Seq<HealthView>,
    registry: Map<Seq<char>, HealthView>,
) -> bool {
    &&& forall|i: int|
        0 <= i < list.len() ==> registry.contains_key((#[trigger] list[i]).provider)
            && registry[list[i].provider] == list[i]
    &&& forall|i: int, j: int|
        0 <= i < j < list.len() ==> (#[trigger] list[i]).provider != (#[trigger] list[j]).provider
    &&& forall|name: Seq<char>| #[trigger]
        registry.contains_key(name) ==> exists|i: int|
            0 <= i < list.len() && (#[trigger] list[i]).provider == name
}

/// Whether no provider but the local one is healthy.
pub open spec fn remote_down(registry: Map<Seq<char>, HealthView>) -> bool {
    forall|name: Seq<char>| #[trigger]
        registry.contains_key(name) && name != "ollama"@ ==> registry[name].status != "healthy"@
}

impl HealthRegistry {
    /// Every name stands with the number of a state of that provider, and no
    /// two names with the same.
    pub closed spec fn wf(&self) -> bool {
        forall|name: Seq<char>| #[trigger]
            entries(self.index).contains_key(name) ==> entries(self.index)[name]
                < self.states@.len() && self.states@[entries(self.index)[name] as int]@.provider
                == name
    }

    /// What well-formedness says of the view.
    pub proof fn wf_names(&self)
        requires
            self.wf(),
        ensures
            named_by_provider(self@),
    {
    }

    proof fn state_changed(
        before: HealthRegistry,
        after: HealthRegistry,
        provider: Seq<char>,
        state: HealthState,
    )
        requires
            before.wf(),
            entries(before.index).contains_key(provider),
            after.index == before.index,
            after.states@ == before.states@.update(
                entries(before.index)[provider] as int,
                state,
            ),
            state@.provider == provider,
        ensures
            after.wf(),
            after@ == before@.insert(provider, state@),
    {
        let i = entries(before.index)[provider] as int;
        assert forall|name: Seq<char>| #[trigger]
            entries(after.index).contains_key(name) implies entries(after.index)[name]
            < after.states@.len() && after.states@[entries(after.index)[name] as int]@.provider
            == name by {
            let j = entries(before.index)[name] as int;
            if j == i {
                assert(before.states@[i]@.provider == provider);
                assert(name == provider);
            }
        }
        assert(after@ =~= before@.insert(provider, state@)) by {
            assert forall|name: Seq<char>|
                before@.contains_key(name) && name != provider implies after@[name]
                == before@[name] by {
                let j = entries(before.index)[name] as int;
                assert(entries(before.index).contains_key(name));
                assert(before.states@[j]@.provider == name);
                assert(before.states@[i]@.provider == provider);
                assert(j != i);
            }
        }
    }

    /// A registry without providers.
    pub fn new() -> (r: HealthRegistry)
        ensures
            r.wf(),
            r@ == Map::<Seq<char>, HealthView>::empty(),
    {
        let r = HealthRegistry { index: new_index(), states: Vec::new() };
        assert(r@ =~= Map::<Seq<char>, HealthView>::empty()) by {
            assert forall|name: Seq<char>| !r@.contains_key(name) by {
                assert(!entries(r.index).dom().contains(name));
            }
        }
        assert(forall|name: Seq<char>| !entries(r.index).dom().contains(name));
        r
    }

    /// Registers a provider, which was not checked yet.
    pub fn register(&mut self, provider_name: &str, config: &ProviderConfig)
        requires
            old(self).wf(),
        ensures
            final(self).wf(),
            final(self)@ == old(self)@.insert(
                provider_name@,
                HealthView::unknown(provider_name@, config.keys@.len() as usize),
            ),
    {
        let state = HealthState {
            provider: provider_name.to_owned(),
            status: "unknown".to_owned(),
            latency_ms: 0,
            success_count: 0,
            fail_count: 0,
            last_error: String::new(),
            cooldown_until: None,
            models_count: 0,
            available_keys: config.keys.len(),
            total_keys: config.keys.len(),
        };
        assert(state.last_error@ =~= Seq::empty());
        assert(state@ == HealthView::unknown(provider_name@, config.keys@.len() as usize));
        let ghost before = *self;
        match index_get(&self.index, provider_name) {
            Some(i) => {
                self.states.set(i, state);
                proof {
                    HealthRegistry::state_changed(before, *self, provider_name@, state);
                }
            },
            None => {
                let n = self.states.len();
                self.states.push(state);
                index_insert(&mut self.index, provider_name.to_owned(), n);
                assert forall|name: Seq<char>| #[trigger]
                    entries(self.index).contains_key(name) implies entries(self.index)[name]
                    < self.states@.len() && self.states@[entries(
                    self.index,
                )[name] as int]@.provider == name by {
                    if name != provider_name@ {
                        assert(entries(before.index).contains_key(name));
                        assert(before.states@[entries(before.index)[name] as int]@.provider == name);
                    }
                }
                assert(self@ =~= before@.insert(provider_name@, state@)) by {
                    assert forall|name: Seq<char>| before@.contains_key(name) implies self@[name]
                        == before@[name] by {
                        assert(entries(before.index).contains_key(name));
                        assert(before.states@[entries(before.index)[name] as int]@.provider == name);
                    }
                }
            },
        }
    }

    /// Takes a check of a provider into account; nothing where it is not
    /// registered.
    pub fn update(
        &mut self,
        provider_name: &str,
        status: &str,
        latency_ms: u64,
        models_count: usize,
        available_keys: usize,
        total_keys: usize,
    )
        requires
            old(self).wf(),
        ensures
            final(self).wf(),
            final(self)@ == if old(self)@.contains_key(provider_name@) {
                old(self)@.insert(
                    provider_name@,
                    old(self)@[provider_name@].checked(
                        status@,
                        latency_ms,
                        models_count,
                        available_keys,
                        total_keys,
                    ),
                )
            } else {
                old(self)@
            },
    {
        if let Some(i) = index_get(&self.index, provider_name) {
            let ghost before = *self;
            self.states[i].note_check(
                status,
                latency_ms,
                models_count,
                available_keys,
                total_keys,
            );
            proof {
                HealthRegistry::state_changed(
                    before,
                    *self,
                    provider_name@,
                    self.states@[i as int],
                );
            }
        }
    }

    /// Takes an error of a provider into account; nothing where it is not
    /// registered.
    pub fn record_error(&mut self, provider_name: &str, error: &str)
        requires
            old(self).wf(),
        ensures
            final(self).wf(),
            final(self)@ == if old(self)@.contains_key(provider_name@) {
                old(self)@.insert(provider_name@, old(self)@[provider_name@].failed(error@))
            } else {
                old(self)@
            },
    {
        if let Some(i) = index_get(&self.index, provider_name) {
            let ghost before = *self;
            self.states[i].note_error(error);
            proof {
                HealthRegistry::state_changed(
                    before,
                    *self,
                    provider_name@,
                    self.states@[i as int],
                );
            }
        }
    }

    /// Takes an error of a provider into account, with its keys counted anew.
    pub fn record_error_with_counts(
        &mut self,
        provider_name: &str,
        error: &str,
        available_keys: usize,
        total_keys: usize,
    )
        requires
            old(self).wf(),
        ensures
            final(self).wf(),
            final(self)@ == if old(self)@.contains_key(provider_name@) {
                old(self)@.insert(
                    provider_name@,
                    old(self)@[provider_name@].failed_with_counts(
                        error@,
                        available_keys,
                        total_keys,
                    ),
                )
            } else {
                old(self)@
            },
    {
        if let Some(i) = index_get(&self.index, provider_name) {
            let ghost before = *self;
            let mut state = self.states[i].copy();
            state.note_error(error);
            state.available_keys = available_keys;
            state.total_keys = total_keys;
            self.states.set(i, state);
            proof {
                HealthRegistry::state_changed(before, *self, provider_name@, state);
            }
        }
    }

    /// The states of all providers, in an order that is not stated.
    pub fn snapshot(&self) -> (r: Vec<HealthState>)
        requires
            self.wf(),
        ensures
            lists_health(health_views(r@), self@),
    {
        let walk = index_walk(&self.index);
        let mut r: Vec<HealthState> = Vec::new();
        let mut i: usize = 0;
        while i < walk.len()
            invariant
                i <= walk@.len(),
                self.wf(),
                lists_entries(walk@, entries(self.index)),
                r@.len() == i,
                forall|j: int| 0 <= j < i ==> (#[trigger] r@[j])@ == self@[walk@[j].0@],
            decreases walk@.len() - i,
        {
            assert(entries(self.index).contains_key(walk@[i as int].0@));
            let n = walk[i].1;
            r.push(self.states[n].copy());
            i += 1;
        }
        proof {
            let list = health_views(r@);
            assert forall|j: int| 0 <= j < list.len() implies (#[trigger] list[j]).provider
                == walk@[j].0@ && self@.contains_key(list[j].provider) && self@[list[j].provider]
                == list[j] by {
                assert(list[j] == r@[j]@);
                assert(entries(self.index).contains_key(walk@[j].0@));
            }
            assert forall|a: int, b: int| 0 <= a < b < list.len() implies (
            #[trigger] list[a]).provider != (#[trigger] list[b]).provider by {
                assert(walk@[a].0@ != walk@[b].0@);
            }
            assert forall|name: Seq<char>| #[trigger] self@.contains_key(name) implies exists|j: int|
                0 <= j < list.len() && (#[trigger] list[j]).provider == name by {
                assert(entries(self.index).contains_key(name));
                let j = choose|j: int| 0 <= j < walk@.len() && #[trigger] walk@[j].0@ == name;
                assert(list[j].provider == name);
            }
        }
        r
    }

    /// Whether no provider but the local one is healthy.
    pub fn all_remote_down(&self) -> (r: bool)
        requires
            self.wf(),
        ensures
            r == remote_down(self@),
    {
        let states = self.snapshot();
        let ghost list = health_views(states@);
        let mut i: usize = 0;
        while i < states.len()
            invariant
                i <= states@.len(),
                list == health_views(states@),
                lists_health(list, self@),
                forall|j: int|
                    0 <= j < i && (#[trigger] list[j]).provider != "ollama"@ ==> list[j].status
                        != "healthy"@,
            decreases states@.len() - i,
        {
            assert(list[i as int] == states@[i as int]@);
            if !same(states[i].provider.as_str(), "ollama") && same(
                states[i].status.as_str(),
                "healthy",
            ) {
                assert(self@.contains_key(list[i as int].provider));
                return false;
            }
            i += 1;
        }
        assert forall|name: Seq<char>| #[trigger] self@.contains_key(name) && name
            != "ollama"@ implies self@[name].status != "healthy"@ by {
            let j = choose|j: int| 0 <= j < list.len() && (#[trigger] list[j]).provider == name;
            assert(self@[list[j].provider] == list[j]);
        }
        true
    }
}

impl Default for HealthRegistry {
    fn default() -> (r: HealthRegistry)
        ensures
            r.wf(),
            r@ == Map::<Seq<char>, HealthView>::empty(),
    {
        HealthRegistry::new()
    }
}

// ---------------------------------------------------------------- laws
/// A healthy check leaves no error behind; any other check counts as a failure.
/// Neither changes whose state it is.
pub proof fn checks_are_counted(
    state: HealthView,
    status: Seq<char>,
    latency_ms: u64,
    models_count: usize,
    available_keys: usize,
    total_keys: usize,
)
    requires
        state.success_count < u64::MAX,
        state.fail_count < u64::MAX,
    ensures
        ({
            let after = state.checked(status, latency_ms, models_count, available_keys, total_keys);
            &&& after.provider == state.provider
            &&& after.status == status
            &&& status == "healthy"@ ==> after.last_error.len() == 0 && after.success_count
                == state.success_count + 1 && after.fail_count == state.fail_count
            &&& status != "healthy"@ ==> after.fail_count == state.fail_count + 1
                && after.success_count == state.success_count
        }),
{
}

} // verus!
