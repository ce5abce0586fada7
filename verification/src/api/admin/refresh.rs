//! The refresh of a provider: each of its keys is asked for its models, and the
//! provider's health follows from the answers.
use crate::api::admin::events::{event, event_json};
use crate::api::admin::trial::{provider_missing, refusal, refusal_to_json};
use crate::api::admin::validation::append_strings;
use crate::api::status::{health_state_json, health_state_to_json};
use crate::clock::{Moment, now_seconds};
use crate::config::{Config, KeyTier};
use crate::error::{GatewayResult, message_of};
use crate::health::{health_views, HealthRegistry, HealthView, lists_health};
use crate::json::{Json, JsonView, num, ObjectBuilder};
use crate::keyhub::KeyHub;
use crate::keyhub::hub::HubView;
use crate::keyhub::pool::{
    count_keys, is_probe_key, is_ready, key_index, keys_and_tiers, pair_views,
};
use crate::keystate::{KeyStatus, plus64};
use crate::lists::{distinct_strings, firsts, lookup, named_in};
use crate::sanitize::{sanitize_diagnostic, sanitized};
use crate::text::{char_count, concat3, copy_strings, list_has, same, views};
use vstd::prelude::*;

verus! {

/// The refresh of a provider under way.
#[derive(Debug)]
pub struct Refresh {
    pub provider: String,
    /// The keys that can be asked.
    pub keys: Vec<String>,
    /// How many of them were dealt with.
    pub done: usize,
    /// Whether a request was reserved on the key that is asked now.
    pub reserved: bool,
    pub successful_keys: usize,
    pub total_latency: u64,
    /// Every model that a key named.
    pub found: Vec<String>,
    pub last_error: String,
}

/// What a [`Refresh`] holds.
pub struct RefreshView {
    pub provider: Seq<char>,
    pub keys: Seq<Seq<char>>,
    pub done: nat,
    pub reserved: bool,
    pub successful_keys: nat,
    pub total_latency: u64,
    pub found: Seq<Seq<char>>,
    pub last_error: Seq<char>,
}

impl View for Refresh {
    type V = RefreshView;

    open spec fn view(&self) -> RefreshView {
        RefreshView {
            provider: self.provider@,
            keys: views(self.keys@),
            done: self.done as nat,
            reserved: self.reserved,
            successful_keys: self.successful_keys as nat,
            total_latency: self.total_latency,
            found: views(self.found@),
            last_error: self.last_error@,
        }
    }
}

impl RefreshView {
    /// A refresh in which no key was asked yet.
    pub open spec fn fresh(provider: Seq<char>, keys: Seq<Seq<char>>) -> RefreshView {
        RefreshView {
            provider,
            keys,
            done: 0,
            reserved: false,
            successful_keys: 0,
            total_latency: 0,
            found: Seq::empty(),
            last_error: Seq::empty(),
        }
    }

    /// No more keys were dealt with than there are, and no more succeeded than
    /// were dealt with.
    pub open spec fn wf(self) -> bool {
        self.successful_keys <= self.done <= self.keys.len()
    }

    /// Whether some key is still to be dealt with.
    pub open spec fn goes_on(self) -> bool {
        self.done < self.keys.len()
    }

    /// The key that is dealt with now.
    pub open spec fn key(self) -> Seq<char> {
        self.keys[self.done as int]
    }

    /// How many different models were found.
    pub open spec fn models_found(self) -> nat {
        firsts(self.found).len()
    }

    /// The refresh after a key that is not asked.
    pub open spec fn passing(self) -> RefreshView {
        RefreshView { done: self.done + 1, ..self }
    }

    /// The refresh after an answer, or after none came in time.
    pub open spec fn answered(
        self,
        outcome: Option<GatewayResult<Vec<String>>>,
        latency: u64,
    ) -> RefreshView {
        match outcome {
            Some(Ok(models)) => RefreshView {
                done: self.done + 1,
                successful_keys: self.successful_keys + 1,
                total_latency: plus64(self.total_latency, latency),
                found: self.found + views(models@),
                ..self
            },
            Some(Err(e)) => RefreshView {
                done: self.done + 1,
                last_error: message_of(e),
                ..self
            },
            None => RefreshView {
                done: self.done + 1,
                last_error: "Model discovery timed out"@,
                ..self
            },
        }
    }
}

/// The status of a key of a provider.
pub open spec fn status_in(hub: HubView, provider: Seq<char>, key: Seq<char>) -> Option<KeyStatus> {
    if hub.pools.contains_key(provider) {
        match key_index(hub.pools[provider].keys, key, 0) {
            Some(i) => Some(hub.pools[provider].keys[i].status),
            None => None,
        }
    } else {
        None
    }
}

/// The keys of a provider that can be asked for their models.
pub open spec fn keys_to_ask(hub: HubView, provider: Seq<char>, now: u64) -> Seq<Seq<char>> {
    if hub.pools.contains_key(provider) {
        keys_and_tiers(hub.pools[provider].refreshed(now).keys, is_probe_key(now)).map_values(
            |p: (Seq<char>, KeyTier)| p.0,
        )
    } else {
        Seq::empty()
    }
}

/// Begins the refresh of a provider.
pub fn admin_provider_refresh(
    registered: &Vec<String>,
    keyhub: &mut KeyHub,
    provider_name: &str,
) -> (r: Result<Refresh, Json>)
    requires
        old(keyhub).wf(),
    ensures
        final(keyhub).wf(),
        !views(registered@).contains(provider_name@) ==> final(keyhub)@ == old(keyhub)@ && (
        r matches Err(j) && j@ == refusal(provider_missing(provider_name@))),
        views(registered@).contains(provider_name@) ==> exists|now: u64|
            final(keyhub)@ == #[trigger] old(keyhub)@.refreshed(provider_name@, now) && (
            r matches Ok(refresh) && refresh@ == RefreshView::fresh(
                provider_name@,
                keys_to_ask(old(keyhub)@, provider_name@, now),
            )),
{
    if !list_has(registered, provider_name) {
        return Err(refusal_to_json(concat3("Provider '", provider_name, "' not found").as_str()));
    }
    let ghost hub = keyhub@;
    let probes = keyhub.model_probe_keys(provider_name);
    let ghost now = choose|now: u64|
        keyhub@ == #[trigger] hub.refreshed(provider_name@, now) && pair_views(probes@) == (
        if hub.pools.contains_key(provider_name@) {
            keys_and_tiers(
                hub.pools[provider_name@].refreshed(now).keys,
                is_probe_key(now),
            )
        } else {
            Seq::empty()
        });
    let mut keys: Vec<String> = Vec::new();
    let mut i: usize = 0;
    while i < probes.len()
        invariant
            i <= probes@.len(),
            keys@.len() == i,
            forall|k: int| 0 <= k < i ==> (#[trigger] keys@[k])@ == probes@[k].0@,
        decreases probes@.len() - i,
    {
        keys.push(probes[i].0.clone());
        i += 1;
    }
    let refresh = Refresh {
        provider: provider_name.to_owned(),
        keys,
        done: 0,
        reserved: false,
        successful_keys: 0,
        total_latency: 0,
        found: Vec::new(),
        last_error: String::new(),
    };
    proof {
        let shown = pair_views(probes@);
        assert forall|k: int| 0 <= k < refresh@.keys.len() implies refresh@.keys[k]
            == shown[k].0 by {
            assert(keys@[k]@ == probes@[k].0@);
        }
        let asked = keys_to_ask(hub, provider_name@, now);
        assert(shown.len() == probes@.len());
        assert(asked.len() == shown.len());
        assert forall|k: int| 0 <= k < asked.len() implies #[trigger] asked[k] == shown[k].0 by {}
        assert(refresh@.keys =~= asked);
    }
    assert(refresh@.found =~= Seq::<Seq<char>>::empty());
    assert(refresh@.last_error =~= Seq::<char>::empty());
    Ok(refresh)
}

/// Whether the hub and a refresh are as an answer leaves them.
pub open spec fn takes_answer(
    before: RefreshView,
    hub: HubView,
    hub_after: HubView,
    outcome: Option<GatewayResult<Vec<String>>>,
    moment: Moment,
    now: u64,
    then: u64,
) -> bool {
    let provider = before.provider;
    let key = before.key();
    match outcome {
        Some(Ok(models)) => {
            let told = hub.with_models(provider, key, views(models@), now);
            hub_after == if before.reserved {
                told.succeeded(provider, key, None, None, true, then)
            } else {
                told
            }
        },
        Some(Err(e)) => 0 <= moment.seconds && hub_after == hub.charged(
            provider,
            key,
            e,
            moment,
            now,
        ).with_model_error(provider, key, sanitized(message_of(e))),
        None => hub_after == hub.with_model_error(provider, key, "Model discovery timed out"@),
    }
}

impl Refresh {
    /// The key that is dealt with now, where there is one.
    pub fn next_key(&self) -> (r: Option<&str>)
        ensures
            match r {
                Some(k) => self@.goes_on() && k@ == self@.key(),
                None => !self@.goes_on(),
            },
    {
        if self.done < self.keys.len() {
            Some(self.keys[self.done].as_str())
        } else {
            None
        }
    }

    /// Whether the key that is dealt with now is asked. A disabled key is,
    /// without a reservation; any other where a request can be reserved.
    pub fn begin_probe(&mut self, keyhub: &mut KeyHub) -> (r: bool)
        requires
            old(keyhub).wf(),
            old(self)@.wf(),
            old(self)@.goes_on(),
        ensures
            final(keyhub).wf(),
            final(self)@.wf(),
            status_in(old(keyhub)@, old(self)@.provider, old(self)@.key()) == Some(
                KeyStatus::Disabled,
            ) ==> r && final(keyhub)@ == old(keyhub)@ && final(self)@ == (RefreshView {
                reserved: false,
                ..old(self)@
            }),
            status_in(old(keyhub)@, old(self)@.provider, old(self)@.key()) != Some(
                KeyStatus::Disabled,
            ) ==> exists|now: u64|
                final(keyhub)@ == #[trigger] old(keyhub)@.reserved(
                    old(self)@.provider,
                    old(self)@.key(),
                    now,
                ) && r == old(keyhub)@.can_reserve(old(self)@.provider, old(self)@.key(), now)
                    && final(self)@ == if r {
                    RefreshView { reserved: true, ..old(self)@ }
                } else {
                    old(self)@.passing()
                },
    {
        let total = self.keys.len();
        assert(self.done < total);
        let key = self.keys[self.done].clone();
        let disabled = match keyhub.key_status(self.provider.as_str(), key.as_str()) {
            Some(status) => status == KeyStatus::Disabled,
            None => false,
        };
        if disabled {
            self.reserved = false;
            return true;
        }
        if keyhub.reserve_key(self.provider.as_str(), key.as_str()) {
            self.reserved = true;
            true
        } else {
            self.done = self.done + 1;
            false
        }
    }

    /// Takes the answer of a key into account: its models, an error, or nothing
    /// in time.
    pub fn on_models(
        &mut self,
        keyhub: &mut KeyHub,
        outcome: Option<GatewayResult<Vec<String>>>,
        latency_ms: u64,
    )
        requires
            old(keyhub).wf(),
            old(self)@.wf(),
            old(self)@.goes_on(),
        ensures
            final(keyhub).wf(),
            final(self)@.wf(),
            final(self)@ == old(self)@.answered(outcome, latency_ms),
            exists|moment: Moment, now: u64, then: u64| #[trigger]
                takes_answer(
                    old(self)@,
                    old(keyhub)@,
                    final(keyhub)@,
                    outcome,
                    moment,
                    now,
                    then,
                ),
    {
        let ghost before = self@;
        let ghost hub = keyhub@;
        let ghost given = outcome;
        let ghost never = Moment { seconds: 0, nanos: 0 };
        let total = self.keys.len();
        assert(self.done < total);
        let key = self.keys[self.done].clone();
        match outcome {
            Some(Ok(models)) => {
                let ghost named = views(models@);
                self.total_latency = self.total_latency.saturating_add(latency_ms);
                self.successful_keys = self.successful_keys + 1;
                let names = copy_strings(&models);
                append_strings(&mut self.found, names);
                keyhub.update_models(self.provider.as_str(), key.as_str(), models);
                let ghost told = keyhub@;
                let ghost now = choose|now: u64|
                    keyhub@ == #[trigger] hub.with_models(
                        before.provider,
                        before.key(),
                        named,
                        now,
                    );
                let ghost mut then: u64 = 0;
                if self.reserved {
                    keyhub.report_reserved_success(
                        self.provider.as_str(),
                        key.as_str(),
                        None,
                        None,
                    );
                    proof {
                        then = choose|then: u64|
                            keyhub@ == #[trigger] told.succeeded(
                                before.provider,
                                before.key(),
                                None,
                                None,
                                true,
                                then,
                            );
                    }
                }
                assert(takes_answer(before, hub, keyhub@, given, never, now, then));
            },
            Some(Err(e)) => {
                keyhub.report_gateway_error(self.provider.as_str(), key.as_str(), &e);
                let ghost charged = keyhub@;
                let ghost (moment, now) = choose|m: Moment, n: u64|
                    0 <= m.seconds && charged == #[trigger] hub.charged(
                        before.provider,
                        before.key(),
                        e,
                        m,
                        n,
                    );
                let message = e.to_string();
                let shown = sanitize_diagnostic(message.as_str());
                keyhub.record_model_error(self.provider.as_str(), key.as_str(), shown.as_str());
                self.last_error = message;
                assert(takes_answer(before, hub, keyhub@, given, moment, now, 0));
            },
            None => {
                self.last_error = "Model discovery timed out".to_owned();
                keyhub.record_model_error(
                    self.provider.as_str(),
                    key.as_str(),
                    self.last_error.as_str(),
                );
                assert(takes_answer(before, hub, keyhub@, given, never, 0, 0));
            },
        }
        self.done = self.done + 1;
    }
}

// ---------------------------------------------------------------- the outcome
/// How many keys of a provider can take a request.
pub open spec fn ready_keys(hub: HubView, provider: Seq<char>, now: u64) -> nat {
    if hub.pools.contains_key(provider) {
        count_keys(hub.pools[provider].refreshed(now).keys, is_ready(now))
    } else {
        0
    }
}

/// How many keys a provider is configured with.
pub open spec fn configured_keys(config: Config, provider: Seq<char>) -> nat {
    match named_in(config.providers@, provider) {
        Some(pc) => pc.keys@.len(),
        None => 0,
    }
}

/// The health of a provider after a refresh: well where a key answered, with the
/// mean time of the answers; else what the last error was.
pub open spec fn refreshed_health(
    h: HealthView,
    refresh: RefreshView,
    available: usize,
    total: usize,
) -> HealthView {
    if refresh.successful_keys > 0 {
        h.checked(
            "healthy"@,
            (refresh.total_latency / (refresh.successful_keys as u64)) as u64,
            refresh.models_found() as usize,
            available,
            total,
        )
    } else {
        h.failed_with_counts(
            if refresh.last_error.len() == 0 {
                "No configured keys"@
            } else {
                refresh.last_error
            },
            available,
            total,
        )
    }
}

/// The health of all providers after a refresh of one.
pub open spec fn after_refresh(
    registry: Map<Seq<char>, HealthView>,
    refresh: RefreshView,
    available: usize,
    total: usize,
) -> Map<Seq<char>, HealthView> {
    if registry.contains_key(refresh.provider) {
        registry.insert(
            refresh.provider,
            refreshed_health(registry[refresh.provider], refresh, available, total),
        )
    } else {
        registry
    }
}

/// What listeners are told of a refresh.
pub open spec fn refresh_data(refresh: RefreshView) -> JsonView {
    JsonView::Object(
        seq![
            ("provider"@, JsonView::Text(refresh.provider)),
            (
                "status"@,
                JsonView::Text(
                    if refresh.successful_keys > 0 {
                        "healthy"@
                    } else {
                        "unhealthy"@
                    },
                ),
            ),
        ],
    )
}

/// The reply to a refresh.
pub open spec fn refresh_reply(
    refresh: RefreshView,
    registry: Map<Seq<char>, HealthView>,
) -> JsonView {
    JsonView::Object(
        seq![
            ("success"@, JsonView::Bool(true)),
            ("provider"@, JsonView::Text(refresh.provider)),
            ("models_found"@, num(refresh.models_found() as u64)),
            (
                "health"@,
                if registry.contains_key(refresh.provider) {
                    health_state_json(registry[refresh.provider])
                } else {
                    JsonView::Null
                },
            ),
        ],
    )
}

fn health_of(registry: &HealthRegistry, provider: &str) -> (r: Json)
    requires
        registry.wf(),
    ensures
        r@ == if registry@.contains_key(provider@) {
            health_state_json(registry@[provider@])
        } else {
            JsonView::Null
        },
{
    let states = registry.snapshot();
    let ghost all = health_views(states@);
    let mut i: usize = 0;
    while i < states.len()
        invariant
            i <= states@.len(),
            all == health_views(states@),
            lists_health(all, registry@),
            forall|j: int| 0 <= j < i ==> (#[trigger] all[j]).provider != provider@,
        decreases states@.len() - i,
    {
        assert(all[i as int] == states@[i as int]@);
        if same(states[i].provider.as_str(), provider) {
            return health_state_to_json(&states[i]);
        }
        i += 1;
    }
    Json::Null
}

impl Refresh {
    /// Ends the refresh: the health of the provider follows. Gives what
    /// listeners are told, and the reply.
    pub fn finish(
        &self,
        config: &Config,
        keyhub: &mut KeyHub,
        health: &mut HealthRegistry,
    ) -> (r: (Json, Json))
        requires
            old(keyhub).wf(),
            old(health).wf(),
            self@.wf(),
        ensures
            final(keyhub).wf(),
            final(health).wf(),
            exists|now: u64|
                final(keyhub)@ == #[trigger] old(keyhub)@.refreshed(self@.provider, now)
                    && final(health)@ == after_refresh(
                    old(health)@,
                    self@,
                    ready_keys(old(keyhub)@, self@.provider, now) as usize,
                    configured_keys(*config, self@.provider) as usize,
                ),
            exists|then: u64|
                r.0@ == #[trigger] event_json("health_update"@, refresh_data(self@), then),
            r.1@ == refresh_reply(self@, final(health)@),
    {
        let ghost hub = keyhub@;
        let provider = self.provider.as_str();
        let available = keyhub.available_count(provider);
        let ghost now = choose|now: u64|
            keyhub@ == #[trigger] hub.refreshed(provider@, now) && available == ready_keys(
                hub,
                provider@,
                now,
            );
        let total = match lookup(&config.providers, provider) {
            Some(pc) => pc.keys.len(),
            None => 0,
        };
        let models = distinct_strings(&self.found);
        assert(models@.len() == views(models@).len());
        let healthy = self.successful_keys > 0;
        if healthy {
            let mean = self.total_latency / (self.successful_keys as u64);
            health.update(provider, "healthy", mean, models.len(), available, total);
        } else if char_count(self.last_error.as_str()) == 0 {
            health.record_error_with_counts(provider, "No configured keys", available, total);
        } else {
            health.record_error_with_counts(provider, self.last_error.as_str(), available, total);
        }
        assert(health@ == after_refresh(
            old(health)@,
            self@,
            ready_keys(hub, provider@, now) as usize,
            configured_keys(*config, provider@) as usize,
        ));
        let mut data = ObjectBuilder::new();
        data.put_text("provider", provider);
        if healthy {
            data.put_text("status", "healthy");
        } else {
            data.put_text("status", "unhealthy");
        }
        assert(data@ =~= refresh_data(self@)->Object_0);
        let told = event("health_update", data.done(), now_seconds());
        let mut o = ObjectBuilder::new();
        o.put_bool("success", true);
        o.put_text("provider", provider);
        o.put_num("models_found", models.len() as u64);
        o.put("health", health_of(health, provider));
        assert(o@ =~= refresh_reply(self@, health@)->Object_0);
        (told, o.done())
    }
}

// ---------------------------------------------------------------- laws
/// A provider of which a key answered is healthy after its refresh; of one of
/// which no key did, an error is remembered.
pub proof fn one_answer_is_enough(
    registry: Map<Seq<char>, HealthView>,
    refresh: RefreshView,
    available: usize,
    total: usize,
)
    requires
        registry.contains_key(refresh.provider),
    ensures
        ({
            let h = after_refresh(registry, refresh, available, total)[refresh.provider];
            &&& refresh.successful_keys > 0 ==> h.status == "healthy"@ && h.models_count
                == refresh.models_found() as usize
            &&& refresh.successful_keys == 0 ==> h.last_error.len() > 0
            &&& h.available_keys == available && h.total_keys == total
        }),
{
    reveal_strlit("No configured keys");
}

/// Nobody else's health changes by a refresh.
pub proof fn refresh_is_of_one_provider(
    registry: Map<Seq<char>, HealthView>,
    refresh: RefreshView,
    available: usize,
    total: usize,
    other: Seq<char>,
)
    requires
        other != refresh.provider,
    ensures
        ({
            let after = after_refresh(registry, refresh, available, total);
            &&& after.contains_key(other) == registry.contains_key(other)
            &&& registry.contains_key(other) ==> after[other] == registry[other]
        }),
{
}

} // verus!
