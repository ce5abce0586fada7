//! The configuration as it is shown, and how it is changed while the gateway
//! runs.
use crate::api::admin::events::{event, event_json};
use crate::api::status::{
    agent_json, agents_to_json, alias_json, aliases_to_json, provider_type_debug, strategy_debug,
    strategy_label, type_label,
};
use crate::config::{
    AdaptiveRoutingConfig, AgentConfig, AgentProfileConfig, AutoModelConfig, Config, KeyConfig,
    ModelAlias, ProviderConfig, RoutingGroupConfig,
};
use crate::json::{
    group_json_views, int_json, items_view, Json, JsonView, members_view, num, ObjectBuilder,
    opt_text_json, strings_json,
};
use crate::keystate::{can_mask, mask, mask_text, maskable};
use crate::lists::{collected, collected_all, collected_next, lookup, named_in};
use crate::text::{copy_opt, opt_view, same, str_of, views};
use vstd::prelude::*;

verus! {

// ---------------------------------------------------------------- showing
/// Whether the keys of a provider can be masked.
pub open spec fn keys_maskable(keys: Seq<KeyConfig>) -> bool {
    forall|i: int| 0 <= i < keys.len() ==> maskable((#[trigger] keys[i])@.value)
}

/// Whether every configured key can be masked.
pub open spec fn config_maskable(config: Config) -> bool {
    forall|i: int|
        0 <= i < config.providers@.len() ==> keys_maskable(
            (#[trigger] config.providers@[i]).1.keys@,
        )
}

fn can_mask_keys(keys: &Vec<KeyConfig>) -> (r: bool)
    ensures
        r == keys_maskable(keys@),
{
    let mut i: usize = 0;
    while i < keys.len()
        invariant
            i <= keys@.len(),
            forall|j: int| 0 <= j < i ==> maskable((#[trigger] keys@[j])@.value),
        decreases keys@.len() - i,
    {
        if !can_mask(keys[i].value()) {
            assert(!maskable(keys@[i as int]@.value));
            return false;
        }
        i += 1;
    }
    true
}

/// Whether every configured key can be masked.
pub fn can_show_config(config: &Config) -> (r: bool)
    ensures
        r == config_maskable(*config),
{
    let mut i: usize = 0;
    while i < config.providers.len()
        invariant
            i <= config.providers@.len(),
            forall|j: int|
                0 <= j < i ==> keys_maskable((#[trigger] config.providers@[j]).1.keys@),
        decreases config.providers@.len() - i,
    {
        if !can_mask_keys(&config.providers[i].1.keys) {
            assert(!keys_maskable(config.providers@[i as int].1.keys@));
            return false;
        }
        i += 1;
    }
    true
}

/// A provider as it is shown: its keys are masked.
pub open spec fn provider_settings(pc: ProviderConfig) -> JsonView {
    JsonView::Object(
        seq![
            ("type"@, JsonView::Text(type_label(pc.provider_type))),
            ("enabled"@, JsonView::Bool(pc.enabled)),
            ("base_url"@, JsonView::Text(pc.base_url@)),
            ("proxy_url"@, opt_text_json(opt_view(pc.proxy_url))),
            (
                "keys"@,
                JsonView::Array(
                    pc.keys@.map_values(|k: KeyConfig| JsonView::Text(mask(k@.value))),
                ),
            ),
            ("keys_count"@, num(pc.keys@.len() as u64)),
            ("health_check_model"@, JsonView::Text(pc.health_check_model@)),
            ("timeout_seconds"@, num(pc.timeout_seconds)),
            ("priority"@, num(pc.priority as u64)),
        ],
    )
}

fn provider_to_settings(pc: &ProviderConfig) -> (r: Json)
    requires
        keys_maskable(pc.keys@),
    ensures
        r@ == provider_settings(*pc),
{
    broadcast use group_json_views;

    let mut keys: Vec<Json> = Vec::new();
    let mut i: usize = 0;
    while i < pc.keys.len()
        invariant
            i <= pc.keys@.len(),
            keys_maskable(pc.keys@),
            keys@.len() == i,
            forall|j: int|
                0 <= j < i ==> (#[trigger] keys@[j])@ == JsonView::Text(mask(pc.keys@[j]@.value)),
        decreases pc.keys@.len() - i,
    {
        assert(maskable(pc.keys@[i as int]@.value));
        let shown = mask_text(pc.keys[i].value());
        keys.push(Json::string(shown.as_str()));
        i += 1;
    }
    assert(items_view(keys@) =~= pc.keys@.map_values(
        |k: KeyConfig| JsonView::Text(mask(k@.value)),
    ));
    let mut o = ObjectBuilder::new();
    o.put_text("type", provider_type_debug(pc.provider_type));
    o.put_bool("enabled", pc.enabled);
    o.put_text("base_url", pc.base_url.as_str());
    o.put_opt_text("proxy_url", str_of(&pc.proxy_url));
    o.put("keys", Json::Array(keys));
    o.put_num("keys_count", pc.keys.len() as u64);
    o.put_text("health_check_model", pc.health_check_model.as_str());
    o.put_num("timeout_seconds", pc.timeout_seconds);
    o.put_num("priority", pc.priority as u64);
    assert(o@ =~= provider_settings(*pc)->Object_0);
    o.done()
}

/// All providers as they are shown.
pub open spec fn providers_settings(config: Config) -> JsonView {
    JsonView::Object(
        config.providers@.map_values(
            |p: (String, ProviderConfig)| (p.0@, provider_settings(p.1)),
        ),
    )
}

fn providers_to_settings(config: &Config) -> (r: Json)
    requires
        config_maskable(*config),
    ensures
        r@ == providers_settings(*config),
{
    let ghost goal = providers_settings(*config)->Object_0;
    let mut o = ObjectBuilder::new();
    let mut i: usize = 0;
    assert(o@ =~= goal.take(0));
    while i < config.providers.len()
        invariant
            i <= config.providers@.len(),
            config_maskable(*config),
            goal == providers_settings(*config)->Object_0,
            o@ == goal.take(i as int),
        decreases config.providers@.len() - i,
    {
        assert(keys_maskable(config.providers@[i as int].1.keys@));
        let shown = provider_to_settings(&config.providers[i].1);
        o.put(config.providers[i].0.as_str(), shown);
        i += 1;
        assert(goal.take(i as int) =~= goal.take(i - 1).push(goal[i - 1]));
    }
    assert(goal.take(goal.len() as int) =~= goal);
    o.done()
}

/// The automatic models of the adaptive routing as JSON.
pub open spec fn auto_models_json(list: Seq<(String, AutoModelConfig)>) -> JsonView {
    JsonView::Object(
        list.map_values(
            |a: (String, AutoModelConfig)|
                (a.0@, JsonView::Object(seq![("task"@, JsonView::Text(a.1.task@))])),
        ),
    )
}

/// An agent's profile as JSON.
pub open spec fn profile_json(p: AgentProfileConfig) -> JsonView {
    JsonView::Object(
        seq![
            ("provider_groups"@, strings_json(views(p.provider_groups@))),
            ("default_auto_model"@, JsonView::Text(p.default_auto_model@)),
        ],
    )
}

/// The profiles of the agents as JSON.
pub open spec fn profiles_json(list: Seq<(String, AgentProfileConfig)>) -> JsonView {
    JsonView::Object(
        list.map_values(|a: (String, AgentProfileConfig)| (a.0@, profile_json(a.1))),
    )
}

/// The groups of providers as JSON.
pub open spec fn groups_json(list: Seq<(String, RoutingGroupConfig)>) -> JsonView {
    JsonView::Object(
        list.map_values(
            |g: (String, RoutingGroupConfig)|
                (
                    g.0@,
                    JsonView::Object(seq![("providers"@, strings_json(views(g.1.providers@)))]),
                ),
        ),
    )
}

/// The settings of the adaptive routing as JSON.
pub open spec fn adaptive_json(a: AdaptiveRoutingConfig) -> JsonView {
    JsonView::Object(
        seq![
            ("enabled"@, JsonView::Bool(a.enabled)),
            ("allow_paid"@, JsonView::Bool(a.allow_paid)),
            ("candidate_limit"@, num(a.candidate_limit as u64)),
            ("learning_window_days"@, int_json(a.learning_window_days as int)),
            ("auto_models"@, auto_models_json(a.auto_models@)),
            ("agent_profiles"@, profiles_json(a.agent_profiles@)),
            ("routing_groups"@, groups_json(a.routing_groups@)),
        ],
    )
}

fn auto_models_to_json(list: &Vec<(String, AutoModelConfig)>) -> (r: Json)
    ensures
        r@ == auto_models_json(list@),
{
    let ghost goal = auto_models_json(list@)->Object_0;
    let mut o = ObjectBuilder::new();
    let mut i: usize = 0;
    assert(o@ =~= goal.take(0));
    while i < list.len()
        invariant
            i <= list@.len(),
            goal == auto_models_json(list@)->Object_0,
            o@ == goal.take(i as int),
        decreases list@.len() - i,
    {
        let mut inner = ObjectBuilder::new();
        inner.put_text("task", list[i].1.task.as_str());
        assert(inner@ =~= goal[i as int].1->Object_0);
        o.put(list[i].0.as_str(), inner.done());
        i += 1;
        assert(goal.take(i as int) =~= goal.take(i - 1).push(goal[i - 1]));
    }
    assert(goal.take(goal.len() as int) =~= goal);
    o.done()
}

fn profiles_to_json(list: &Vec<(String, AgentProfileConfig)>) -> (r: Json)
    ensures
        r@ == profiles_json(list@),
{
    let ghost goal = profiles_json(list@)->Object_0;
    let mut o = ObjectBuilder::new();
    let mut i: usize = 0;
    assert(o@ =~= goal.take(0));
    while i < list.len()
        invariant
            i <= list@.len(),
            goal == profiles_json(list@)->Object_0,
            o@ == goal.take(i as int),
        decreases list@.len() - i,
    {
        let mut inner = ObjectBuilder::new();
        inner.put_strings("provider_groups", &list[i].1.provider_groups);
        inner.put_text("default_auto_model", list[i].1.default_auto_model.as_str());
        assert(inner@ =~= goal[i as int].1->Object_0);
        o.put(list[i].0.as_str(), inner.done());
        i += 1;
        assert(goal.take(i as int) =~= goal.take(i - 1).push(goal[i - 1]));
    }
    assert(goal.take(goal.len() as int) =~= goal);
    o.done()
}

fn groups_to_json(list: &Vec<(String, RoutingGroupConfig)>) -> (r: Json)
    ensures
        r@ == groups_json(list@),
{
    let ghost goal = groups_json(list@)->Object_0;
    let mut o = ObjectBuilder::new();
    let mut i: usize = 0;
    assert(o@ =~= goal.take(0));
    while i < list.len()
        invariant
            i <= list@.len(),
            goal == groups_json(list@)->Object_0,
            o@ == goal.take(i as int),
        decreases list@.len() - i,
    {
        let mut inner = ObjectBuilder::new();
        inner.put_strings("providers", &list[i].1.providers);
        assert(inner@ =~= goal[i as int].1->Object_0);
        o.put(list[i].0.as_str(), inner.done());
        i += 1;
        assert(goal.take(i as int) =~= goal.take(i - 1).push(goal[i - 1]));
    }
    assert(goal.take(goal.len() as int) =~= goal);
    o.done()
}

fn adaptive_to_json(a: &AdaptiveRoutingConfig) -> (r: Json)
    ensures
        r@ == adaptive_json(*a),
{
    let mut o = ObjectBuilder::new();
    o.put_bool("enabled", a.enabled);
    o.put_bool("allow_paid", a.allow_paid);
    o.put_num("candidate_limit", a.candidate_limit as u64);
    o.put_int("learning_window_days", a.learning_window_days);
    o.put("auto_models", auto_models_to_json(&a.auto_models));
    o.put("agent_profiles", profiles_to_json(&a.agent_profiles));
    o.put("routing_groups", groups_to_json(&a.routing_groups));
    assert(o@ =~= adaptive_json(*a)->Object_0);
    o.done()
}

/// The settings of the server as JSON.
pub open spec fn server_json(config: Config) -> JsonView {
    JsonView::Object(
        seq![
            ("host"@, JsonView::Text(config.server.host@)),
            ("port"@, num(config.server.port as u64)),
            ("log_level"@, JsonView::Text(config.server.log_level@)),
            ("request_timeout"@, num(config.server.request_timeout)),
            ("sse_keepalive"@, num(config.server.sse_keepalive)),
        ],
    )
}

/// The settings of the routing as JSON.
pub open spec fn routing_json(config: Config) -> JsonView {
    JsonView::Object(
        seq![
            ("strategy"@, JsonView::Text(strategy_label(config.routing.strategy))),
            ("fail_threshold"@, num(config.routing.fail_threshold as u64)),
            ("cooldown_seconds"@, num(config.routing.cooldown_seconds)),
            ("auto_discover"@, JsonView::Bool(config.routing.auto_discover)),
        ],
    )
}

/// The settings of the watcher as JSON.
pub open spec fn watcher_json(config: Config) -> JsonView {
    JsonView::Object(
        seq![
            ("enabled"@, JsonView::Bool(config.watcher.enabled)),
            ("interval_seconds"@, num(config.watcher.interval_seconds)),
            ("check_timeout_seconds"@, num(config.watcher.check_timeout_seconds)),
        ],
    )
}

/// The configuration as it is shown.
pub open spec fn config_answer(config: Config) -> JsonView {
    JsonView::Object(
        seq![
            ("server"@, server_json(config)),
            ("routing"@, routing_json(config)),
            ("fallback"@, strings_json(views(config.fallback@))),
            (
                "agents"@,
                JsonView::Object(
                    config.agents@.map_values(|a: (String, AgentConfig)| (a.0@, agent_json(a.1))),
                ),
            ),
            (
                "models"@,
                JsonView::Object(
                    config.models@.map_values(|a: (String, ModelAlias)| (a.0@, alias_json(a.1))),
                ),
            ),
            ("providers"@, providers_settings(config)),
            ("watcher"@, watcher_json(config)),
            ("adaptive_routing"@, adaptive_json(config.adaptive_routing)),
        ],
    )
}

fn server_to_json(config: &Config) -> (r: Json)
    ensures
        r@ == server_json(*config),
{
    let mut o = ObjectBuilder::new();
    o.put_text("host", config.server.host.as_str());
    o.put_num("port", config.server.port as u64);
    o.put_text("log_level", config.server.log_level.as_str());
    o.put_num("request_timeout", config.server.request_timeout);
    o.put_num("sse_keepalive", config.server.sse_keepalive);
    assert(o@ =~= server_json(*config)->Object_0);
    o.done()
}

fn routing_to_json(config: &Config) -> (r: Json)
    ensures
        r@ == routing_json(*config),
{
    let mut o = ObjectBuilder::new();
    o.put_text("strategy", strategy_debug(config.routing.strategy));
    o.put_num("fail_threshold", config.routing.fail_threshold as u64);
    o.put_num("cooldown_seconds", config.routing.cooldown_seconds);
    o.put_bool("auto_discover", config.routing.auto_discover);
    assert(o@ =~= routing_json(*config)->Object_0);
    o.done()
}

fn watcher_to_json(config: &Config) -> (r: Json)
    ensures
        r@ == watcher_json(*config),
{
    let mut o = ObjectBuilder::new();
    o.put_bool("enabled", config.watcher.enabled);
    o.put_num("interval_seconds", config.watcher.interval_seconds);
    o.put_num("check_timeout_seconds", config.watcher.check_timeout_seconds);
    assert(o@ =~= watcher_json(*config)->Object_0);
    o.done()
}

/// The configuration as it is shown, keys masked.
pub fn admin_config_get(config: &Config) -> (r: Json)
    requires
        config_maskable(*config),
    ensures
        r@ == config_answer(*config),
{
    let mut o = ObjectBuilder::new();
    o.put("server", server_to_json(config));
    o.put("routing", routing_to_json(config));
    o.put_strings("fallback", &config.fallback);
    o.put("agents", agents_to_json(&config.agents));
    o.put("models", aliases_to_json(&config.models));
    o.put("providers", providers_to_settings(config));
    o.put("watcher", watcher_to_json(config));
    o.put("adaptive_routing", adaptive_to_json(&config.adaptive_routing));
    assert(o@ =~= config_answer(*config)->Object_0);
    o.done()
}

// ---------------------------------------------------------------- changing
/// The texts among some values.
pub open spec fn texts() -> spec_fn(JsonView) -> Option<Seq<char>> {
    |v: JsonView| v.text()
}

/// The keys that a change gives, where it gives any.
pub open spec fn given_keys(updates: JsonView) -> Seq<Seq<char>> {
    match updates.get("keys"@) {
        Some(v) => match v.items() {
            Some(items) => collected(items, texts()),
            None => Seq::empty(),
        },
        None => Seq::empty(),
    }
}

/// The values of some keys, where only these are known.
pub open spec fn bare_keys(keys: Seq<KeyConfig>, values: Seq<Seq<char>>) -> bool {
    &&& keys.len() == values.len()
    &&& forall|i: int|
        0 <= i < keys.len() ==> ((#[trigger] keys[i]) matches KeyConfig::Legacy(v) && v@
            == values[i])
}

/// Whether a provider is what a change makes of another. What the change does
/// not name, or names with a value of another type, stays.
pub open spec fn changed_by(before: ProviderConfig, updates: JsonView, after: ProviderConfig) -> bool {
    &&& after.provider_type == before.provider_type
    &&& after.enabled == match updates.get("enabled"@) {
        Some(v) => match v.truth() {
            Some(b) => b,
            None => before.enabled,
        },
        None => before.enabled,
    }
    &&& after.timeout_seconds == match updates.get("timeout_seconds"@) {
        Some(v) => match v.unsigned() {
            Some(n) => n,
            None => before.timeout_seconds,
        },
        None => before.timeout_seconds,
    }
    &&& after.base_url@ == match updates.get("base_url"@) {
        Some(v) => match v.text() {
            Some(t) => t,
            None => before.base_url@,
        },
        None => before.base_url@,
    }
    &&& if given_keys(updates).len() > 0 {
        bare_keys(after.keys@, given_keys(updates))
    } else {
        after.keys@ == before.keys@
    }
    &&& after.health_check_model@ == before.health_check_model@
    &&& after.priority == before.priority
    &&& opt_view(after.proxy_url) == opt_view(before.proxy_url)
}

fn copy_keys(keys: &Vec<KeyConfig>) -> (r: Vec<KeyConfig>)
    ensures
        r@ == keys@,
{
    let mut out: Vec<KeyConfig> = Vec::new();
    let mut i: usize = 0;
    while i < keys.len()
        invariant
            i <= keys@.len(),
            out@ == keys@.take(i as int),
        decreases keys@.len() - i,
    {
        out.push(keys[i].copy());
        i += 1;
        assert(keys@.take(i as int) =~= keys@.take(i - 1).push(keys@[i - 1]));
    }
    assert(keys@.take(keys@.len() as int) =~= keys@);
    out
}

fn keys_given(updates: &Json) -> (r: Vec<KeyConfig>)
    ensures
        bare_keys(r@, given_keys(updates@)),
{
    let mut out: Vec<KeyConfig> = Vec::new();
    if let Some(v) = updates.get("keys") {
        if let Some(items) = v.as_array() {
            let ghost all = items_view(items@);
            let ghost f = texts();
            let mut i: usize = 0;
            proof {
                collected_all(all, f);
            }
            while i < items.len()
                invariant
                    i <= items@.len(),
                    all == items_view(items@),
                    f == texts(),
                    bare_keys(out@, collected(all.take(i as int), f)),
                decreases items@.len() - i,
            {
                proof {
                    collected_next(all, f, i as int);
                    assert(all[i as int] == items@[i as int]@);
                }
                if let Some(s) = items[i].as_str() {
                    out.push(KeyConfig::legacy(s));
                }
                i += 1;
            }
            proof {
                collected_all(all, f);
            }
            return out;
        }
    }
    out
}

/// A provider as a change makes it.
pub fn changed_provider(pc: &ProviderConfig, updates: &Json) -> (r: ProviderConfig)
    ensures
        changed_by(*pc, updates@, r),
{
    let enabled = match updates.get("enabled") {
        Some(v) => match v.as_bool() {
            Some(b) => b,
            None => pc.enabled,
        },
        None => pc.enabled,
    };
    let timeout_seconds = match updates.get("timeout_seconds") {
        Some(v) => match v.as_u64() {
            Some(n) => n,
            None => pc.timeout_seconds,
        },
        None => pc.timeout_seconds,
    };
    let base_url = match updates.get("base_url") {
        Some(v) => match v.as_str() {
            Some(t) => t.to_owned(),
            None => pc.base_url.clone(),
        },
        None => pc.base_url.clone(),
    };
    let given = keys_given(updates);
    let keys = if given.len() > 0 {
        given
    } else {
        copy_keys(&pc.keys)
    };
    ProviderConfig {
        provider_type: pc.provider_type,
        enabled,
        base_url,
        keys,
        health_check_model: pc.health_check_model.clone(),
        timeout_seconds,
        priority: pc.priority,
        proxy_url: copy_opt(&pc.proxy_url),
    }
}

/// A change of a provider: what it is then, whether it is to be set up anew with
/// its keys, and what listeners are told.
#[derive(Debug)]
pub struct ProviderChange {
    pub name: String,
    pub config: ProviderConfig,
    pub register: bool,
    pub event: Json,
}

/// What listeners are told of a change.
pub open spec fn change_data(name: Seq<char>, enabled: bool) -> JsonView {
    JsonView::Object(
        seq![("provider"@, JsonView::Text(name)), ("enabled"@, JsonView::Bool(enabled))],
    )
}

/// Whether a change is what updates make of a provider. It is set up anew where
/// it was switched on or off, or has moved.
pub open spec fn changes(
    c: ProviderChange,
    name: Seq<char>,
    before: ProviderConfig,
    updates: JsonView,
    now: u64,
) -> bool {
    &&& c.name@ == name
    &&& changed_by(before, updates, c.config)
    &&& c.register == (c.config.enabled != before.enabled || c.config.base_url@
        != before.base_url@)
    &&& c.event@ == event_json("config_update"@, change_data(name, c.config.enabled), now)
}

/// What a member of an update means: something of a provider that is
/// configured, nothing of any other.
pub open spec fn known_update(config: Config) -> spec_fn((Seq<char>, JsonView)) -> Option<
    (Seq<char>, ProviderConfig, JsonView),
> {
    |m: (Seq<char>, JsonView)|
        match named_in(config.providers@, m.0) {
            Some(pc) => Some((m.0, pc, m.1)),
            None => None,
        }
}

/// The updates that a request holds, of providers that are configured.
pub open spec fn updates_in(config: Config, body: JsonView) -> Seq<
    (Seq<char>, ProviderConfig, JsonView),
> {
    match body.get("providers"@) {
        Some(JsonView::Object(members)) => collected(members, known_update(config)),
        _ => Seq::empty(),
    }
}

fn change_of(name: &str, pc: &ProviderConfig, updates: &Json, now: u64) -> (r: ProviderChange)
    ensures
        changes(r, name@, *pc, updates@, now),
{
    let config = changed_provider(pc, updates);
    let register = config.enabled != pc.enabled || !same(
        config.base_url.as_str(),
        pc.base_url.as_str(),
    );
    let mut data = ObjectBuilder::new();
    data.put_text("provider", name);
    data.put_bool("enabled", config.enabled);
    assert(data@ =~= change_data(name@, config.enabled)->Object_0);
    let told = event("config_update", data.done(), now);
    ProviderChange { name: name.to_owned(), config, register, event: told }
}

/// What a request changes, one provider after the other.
pub fn admin_config_put(config: &Config, body: &Json, now: u64) -> (r: Vec<ProviderChange>)
    ensures
        r@.len() == updates_in(*config, body@).len(),
        forall|i: int|
            0 <= i < r@.len() ==> changes(
                #[trigger] r@[i],
                updates_in(*config, body@)[i].0,
                updates_in(*config, body@)[i].1,
                updates_in(*config, body@)[i].2,
                now,
            ),
{
    broadcast use group_json_views;

    let mut out: Vec<ProviderChange> = Vec::new();
    if let Some(providers) = body.get("providers") {
        if let Json::Object(members) = providers {
            let ghost all = members_view(members@);
            let ghost f = known_update(*config);
            assert(providers@ == JsonView::Object(all));
            let mut i: usize = 0;
            proof {
                collected_all(all, f);
            }
            while i < members.len()
                invariant
                    i <= members@.len(),
                    all == members_view(members@),
                    f == known_update(*config),
                    out@.len() == collected(all.take(i as int), f).len(),
                    forall|k: int|
                        0 <= k < out@.len() ==> changes(
                            #[trigger] out@[k],
                            collected(all.take(i as int), f)[k].0,
                            collected(all.take(i as int), f)[k].1,
                            collected(all.take(i as int), f)[k].2,
                            now,
                        ),
                decreases members@.len() - i,
            {
                let ghost before = collected(all.take(i as int), f);
                proof {
                    collected_next(all, f, i as int);
                    assert(all[i as int] == (members@[i as int].0@, members@[i as int].1@));
                }
                if let Some(pc) = lookup(&config.providers, members[i].0.as_str()) {
                    let change = change_of(members[i].0.as_str(), pc, &members[i].1, now);
                    out.push(change);
                    proof {
                        let longer = collected(all.take(i + 1), f);
                        assert(longer == before.push(
                            (members@[i as int].0@, *pc, members@[i as int].1@),
                        ));
                    }
                }
                i += 1;
            }
            proof {
                collected_all(all, f);
            }
        }
    }
    out
}

// ---------------------------------------------------------------- laws
/// A change that names nothing changes nothing, and sets nothing up anew.
pub proof fn empty_changes_change_nothing(
    c: ProviderChange,
    name: Seq<char>,
    before: ProviderConfig,
    now: u64,
)
    requires
        changes(c, name, before, JsonView::Object(Seq::empty()), now),
    ensures
        !c.register,
        c.config.enabled == before.enabled,
        c.config.base_url@ == before.base_url@,
        c.config.timeout_seconds == before.timeout_seconds,
        c.config.keys@ == before.keys@,
{
    let none = JsonView::Object(Seq::empty());
    assert(none.get("enabled"@) is None);
    assert(none.get("base_url"@) is None);
    assert(none.get("timeout_seconds"@) is None);
    assert(none.get("keys"@) is None);
}

/// No change takes the last key of a provider away.
pub proof fn changes_leave_keys(
    c: ProviderChange,
    name: Seq<char>,
    before: ProviderConfig,
    updates: JsonView,
    now: u64,
)
    requires
        changes(c, name, before, updates, now),
        before.keys@.len() > 0,
    ensures
        c.config.keys@.len() > 0,
{
}

} // verus!
