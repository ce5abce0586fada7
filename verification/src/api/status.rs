//! What the gateway says of its state: for machines, and for the metrics of
//! Prometheus.
use crate::config::{AgentConfig, Config, ModelAlias, ProviderType, RoutingStrategy, tier_name};
use crate::health::{health_views, HealthView};
use crate::json::{
    Json, json_list, JsonView, num, ObjectBuilder, opt_int_json, opt_num_json, opt_text_json,
    strings_json,
};
use crate::keystate::{KeyState, KeyStateView, state_views, status_name};
use crate::lists::{flat, flat_all, flat_next, kept, kept_all, kept_next, lookup, named_in};
use crate::models::{GatewayStatus, HealthState};
use crate::text::{decimal, push_decimal, same, str_of, to_chars, views};
use vstd::prelude::*;

verus! {

// ---------------------------------------------------------------- JSON of states
/// A health state as JSON.
pub open spec fn health_state_json(h: HealthView) -> JsonView {
    JsonView::Object(
        seq![
            ("provider"@, JsonView::Text(h.provider)),
            ("status"@, JsonView::Text(h.status)),
            ("latency_ms"@, num(h.latency_ms)),
            ("success_count"@, num(h.success_count)),
            ("fail_count"@, num(h.fail_count)),
            ("last_error"@, JsonView::Text(h.last_error)),
            ("cooldown_until"@, opt_num_json(h.cooldown_until)),
            ("models_count"@, num(h.models_count as u64)),
            ("available_keys"@, num(h.available_keys as u64)),
            ("total_keys"@, num(h.total_keys as u64)),
        ],
    )
}

/// A health state as JSON.
pub fn health_state_to_json(h: &HealthState) -> (r: Json)
    ensures
        r@ == health_state_json(h@),
{
    let mut o = ObjectBuilder::new();
    o.put_text("provider", h.provider.as_str());
    o.put_text("status", h.status.as_str());
    o.put_num("latency_ms", h.latency_ms);
    o.put_num("success_count", h.success_count);
    o.put_num("fail_count", h.fail_count);
    o.put_text("last_error", h.last_error.as_str());
    o.put_opt_num("cooldown_until", h.cooldown_until);
    o.put_num("models_count", h.models_count as u64);
    o.put_num("available_keys", h.available_keys as u64);
    o.put_num("total_keys", h.total_keys as u64);
    assert(o@ =~= health_state_json(h@)->Object_0);
    o.done()
}

/// A small optional number as a larger one.
pub open spec fn wide32(n: Option<u32>) -> Option<u64> {
    match n {
        Some(v) => Some(v as u64),
        None => None,
    }
}

/// A small optional number as a larger one.
pub open spec fn wide16(n: Option<u16>) -> Option<u64> {
    match n {
        Some(v) => Some(v as u64),
        None => None,
    }
}

pub(crate) fn widen32(n: Option<u32>) -> (r: Option<u64>)
    ensures
        r == wide32(n),
{
    match n {
        Some(v) => Some(v as u64),
        None => None,
    }
}

pub(crate) fn widen16(n: Option<u16>) -> (r: Option<u64>)
    ensures
        r == wide16(n),
{
    match n {
        Some(v) => Some(v as u64),
        None => None,
    }
}

/// A key as JSON. The key itself is left out.
pub open spec fn key_state_json(k: KeyStateView) -> JsonView {
    JsonView::Object(
        seq![
            ("key_id"@, JsonView::Text(k.key_id)),
            ("tier"@, JsonView::Text(tier_name(k.tier))),
            ("models"@, strings_json(k.models)),
            ("models_updated_at"@, opt_int_json(k.models_updated_at)),
            ("models_last_error"@, JsonView::Text(k.models_last_error)),
            ("status"@, JsonView::Text(status_name(k.status))),
            ("fail_count"@, num(k.fail_count as u64)),
            ("cooldown_until"@, opt_num_json(k.cooldown_until)),
            ("last_success_at"@, opt_num_json(k.last_success_at)),
            ("last_error_at"@, opt_num_json(k.last_error_at)),
            ("last_error_status"@, opt_num_json(wide16(k.last_error_status))),
            ("status_updated_at"@, opt_num_json(k.status_updated_at)),
            ("last_recovered_at"@, opt_num_json(k.last_recovered_at)),
            ("success_count"@, num(k.success_count)),
            ("total_fail_count"@, num(k.total_fail_count)),
            ("rpm_limit"@, opt_num_json(wide32(k.rpm_limit))),
            ("rpd_limit"@, opt_num_json(wide32(k.rpd_limit))),
            ("rpm_limit_source"@, opt_text_json(k.rpm_limit_source)),
            ("rpd_limit_source"@, opt_text_json(k.rpd_limit_source)),
            ("tpm_limit"@, opt_num_json(wide32(k.tpm_limit))),
            ("tpd_limit"@, opt_num_json(wide32(k.tpd_limit))),
            ("rpm_count"@, num(k.rpm_count as u64)),
            ("rpd_count"@, num(k.rpd_count as u64)),
            ("tpm_prompt_count"@, num(k.tpm_prompt_count as u64)),
            ("tpm_completion_count"@, num(k.tpm_completion_count as u64)),
            ("tpd_prompt_count"@, num(k.tpd_prompt_count as u64)),
            ("tpd_completion_count"@, num(k.tpd_completion_count as u64)),
            ("rpm_window_start"@, num(k.rpm_window_start)),
            ("rpd_window_start"@, num(k.rpd_window_start)),
        ],
    )
}

/// A key as JSON. The key itself is left out.
pub fn key_state_to_json(k: &KeyState) -> (r: Json)
    ensures
        r@ == key_state_json(k@),
{
    let mut o = ObjectBuilder::new();
    o.put_text("key_id", k.key_id.as_str());
    o.put_text("tier", k.tier.to_string().as_str());
    o.put_strings("models", &k.models);
    o.put_opt_int("models_updated_at", k.models_updated_at);
    o.put_text("models_last_error", k.models_last_error.as_str());
    o.put_text("status", k.status.name());
    o.put_num("fail_count", k.fail_count as u64);
    o.put_opt_num("cooldown_until", k.cooldown_until);
    o.put_opt_num("last_success_at", k.last_success_at);
    o.put_opt_num("last_error_at", k.last_error_at);
    o.put_opt_num("last_error_status", widen16(k.last_error_status));
    o.put_opt_num("status_updated_at", k.status_updated_at);
    o.put_opt_num("last_recovered_at", k.last_recovered_at);
    o.put_num("success_count", k.success_count);
    o.put_num("total_fail_count", k.total_fail_count);
    o.put_opt_num("rpm_limit", widen32(k.rpm_limit));
    o.put_opt_num("rpd_limit", widen32(k.rpd_limit));
    o.put_opt_text("rpm_limit_source", str_of(&k.rpm_limit_source));
    o.put_opt_text("rpd_limit_source", str_of(&k.rpd_limit_source));
    o.put_opt_num("tpm_limit", widen32(k.tpm_limit));
    o.put_opt_num("tpd_limit", widen32(k.tpd_limit));
    o.put_num("rpm_count", k.rpm_count as u64);
    o.put_num("rpd_count", k.rpd_count as u64);
    o.put_num("tpm_prompt_count", k.tpm_prompt_count as u64);
    o.put_num("tpm_completion_count", k.tpm_completion_count as u64);
    o.put_num("tpd_prompt_count", k.tpd_prompt_count as u64);
    o.put_num("tpd_completion_count", k.tpd_completion_count as u64);
    o.put_num("rpm_window_start", k.rpm_window_start);
    o.put_num("rpd_window_start", k.rpd_window_start);
    assert(o@ =~= key_state_json(k@)->Object_0);
    o.done()
}

/// The JSON of a key does not depend on the key itself: nothing of it is shown.
pub proof fn keys_are_not_shown(a: KeyStateView, secret: Seq<char>)
    ensures
        key_state_json(KeyStateView { key: secret, ..a }) == key_state_json(a),
{
}

// ---------------------------------------------------------------- health
/// Whether a provider is healthy.
pub open spec fn is_healthy() -> spec_fn(HealthView) -> bool {
    |h: HealthView| h.status == "healthy"@
}

/// How many providers are healthy.
pub open spec fn healthy_count(states: Seq<HealthView>) -> nat {
    kept(states, is_healthy()).len()
}

/// The answer to a question for the gateway's health: well where there are
/// providers and all of them are.
pub open spec fn health_answer(states: Seq<HealthView>, version: Seq<char>) -> JsonView {
    let healthy = healthy_count(states);
    JsonView::Object(
        seq![
            (
                "status"@,
                JsonView::Text(
                    if healthy == states.len() && states.len() > 0 {
                        "ok"@
                    } else {
                        "degraded"@
                    },
                ),
            ),
            ("version"@, JsonView::Text(version)),
            (
                "providers"@,
                JsonView::Object(
                    seq![
                        ("total"@, num(states.len() as u64)),
                        ("healthy"@, num(healthy as u64)),
                        ("unhealthy"@, num((states.len() - healthy) as u64)),
                    ],
                ),
            ),
            (
                "providers_detail"@,
                JsonView::Array(states.map_values(|h: HealthView| health_state_json(h))),
            ),
        ],
    )
}

fn count_healthy(states: &Vec<HealthState>) -> (r: usize)
    ensures
        r == healthy_count(health_views(states@)),
        r <= states@.len(),
{
    let ghost all = health_views(states@);
    let mut n: usize = 0;
    let mut i: usize = 0;
    proof {
        kept_all(all, is_healthy());
    }
    while i < states.len()
        invariant
            i <= states@.len(),
            n <= i,
            all == health_views(states@),
            n == kept(all.take(i as int), is_healthy()).len(),
        decreases states@.len() - i,
    {
        proof {
            kept_next(all, is_healthy(), i as int);
            assert(all[i as int] == states@[i as int]@);
        }
        if same(states[i].status.as_str(), "healthy") {
            n += 1;
        }
        i += 1;
    }
    n
}

fn states_json(states: &Vec<HealthState>) -> (r: Json)
    ensures
        r@ == JsonView::Array(
            health_views(states@).map_values(|h: HealthView| health_state_json(h)),
        ),
{
    let describe = |h: &HealthState| -> (j: Json)
        ensures
            j@ == health_state_json(h@),
        { health_state_to_json(h) };
    let r = json_list(states, describe, Ghost(|h: HealthState| health_state_json(h@)));
    assert(states@.map_values(|h: HealthState| health_state_json(h@)) =~= health_views(
        states@,
    ).map_values(|h: HealthView| health_state_json(h)));
    r
}

/// The answer to a question for the gateway's health.
pub fn health(states: &Vec<HealthState>, version: &str) -> (r: Json)
    ensures
        r@ == health_answer(health_views(states@), version@),
{
    let ghost all = health_views(states@);
    let healthy = count_healthy(states);
    let total = states.len();
    let mut counts = ObjectBuilder::new();
    counts.put_num("total", total as u64);
    counts.put_num("healthy", healthy as u64);
    counts.put_num("unhealthy", (total - healthy) as u64);
    assert(counts@ =~= health_answer(all, version@)->Object_0[2].1->Object_0);
    let mut o = ObjectBuilder::new();
    if healthy == total && total > 0 {
        o.put_text("status", "ok");
    } else {
        o.put_text("status", "degraded");
    }
    o.put_text("version", version);
    o.put("providers", counts.done());
    o.put("providers_detail", states_json(states));
    assert(o@ =~= health_answer(all, version@)->Object_0);
    o.done()
}

/// The gateway's status.
pub fn status(
    version: &str,
    uptime_seconds: u64,
    providers: Vec<HealthState>,
    total_requests: u64,
    total_errors: u64,
) -> (r: GatewayStatus)
    ensures
        r.version@ == version@,
        r.uptime_seconds == uptime_seconds,
        r.providers == providers,
        r.total_requests == total_requests,
        r.total_errors == total_errors,
{
    GatewayStatus {
        version: version.to_owned(),
        uptime_seconds,
        providers,
        total_requests,
        total_errors,
    }
}

// ---------------------------------------------------------------- metrics
/// An error, or `null` where there is none.
pub open spec fn error_json(error: Seq<char>) -> JsonView {
    if error.len() == 0 {
        JsonView::Null
    } else {
        JsonView::Text(error)
    }
}

pub(crate) fn error_to_json(error: &str) -> (r: Json)
    ensures
        r@ == error_json(error@),
{
    proof {
        reveal_strlit("");
    }
    if same(error, "") {
        assert(error@.len() == 0);
        Json::Null
    } else {
        proof {
            if error@.len() == 0 {
                assert(error@ =~= ""@);
            }
        }
        Json::string(error)
    }
}

/// The name of a strategy in the settings of the gateway.
pub open spec fn strategy_label(s: RoutingStrategy) -> Seq<char> {
    match s {
        RoutingStrategy::RoundRobin => "RoundRobin"@,
        RoutingStrategy::Random => "Random"@,
        RoutingStrategy::LeastFailed => "LeastFailed"@,
        RoutingStrategy::LeastRate => "LeastRate"@,
        RoutingStrategy::Priority => "Priority"@,
    }
}

/// The name of a strategy in the settings of the gateway.
pub fn strategy_debug(s: RoutingStrategy) -> (r: &'static str)
    ensures
        r@ == strategy_label(s),
{
    match s {
        RoutingStrategy::RoundRobin => "RoundRobin",
        RoutingStrategy::Random => "Random",
        RoutingStrategy::LeastFailed => "LeastFailed",
        RoutingStrategy::LeastRate => "LeastRate",
        RoutingStrategy::Priority => "Priority",
    }
}

/// The name of a type of provider in the settings of the gateway.
pub open spec fn type_label(t: ProviderType) -> Seq<char> {
    match t {
        ProviderType::GithubModels => "GithubModels"@,
        ProviderType::Nvidia => "Nvidia"@,
        ProviderType::OpenaiCompatible => "OpenaiCompatible"@,
        ProviderType::Ollama => "Ollama"@,
        ProviderType::Gemini => "Gemini"@,
        ProviderType::HuggingFace => "HuggingFace"@,
        ProviderType::Cloudflare => "Cloudflare"@,
    }
}

/// The name of a type of provider in the settings of the gateway.
pub fn provider_type_debug(t: ProviderType) -> (r: &'static str)
    ensures
        r@ == type_label(t),
{
    match t {
        ProviderType::GithubModels => "GithubModels",
        ProviderType::Nvidia => "Nvidia",
        ProviderType::OpenaiCompatible => "OpenaiCompatible",
        ProviderType::Ollama => "Ollama",
        ProviderType::Gemini => "Gemini",
        ProviderType::HuggingFace => "HuggingFace",
        ProviderType::Cloudflare => "Cloudflare",
    }
}

/// The keys of a provider in a snapshot.
pub open spec fn keys_in(snapshot: Seq<(String, Vec<KeyState>)>, provider: Seq<char>) -> Seq<
    KeyStateView,
> {
    match named_in(snapshot, provider) {
        Some(keys) => state_views(keys@),
        None => Seq::empty(),
    }
}

/// The metrics of a provider.
pub open spec fn provider_metrics(snapshot: Seq<(String, Vec<KeyState>)>) -> spec_fn(
    HealthView,
) -> JsonView {
    |h: HealthView|
        JsonView::Object(
            seq![
                ("provider"@, JsonView::Text(h.provider)),
                ("status"@, JsonView::Text(h.status)),
                ("latency_ms"@, num(h.latency_ms)),
                ("success_count"@, num(h.success_count)),
                ("fail_count"@, num(h.fail_count)),
                ("models_count"@, num(h.models_count as u64)),
                (
                    "keys"@,
                    JsonView::Object(
                        seq![
                            ("total"@, num(h.total_keys as u64)),
                            ("available"@, num(h.available_keys as u64)),
                            (
                                "detail"@,
                                JsonView::Array(
                                    keys_in(snapshot, h.provider).map_values(
                                        |k: KeyStateView| key_state_json(k),
                                    ),
                                ),
                            ),
                        ],
                    ),
                ),
                ("last_error"@, error_json(h.last_error)),
            ],
        )
}

/// An alias as JSON.
pub open spec fn alias_json(a: ModelAlias) -> JsonView {
    JsonView::Object(
        seq![
            ("provider"@, JsonView::Text(a.provider@)),
            ("model"@, JsonView::Text(a.model@)),
        ],
    )
}

/// An agent as JSON.
pub open spec fn agent_json(a: AgentConfig) -> JsonView {
    JsonView::Object(seq![("default_model"@, JsonView::Text(a.default_model@))])
}

/// The metrics of the gateway.
pub open spec fn metrics_answer(
    config: Config,
    states: Seq<HealthView>,
    snapshot: Seq<(String, Vec<KeyState>)>,
    version: Seq<char>,
    uptime_seconds: u64,
    total_requests: u64,
    total_errors: u64,
) -> JsonView {
    JsonView::Object(
        seq![
            (
                "gateway"@,
                JsonView::Object(
                    seq![
                        ("version"@, JsonView::Text(version)),
                        ("uptime_seconds"@, num(uptime_seconds)),
                        (
                            "routing_strategy"@,
                            JsonView::Text(strategy_label(config.routing.strategy)),
                        ),
                        ("total_requests"@, num(total_requests)),
                        ("total_errors"@, num(total_errors)),
                    ],
                ),
            ),
            ("providers"@, JsonView::Array(states.map_values(provider_metrics(snapshot)))),
            (
                "model_aliases"@,
                JsonView::Object(
                    config.models@.map_values(|a: (String, ModelAlias)| (a.0@, alias_json(a.1))),
                ),
            ),
            (
                "agents"@,
                JsonView::Object(
                    config.agents@.map_values(|a: (String, AgentConfig)| (a.0@, agent_json(a.1))),
                ),
            ),
            ("fallback_chain"@, strings_json(views(config.fallback@))),
        ],
    )
}

fn keys_to_json(keys: &Vec<KeyState>) -> (r: Json)
    ensures
        r@ == JsonView::Array(
            state_views(keys@).map_values(|k: KeyStateView| key_state_json(k)),
        ),
{
    let describe = |k: &KeyState| -> (j: Json)
        ensures
            j@ == key_state_json(k@),
        { key_state_to_json(k) };
    let r = json_list(keys, describe, Ghost(|k: KeyState| key_state_json(k@)));
    assert(keys@.map_values(|k: KeyState| key_state_json(k@)) =~= state_views(
        keys@,
    ).map_values(|k: KeyStateView| key_state_json(k)));
    r
}

fn metrics_of_provider(h: &HealthState, snapshot: &Vec<(String, Vec<KeyState>)>) -> (r: Json)
    ensures
        r@ == provider_metrics(snapshot@)(h@),
{
    let detail = match lookup(snapshot, h.provider.as_str()) {
        Some(keys) => keys_to_json(keys),
        None => {
            let none: Vec<KeyState> = Vec::new();
            assert(state_views(none@) =~= Seq::empty());
            keys_to_json(&none)
        },
    };
    let ghost goal = provider_metrics(snapshot@)(h@);
    let mut keys = ObjectBuilder::new();
    keys.put_num("total", h.total_keys as u64);
    keys.put_num("available", h.available_keys as u64);
    keys.put("detail", detail);
    assert(keys@ =~= goal->Object_0[6].1->Object_0);
    let mut o = ObjectBuilder::new();
    o.put_text("provider", h.provider.as_str());
    o.put_text("status", h.status.as_str());
    o.put_num("latency_ms", h.latency_ms);
    o.put_num("success_count", h.success_count);
    o.put_num("fail_count", h.fail_count);
    o.put_num("models_count", h.models_count as u64);
    o.put("keys", keys.done());
    o.put("last_error", error_to_json(h.last_error.as_str()));
    assert(o@ =~= goal->Object_0);
    o.done()
}

pub(crate) fn aliases_to_json(models: &Vec<(String, ModelAlias)>) -> (r: Json)
    ensures
        r@ == JsonView::Object(
            models@.map_values(|a: (String, ModelAlias)| (a.0@, alias_json(a.1))),
        ),
{
    let ghost goal = models@.map_values(|a: (String, ModelAlias)| (a.0@, alias_json(a.1)));
    let mut o = ObjectBuilder::new();
    let mut i: usize = 0;
    assert(o@ =~= goal.take(0));
    while i < models.len()
        invariant
            i <= models@.len(),
            goal == models@.map_values(|a: (String, ModelAlias)| (a.0@, alias_json(a.1))),
            o@ == goal.take(i as int),
        decreases models@.len() - i,
    {
        let mut alias = ObjectBuilder::new();
        alias.put_text("provider", models[i].1.provider.as_str());
        alias.put_text("model", models[i].1.model.as_str());
        assert(alias@ =~= alias_json(models@[i as int].1)->Object_0);
        o.put(models[i].0.as_str(), alias.done());
        i += 1;
        assert(goal.take(i as int) =~= goal.take(i - 1).push(goal[i - 1]));
    }
    assert(goal.take(goal.len() as int) =~= goal);
    o.done()
}

pub(crate) fn agents_to_json(agents: &Vec<(String, AgentConfig)>) -> (r: Json)
    ensures
        r@ == JsonView::Object(
            agents@.map_values(|a: (String, AgentConfig)| (a.0@, agent_json(a.1))),
        ),
{
    let ghost goal = agents@.map_values(|a: (String, AgentConfig)| (a.0@, agent_json(a.1)));
    let mut o = ObjectBuilder::new();
    let mut i: usize = 0;
    assert(o@ =~= goal.take(0));
    while i < agents.len()
        invariant
            i <= agents@.len(),
            goal == agents@.map_values(|a: (String, AgentConfig)| (a.0@, agent_json(a.1))),
            o@ == goal.take(i as int),
        decreases agents@.len() - i,
    {
        let mut agent = ObjectBuilder::new();
        agent.put_text("default_model", agents[i].1.default_model.as_str());
        assert(agent@ =~= agent_json(agents@[i as int].1)->Object_0);
        o.put(agents[i].0.as_str(), agent.done());
        i += 1;
        assert(goal.take(i as int) =~= goal.take(i - 1).push(goal[i - 1]));
    }
    assert(goal.take(goal.len() as int) =~= goal);
    o.done()
}

/// The metrics of the gateway.
pub fn metrics(
    config: &Config,
    states: &Vec<HealthState>,
    snapshot: &Vec<(String, Vec<KeyState>)>,
    version: &str,
    uptime_seconds: u64,
    total_requests: u64,
    total_errors: u64,
) -> (r: Json)
    ensures
        r@ == metrics_answer(
            *config,
            health_views(states@),
            snapshot@,
            version@,
            uptime_seconds,
            total_requests,
            total_errors,
        ),
{
    let ghost goal = metrics_answer(
        *config,
        health_views(states@),
        snapshot@,
        version@,
        uptime_seconds,
        total_requests,
        total_errors,
    );
    let mut gateway = ObjectBuilder::new();
    gateway.put_text("version", version);
    gateway.put_num("uptime_seconds", uptime_seconds);
    gateway.put_text("routing_strategy", strategy_debug(config.routing.strategy));
    gateway.put_num("total_requests", total_requests);
    gateway.put_num("total_errors", total_errors);
    assert(gateway@ =~= goal->Object_0[0].1->Object_0);
    let describe = |h: &HealthState| -> (j: Json)
        ensures
            j@ == provider_metrics(snapshot@)(h@),
        { metrics_of_provider(h, snapshot) };
    let list = json_list(
        states,
        describe,
        Ghost(|h: HealthState| provider_metrics(snapshot@)(h@)),
    );
    assert(states@.map_values(|h: HealthState| provider_metrics(snapshot@)(h@)) =~= health_views(
        states@,
    ).map_values(provider_metrics(snapshot@)));
    let mut o = ObjectBuilder::new();
    o.put("gateway", gateway.done());
    o.put("providers", list);
    o.put("model_aliases", aliases_to_json(&config.models));
    o.put("agents", agents_to_json(&config.agents));
    o.put_strings("fallback_chain", &config.fallback);
    assert(o@ =~= goal->Object_0);
    o.done()
}

// ---------------------------------------------------------------- providers
/// A provider, with what is configured of it.
pub open spec fn provider_entry(config: Config) -> spec_fn(HealthView) -> JsonView {
    |h: HealthView|
        {
            let known = named_in(config.providers@, h.provider);
            JsonView::Object(
                seq![
                    ("name"@, JsonView::Text(h.provider)),
                    ("status"@, JsonView::Text(h.status)),
                    ("latency_ms"@, num(h.latency_ms)),
                    ("success_count"@, num(h.success_count)),
                    ("fail_count"@, num(h.fail_count)),
                    ("models_count"@, num(h.models_count as u64)),
                    ("available_keys"@, num(h.available_keys as u64)),
                    ("total_keys"@, num(h.total_keys as u64)),
                    (
                        "type"@,
                        JsonView::Text(
                            match known {
                                Some(c) => type_label(c.provider_type),
                                None => "unknown"@,
                            },
                        ),
                    ),
                    (
                        "base_url"@,
                        opt_text_json(
                            match known {
                                Some(c) => Some(c.base_url@),
                                None => None,
                            },
                        ),
                    ),
                    (
                        "priority"@,
                        num(
                            match known {
                                Some(c) => c.priority as u64,
                                None => 0,
                            },
                        ),
                    ),
                    ("last_error"@, error_json(h.last_error)),
                ],
            )
        }
}

/// The providers, and the order in which they stand in for each other.
pub open spec fn providers_answer(config: Config, states: Seq<HealthView>) -> JsonView {
    JsonView::Object(
        seq![
            ("providers"@, JsonView::Array(states.map_values(provider_entry(config)))),
            ("fallback_chain"@, strings_json(views(config.fallback@))),
        ],
    )
}

fn entry_of_provider(h: &HealthState, config: &Config) -> (r: Json)
    ensures
        r@ == provider_entry(*config)(h@),
{
    let known = lookup(&config.providers, h.provider.as_str());
    let mut o = ObjectBuilder::new();
    o.put_text("name", h.provider.as_str());
    o.put_text("status", h.status.as_str());
    o.put_num("latency_ms", h.latency_ms);
    o.put_num("success_count", h.success_count);
    o.put_num("fail_count", h.fail_count);
    o.put_num("models_count", h.models_count as u64);
    o.put_num("available_keys", h.available_keys as u64);
    o.put_num("total_keys", h.total_keys as u64);
    match known {
        Some(c) => {
            o.put_text("type", provider_type_debug(c.provider_type));
            o.put_opt_text("base_url", Some(c.base_url.as_str()));
            o.put_num("priority", c.priority as u64);
        },
        None => {
            o.put_text("type", "unknown");
            o.put_opt_text("base_url", None);
            o.put_num("priority", 0);
        },
    }
    o.put("last_error", error_to_json(h.last_error.as_str()));
    assert(o@ =~= provider_entry(*config)(h@)->Object_0);
    o.done()
}

/// The providers, and the order in which they stand in for each other.
pub fn providers(config: &Config, states: &Vec<HealthState>) -> (r: Json)
    ensures
        r@ == providers_answer(*config, health_views(states@)),
{
    let describe = |h: &HealthState| -> (j: Json)
        ensures
            j@ == provider_entry(*config)(h@),
        { entry_of_provider(h, config) };
    let list = json_list(states, describe, Ghost(|h: HealthState| provider_entry(*config)(h@)));
    assert(states@.map_values(|h: HealthState| provider_entry(*config)(h@)) =~= health_views(
        states@,
    ).map_values(provider_entry(*config)));
    let mut o = ObjectBuilder::new();
    o.put("providers", list);
    o.put_strings("fallback_chain", &config.fallback);
    assert(o@ =~= providers_answer(*config, health_views(states@))->Object_0);
    o.done()
}

// ---------------------------------------------------------------- Prometheus
/// A character of a label's value, escaped.
pub open spec fn escaped_char(c: char) -> Seq<char> {
    if c == '\\' {
        seq!['\\', '\\']
    } else if c == '"' {
        seq!['\\', '"']
    } else if c == '\n' {
        seq!['\\', 'n']
    } else {
        seq![c]
    }
}

/// A label's value, escaped.
pub open spec fn escaped(value: Seq<char>) -> Seq<char> {
    flat(value, |c: char| escaped_char(c))
}

/// The two lines that introduce a metric.
#[verifier::opaque]
pub open spec fn help_text(name: Seq<char>, help: Seq<char>, metric_type: Seq<char>) -> Seq<char> {
    "# HELP "@ + name + " "@ + help + "\n# TYPE "@ + name + " "@ + metric_type + "\n"@
}

/// A label with its value.
pub open spec fn label_text(label: (Seq<char>, Seq<char>)) -> Seq<char> {
    label.0 + "=\""@ + escaped(label.1) + "\""@
}

/// Labels with their values, with commas between them.
pub open spec fn labels_text(labels: Seq<(Seq<char>, Seq<char>)>) -> Seq<char>
    decreases labels.len(),
{
    if labels.len() == 0 {
        Seq::empty()
    } else if labels.len() == 1 {
        label_text(labels[0])
    } else {
        labels_text(labels.drop_last()) + ","@ + label_text(labels.last())
    }
}

/// The line of a metric.
#[verifier::opaque]
pub open spec fn metric_text(
    name: Seq<char>,
    labels: Seq<(Seq<char>, Seq<char>)>,
    value: u64,
) -> Seq<char> {
    name + (if labels.len() == 0 {
        Seq::empty()
    } else {
        "{"@ + labels_text(labels) + "}"@
    }) + " "@ + decimal(value as nat) + "\n"@
}

fn push_metric_help(body: &mut String, name: &str, help: &str, metric_type: &str)
    ensures
        final(body)@ == old(body)@ + help_text(name@, help@, metric_type@),
{
    let ghost start = body@;
    body.push_str("# HELP ");
    body.push_str(name);
    body.push_str(" ");
    body.push_str(help);
    body.push_str("\n# TYPE ");
    body.push_str(name);
    body.push_str(" ");
    body.push_str(metric_type);
    body.push_str("\n");
    reveal(help_text);
    assert(body@ =~= start + help_text(name@, help@, metric_type@));
}

fn push_escaped_label_value(body: &mut String, value: &str)
    ensures
        final(body)@ == old(body)@ + escaped(value@),
{
    let ghost start = body@;
    let chars = to_chars(value);
    let ghost f = |c: char| escaped_char(c);
    let mut i: usize = 0;
    proof {
        flat_all(value@, f);
        assert(start + flat(value@.take(0), f) =~= start);
    }
    while i < chars.len()
        invariant
            i <= chars@.len(),
            chars@ == value@,
            f == (|c: char| escaped_char(c)),
            body@ == start + flat(value@.take(i as int), f),
        decreases chars@.len() - i,
    {
        let ghost so_far = flat(value@.take(i as int), f);
        proof {
            flat_next(value@, f, i as int);
            reveal_strlit("\\\\");
            reveal_strlit("\\\"");
            reveal_strlit("\\n");
        }
        let c = chars[i];
        if c == '\\' {
            body.push_str("\\\\");
            assert(body@ =~= start + (so_far + escaped_char(c)));
        } else if c == '"' {
            body.push_str("\\\"");
            assert(body@ =~= start + (so_far + escaped_char(c)));
        } else if c == '\n' {
            body.push_str("\\n");
            assert(body@ =~= start + (so_far + escaped_char(c)));
        } else {
            body.push(c);
            assert(body@ =~= start + (so_far + escaped_char(c)));
        }
        i += 1;
    }
}

/// The views of some labels.
pub open spec fn label_views(labels: Seq<(&str, &str)>) -> Seq<(Seq<char>, Seq<char>)> {
    labels.map_values(|l: (&str, &str)| (l.0@, l.1@))
}

fn push_metric_line(body: &mut String, name: &str, labels: &[(&str, &str)], value: u64)
    ensures
        final(body)@ == old(body)@ + metric_text(name@, label_views(labels@), value),
{
    let ghost start = body@;
    let ghost all = label_views(labels@);
    body.push_str(name);
    if labels.len() > 0 {
        body.push_str("{");
        let ghost opened = body@;
        let mut i: usize = 0;
        assert(opened + labels_text(all.take(0)) =~= opened);
        while i < labels.len()
            invariant
                i <= labels@.len(),
                all == label_views(labels@),
                body@ == opened + labels_text(all.take(i as int)),
            decreases labels@.len() - i,
        {
            let ghost so_far = labels_text(all.take(i as int));
            let ghost next = all.take(i + 1);
            proof {
                assert(next.drop_last() =~= all.take(i as int));
                assert(next.last() == all[i as int]);
                assert(all[i as int] == (labels@[i as int].0@, labels@[i as int].1@));
            }
            if i > 0 {
                body.push_str(",");
            }
            let (key, text) = labels[i];
            body.push_str(key);
            body.push_str("=\"");
            push_escaped_label_value(body, text);
            body.push_str("\"");
            proof {
                if i > 0 {
                    assert(body@ =~= opened + (so_far + ","@ + label_text(all[i as int])));
                } else {
                    assert(next[0] == all[0]);
                    assert(body@ =~= opened + label_text(all[i as int]));
                }
            }
            i += 1;
        }
        assert(all.take(all.len() as int) =~= all);
        body.push_str("}");
    }
    body.push_str(" ");
    push_decimal(body, value);
    body.push_str("\n");
    reveal(metric_text);
    assert(body@ =~= start + metric_text(name@, all, value));
}

/// What is said before the metrics of the providers.
pub open spec fn gateway_text(uptime: u64, requests: u64, errors: u64) -> Seq<char> {
    help_text(
        "free_agent_gateway_uptime_seconds"@,
        "Gateway process uptime in seconds."@,
        "gauge"@,
    ) + metric_text("free_agent_gateway_uptime_seconds"@, Seq::empty(), uptime) + help_text(
        "free_agent_gateway_requests_total"@,
        "Total chat completion requests accepted by the gateway."@,
        "counter"@,
    ) + metric_text("free_agent_gateway_requests_total"@, Seq::empty(), requests) + help_text(
        "free_agent_gateway_errors_total"@,
        "Total chat completion requests that ended in an error."@,
        "counter"@,
    ) + metric_text("free_agent_gateway_errors_total"@, Seq::empty(), errors) + help_text(
        "free_agent_gateway_provider_up"@,
        "Provider health status, 1 for healthy and 0 otherwise."@,
        "gauge"@,
    ) + help_text(
        "free_agent_gateway_provider_latency_ms"@,
        "Last observed provider health-check latency in milliseconds."@,
        "gauge"@,
    ) + help_text(
        "free_agent_gateway_provider_success_total"@,
        "Provider health-check success count."@,
        "counter"@,
    ) + help_text(
        "free_agent_gateway_provider_failures_total"@,
        "Provider health-check failure count."@,
        "counter"@,
    ) + help_text(
        "free_agent_gateway_provider_models"@,
        "Number of models discovered for a provider."@,
        "gauge"@,
    ) + help_text(
        "free_agent_gateway_provider_keys"@,
        "Provider API key count by state."@,
        "gauge"@,
    )
}

/// The label of a provider.
pub open spec fn provider_label(h: HealthView) -> Seq<(Seq<char>, Seq<char>)> {
    seq![("provider"@, h.provider)]
}

/// The labels of a provider's keys in a state.
pub open spec fn keys_label(h: HealthView, state: Seq<char>) -> Seq<(Seq<char>, Seq<char>)> {
    seq![("provider"@, h.provider), ("state"@, state)]
}

/// The metrics of a provider.
pub open spec fn provider_text(h: HealthView) -> Seq<char> {
    metric_text(
        "free_agent_gateway_provider_up"@,
        provider_label(h),
        if h.status == "healthy"@ {
            1
        } else {
            0
        },
    ) + metric_text(
        "free_agent_gateway_provider_latency_ms"@,
        provider_label(h),
        h.latency_ms,
    ) + metric_text(
        "free_agent_gateway_provider_success_total"@,
        provider_label(h),
        h.success_count,
    ) + metric_text(
        "free_agent_gateway_provider_failures_total"@,
        provider_label(h),
        h.fail_count,
    ) + metric_text(
        "free_agent_gateway_provider_models"@,
        provider_label(h),
        h.models_count as u64,
    ) + metric_text(
        "free_agent_gateway_provider_keys"@,
        keys_label(h, "available"@),
        h.available_keys as u64,
    ) + metric_text(
        "free_agent_gateway_provider_keys"@,
        keys_label(h, "unavailable"@),
        if h.total_keys >= h.available_keys {
            (h.total_keys - h.available_keys) as u64
        } else {
            0
        },
    ) + metric_text(
        "free_agent_gateway_provider_keys"@,
        keys_label(h, "total"@),
        h.total_keys as u64,
    )
}

fn push_gateway_metrics(body: &mut String, uptime: u64, requests: u64, errors: u64)
    ensures
        final(body)@ == old(body)@ + gateway_text(uptime, requests, errors),
{
    let ghost start = body@;
    proof {
        let none: Seq<(&str, &str)> = Seq::empty();
        assert(label_views(none) =~= Seq::<(Seq<char>, Seq<char>)>::empty());
    }
    let none: [(&str, &str); 0] = [];
    assert(none@ =~= Seq::empty());
    push_metric_help(
        body,
        "free_agent_gateway_uptime_seconds",
        "Gateway process uptime in seconds.",
        "gauge",
    );
    push_metric_line(body, "free_agent_gateway_uptime_seconds", &none, uptime);
    push_metric_help(
        body,
        "free_agent_gateway_requests_total",
        "Total chat completion requests accepted by the gateway.",
        "counter",
    );
    push_metric_line(body, "free_agent_gateway_requests_total", &none, requests);
    push_metric_help(
        body,
        "free_agent_gateway_errors_total",
        "Total chat completion requests that ended in an error.",
        "counter",
    );
    push_metric_line(body, "free_agent_gateway_errors_total", &none, errors);
    push_metric_help(
        body,
        "free_agent_gateway_provider_up",
        "Provider health status, 1 for healthy and 0 otherwise.",
        "gauge",
    );
    push_metric_help(
        body,
        "free_agent_gateway_provider_latency_ms",
        "Last observed provider health-check latency in milliseconds.",
        "gauge",
    );
    push_metric_help(
        body,
        "free_agent_gateway_provider_success_total",
        "Provider health-check success count.",
        "counter",
    );
    push_metric_help(
        body,
        "free_agent_gateway_provider_failures_total",
        "Provider health-check failure count.",
        "counter",
    );
    push_metric_help(
        body,
        "free_agent_gateway_provider_models",
        "Number of models discovered for a provider.",
        "gauge",
    );
    push_metric_help(
        body,
        "free_agent_gateway_provider_keys",
        "Provider API key count by state.",
        "gauge",
    );
    assert(body@ =~= start + gateway_text(uptime, requests, errors));
}

fn push_provider_metrics(body: &mut String, provider: &HealthState)
    ensures
        final(body)@ == old(body)@ + provider_text(provider@),
{
    let ghost start = body@;
    let name = provider.provider.as_str();
    let labels = [("provider", name)];
    assert(label_views(labels@) =~= provider_label(provider@));
    let up: u64 = if same(provider.status.as_str(), "healthy") {
        1
    } else {
        0
    };
    push_metric_line(body, "free_agent_gateway_provider_up", &labels, up);
    push_metric_line(
        body,
        "free_agent_gateway_provider_latency_ms",
        &labels,
        provider.latency_ms,
    );
    push_metric_line(
        body,
        "free_agent_gateway_provider_success_total",
        &labels,
        provider.success_count,
    );
    push_metric_line(
        body,
        "free_agent_gateway_provider_failures_total",
        &labels,
        provider.fail_count,
    );
    push_metric_line(
        body,
        "free_agent_gateway_provider_models",
        &labels,
        provider.models_count as u64,
    );
    let available = provider.available_keys as u64;
    let total = provider.total_keys as u64;
    let unavailable: u64 = if total >= available {
        total - available
    } else {
        0
    };
    let of_available = [("provider", name), ("state", "available")];
    assert(label_views(of_available@) =~= keys_label(provider@, "available"@));
    push_metric_line(body, "free_agent_gateway_provider_keys", &of_available, available);
    let of_unavailable = [("provider", name), ("state", "unavailable")];
    assert(label_views(of_unavailable@) =~= keys_label(provider@, "unavailable"@));
    push_metric_line(body, "free_agent_gateway_provider_keys", &of_unavailable, unavailable);
    let of_total = [("provider", name), ("state", "total")];
    assert(label_views(of_total@) =~= keys_label(provider@, "total"@));
    push_metric_line(body, "free_agent_gateway_provider_keys", &of_total, total);
    assert(body@ =~= start + provider_text(provider@));
}

/// The metrics of the gateway and its providers, as Prometheus reads them.
pub fn metrics_prometheus(
    states: &Vec<HealthState>,
    uptime: u64,
    total_requests: u64,
    total_errors: u64,
) -> (r: String)
    ensures
        r@ == gateway_text(uptime, total_requests, total_errors) + flat(
            health_views(states@),
            |h: HealthView| provider_text(h),
        ),
{
    let mut body = String::new();
    push_gateway_metrics(&mut body, uptime, total_requests, total_errors);
    let ghost head = gateway_text(uptime, total_requests, total_errors);
    assert(body@ =~= head);
    let ghost all = health_views(states@);
    let ghost f = |h: HealthView| provider_text(h);
    let mut i: usize = 0;
    proof {
        flat_all(all, f);
        assert(head + flat(all.take(0), f) =~= head);
    }
    while i < states.len()
        invariant
            i <= states@.len(),
            all == health_views(states@),
            f == (|h: HealthView| provider_text(h)),
            body@ == head + flat(all.take(i as int), f),
        decreases states@.len() - i,
    {
        proof {
            flat_next(all, f, i as int);
            assert(all[i as int] == states@[i as int]@);
        }
        let ghost so_far = flat(all.take(i as int), f);
        push_provider_metrics(&mut body, &states[i]);
        assert(head + so_far + f(all[i as int]) =~= head + (so_far + f(all[i as int])));
        i += 1;
    }
    body
}

// ---------------------------------------------------------------- laws
/// An escaped value stands on one line.
pub proof fn escaped_stays_on_one_line(value: Seq<char>)
    ensures
        !escaped(value).contains('\n'),
    decreases value.len(),
{
    if value.len() > 0 {
        escaped_stays_on_one_line(value.drop_last());
        let head = escaped(value.drop_last());
        let tail = escaped_char(value.last());
        assert(escaped(value) == head + tail);
        if escaped(value).contains('\n') {
            let i = choose|i: int| 0 <= i < escaped(value).len() && escaped(value)[i] == '\n';
            if i < head.len() {
                assert(head[i] == '\n');
            } else {
                assert(tail[i - head.len()] == '\n');
            }
            assert(false);
        }
    }
}

/// What stands in an escaped value after its first character was read, and
/// that character.
pub open spec fn unescaped(text: Seq<char>) -> Seq<char>
    decreases text.len(),
{
    if text.len() == 0 {
        Seq::empty()
    } else if text[0] == '\\' && text.len() > 1 {
        seq![
            if text[1] == 'n' {
                '\n'
            } else {
                text[1]
            },
        ] + unescaped(text.skip(2))
    } else {
        seq![text[0]] + unescaped(text.skip(1))
    }
}

proof fn escaped_front(value: Seq<char>)
    requires
        value.len() > 0,
    ensures
        escaped(value) == escaped_char(value[0]) + escaped(value.skip(1)),
    decreases value.len(),
{
    if value.len() == 1 {
        assert(value.drop_last() =~= Seq::empty());
        assert(value.skip(1) =~= Seq::empty());
        assert(escaped(value) =~= escaped_char(value[0]) + escaped(value.skip(1)));
    } else {
        escaped_front(value.drop_last());
        assert(value.skip(1).drop_last() =~= value.drop_last().skip(1));
        assert(escaped(value) =~= escaped_char(value[0]) + escaped(value.skip(1)));
    }
}

/// Reading an escaped value gives the value back.
pub proof fn escaping_is_undone(value: Seq<char>)
    ensures
        unescaped(escaped(value)) == value,
    decreases value.len(),
{
    if value.len() == 0 {
        assert(unescaped(escaped(value)) =~= value);
    } else {
        escaped_front(value);
        escaping_is_undone(value.skip(1));
        let text = escaped(value);
        let head = escaped_char(value[0]);
        assert(text.skip(head.len() as int) =~= escaped(value.skip(1)));
        assert(text[0] == head[0]);
        if head.len() == 2 {
            assert(text[1] == head[1]);
        }
        assert(seq![value[0]] + value.skip(1) =~= value);
    }
}

} // verus!
