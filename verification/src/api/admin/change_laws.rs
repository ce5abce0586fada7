//! Laws of what administrators change, and of what they are told of it.
use crate::api::admin::analysis::{analysis_json, attempt_json, diagnosed_request};
use crate::api::admin::events::event_json;
use crate::api::admin::keys::KeyPercents;
use crate::api::admin::models::{restored_key, switch_reply, toggled};
use crate::api::admin::overview::{provider_overview, usable_keys};
use crate::api::admin::refresh::{RefreshView, takes_answer};
use crate::api::admin::reports::model_row;
use crate::api::admin::settings::{
    change_data, changed_by, changes, known_update, ProviderChange, routing_json, server_json,
    texts, updates_in, watcher_json,
};
use crate::api::attempts::AttemptRoutingAnalysis;
use crate::api::models::is_disabled;
use crate::clock::Moment;
use crate::config::{Config, ProviderConfig};
use crate::health::HealthView;
use crate::json::{int_json, JsonView, member_at, num, NumberView};
use crate::keyhub::hub::HubView;
use crate::keystate::{KeyState, KeyStateView, mask};
use crate::lists::{collected, collected_from, collected_has, named_in, named_in_is_first};
use crate::metadata::rows::{AttemptView, ModelMetaRow};
use crate::text::{opt_view, views};
use vstd::prelude::*;

verus! {

// ---------------------------------------------------------------- settings
/// What is given for a provider is taken over: whether it is on, how long it may
/// take, where it is. What is not given stays.
pub proof fn given_settings_are_taken_over(
    before: ProviderConfig,
    updates: JsonView,
    after: ProviderConfig,
    on: bool,
    seconds: u64,
    url: Seq<char>,
)
    requires
        changed_by(before, updates, after),
    ensures
        updates.get("enabled"@) == Some(JsonView::Bool(on)) ==> after.enabled == on,
        updates.get("enabled"@) is None ==> after.enabled == before.enabled,
        updates.get("timeout_seconds"@) == Some(JsonView::Number(NumberView::Unsigned(seconds)))
            ==> after.timeout_seconds == seconds,
        updates.get("timeout_seconds"@) is None ==> after.timeout_seconds == before.timeout_seconds,
        updates.get("base_url"@) == Some(JsonView::Text(url)) ==> after.base_url@ == url,
        updates.get("base_url"@) is None ==> after.base_url@ == before.base_url@,
        after.provider_type == before.provider_type,
        after.priority == before.priority,
        after.health_check_model@ == before.health_check_model@,
{
}

/// Keys that are given replace those that were there, in the order given; where
/// none is given, they stay.
pub proof fn given_keys_replace(
    before: ProviderConfig,
    updates: JsonView,
    after: ProviderConfig,
    first: Seq<char>,
    second: Seq<char>,
)
    requires
        changed_by(before, updates, after),
    ensures
        updates.get("keys"@) == Some(
            JsonView::Array(seq![JsonView::Text(first), JsonView::Text(second)]),
        ) ==> after.keys@.len() == 2 && after.keys@[0]@.value == first && after.keys@[1]@.value
            == second,
        updates.get("keys"@) is None ==> after.keys@ == before.keys@,
        updates.get("keys"@) == Some(JsonView::Array(Seq::empty())) ==> after.keys@ == before.keys@,
{
    let one = seq![JsonView::Text(first)];
    let two = seq![JsonView::Text(first), JsonView::Text(second)];
    reveal_with_fuel(collected, 3);
    assert(two.drop_last() =~= one);
    assert(one.drop_last() =~= Seq::empty());
    assert(collected(two, texts()) =~= seq![first, second]);
}

/// Every known provider that is named with new settings is changed, and no other.
pub proof fn named_providers_are_changed(
    config: Config,
    body: JsonView,
    members: Seq<(Seq<char>, JsonView)>,
    i: int,
    k: int,
)
    requires
        body.get("providers"@) == Some(JsonView::Object(members)),
        0 <= i < members.len(),
    ensures
        named_in(config.providers@, members[i].0) matches Some(pc) ==> updates_in(
            config,
            body,
        ).contains((members[i].0, pc, members[i].1)),
        0 <= k < updates_in(config, body).len() ==> named_in(
            config.providers@,
            updates_in(config, body)[k].0,
        ) == Some(updates_in(config, body)[k].1) && members.contains(
            (updates_in(config, body)[k].0, updates_in(config, body)[k].2),
        ),
{
    let f = known_update(config);
    let r = updates_in(config, body);
    if named_in(config.providers@, members[i].0) is Some {
        assert(f(members[i]) is Some);
        collected_has(members, f, i);
    }
    if 0 <= k < r.len() {
        assert(r.contains(r[k]));
        collected_from(members, f, r[k]);
        let j = choose|j: int| 0 <= j < members.len() && f(#[trigger] members[j]) == Some(r[k]);
        assert(members[j] == (r[k].0, r[k].2));
    }
}

/// A provider is set up anew where it was switched or moved, and only there.
pub proof fn switched_providers_are_set_up_anew(
    c: ProviderChange,
    name: Seq<char>,
    before: ProviderConfig,
    updates: JsonView,
    now: u64,
)
    requires
        changes(c, name, before, updates, now),
    ensures
        c.name@ == name,
        c.register <==> c.config.enabled != before.enabled || c.config.base_url@
            != before.base_url@,
        updates.get("enabled"@) == Some(JsonView::Bool(!before.enabled)) ==> c.register,
        updates.get("enabled"@) is None && updates.get("base_url"@) is None ==> !c.register,
{
}

/// The settings of the server, of routing and of the watcher are shown under
/// their names.
pub proof fn settings_are_shown(config: Config)
    ensures
        server_json(config).get("host"@) == Some(JsonView::Text(config.server.host@)),
        server_json(config).get("port"@) == Some(num(config.server.port as u64)),
        server_json(config).get("request_timeout"@) == Some(num(config.server.request_timeout)),
        server_json(config).get("sse_keepalive"@) == Some(num(config.server.sse_keepalive)),
        routing_json(config).get("fail_threshold"@) == Some(
            num(config.routing.fail_threshold as u64),
        ),
        routing_json(config).get("cooldown_seconds"@) == Some(num(config.routing.cooldown_seconds)),
        watcher_json(config).get("enabled"@) == Some(JsonView::Bool(config.watcher.enabled)),
        watcher_json(config).get("interval_seconds"@) == Some(num(config.watcher.interval_seconds)),
        watcher_json(config).get("check_timeout_seconds"@) == Some(
            num(config.watcher.check_timeout_seconds),
        ),
{
    reveal_strlit("host");
    reveal_strlit("port");
    reveal_strlit("log_level");
    reveal_strlit("request_timeout");
    assert("host"@.len() == 4);
    assert("port"@.len() == 4);
    assert("log_level"@.len() == 9);
    assert("request_timeout"@.len() == 15);
    assert("host"@[0] != "port"@[0]);
    reveal_strlit("sse_keepalive");
    assert("host"@.len() == 4);
    assert("port"@.len() == 4);
    assert("log_level"@.len() == 9);
    assert("request_timeout"@.len() == 15);
    assert("sse_keepalive"@.len() == 13);
    assert("host"@[0] != "port"@[0]);
    let s = (server_json(config))->Object_0;
    assert(s[0].0 == "host"@);
    member_at(s, 0);
    assert(s[1].0 == "port"@);
    member_at(s, 1);
    assert(s[3].0 == "request_timeout"@);
    member_at(s, 3);
    assert(s[4].0 == "sse_keepalive"@);
    member_at(s, 4);
    reveal_strlit("strategy");
    reveal_strlit("fail_threshold");
    assert("strategy"@.len() == 8);
    assert("fail_threshold"@.len() == 14);
    reveal_strlit("cooldown_seconds");
    assert("strategy"@.len() == 8);
    assert("fail_threshold"@.len() == 14);
    assert("cooldown_seconds"@.len() == 16);
    let r = (routing_json(config))->Object_0;
    assert(r[1].0 == "fail_threshold"@);
    member_at(r, 1);
    assert(r[2].0 == "cooldown_seconds"@);
    member_at(r, 2);
    reveal_strlit("enabled");
    reveal_strlit("interval_seconds");
    assert("enabled"@.len() == 7);
    assert("interval_seconds"@.len() == 16);
    reveal_strlit("check_timeout_seconds");
    assert("enabled"@.len() == 7);
    assert("interval_seconds"@.len() == 16);
    assert("check_timeout_seconds"@.len() == 21);
    let w = (watcher_json(config))->Object_0;
    assert(w[0].0 == "enabled"@);
    member_at(w, 0);
    assert(w[1].0 == "interval_seconds"@);
    member_at(w, 1);
    assert(w[2].0 == "check_timeout_seconds"@);
    member_at(w, 2);
}

// ---------------------------------------------------------------- switching
/// Switching a model turns it on where it was off and off where it was on, and
/// turns no other.
pub proof fn switching_switches(
    before: Seq<(String, Vec<String>)>,
    after: Seq<(String, Vec<String>)>,
    provider: Seq<char>,
    model: Seq<char>,
    p: Seq<char>,
    m: Seq<char>,
)
    requires
        toggled(before, after, provider, model),
    ensures
        is_disabled(after, provider, model) != is_disabled(before, provider, model),
        p != provider || m != model ==> is_disabled(after, p, m) == is_disabled(before, p, m),
{
    assert(is_disabled(after, provider, model) == !is_disabled(before, provider, model));
    assert(is_disabled(after, p, m) == is_disabled(after, p, m));
}

/// A switch is told with the provider, the model, and whether it is on now.
pub proof fn switches_are_told(provider: Seq<char>, model: Seq<char>, enabled: bool)
    ensures
        switch_reply(provider, model, enabled).get("success"@) == Some(JsonView::Bool(true)),
        switch_reply(provider, model, enabled).get("provider"@) == Some(JsonView::Text(provider)),
        switch_reply(provider, model, enabled).get("model"@) == Some(JsonView::Text(model)),
        switch_reply(provider, model, enabled).get("enabled"@) == Some(JsonView::Bool(enabled)),
{
    reveal_strlit("success");
    reveal_strlit("provider");
    reveal_strlit("model");
    assert("success"@.len() == 7);
    assert("provider"@.len() == 8);
    assert("model"@.len() == 5);
    reveal_strlit("enabled");
    assert("success"@.len() == 7);
    assert("provider"@.len() == 8);
    assert("model"@.len() == 5);
    assert("enabled"@.len() == 7);
    assert("success"@[0] != "enabled"@[0]);
    let m = (switch_reply(provider, model, enabled))->Object_0;
    assert(m[0].0 == "success"@);
    member_at(m, 0);
    assert(m[1].0 == "provider"@);
    member_at(m, 1);
    assert(m[2].0 == "model"@);
    member_at(m, 2);
    assert(m[3].0 == "enabled"@);
    member_at(m, 3);
}

/// A restored key is told masked, with its counts.
pub proof fn restored_keys_are_told(k: KeyStateView)
    ensures
        restored_key(k).get("key_id"@) == Some(JsonView::Text(k.key_id)),
        restored_key(k).get("key"@) == Some(JsonView::Text(mask(k.key))),
        restored_key(k).get("fail_count"@) == Some(num(k.fail_count as u64)),
{
    reveal_strlit("key_id");
    reveal_strlit("key");
    reveal_strlit("status");
    assert("key_id"@.len() == 6);
    assert("key"@.len() == 3);
    assert("status"@.len() == 6);
    assert("key_id"@[0] != "status"@[0]);
    reveal_strlit("fail_count");
    assert("key_id"@.len() == 6);
    assert("key"@.len() == 3);
    assert("status"@.len() == 6);
    assert("fail_count"@.len() == 10);
    assert("key_id"@[0] != "status"@[0]);
    let m = (restored_key(k))->Object_0;
    assert(m[0].0 == "key_id"@);
    member_at(m, 0);
    assert(m[1].0 == "key"@);
    member_at(m, 1);
    assert(m[3].0 == "fail_count"@);
    member_at(m, 3);
}

/// An event tells its kind, what it is of, and when it was.
pub proof fn events_tell_kind_and_time(kind: Seq<char>, data: JsonView, now: u64)
    ensures
        event_json(kind, data, now).get("type"@) == Some(JsonView::Text(kind)),
        event_json(kind, data, now).get("data"@) == Some(data),
        event_json(kind, data, now).get("timestamp"@) == Some(num(now)),
{
    reveal_strlit("type");
    reveal_strlit("data");
    assert("type"@.len() == 4);
    assert("data"@.len() == 4);
    assert("type"@[0] != "data"@[0]);
    reveal_strlit("timestamp");
    assert("type"@.len() == 4);
    assert("data"@.len() == 4);
    assert("timestamp"@.len() == 9);
    assert("type"@[0] != "data"@[0]);
    let m = (event_json(kind, data, now))->Object_0;
    assert(m[0].0 == "type"@);
    member_at(m, 0);
    assert(m[1].0 == "data"@);
    member_at(m, 1);
    assert(m[2].0 == "timestamp"@);
    member_at(m, 2);
}

// ---------------------------------------------------------------- discoveries
/// What a key names is noted for it, and the request that asked counts as
/// succeeded where it was reserved. What it fails with is charged.
pub proof fn discoveries_are_noted(
    r: RefreshView,
    hub: HubView,
    after: HubView,
    models: Vec<String>,
    moment: Moment,
    now: u64,
    then: u64,
)
    requires
        takes_answer(r, hub, after, Some(Ok(models)), moment, now, then),
        r.goes_on(),
    ensures
        !r.reserved ==> after == hub.with_models(r.provider, r.key(), views(models@), now),
        r.reserved ==> after == hub.with_models(
            r.provider,
            r.key(),
            views(models@),
            now,
        ).succeeded(r.provider, r.key(), None, None, true, then),
{
}

/// A key that does not answer in time keeps its standing: only the reason is
/// noted.
pub proof fn silent_keys_are_only_noted(
    r: RefreshView,
    hub: HubView,
    after: HubView,
    moment: Moment,
    now: u64,
    then: u64,
    i: int,
)
    requires
        takes_answer(r, hub, after, None, moment, now, then),
        hub.pools.contains_key(r.provider),
        0 <= i < hub.pools[r.provider].keys.len(),
    ensures
        after.pools[r.provider].keys.len() == hub.pools[r.provider].keys.len(),
        after.pools[r.provider].keys[i].status == hub.pools[r.provider].keys[i].status,
        after.pools[r.provider].keys[i].models == hub.pools[r.provider].keys[i].models,
        after.pools[r.provider].keys[i].fail_count == hub.pools[r.provider].keys[i].fail_count,
        after.pools[r.provider].fail_count == hub.pools[r.provider].fail_count,
{
    crate::keyhub::pool::key_index_in_range(hub.pools[r.provider].keys, r.key(), 0);
}

// ---------------------------------------------------------------- overviews
/// A provider is shown with its health as it was noted, with how it stands now,
/// and with its keys that can be used and all of them.
pub proof fn providers_are_overseen(
    config: Config,
    h: HealthView,
    snapshot: Seq<(String, Vec<KeyState>)>,
    now: u64,
    percents: Seq<Vec<KeyPercents>>,
)
    ensures
        ({
            let p = provider_overview(config, h, snapshot, now, percents);
            &&& p.get("name"@) == Some(JsonView::Text(h.provider))
            &&& p.get("status"@) == Some(JsonView::Text(h.status))
            &&& p.get("latency_ms"@) == Some(num(h.latency_ms))
            &&& p.get("success_count"@) == Some(num(h.success_count))
            &&& p.get("fail_count"@) == Some(num(h.fail_count))
            &&& p.get("available_keys"@) == Some(
                num(usable_keys(snapshot, h.provider, now) as u64),
            )
            &&& p.get("total_keys"@) == Some(num(h.total_keys as u64))
        }),
{
    reveal_strlit("name");
    reveal_strlit("status");
    reveal_strlit("computed_status");
    reveal_strlit("latency_ms");
    reveal_strlit("success_count");
    reveal_strlit("fail_count");
    reveal_strlit("models_count");
    reveal_strlit("available_keys");
    assert("name"@.len() == 4);
    assert("status"@.len() == 6);
    assert("computed_status"@.len() == 15);
    assert("latency_ms"@.len() == 10);
    assert("success_count"@.len() == 13);
    assert("fail_count"@.len() == 10);
    assert("models_count"@.len() == 12);
    assert("available_keys"@.len() == 14);
    assert("latency_ms"@[0] != "fail_count"@[0]);
    reveal_strlit("total_keys");
    assert("name"@.len() == 4);
    assert("status"@.len() == 6);
    assert("computed_status"@.len() == 15);
    assert("latency_ms"@.len() == 10);
    assert("success_count"@.len() == 13);
    assert("fail_count"@.len() == 10);
    assert("models_count"@.len() == 12);
    assert("available_keys"@.len() == 14);
    assert("total_keys"@.len() == 10);
    assert("latency_ms"@[0] != "fail_count"@[0]);
    assert("latency_ms"@[0] != "total_keys"@[0]);
    assert("fail_count"@[0] != "total_keys"@[0]);
    let m = (provider_overview(config, h, snapshot, now, percents))->Object_0;
    assert(m[0].0 == "name"@);
    member_at(m, 0);
    assert(m[1].0 == "status"@);
    member_at(m, 1);
    assert(m[3].0 == "latency_ms"@);
    member_at(m, 3);
    assert(m[4].0 == "success_count"@);
    member_at(m, 4);
    assert(m[5].0 == "fail_count"@);
    member_at(m, 5);
    assert(m[7].0 == "available_keys"@);
    member_at(m, 7);
    assert(m[8].0 == "total_keys"@);
    member_at(m, 8);
}

/// An attempt is shown under its names.
pub proof fn attempts_are_shown(a: AttemptView)
    ensures
        attempt_json(a).get("request_id"@) == Some(JsonView::Text(a.request_id)),
        attempt_json(a).get("provider"@) == Some(JsonView::Text(a.provider)),
        attempt_json(a).get("model_id"@) == Some(JsonView::Text(a.model_id)),
        attempt_json(a).get("key_id"@) == Some(JsonView::Text(a.key_id)),
        attempt_json(a).get("success"@) == Some(JsonView::Bool(a.success)),
        a.error_category matches Some(c) ==> attempt_json(a).get("error_category"@) == Some(
            JsonView::Text(c),
        ),
        a.http_status matches Some(s) ==> attempt_json(a).get("http_status"@) == Some(
            int_json(s as int),
        ),
        attempt_json(a).get("fallback"@) == Some(JsonView::Bool(a.fallback)),
{
    reveal_strlit("id");
    reveal_strlit("request_id");
    reveal_strlit("attempt_index");
    reveal_strlit("provider");
    reveal_strlit("model_id");
    reveal_strlit("key_id");
    reveal_strlit("success");
    reveal_strlit("error_category");
    reveal_strlit("http_status");
    reveal_strlit("error_message");
    reveal_strlit("cooldown_seconds");
    assert("id"@.len() == 2);
    assert("request_id"@.len() == 10);
    assert("attempt_index"@.len() == 13);
    assert("provider"@.len() == 8);
    assert("model_id"@.len() == 8);
    assert("key_id"@.len() == 6);
    assert("success"@.len() == 7);
    assert("error_category"@.len() == 14);
    assert("http_status"@.len() == 11);
    assert("error_message"@.len() == 13);
    assert("cooldown_seconds"@.len() == 16);
    assert("attempt_index"@[0] != "error_message"@[0]);
    assert("provider"@[0] != "model_id"@[0]);
    reveal_strlit("fallback");
    assert("id"@.len() == 2);
    assert("request_id"@.len() == 10);
    assert("attempt_index"@.len() == 13);
    assert("provider"@.len() == 8);
    assert("model_id"@.len() == 8);
    assert("key_id"@.len() == 6);
    assert("success"@.len() == 7);
    assert("error_category"@.len() == 14);
    assert("http_status"@.len() == 11);
    assert("error_message"@.len() == 13);
    assert("cooldown_seconds"@.len() == 16);
    assert("fallback"@.len() == 8);
    assert("attempt_index"@[0] != "error_message"@[0]);
    assert("provider"@[0] != "model_id"@[0]);
    assert("provider"@[0] != "fallback"@[0]);
    assert("model_id"@[0] != "fallback"@[0]);
    let m = (attempt_json(a))->Object_0;
    assert(m[1].0 == "request_id"@);
    member_at(m, 1);
    assert(m[3].0 == "provider"@);
    member_at(m, 3);
    assert(m[4].0 == "model_id"@);
    member_at(m, 4);
    assert(m[5].0 == "key_id"@);
    member_at(m, 5);
    assert(m[6].0 == "success"@);
    member_at(m, 6);
    assert(m[7].0 == "error_category"@);
    member_at(m, 7);
    assert(m[8].0 == "http_status"@);
    member_at(m, 8);
    assert(m[11].0 == "fallback"@);
    member_at(m, 11);
}

/// An analysis shows its counts under their names.
pub proof fn analyses_show_their_counts(a: AttemptRoutingAnalysis)
    ensures
        analysis_json(a).get("total_attempts"@) == Some(num(a.total_attempts as u64)),
        analysis_json(a).get("successful_attempts"@) == Some(num(a.successful_attempts as u64)),
        analysis_json(a).get("failed_attempts"@) == Some(num(a.failed_attempts as u64)),
        analysis_json(a).get("fallback_attempts"@) == Some(num(a.fallback_attempts as u64)),
{
    reveal_strlit("total_attempts");
    reveal_strlit("successful_attempts");
    reveal_strlit("failed_attempts");
    assert("total_attempts"@.len() == 14);
    assert("successful_attempts"@.len() == 19);
    assert("failed_attempts"@.len() == 15);
    reveal_strlit("fallback_attempts");
    assert("total_attempts"@.len() == 14);
    assert("successful_attempts"@.len() == 19);
    assert("failed_attempts"@.len() == 15);
    assert("fallback_attempts"@.len() == 17);
    let m = (analysis_json(a))->Object_0;
    assert(m[0].0 == "total_attempts"@);
    member_at(m, 0);
    assert(m[1].0 == "successful_attempts"@);
    member_at(m, 1);
    assert(m[2].0 == "failed_attempts"@);
    member_at(m, 2);
    assert(m[3].0 == "fallback_attempts"@);
    member_at(m, 3);
}

/// What is known of a model is shown under its names.
pub proof fn models_are_shown(r: ModelMetaRow)
    ensures
        model_row(r).get("provider"@) == Some(JsonView::Text(r.provider@)),
        model_row(r).get("model_id"@) == Some(JsonView::Text(r.model_id@)),
        r.context_window matches Some(n) ==> model_row(r).get("context_window"@) == Some(
            int_json(n as int),
        ),
        r.supports_vision matches Some(b) ==> model_row(r).get("supports_vision"@) == Some(
            JsonView::Bool(b),
        ),
        r.supports_tools matches Some(b) ==> model_row(r).get("supports_tools"@) == Some(
            JsonView::Bool(b),
        ),
        r.supports_reasoning matches Some(b) ==> model_row(r).get("supports_reasoning"@) == Some(
            JsonView::Bool(b),
        ),
        r.rpm_limit matches Some(n) ==> model_row(r).get("rpm_limit"@) == Some(int_json(n as int)),
        r.rpd_limit matches Some(n) ==> model_row(r).get("rpd_limit"@) == Some(int_json(n as int)),
        r.tpm_limit matches Some(n) ==> model_row(r).get("tpm_limit"@) == Some(int_json(n as int)),
        r.tpd_limit matches Some(n) ==> model_row(r).get("tpd_limit"@) == Some(int_json(n as int)),
{
    reveal_strlit("provider");
    reveal_strlit("model_id");
    reveal_strlit("display_name");
    reveal_strlit("context_window");
    reveal_strlit("max_completion_tokens");
    reveal_strlit("supports_vision");
    reveal_strlit("supports_tools");
    reveal_strlit("supports_reasoning");
    reveal_strlit("pricing_prompt");
    reveal_strlit("pricing_completion");
    reveal_strlit("architecture_modality");
    reveal_strlit("rpm_limit");
    reveal_strlit("rpd_limit");
    reveal_strlit("tpm_limit");
    assert("provider"@.len() == 8);
    assert("model_id"@.len() == 8);
    assert("display_name"@.len() == 12);
    assert("context_window"@.len() == 14);
    assert("max_completion_tokens"@.len() == 21);
    assert("supports_vision"@.len() == 15);
    assert("supports_tools"@.len() == 14);
    assert("supports_reasoning"@.len() == 18);
    assert("pricing_prompt"@.len() == 14);
    assert("pricing_completion"@.len() == 18);
    assert("architecture_modality"@.len() == 21);
    assert("rpm_limit"@.len() == 9);
    assert("rpd_limit"@.len() == 9);
    assert("tpm_limit"@.len() == 9);
    assert("provider"@[0] != "model_id"@[0]);
    assert("context_window"@[0] != "supports_tools"@[0]);
    assert("context_window"@[0] != "pricing_prompt"@[0]);
    assert("max_completion_tokens"@[0] != "architecture_modality"@[0]);
    assert("supports_tools"@[0] != "pricing_prompt"@[0]);
    assert("supports_reasoning"@[0] != "pricing_completion"@[0]);
    assert("rpm_limit"@[2] != "rpd_limit"@[2]);
    assert("rpm_limit"@[0] != "tpm_limit"@[0]);
    assert("rpd_limit"@[0] != "tpm_limit"@[0]);
    reveal_strlit("tpd_limit");
    assert("provider"@.len() == 8);
    assert("model_id"@.len() == 8);
    assert("display_name"@.len() == 12);
    assert("context_window"@.len() == 14);
    assert("max_completion_tokens"@.len() == 21);
    assert("supports_vision"@.len() == 15);
    assert("supports_tools"@.len() == 14);
    assert("supports_reasoning"@.len() == 18);
    assert("pricing_prompt"@.len() == 14);
    assert("pricing_completion"@.len() == 18);
    assert("architecture_modality"@.len() == 21);
    assert("rpm_limit"@.len() == 9);
    assert("rpd_limit"@.len() == 9);
    assert("tpm_limit"@.len() == 9);
    assert("tpd_limit"@.len() == 9);
    assert("provider"@[0] != "model_id"@[0]);
    assert("context_window"@[0] != "supports_tools"@[0]);
    assert("context_window"@[0] != "pricing_prompt"@[0]);
    assert("max_completion_tokens"@[0] != "architecture_modality"@[0]);
    assert("supports_tools"@[0] != "pricing_prompt"@[0]);
    assert("supports_reasoning"@[0] != "pricing_completion"@[0]);
    assert("rpm_limit"@[2] != "rpd_limit"@[2]);
    assert("rpm_limit"@[0] != "tpm_limit"@[0]);
    assert("rpm_limit"@[0] != "tpd_limit"@[0]);
    assert("rpd_limit"@[0] != "tpm_limit"@[0]);
    assert("rpd_limit"@[0] != "tpd_limit"@[0]);
    assert("tpm_limit"@[2] != "tpd_limit"@[2]);
    let m = (model_row(r))->Object_0;
    assert(m[0].0 == "provider"@);
    member_at(m, 0);
    assert(m[1].0 == "model_id"@);
    member_at(m, 1);
    assert(m[3].0 == "context_window"@);
    member_at(m, 3);
    assert(m[5].0 == "supports_vision"@);
    member_at(m, 5);
    assert(m[6].0 == "supports_tools"@);
    member_at(m, 6);
    assert(m[7].0 == "supports_reasoning"@);
    member_at(m, 7);
    assert(m[11].0 == "rpm_limit"@);
    member_at(m, 11);
    assert(m[12].0 == "rpd_limit"@);
    member_at(m, 12);
    assert(m[13].0 == "tpm_limit"@);
    member_at(m, 13);
    assert(m[14].0 == "tpd_limit"@);
    member_at(m, 14);
}

/// A diagnosis is of the model, the agent and the text that are asked for.
pub proof fn diagnoses_are_of_what_is_asked(query: Seq<(String, String)>, i: int)
    requires
        0 <= i < query.len(),
        forall|j: int| 0 <= j < i ==> (#[trigger] query[j]).0@ != query[i].0@,
    ensures
        query[i].0@ == "model"@ ==> diagnosed_request(query).model == query[i].1@,
        query[i].0@ == "agent"@ ==> diagnosed_request(query).agent_name == Some(query[i].1@),
        query[i].0@ == "q"@ ==> diagnosed_request(query).messages.len() == 1 && diagnosed_request(
            query,
        ).messages[0].content == JsonView::Text(query[i].1@) && diagnosed_request(
            query,
        ).messages[0].role == "user"@,
{
    named_in_is_first(query, query[i].0@, i);
}

/// A change leaves the way to a provider as it was, and is told with whether
/// the provider is on now.
pub proof fn changes_are_told(
    c: ProviderChange,
    name: Seq<char>,
    before: ProviderConfig,
    updates: JsonView,
    now: u64,
)
    requires
        changes(c, name, before, updates, now),
    ensures
        opt_view(c.config.proxy_url) == opt_view(before.proxy_url),
        c.event@.get("type"@) == Some(JsonView::Text("config_update"@)),
        c.event@.get("timestamp"@) == Some(num(now)),
        c.event@.get("data"@) is Some,
        c.event@.get("data"@)->0.get("provider"@) == Some(JsonView::Text(name)),
        c.event@.get("data"@)->0.get("enabled"@) == Some(JsonView::Bool(c.config.enabled)),
{
    events_tell_kind_and_time("config_update"@, change_data(name, c.config.enabled), now);
    reveal_strlit("provider");
    reveal_strlit("enabled");
    assert("provider"@.len() == 8);
    assert("enabled"@.len() == 7);
    let m = (change_data(name, c.config.enabled))->Object_0;
    assert(m[0].0 == "provider"@);
    member_at(m, 0);
    assert(m[1].0 == "enabled"@);
    member_at(m, 1);
}

} // verus!
