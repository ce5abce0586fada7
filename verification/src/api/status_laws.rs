//! Laws of what is told of the health of the gateway and its providers.
use crate::api::status::{
    escaped, health_answer, health_state_json, healthy_count, is_healthy, keys_label, label_text,
    labels_text, metric_text, metrics_answer, provider_entry, provider_label, provider_text,
};
use crate::config::Config;
use crate::health::HealthView;
use crate::json::{JsonView, member_at, num};
use crate::keystate::KeyState;
use crate::lists::{kept, named_in_is_first, named_in_nowhere};
use crate::text::decimal;
use vstd::prelude::*;

verus! {

/// All is well where there is a provider and every one is healthy; else service
/// is degraded.
pub proof fn all_must_be_healthy(states: Seq<HealthView>, version: Seq<char>)
    ensures
        states.len() > 0 && (forall|i: int|
            0 <= i < states.len() ==> (#[trigger] states[i]).status == "healthy"@)
            ==> health_answer(states, version).get("status"@) == Some(JsonView::Text("ok"@)),
        states.len() == 0 || (exists|i: int|
            0 <= i < states.len() && (#[trigger] states[i]).status != "healthy"@)
            ==> health_answer(states, version).get("status"@) == Some(JsonView::Text("degraded"@)),
        health_answer(states, version).get("version"@) == Some(JsonView::Text(version)),
{
    reveal_strlit("status");
    assert("status"@.len() == 6);
    reveal_strlit("version");
    assert("status"@.len() == 6);
    assert("version"@.len() == 7);
    let m = (health_answer(states, version))->Object_0;
    assert(m[0].0 == "status"@);
    member_at(m, 0);
    assert(m[1].0 == "version"@);
    member_at(m, 1);
    all_counted(states);
}

proof fn all_counted(states: Seq<HealthView>)
    ensures
        healthy_count(states) <= states.len(),
        healthy_count(states) == states.len() <==> forall|i: int|
            0 <= i < states.len() ==> (#[trigger] states[i]).status == "healthy"@,
    decreases states.len(),
{
    if states.len() > 0 {
        let rest = states.drop_last();
        all_counted(rest);
        if forall|i: int| 0 <= i < states.len() ==> (#[trigger] states[i]).status == "healthy"@ {
            assert forall|i: int| 0 <= i < rest.len() implies (#[trigger] rest[i]).status
                == "healthy"@ by {
                assert(states[i].status == "healthy"@);
            }
            assert(states[states.len() - 1].status == "healthy"@);
        }
        if healthy_count(states) == states.len() {
            assert(healthy_count(rest) == rest.len());
            assert forall|i: int| 0 <= i < states.len() implies (#[trigger] states[i]).status
                == "healthy"@ by {
                if i < rest.len() {
                    assert(rest[i].status == "healthy"@);
                }
            }
        }
    }
}

/// The healthy providers and the others are counted, and make up all.
pub proof fn providers_are_counted_by_health(states: Seq<HealthView>, version: Seq<char>)
    requires
        states.len() <= u64::MAX,
    ensures
        ({
            let counts = health_answer(states, version).get("providers"@)->0;
            let healthy = kept(states, |h: HealthView| h.status == "healthy"@).len();
            &&& counts.get("total"@) == Some(num(states.len() as u64))
            &&& counts.get("healthy"@) == Some(num(healthy as u64))
            &&& counts.get("unhealthy"@) == Some(num((states.len() - healthy) as u64))
            &&& healthy <= states.len()
        }),
{
    reveal_strlit("status");
    reveal_strlit("version");
    assert("status"@.len() == 6);
    assert("version"@.len() == 7);
    reveal_strlit("providers");
    assert("status"@.len() == 6);
    assert("version"@.len() == 7);
    assert("providers"@.len() == 9);
    let m = (health_answer(states, version))->Object_0;
    assert(m[2].0 == "providers"@);
    member_at(m, 2);
    reveal_strlit("total");
    reveal_strlit("healthy");
    assert("total"@.len() == 5);
    assert("healthy"@.len() == 7);
    reveal_strlit("unhealthy");
    assert("total"@.len() == 5);
    assert("healthy"@.len() == 7);
    assert("unhealthy"@.len() == 9);
    let c = (health_answer(states, version).get("providers"@)->0)->Object_0;
    assert(c[0].0 == "total"@);
    member_at(c, 0);
    assert(c[1].0 == "healthy"@);
    member_at(c, 1);
    assert(c[2].0 == "unhealthy"@);
    member_at(c, 2);
    assert((|h: HealthView| h.status == "healthy"@) =~= is_healthy());
    all_counted(states);
}

/// What is known of a provider is told under its names.
pub proof fn health_is_told(h: HealthView)
    ensures
        health_state_json(h).get("provider"@) == Some(JsonView::Text(h.provider)),
        health_state_json(h).get("status"@) == Some(JsonView::Text(h.status)),
        health_state_json(h).get("latency_ms"@) == Some(num(h.latency_ms)),
        health_state_json(h).get("success_count"@) == Some(num(h.success_count)),
        health_state_json(h).get("fail_count"@) == Some(num(h.fail_count)),
        health_state_json(h).get("last_error"@) == Some(JsonView::Text(h.last_error)),
        health_state_json(h).get("models_count"@) == Some(num(h.models_count as u64)),
        health_state_json(h).get("available_keys"@) == Some(num(h.available_keys as u64)),
        health_state_json(h).get("total_keys"@) == Some(num(h.total_keys as u64)),
{
    reveal_strlit("provider");
    reveal_strlit("status");
    reveal_strlit("latency_ms");
    reveal_strlit("success_count");
    reveal_strlit("fail_count");
    reveal_strlit("last_error");
    reveal_strlit("cooldown_until");
    reveal_strlit("models_count");
    reveal_strlit("available_keys");
    assert("provider"@.len() == 8);
    assert("status"@.len() == 6);
    assert("latency_ms"@.len() == 10);
    assert("success_count"@.len() == 13);
    assert("fail_count"@.len() == 10);
    assert("last_error"@.len() == 10);
    assert("cooldown_until"@.len() == 14);
    assert("models_count"@.len() == 12);
    assert("available_keys"@.len() == 14);
    assert("latency_ms"@[0] != "fail_count"@[0]);
    assert("latency_ms"@[2] != "last_error"@[2]);
    assert("fail_count"@[0] != "last_error"@[0]);
    assert("cooldown_until"@[0] != "available_keys"@[0]);
    reveal_strlit("total_keys");
    assert("provider"@.len() == 8);
    assert("status"@.len() == 6);
    assert("latency_ms"@.len() == 10);
    assert("success_count"@.len() == 13);
    assert("fail_count"@.len() == 10);
    assert("last_error"@.len() == 10);
    assert("cooldown_until"@.len() == 14);
    assert("models_count"@.len() == 12);
    assert("available_keys"@.len() == 14);
    assert("total_keys"@.len() == 10);
    assert("latency_ms"@[0] != "fail_count"@[0]);
    assert("latency_ms"@[2] != "last_error"@[2]);
    assert("latency_ms"@[0] != "total_keys"@[0]);
    assert("fail_count"@[0] != "last_error"@[0]);
    assert("fail_count"@[0] != "total_keys"@[0]);
    assert("last_error"@[0] != "total_keys"@[0]);
    assert("cooldown_until"@[0] != "available_keys"@[0]);
    let m = (health_state_json(h))->Object_0;
    assert(m[0].0 == "provider"@);
    member_at(m, 0);
    assert(m[1].0 == "status"@);
    member_at(m, 1);
    assert(m[2].0 == "latency_ms"@);
    member_at(m, 2);
    assert(m[3].0 == "success_count"@);
    member_at(m, 3);
    assert(m[4].0 == "fail_count"@);
    member_at(m, 4);
    assert(m[5].0 == "last_error"@);
    member_at(m, 5);
    assert(m[7].0 == "models_count"@);
    member_at(m, 7);
    assert(m[8].0 == "available_keys"@);
    member_at(m, 8);
    assert(m[9].0 == "total_keys"@);
    member_at(m, 9);
}

/// A provider is listed with its health, and with the type and address that are
/// configured for it.
pub proof fn providers_are_listed(config: Config, h: HealthView, i: int)
    requires
        0 <= i < config.providers@.len(),
        config.providers@[i].0@ == h.provider,
        forall|j: int| 0 <= j < i ==> (#[trigger] config.providers@[j]).0@ != h.provider,
    ensures
        ({
            let e = provider_entry(config)(h);
            let pc = config.providers@[i].1;
            &&& e.get("name"@) == Some(JsonView::Text(h.provider))
            &&& e.get("status"@) == Some(JsonView::Text(h.status))
            &&& e.get("latency_ms"@) == Some(num(h.latency_ms))
            &&& e.get("success_count"@) == Some(num(h.success_count))
            &&& e.get("fail_count"@) == Some(num(h.fail_count))
            &&& e.get("available_keys"@) == Some(num(h.available_keys as u64))
            &&& e.get("total_keys"@) == Some(num(h.total_keys as u64))
            &&& e.get("base_url"@) == Some(JsonView::Text(pc.base_url@))
            &&& e.get("priority"@) == Some(num(pc.priority as u64))
        }),
{
    named_in_is_first(config.providers@, h.provider, i);
    reveal_strlit("name");
    reveal_strlit("status");
    reveal_strlit("latency_ms");
    reveal_strlit("success_count");
    reveal_strlit("fail_count");
    reveal_strlit("models_count");
    reveal_strlit("available_keys");
    reveal_strlit("total_keys");
    reveal_strlit("type");
    reveal_strlit("base_url");
    assert("name"@.len() == 4);
    assert("status"@.len() == 6);
    assert("latency_ms"@.len() == 10);
    assert("success_count"@.len() == 13);
    assert("fail_count"@.len() == 10);
    assert("models_count"@.len() == 12);
    assert("available_keys"@.len() == 14);
    assert("total_keys"@.len() == 10);
    assert("type"@.len() == 4);
    assert("base_url"@.len() == 8);
    assert("name"@[0] != "type"@[0]);
    assert("latency_ms"@[0] != "fail_count"@[0]);
    assert("latency_ms"@[0] != "total_keys"@[0]);
    assert("fail_count"@[0] != "total_keys"@[0]);
    reveal_strlit("priority");
    assert("name"@.len() == 4);
    assert("status"@.len() == 6);
    assert("latency_ms"@.len() == 10);
    assert("success_count"@.len() == 13);
    assert("fail_count"@.len() == 10);
    assert("models_count"@.len() == 12);
    assert("available_keys"@.len() == 14);
    assert("total_keys"@.len() == 10);
    assert("type"@.len() == 4);
    assert("base_url"@.len() == 8);
    assert("priority"@.len() == 8);
    assert("name"@[0] != "type"@[0]);
    assert("latency_ms"@[0] != "fail_count"@[0]);
    assert("latency_ms"@[0] != "total_keys"@[0]);
    assert("fail_count"@[0] != "total_keys"@[0]);
    assert("base_url"@[0] != "priority"@[0]);
    let m = (provider_entry(config)(h))->Object_0;
    assert(m[0].0 == "name"@);
    member_at(m, 0);
    assert(m[1].0 == "status"@);
    member_at(m, 1);
    assert(m[2].0 == "latency_ms"@);
    member_at(m, 2);
    assert(m[3].0 == "success_count"@);
    member_at(m, 3);
    assert(m[4].0 == "fail_count"@);
    member_at(m, 4);
    assert(m[6].0 == "available_keys"@);
    member_at(m, 6);
    assert(m[7].0 == "total_keys"@);
    member_at(m, 7);
    assert(m[9].0 == "base_url"@);
    member_at(m, 9);
    assert(m[10].0 == "priority"@);
    member_at(m, 10);
}

/// The counters of the gateway are told under their names.
pub proof fn counters_are_told(
    config: Config,
    states: Seq<HealthView>,
    snapshot: Seq<(String, Vec<KeyState>)>,
    version: Seq<char>,
    uptime: u64,
    requests: u64,
    errors: u64,
)
    ensures
        ({
            let answer = metrics_answer(config, states, snapshot, version, uptime, requests, errors);
            let gateway = answer.get("gateway"@)->0;
            &&& gateway.get("version"@) == Some(JsonView::Text(version))
            &&& gateway.get("uptime_seconds"@) == Some(num(uptime))
            &&& gateway.get("total_requests"@) == Some(num(requests))
            &&& gateway.get("total_errors"@) == Some(num(errors))
        }),
{
    reveal_strlit("gateway");
    assert("gateway"@.len() == 7);
    let m = (metrics_answer(config, states, snapshot, version, uptime, requests, errors))->Object_0;
    assert(m[0].0 == "gateway"@);
    member_at(m, 0);
    reveal_strlit("version");
    reveal_strlit("uptime_seconds");
    reveal_strlit("routing_strategy");
    reveal_strlit("total_requests");
    assert("version"@.len() == 7);
    assert("uptime_seconds"@.len() == 14);
    assert("routing_strategy"@.len() == 16);
    assert("total_requests"@.len() == 14);
    assert("uptime_seconds"@[0] != "total_requests"@[0]);
    reveal_strlit("total_errors");
    assert("version"@.len() == 7);
    assert("uptime_seconds"@.len() == 14);
    assert("routing_strategy"@.len() == 16);
    assert("total_requests"@.len() == 14);
    assert("total_errors"@.len() == 12);
    assert("uptime_seconds"@[0] != "total_requests"@[0]);
    let g = (metrics_answer(config, states, snapshot, version, uptime, requests, errors).get("gateway"@)->0)->Object_0;
    assert(g[0].0 == "version"@);
    member_at(g, 0);
    assert(g[1].0 == "uptime_seconds"@);
    member_at(g, 1);
    assert(g[3].0 == "total_requests"@);
    member_at(g, 3);
    assert(g[4].0 == "total_errors"@);
    member_at(g, 4);
}

/// Among the measurements of a provider is whether it is healthy, as 1 or 0.
pub proof fn healthy_providers_measure_one(h: HealthView)
    ensures
        h.status == "healthy"@ ==> metric_text(
            "free_agent_gateway_provider_up"@,
            provider_label(h),
            1,
        ).is_prefix_of(provider_text(h)),
        h.status != "healthy"@ ==> metric_text(
            "free_agent_gateway_provider_up"@,
            provider_label(h),
            0,
        ).is_prefix_of(provider_text(h)),
{
    let up: u64 = if h.status == "healthy"@ {
        1
    } else {
        0
    };
    let first = metric_text("free_agent_gateway_provider_up"@, provider_label(h), up);
    assert(provider_text(h).subrange(0, first.len() as int) =~= first);
}

/// Whether `line` stands somewhere in `text`.
pub open spec fn says(text: Seq<char>, line: Seq<char>) -> bool {
    exists|before: Seq<char>, after: Seq<char>| text == #[trigger] (before + line + after)
}

/// The measurements of a provider say its time, its successes, its failures, its
/// models, and its keys: usable, not usable, and all.
pub proof fn providers_are_measured(h: HealthView)
    requires
        h.available_keys <= h.total_keys,
    ensures
        says(
            provider_text(h),
            metric_text(
                "free_agent_gateway_provider_latency_ms"@,
                seq![("provider"@, h.provider)],
                h.latency_ms,
            ),
        ),
        says(
            provider_text(h),
            metric_text(
                "free_agent_gateway_provider_success_total"@,
                seq![("provider"@, h.provider)],
                h.success_count,
            ),
        ),
        says(
            provider_text(h),
            metric_text(
                "free_agent_gateway_provider_failures_total"@,
                seq![("provider"@, h.provider)],
                h.fail_count,
            ),
        ),
        says(
            provider_text(h),
            metric_text(
                "free_agent_gateway_provider_keys"@,
                seq![("provider"@, h.provider), ("state"@, "available"@)],
                h.available_keys as u64,
            ),
        ),
        says(
            provider_text(h),
            metric_text(
                "free_agent_gateway_provider_keys"@,
                seq![("provider"@, h.provider), ("state"@, "unavailable"@)],
                (h.total_keys - h.available_keys) as u64,
            ),
        ),
        says(
            provider_text(h),
            metric_text(
                "free_agent_gateway_provider_keys"@,
                seq![("provider"@, h.provider), ("state"@, "total"@)],
                h.total_keys as u64,
            ),
        ),
{
    let l = provider_label(h);
    let a = metric_text(
        "free_agent_gateway_provider_up"@,
        l,
        if h.status == "healthy"@ {
            1
        } else {
            0
        },
    );
    let b = metric_text("free_agent_gateway_provider_latency_ms"@, l, h.latency_ms);
    let c = metric_text("free_agent_gateway_provider_success_total"@, l, h.success_count);
    let d = metric_text("free_agent_gateway_provider_failures_total"@, l, h.fail_count);
    let e = metric_text("free_agent_gateway_provider_models"@, l, h.models_count as u64);
    let f = metric_text(
        "free_agent_gateway_provider_keys"@,
        keys_label(h, "available"@),
        h.available_keys as u64,
    );
    let g = metric_text(
        "free_agent_gateway_provider_keys"@,
        keys_label(h, "unavailable"@),
        (h.total_keys - h.available_keys) as u64,
    );
    let t = metric_text(
        "free_agent_gateway_provider_keys"@,
        keys_label(h, "total"@),
        h.total_keys as u64,
    );
    let text = provider_text(h);
    assert(text =~= a + b + (c + d + e + f + g + t));
    assert(text =~= (a + b) + c + (d + e + f + g + t));
    assert(text =~= (a + b + c) + d + (e + f + g + t));
    assert(text =~= (a + b + c + d + e) + f + (g + t));
    assert(text =~= (a + b + c + d + e + f) + g + t);
    assert(text =~= (a + b + c + d + e + f + g) + t + Seq::<char>::empty());
}

/// A measurement is its name, its labels in braces where it has some, and its
/// value in digits, on a line of its own.
pub proof fn measurements_have_their_form(name: Seq<char>, label: (Seq<char>, Seq<char>), value: u64)
    ensures
        metric_text(name, Seq::empty(), value) == name + " "@ + decimal(value as nat) + "\n"@,
        metric_text(name, seq![label], value) == name + "{"@ + label.0 + "=\""@ + escaped(label.1)
            + "\"}"@ + " "@ + decimal(value as nat) + "\n"@,
{
    reveal(metric_text);
    reveal_strlit("\"");
    reveal_strlit("}");
    assert("}"@.len() == 1);
    reveal_strlit("\"}");
    assert(name + Seq::<char>::empty() =~= name);
    assert("\""@ + "}"@ =~= "\"}"@);
    let labels = seq![label];
    assert(labels_text(labels) == label_text(label));
    let inner = "{"@ + label_text(label) + "}"@;
    assert(metric_text(name, labels, value) == name + inner + " "@ + decimal(value as nat)
        + "\n"@);
    assert(inner =~= "{"@ + label.0 + "=\""@ + escaped(label.1) + ("\""@ + "}"@));
    let shown = "{"@ + label.0 + "=\""@ + escaped(label.1) + "\"}"@;
    assert(name + shown =~= name + "{"@ + label.0 + "=\""@ + escaped(label.1) + "\"}"@);
}

/// A provider that is not configured is listed with nothing but its health.
pub proof fn unconfigured_providers_are_listed(config: Config, h: HealthView)
    requires
        forall|j: int|
            0 <= j < config.providers@.len() ==> (#[trigger] config.providers@[j]).0@ != h.provider,
    ensures
        ({
            let e = provider_entry(config)(h);
            &&& e.get("name"@) == Some(JsonView::Text(h.provider))
            &&& e.get("type"@) == Some(JsonView::Text("unknown"@))
            &&& e.get("base_url"@) == Some(JsonView::Null)
            &&& e.get("priority"@) == Some(num(0))
        }),
{
    named_in_nowhere(config.providers@, h.provider);
    reveal_strlit("name");
    reveal_strlit("status");
    reveal_strlit("latency_ms");
    reveal_strlit("success_count");
    reveal_strlit("fail_count");
    reveal_strlit("models_count");
    reveal_strlit("available_keys");
    reveal_strlit("total_keys");
    reveal_strlit("type");
    reveal_strlit("base_url");
    reveal_strlit("priority");
    assert("name"@.len() == 4);
    assert("status"@.len() == 6);
    assert("latency_ms"@.len() == 10);
    assert("success_count"@.len() == 13);
    assert("fail_count"@.len() == 10);
    assert("models_count"@.len() == 12);
    assert("available_keys"@.len() == 14);
    assert("total_keys"@.len() == 10);
    assert("type"@.len() == 4);
    assert("base_url"@.len() == 8);
    assert("priority"@.len() == 8);
    assert("name"@[0] != "type"@[0]);
    assert("latency_ms"@[0] != "fail_count"@[0]);
    assert("latency_ms"@[0] != "total_keys"@[0]);
    assert("fail_count"@[0] != "total_keys"@[0]);
    assert("base_url"@[0] != "priority"@[0]);
    let m = (provider_entry(config)(h))->Object_0;
    assert(m[0].0 == "name"@);
    member_at(m, 0);
    assert(m[8].0 == "type"@);
    member_at(m, 8);
    assert(m[9].0 == "base_url"@);
    member_at(m, 9);
    assert(m[10].0 == "priority"@);
    member_at(m, 10);
}

} // verus!
