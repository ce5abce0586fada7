//! The state of the whole gateway: its providers as their keys now make them.
use crate::api::admin::keys::{
    key_head, key_head_of, key_rate_usage_at, key_rate_usage_json, KeyPercents, percents_for,
    snapshot_maskable, usage_at, usage_json,
};
use crate::api::status::{
    error_json, error_to_json, provider_type_debug, strategy_debug, strategy_label, type_label,
    wide32, widen32,
};
use crate::config::Config;
use crate::health::{health_views, HealthView};
use crate::json::{
    group_json_views, items_view, Json, JsonView, num, ObjectBuilder, opt_num_json, opt_text_json,
    strings_json,
};
use crate::keyhub::pool::{count_keys, is_ready};
use crate::keystate::{KeyState, KeyStateView, KeyStatus, maskable, plus32, state_views};
use crate::lists::{first_where, first_where_is_first, kept, kept_all, kept_next, lookup, named_in};
use crate::models::HealthState;
use crate::text::{same, str_of, views};
use vstd::prelude::*;

verus! {

// ---------------------------------------------------------------- computed status
/// How a provider is counted.
#[derive(Debug, Clone, Copy, PartialEq, Eq, Structural)]
pub enum Standing {
    Healthy,
    Degraded,
    Exhausted,
    Unhealthy,
}

/// How a provider is counted: not reachable or switched off, without a usable
/// key, with some or with all of its keys usable.
pub open spec fn standing_of(h: HealthView, usable: nat) -> Standing {
    if h.status == "unhealthy"@ || h.status == "disabled"@ {
        Standing::Unhealthy
    } else if usable == 0 && h.total_keys > 0 {
        Standing::Exhausted
    } else if 0 < usable < h.total_keys {
        Standing::Degraded
    } else {
        Standing::Healthy
    }
}

/// The status that is shown of a provider.
pub open spec fn computed_status(h: HealthView, usable: nat) -> Seq<char> {
    match standing_of(h, usable) {
        Standing::Unhealthy => h.status,
        Standing::Exhausted => "exhausted"@,
        Standing::Degraded => "degraded"@,
        Standing::Healthy => if usable > 0 {
            "healthy"@
        } else {
            h.status
        },
    }
}

/// How a provider is counted.
pub fn standing(h: &HealthState, usable: usize) -> (r: Standing)
    ensures
        r == standing_of(h@, usable as nat),
{
    if same(h.status.as_str(), "unhealthy") || same(h.status.as_str(), "disabled") {
        Standing::Unhealthy
    } else if usable == 0 && h.total_keys > 0 {
        Standing::Exhausted
    } else if usable > 0 && usable < h.total_keys {
        Standing::Degraded
    } else {
        Standing::Healthy
    }
}

/// The status that is shown of a provider.
pub fn live_status(h: &HealthState, usable: usize) -> (r: String)
    ensures
        r@ == computed_status(h@, usable as nat),
{
    match standing(h, usable) {
        Standing::Unhealthy => h.status.clone(),
        Standing::Exhausted => "exhausted".to_owned(),
        Standing::Degraded => "degraded".to_owned(),
        Standing::Healthy => if usable > 0 {
            "healthy".to_owned()
        } else {
            h.status.clone()
        },
    }
}

// ---------------------------------------------------------------- keys of a provider
/// Whether an entry of a snapshot is that of a provider.
pub open spec fn is_of(provider: Seq<char>) -> spec_fn((String, Vec<KeyState>)) -> bool {
    |e: (String, Vec<KeyState>)| e.0@ == provider
}

/// Where the keys of a provider stand in a snapshot.
pub open spec fn place_of(snapshot: Seq<(String, Vec<KeyState>)>, provider: Seq<char>) -> Option<
    int,
> {
    first_where(snapshot, is_of(provider), 0)
}

fn find_place(snapshot: &Vec<(String, Vec<KeyState>)>, provider: &str) -> (r: Option<usize>)
    ensures
        match r {
            Some(i) => place_of(snapshot@, provider@) == Some(i as int) && i < snapshot@.len(),
            None => place_of(snapshot@, provider@) is None,
        },
{
    let ghost p = is_of(provider@);
    proof {
        first_where_is_first(snapshot@, p, 0);
    }
    let mut i: usize = 0;
    while i < snapshot.len()
        invariant
            i <= snapshot@.len(),
            p == is_of(provider@),
            forall|j: int| 0 <= j < i ==> !p(#[trigger] snapshot@[j]),
            first_where(snapshot@, p, 0) matches Some(k) ==> 0 <= k < snapshot@.len() && p(
                snapshot@[k],
            ) && forall|j: int| 0 <= j < k ==> !p(#[trigger] snapshot@[j]),
            first_where(snapshot@, p, 0) is None ==> forall|j: int|
                0 <= j < snapshot@.len() ==> !p(#[trigger] snapshot@[j]),
        decreases snapshot@.len() - i,
    {
        if same(snapshot[i].0.as_str(), provider) {
            assert(p(snapshot@[i as int]));
            return Some(i);
        }
        assert(!p(snapshot@[i as int]));
        i += 1;
    }
    None
}

/// The keys of a provider that can take a request.
pub open spec fn usable_keys(
    snapshot: Seq<(String, Vec<KeyState>)>,
    provider: Seq<char>,
    now: u64,
) -> nat {
    match place_of(snapshot, provider) {
        Some(i) => count_keys(state_views(snapshot[i].1@), is_ready(now)),
        None => 0,
    }
}

fn count_ready(keys: &Vec<KeyState>, now: u64) -> (r: usize)
    ensures
        r == count_keys(state_views(keys@), is_ready(now)),
{
    let ghost all = state_views(keys@);
    let mut n: usize = 0;
    let mut i: usize = 0;
    proof {
        kept_all(all, is_ready(now));
    }
    while i < keys.len()
        invariant
            i <= keys@.len(),
            n <= i,
            all == state_views(keys@),
            n == kept(all.take(i as int), is_ready(now)).len(),
        decreases keys@.len() - i,
    {
        proof {
            kept_next(all, is_ready(now), i as int);
            assert(all[i as int] == keys@[i as int]@);
        }
        if keys[i].status == KeyStatus::Available && !keys[i].is_rate_limited(now) {
            n += 1;
        }
        i += 1;
    }
    n
}

/// The number of usable keys of a provider.
pub fn usable_count(snapshot: &Vec<(String, Vec<KeyState>)>, provider: &str, now: u64) -> (r: usize)
    ensures
        r == usable_keys(snapshot@, provider@, now),
{
    match find_place(snapshot, provider) {
        Some(i) => count_ready(&snapshot[i].1, now),
        None => 0,
    }
}

// ---------------------------------------------------------------- JSON
/// A key as the overview shows it.
pub open spec fn key_overview(k: KeyStateView, now: u64, p: KeyPercents) -> JsonView {
    JsonView::Object(
        key_head(k) + seq![
            ("rpm_limit"@, opt_num_json(wide32(k.rpm_limit))),
            ("rpd_limit"@, opt_num_json(wide32(k.rpd_limit))),
            ("rpm_limit_source"@, opt_text_json(k.rpm_limit_source)),
            ("rpd_limit_source"@, opt_text_json(k.rpd_limit_source)),
            ("tpm_limit"@, opt_num_json(wide32(k.tpm_limit))),
            ("tpd_limit"@, opt_num_json(wide32(k.tpd_limit))),
            ("rpm_count"@, num(k.rpm_count as u64)),
            ("rpd_count"@, num(k.rpd_count as u64)),
            ("tpm_total"@, num(plus32(k.tpm_prompt_count, k.tpm_completion_count) as u64)),
            ("tpd_total"@, num(plus32(k.tpd_prompt_count, k.tpd_completion_count) as u64)),
            ("rate_usage"@, usage_json(usage_at(k, now), p.usage)),
            ("cooldown_until"@, opt_num_json(k.cooldown_until)),
            ("models"@, strings_json(k.models)),
        ],
    )
}

fn key_to_overview(k: &KeyState, now: u64, p: &KeyPercents) -> (r: Json)
    requires
        maskable(k.key@),
    ensures
        r@ == key_overview(k@, now, *p),
{
    let u = key_rate_usage_at(k, now);
    let mut o = key_head_of(k);
    o.put_opt_num("rpm_limit", widen32(k.rpm_limit));
    o.put_opt_num("rpd_limit", widen32(k.rpd_limit));
    o.put_opt_text("rpm_limit_source", str_of(&k.rpm_limit_source));
    o.put_opt_text("rpd_limit_source", str_of(&k.rpd_limit_source));
    o.put_opt_num("tpm_limit", widen32(k.tpm_limit));
    o.put_opt_num("tpd_limit", widen32(k.tpd_limit));
    o.put_num("rpm_count", k.rpm_count as u64);
    o.put_num("rpd_count", k.rpd_count as u64);
    o.put_num("tpm_total", k.tpm_prompt_count.saturating_add(k.tpm_completion_count) as u64);
    o.put_num("tpd_total", k.tpd_prompt_count.saturating_add(k.tpd_completion_count) as u64);
    o.put("rate_usage", key_rate_usage_json(&u, &p.usage));
    o.put_opt_num("cooldown_until", k.cooldown_until);
    o.put_strings("models", &k.models);
    assert(o@ =~= key_overview(k@, now, *p)->Object_0);
    o.done()
}

/// The keys of a provider as the overview shows them.
pub open spec fn keys_overview(
    snapshot: Seq<(String, Vec<KeyState>)>,
    provider: Seq<char>,
    now: u64,
    percents: Seq<Vec<KeyPercents>>,
) -> JsonView {
    match place_of(snapshot, provider) {
        Some(i) => JsonView::Array(
            Seq::new(
                snapshot[i].1@.len(),
                |j: int| key_overview(snapshot[i].1@[j]@, now, percents[i]@[j]),
            ),
        ),
        None => JsonView::Array(Seq::empty()),
    }
}

fn keys_to_overview(
    snapshot: &Vec<(String, Vec<KeyState>)>,
    provider: &str,
    now: u64,
    percents: &Vec<Vec<KeyPercents>>,
) -> (r: Json)
    requires
        snapshot_maskable(snapshot@),
        percents_for(snapshot@, percents@),
    ensures
        r@ == keys_overview(snapshot@, provider@, now, percents@),
{
    broadcast use group_json_views;

    let mut list: Vec<Json> = Vec::new();
    match find_place(snapshot, provider) {
        Some(i) => {
            let keys = &snapshot[i].1;
            let shares = &percents[i];
            assert(percents@[i as int]@.len() == snapshot@[i as int].1@.len());
            assert forall|j: int| 0 <= j < keys@.len() implies maskable(
                (#[trigger] keys@[j]).key@,
            ) by {
                assert(maskable(snapshot@[i as int].1@[j].key@));
            }
            let mut j: usize = 0;
            while j < keys.len()
                invariant
                    j <= keys@.len(),
                    shares@.len() == keys@.len(),
                    forall|j: int| 0 <= j < keys@.len() ==> maskable((#[trigger] keys@[j]).key@),
                    list@.len() == j,
                    forall|b: int|
                        0 <= b < j ==> (#[trigger] list@[b])@ == key_overview(
                            keys@[b]@,
                            now,
                            shares@[b],
                        ),
                decreases keys@.len() - j,
            {
                let shown = key_to_overview(&keys[j], now, &shares[j]);
                list.push(shown);
                j += 1;
            }
            assert(items_view(list@) =~= keys_overview(
                snapshot@,
                provider@,
                now,
                percents@,
            )->Array_0);
        },
        None => {
            assert(items_view(list@) =~= Seq::<JsonView>::empty());
        },
    }
    Json::Array(list)
}

/// A provider as the overview shows it.
pub open spec fn provider_overview(
    config: Config,
    h: HealthView,
    snapshot: Seq<(String, Vec<KeyState>)>,
    now: u64,
    percents: Seq<Vec<KeyPercents>>,
) -> JsonView {
    let known = named_in(config.providers@, h.provider);
    let usable = usable_keys(snapshot, h.provider, now);
    JsonView::Object(
        seq![
            ("name"@, JsonView::Text(h.provider)),
            ("status"@, JsonView::Text(h.status)),
            ("computed_status"@, JsonView::Text(computed_status(h, usable))),
            ("latency_ms"@, num(h.latency_ms)),
            ("success_count"@, num(h.success_count)),
            ("fail_count"@, num(h.fail_count)),
            ("models_count"@, num(h.models_count as u64)),
            ("available_keys"@, num(usable as u64)),
            ("total_keys"@, num(h.total_keys as u64)),
            (
                "type"@,
                JsonView::Text(
                    match known {
                        Some(c) => type_label(c.provider_type),
                        None => Seq::empty(),
                    },
                ),
            ),
            (
                "base_url"@,
                opt_text_json(
                    match known {
                        Some(c) => Some(c.base_url@),
                        None => None,
                    },
                ),
            ),
            (
                "priority"@,
                num(
                    match known {
                        Some(c) => c.priority as u64,
                        None => 0,
                    },
                ),
            ),
            ("last_error"@, error_json(h.last_error)),
            ("keys"@, keys_overview(snapshot, h.provider, now, percents)),
        ],
    )
}

fn provider_to_overview(
    config: &Config,
    h: &HealthState,
    snapshot: &Vec<(String, Vec<KeyState>)>,
    now: u64,
    percents: &Vec<Vec<KeyPercents>>,
) -> (r: Json)
    requires
        snapshot_maskable(snapshot@),
        percents_for(snapshot@, percents@),
    ensures
        r@ == provider_overview(*config, h@, snapshot@, now, percents@),
{
    let provider = h.provider.as_str();
    let usable = usable_count(snapshot, provider, now);
    let mut o = ObjectBuilder::new();
    o.put_text("name", provider);
    o.put_text("status", h.status.as_str());
    o.put_text("computed_status", live_status(h, usable).as_str());
    o.put_num("latency_ms", h.latency_ms);
    o.put_num("success_count", h.success_count);
    o.put_num("fail_count", h.fail_count);
    o.put_num("models_count", h.models_count as u64);
    o.put_num("available_keys", usable as u64);
    o.put_num("total_keys", h.total_keys as u64);
    match lookup(&config.providers, provider) {
        Some(c) => {
            o.put_text("type", provider_type_debug(c.provider_type));
            o.put_opt_text("base_url", Some(c.base_url.as_str()));
            o.put_num("priority", c.priority as u64);
        },
        None => {
            proof {
                reveal_strlit("");
            }
            assert(""@ =~= Seq::<char>::empty());
            o.put_text("type", "");
            o.put_opt_text("base_url", None);
            o.put_num("priority", 0);
        },
    }
    o.put("last_error", error_to_json(h.last_error.as_str()));
    o.put("keys", keys_to_overview(snapshot, provider, now, percents));
    assert(o@ =~= provider_overview(*config, h@, snapshot@, now, percents@)->Object_0);
    o.done()
}

// ---------------------------------------------------------------- counts
/// Whether a provider stands so.
pub open spec fn stands(
    snapshot: Seq<(String, Vec<KeyState>)>,
    now: u64,
    s: Standing,
) -> spec_fn(HealthView) -> bool {
    |h: HealthView| standing_of(h, usable_keys(snapshot, h.provider, now)) == s
}

/// How many providers stand so.
pub open spec fn count_standing(
    states: Seq<HealthView>,
    snapshot: Seq<(String, Vec<KeyState>)>,
    now: u64,
    s: Standing,
) -> nat {
    kept(states, stands(snapshot, now, s)).len()
}

/// How many providers stand how.
#[derive(Debug, Clone, Copy, PartialEq, Eq, Structural)]
pub struct Standings {
    pub healthy: usize,
    pub degraded: usize,
    pub exhausted: usize,
    pub unhealthy: usize,
}

/// Counts how the providers stand.
pub fn count_standings(
    states: &Vec<HealthState>,
    snapshot: &Vec<(String, Vec<KeyState>)>,
    now: u64,
) -> (r: Standings)
    ensures
        r.healthy == count_standing(health_views(states@), snapshot@, now, Standing::Healthy),
        r.degraded == count_standing(health_views(states@), snapshot@, now, Standing::Degraded),
        r.exhausted == count_standing(health_views(states@), snapshot@, now, Standing::Exhausted),
        r.unhealthy == count_standing(health_views(states@), snapshot@, now, Standing::Unhealthy),
        r.healthy + r.degraded + r.exhausted + r.unhealthy == states@.len(),
{
    let ghost all = health_views(states@);
    let ghost (a, b, c, d) = (
        stands(snapshot@, now, Standing::Healthy),
        stands(snapshot@, now, Standing::Degraded),
        stands(snapshot@, now, Standing::Exhausted),
        stands(snapshot@, now, Standing::Unhealthy),
    );
    let mut r = Standings { healthy: 0, degraded: 0, exhausted: 0, unhealthy: 0 };
    let mut i: usize = 0;
    proof {
        kept_all(all, a);
        kept_all(all, b);
        kept_all(all, c);
        kept_all(all, d);
    }
    while i < states.len()
        invariant
            i <= states@.len(),
            all == health_views(states@),
            a == stands(snapshot@, now, Standing::Healthy),
            b == stands(snapshot@, now, Standing::Degraded),
            c == stands(snapshot@, now, Standing::Exhausted),
            d == stands(snapshot@, now, Standing::Unhealthy),
            r.healthy == kept(all.take(i as int), a).len(),
            r.degraded == kept(all.take(i as int), b).len(),
            r.exhausted == kept(all.take(i as int), c).len(),
            r.unhealthy == kept(all.take(i as int), d).len(),
            r.healthy + r.degraded + r.exhausted + r.unhealthy == i,
        decreases states@.len() - i,
    {
        proof {
            kept_next(all, a, i as int);
            kept_next(all, b, i as int);
            kept_next(all, c, i as int);
            kept_next(all, d, i as int);
            assert(all[i as int] == states@[i as int]@);
        }
        let h = &states[i];
        let usable = usable_count(snapshot, h.provider.as_str(), now);
        match standing(h, usable) {
            Standing::Healthy => {
                r.healthy = r.healthy + 1;
            },
            Standing::Degraded => {
                r.degraded = r.degraded + 1;
            },
            Standing::Exhausted => {
                r.exhausted = r.exhausted + 1;
            },
            Standing::Unhealthy => {
                r.unhealthy = r.unhealthy + 1;
            },
        }
        i += 1;
    }
    r
}

/// Every provider stands in exactly one way: the counts add up.
pub proof fn standings_add_up(
    states: Seq<HealthView>,
    snapshot: Seq<(String, Vec<KeyState>)>,
    now: u64,
)
    ensures
        count_standing(states, snapshot, now, Standing::Healthy) + count_standing(
            states,
            snapshot,
            now,
            Standing::Degraded,
        ) + count_standing(states, snapshot, now, Standing::Exhausted) + count_standing(
            states,
            snapshot,
            now,
            Standing::Unhealthy,
        ) == states.len(),
    decreases states.len(),
{
    if states.len() > 0 {
        standings_add_up(states.drop_last(), snapshot, now);
    }
}

/// The state of the gateway.
pub open spec fn status_answer(
    config: Config,
    states: Seq<HealthView>,
    snapshot: Seq<(String, Vec<KeyState>)>,
    now: u64,
    percents: Seq<Vec<KeyPercents>>,
    version: Seq<char>,
    uptime: u64,
    total_requests: u64,
    total_errors: u64,
) -> JsonView {
    JsonView::Object(
        seq![
            ("version"@, JsonView::Text(version)),
            ("uptime_seconds"@, num(uptime)),
            ("total_requests"@, num(total_requests)),
            ("total_errors"@, num(total_errors)),
            (
                "providers"@,
                JsonView::Array(
                    states.map_values(
                        |h: HealthView| provider_overview(config, h, snapshot, now, percents),
                    ),
                ),
            ),
            ("fallback_chain"@, strings_json(views(config.fallback@))),
            (
                "healthy_count"@,
                num(
                    (count_standing(states, snapshot, now, Standing::Healthy) + count_standing(
                        states,
                        snapshot,
                        now,
                        Standing::Degraded,
                    )) as u64,
                ),
            ),
            (
                "unhealthy_count"@,
                num(count_standing(states, snapshot, now, Standing::Unhealthy) as u64),
            ),
            ("total_providers"@, num(states.len() as u64)),
            (
                "exhausted_count"@,
                num(count_standing(states, snapshot, now, Standing::Exhausted) as u64),
            ),
            ("routing_strategy"@, JsonView::Text(strategy_label(config.routing.strategy))),
        ],
    )
}

/// The state of the gateway.
pub fn admin_status(
    config: &Config,
    states: &Vec<HealthState>,
    snapshot: &Vec<(String, Vec<KeyState>)>,
    now: u64,
    percents: &Vec<Vec<KeyPercents>>,
    version: &str,
    uptime: u64,
    total_requests: u64,
    total_errors: u64,
) -> (r: Json)
    requires
        snapshot_maskable(snapshot@),
        percents_for(snapshot@, percents@),
    ensures
        r@ == status_answer(
            *config,
            health_views(states@),
            snapshot@,
            now,
            percents@,
            version@,
            uptime,
            total_requests,
            total_errors,
        ),
{
    broadcast use group_json_views;

    let ghost goal = status_answer(
        *config,
        health_views(states@),
        snapshot@,
        now,
        percents@,
        version@,
        uptime,
        total_requests,
        total_errors,
    );
    let mut list: Vec<Json> = Vec::new();
    let mut i: usize = 0;
    while i < states.len()
        invariant
            i <= states@.len(),
            snapshot_maskable(snapshot@),
            percents_for(snapshot@, percents@),
            list@.len() == i,
            forall|b: int|
                0 <= b < i ==> (#[trigger] list@[b])@ == provider_overview(
                    *config,
                    states@[b]@,
                    snapshot@,
                    now,
                    percents@,
                ),
        decreases states@.len() - i,
    {
        let shown = provider_to_overview(config, &states[i], snapshot, now, percents);
        list.push(shown);
        i += 1;
    }
    assert(items_view(list@) =~= goal->Object_0[4].1->Array_0);
    let counts = count_standings(states, snapshot, now);
    let mut o = ObjectBuilder::new();
    o.put_text("version", version);
    o.put_num("uptime_seconds", uptime);
    o.put_num("total_requests", total_requests);
    o.put_num("total_errors", total_errors);
    o.put("providers", Json::Array(list));
    o.put_strings("fallback_chain", &config.fallback);
    o.put_num("healthy_count", (counts.healthy + counts.degraded) as u64);
    o.put_num("unhealthy_count", counts.unhealthy as u64);
    o.put_num("total_providers", states.len() as u64);
    o.put_num("exhausted_count", counts.exhausted as u64);
    o.put_text("routing_strategy", strategy_debug(config.routing.strategy));
    assert(o@ =~= goal->Object_0);
    o.done()
}

} // verus!
