//! The models of a provider: how much of each its keys can take, and which are
//! switched off.
use crate::api::admin::events::{event, event_json};
use crate::api::admin::keys::{AxisUsage, key_rate_usage_at, usage_at};
use crate::api::admin::trial::{key_refusal, key_refusal_to_json};
use crate::api::admin::validation::{append_strings, disabled_of};
use crate::api::models::{DisabledModels, is_disabled};
use crate::api::status::{wide16, widen16};
use crate::clock::now_seconds;
use crate::error::{GatewayResult, message_of};
use crate::json::{group_json_views, items_view, Json, JsonView, num, ObjectBuilder, opt_num_json};
use crate::keyhub::KeyHub;
use crate::keyhub::hub::restored_result;
use crate::keyhub::pool::{id_index, id_index_in_range, id_maskable};
use crate::keystate::{
    KeyState, KeyStateView, KeyStatus, mask, masking_is_idempotent, plus64, state_views,
    status_name,
};
use crate::lists::{
    flat, flat_all, flat_next, kept, kept_all, kept_next, kept_satisfies, lookup, named_in,
    put_named,
};
use crate::sorting::{sort_and_dedup, sorted_set};
use crate::text::{copy_strings, list_has, same, views};
use vstd::prelude::*;

verus! {

// ---------------------------------------------------------------- capacities
/// How much of one kind the keys of a model can take in all.
#[derive(Debug, Clone, Copy, PartialEq, Eq, Structural)]
pub struct AxisCapacity {
    /// The sum of the limits of all keys.
    pub limit: Option<u64>,
    /// The sum of the limits of the keys that can take a request.
    pub effective: Option<u64>,
    /// What is left of it.
    pub remaining: Option<u64>,
    /// Whether some key that can take a request has no limit.
    pub unconstrained: bool,
}

/// A sum that is not there yet, with one number more.
pub open spec fn summed(sum: Option<u64>, n: u64) -> Option<u64> {
    match sum {
        Some(s) => Some(plus64(s, n)),
        None => Some(n),
    }
}

fn add_to(sum: Option<u64>, n: u64) -> (r: Option<u64>)
    ensures
        r == summed(sum, n),
{
    match sum {
        Some(s) => Some(s.saturating_add(n)),
        None => Some(n),
    }
}

impl AxisCapacity {
    /// No capacity at all.
    pub open spec fn none() -> AxisCapacity {
        AxisCapacity { limit: None, effective: None, remaining: None, unconstrained: false }
    }

    /// The capacity with one key more.
    pub open spec fn with(self, a: AxisUsage, ready: bool) -> AxisCapacity {
        match a.limit {
            Some(limit) => AxisCapacity {
                limit: summed(self.limit, limit as u64),
                effective: if ready {
                    summed(self.effective, limit as u64)
                } else {
                    self.effective
                },
                remaining: if ready {
                    summed(self.remaining, a.left()->0 as u64)
                } else {
                    self.remaining
                },
                ..self
            },
            None => AxisCapacity { unconstrained: self.unconstrained || ready, ..self },
        }
    }

    /// The capacity with one key more.
    fn add_key(&self, a: &AxisUsage, ready: bool) -> (r: AxisCapacity)
        ensures
            r == self.with(*a, ready),
    {
        match a.limit {
            Some(limit) => {
                let left: u64 = if limit > a.used {
                    (limit - a.used) as u64
                } else {
                    0
                };
                AxisCapacity {
                    limit: add_to(self.limit, limit as u64),
                    effective: if ready {
                        add_to(self.effective, limit as u64)
                    } else {
                        self.effective
                    },
                    remaining: if ready {
                        add_to(self.remaining, left)
                    } else {
                        self.remaining
                    },
                    unconstrained: self.unconstrained,
                }
            },
            None => AxisCapacity {
                limit: self.limit,
                effective: self.effective,
                remaining: self.remaining,
                unconstrained: self.unconstrained || ready,
            },
        }
    }
}

/// How much the keys of a model can take in all.
#[derive(Debug, Clone, Copy, PartialEq, Eq, Structural)]
pub struct Capacity {
    pub key_count: u64,
    pub keys_healthy: u64,
    pub rpm: AxisCapacity,
    pub rpd: AxisCapacity,
    pub tpm: AxisCapacity,
    pub tpd: AxisCapacity,
}

impl Capacity {
    /// No capacity at all.
    pub open spec fn none() -> Capacity {
        Capacity {
            key_count: 0,
            keys_healthy: 0,
            rpm: AxisCapacity::none(),
            rpd: AxisCapacity::none(),
            tpm: AxisCapacity::none(),
            tpd: AxisCapacity::none(),
        }
    }

    /// The capacity with one key more. Only a key that can take a request adds to
    /// what is effective.
    pub open spec fn with(self, k: KeyStateView, now: u64) -> Capacity {
        let u = usage_at(k, now);
        let ready = k.ready(now);
        Capacity {
            key_count: plus64(self.key_count, 1),
            keys_healthy: if ready {
                plus64(self.keys_healthy, 1)
            } else {
                self.keys_healthy
            },
            rpm: self.rpm.with(u.rpm, ready),
            rpd: self.rpd.with(u.rpd, ready),
            tpm: self.tpm.with(u.tpm, ready),
            tpd: self.tpd.with(u.tpd, ready),
        }
    }

    /// The capacity with some keys more.
    pub open spec fn with_all(self, keys: Seq<KeyStateView>, now: u64) -> Capacity
        decreases keys.len(),
    {
        if keys.len() == 0 {
            self
        } else {
            self.with_all(keys.drop_last(), now).with(keys.last(), now)
        }
    }

    /// The capacity with one key more.
    pub fn add_effective_model_capacity(&self, key: &KeyState, now: u64) -> (r: Capacity)
        ensures
            r == self.with(key@, now),
    {
        let u = key_rate_usage_at(key, now);
        let ready = key.status == KeyStatus::Available && !key.is_rate_limited(now);
        Capacity {
            key_count: self.key_count.saturating_add(1),
            keys_healthy: if ready {
                self.keys_healthy.saturating_add(1)
            } else {
                self.keys_healthy
            },
            rpm: self.rpm.add_key(&u.rpm, ready),
            rpd: self.rpd.add_key(&u.rpd, ready),
            tpm: self.tpm.add_key(&u.tpm, ready),
            tpd: self.tpd.add_key(&u.tpd, ready),
        }
    }
}

/// Whether a name is that of a model.
pub open spec fn is_model(model: Seq<char>) -> spec_fn(Seq<char>) -> bool {
    |m: Seq<char>| m == model
}

/// A key, as often as it names a model.
pub open spec fn as_often(model: Seq<char>) -> spec_fn(KeyStateView) -> Seq<KeyStateView> {
    |k: KeyStateView| kept(k.models, is_model(model)).map_values(|m: Seq<char>| k)
}

/// The keys that serve a model, each as often as it names it.
pub open spec fn serving(keys: Seq<KeyStateView>, model: Seq<char>) -> Seq<KeyStateView> {
    flat(keys, as_often(model))
}

/// How much the keys of a model can take in all.
pub open spec fn capacity_of(keys: Seq<KeyStateView>, model: Seq<char>, now: u64) -> Capacity {
    Capacity::none().with_all(serving(keys, model), now)
}

/// How much the keys of a model can take in all.
pub fn model_capacity(keys: &Vec<KeyState>, model: &str, now: u64) -> (r: Capacity)
    ensures
        r == capacity_of(state_views(keys@), model@, now),
{
    let ghost all = state_views(keys@);
    let ghost f = as_often(model@);
    let ghost p = is_model(model@);
    let none = AxisCapacity { limit: None, effective: None, remaining: None, unconstrained: false };
    let mut sum = Capacity {
        key_count: 0,
        keys_healthy: 0,
        rpm: none,
        rpd: none,
        tpm: none,
        tpd: none,
    };
    let mut i: usize = 0;
    proof {
        flat_all(all, f);
        assert(all.take(0) =~= Seq::<KeyStateView>::empty());
        assert(sum == Capacity::none().with_all(flat(all.take(0), f), now));
    }
    while i < keys.len()
        invariant
            i <= keys@.len(),
            all == state_views(keys@),
            f == as_often(model@),
            p == is_model(model@),
            sum == Capacity::none().with_all(flat(all.take(i as int), f), now),
        decreases keys@.len() - i,
    {
        let key = &keys[i];
        let ghost done = flat(all.take(i as int), f);
        let ghost names = key@.models;
        let ghost same_key = |m: Seq<char>| key@;
        let mut j: usize = 0;
        proof {
            kept_all(names, p);
            assert(done + kept(names.take(0), p).map_values(same_key) =~= done);
        }
        while j < key.models.len()
            invariant
                j <= key.models@.len(),
                names == views(key.models@),
                p == is_model(model@),
                same_key == (|m: Seq<char>| key@),
                sum == Capacity::none().with_all(
                    done + kept(names.take(j as int), p).map_values(same_key),
                    now,
                ),
            decreases key.models@.len() - j,
        {
            let ghost before = kept(names.take(j as int), p).map_values(same_key);
            proof {
                kept_next(names, p, j as int);
                assert(names[j as int] == key.models@[j as int]@);
            }
            if same(key.models[j].as_str(), model) {
                sum = sum.add_effective_model_capacity(key, now);
                proof {
                    let longer = kept(names.take(j + 1), p).map_values(same_key);
                    assert(longer =~= before.push(key@));
                    assert((done + longer).drop_last() =~= done + before);
                }
            }
            j += 1;
        }
        proof {
            kept_all(names, p);
            flat_next(all, f, i as int);
            assert(all[i as int] == key@);
            assert(f(key@) =~= kept(names, p).map_values(same_key));
        }
        i += 1;
    }
    proof {
        flat_all(all, f);
    }
    sum
}

// ---------------------------------------------------------------- the list
/// The names that keys list, in order, each as often as it is listed.
pub open spec fn listed_models() -> spec_fn(KeyStateView) -> Seq<Seq<char>> {
    |k: KeyStateView| k.models
}

/// The models of some keys, in alphabetical order.
pub open spec fn models_of(keys: Seq<KeyStateView>) -> Seq<Seq<char>> {
    sorted_set(flat(keys, listed_models()))
}

fn model_names(keys: &Vec<KeyState>) -> (r: Vec<String>)
    ensures
        views(r@) == models_of(state_views(keys@)),
{
    let ghost all = state_views(keys@);
    let ghost f = listed_models();
    let mut names: Vec<String> = Vec::new();
    let mut i: usize = 0;
    proof {
        flat_all(all, f);
        assert(all.take(0) =~= Seq::<KeyStateView>::empty());
        assert(views(names@) =~= flat(all.take(0), f));
    }
    while i < keys.len()
        invariant
            i <= keys@.len(),
            all == state_views(keys@),
            f == listed_models(),
            views(names@) == flat(all.take(i as int), f),
        decreases keys@.len() - i,
    {
        let more = copy_strings(&keys[i].models);
        append_strings(&mut names, more);
        proof {
            flat_next(all, f, i as int);
            assert(all[i as int] == keys@[i as int]@);
        }
        i += 1;
    }
    proof {
        flat_all(all, f);
    }
    sort_and_dedup(names)
}

/// Why a model cannot be used.
pub open spec fn unavailable_reason(enabled: bool, healthy: u64) -> JsonView {
    if !enabled {
        JsonView::Text("disabled"@)
    } else if healthy == 0 {
        JsonView::Text("no_available_key"@)
    } else {
        JsonView::Null
    }
}

/// A model as JSON. It can be used where it is enabled and some key of it can
/// take a request.
pub open spec fn model_json(id: Seq<char>, enabled: bool, c: Capacity) -> JsonView {
    JsonView::Object(
        seq![
            ("id"@, JsonView::Text(id)),
            ("enabled"@, JsonView::Bool(enabled)),
            ("key_count"@, num(c.key_count)),
            ("rpm_limit"@, opt_num_json(c.rpm.limit)),
            ("rpd_limit"@, opt_num_json(c.rpd.limit)),
            ("tpm_limit"@, opt_num_json(c.tpm.limit)),
            ("tpd_limit"@, opt_num_json(c.tpd.limit)),
            ("effective_rpm_limit"@, opt_num_json(c.rpm.effective)),
            ("effective_rpd_limit"@, opt_num_json(c.rpd.effective)),
            ("effective_tpm_limit"@, opt_num_json(c.tpm.effective)),
            ("effective_tpd_limit"@, opt_num_json(c.tpd.effective)),
            ("rpm_remaining"@, opt_num_json(c.rpm.remaining)),
            ("rpd_remaining"@, opt_num_json(c.rpd.remaining)),
            ("tpm_remaining"@, opt_num_json(c.tpm.remaining)),
            ("tpd_remaining"@, opt_num_json(c.tpd.remaining)),
            ("rpm_unconstrained"@, JsonView::Bool(c.rpm.unconstrained)),
            ("rpd_unconstrained"@, JsonView::Bool(c.rpd.unconstrained)),
            ("tpm_unconstrained"@, JsonView::Bool(c.tpm.unconstrained)),
            ("tpd_unconstrained"@, JsonView::Bool(c.tpd.unconstrained)),
            ("keys_healthy"@, num(c.keys_healthy)),
            ("available"@, JsonView::Bool(enabled && c.keys_healthy > 0)),
            ("unavailable_reason"@, unavailable_reason(enabled, c.keys_healthy)),
        ],
    )
}

fn model_to_json(id: &str, enabled: bool, c: &Capacity) -> (r: Json)
    ensures
        r@ == model_json(id@, enabled, *c),
{
    let mut o = ObjectBuilder::new();
    o.put_text("id", id);
    o.put_bool("enabled", enabled);
    o.put_num("key_count", c.key_count);
    o.put_opt_num("rpm_limit", c.rpm.limit);
    o.put_opt_num("rpd_limit", c.rpd.limit);
    o.put_opt_num("tpm_limit", c.tpm.limit);
    o.put_opt_num("tpd_limit", c.tpd.limit);
    o.put_opt_num("effective_rpm_limit", c.rpm.effective);
    o.put_opt_num("effective_rpd_limit", c.rpd.effective);
    o.put_opt_num("effective_tpm_limit", c.tpm.effective);
    o.put_opt_num("effective_tpd_limit", c.tpd.effective);
    o.put_opt_num("rpm_remaining", c.rpm.remaining);
    o.put_opt_num("rpd_remaining", c.rpd.remaining);
    o.put_opt_num("tpm_remaining", c.tpm.remaining);
    o.put_opt_num("tpd_remaining", c.tpd.remaining);
    o.put_bool("rpm_unconstrained", c.rpm.unconstrained);
    o.put_bool("rpd_unconstrained", c.rpd.unconstrained);
    o.put_bool("tpm_unconstrained", c.tpm.unconstrained);
    o.put_bool("tpd_unconstrained", c.tpd.unconstrained);
    o.put_num("keys_healthy", c.keys_healthy);
    o.put_bool("available", enabled && c.keys_healthy > 0);
    if !enabled {
        o.put_text("unavailable_reason", "disabled");
    } else if c.keys_healthy == 0 {
        o.put_text("unavailable_reason", "no_available_key");
    } else {
        o.put("unavailable_reason", Json::Null);
    }
    assert(o@ =~= model_json(id@, enabled, *c)->Object_0);
    o.done()
}

/// Whether a model is not among those that are switched off.
pub open spec fn is_on(disabled: Seq<Seq<char>>) -> spec_fn(Seq<char>) -> bool {
    |m: Seq<char>| !disabled.contains(m)
}

/// The models of a provider.
pub open spec fn models_answer(
    provider: Seq<char>,
    keys: Seq<KeyStateView>,
    disabled: Seq<Seq<char>>,
    now: u64,
) -> JsonView {
    let names = models_of(keys);
    let on = kept(names, is_on(disabled)).len();
    JsonView::Object(
        seq![
            ("provider"@, JsonView::Text(provider)),
            (
                "models"@,
                JsonView::Array(
                    names.map_values(
                        |m: Seq<char>|
                            model_json(m, !disabled.contains(m), capacity_of(keys, m, now)),
                    ),
                ),
            ),
            ("total"@, num(names.len() as u64)),
            ("enabled_count"@, num(on as u64)),
            ("disabled_count"@, num((names.len() - on) as u64)),
        ],
    )
}

fn models_to_json(provider: &str, keys: &Vec<KeyState>, disabled: &Vec<String>, now: u64) -> (r:
    Json)
    ensures
        r@ == models_answer(provider@, state_views(keys@), views(disabled@), now),
{
    broadcast use group_json_views;

    let ghost all = state_views(keys@);
    let ghost off = views(disabled@);
    let ghost goal = models_answer(provider@, all, off, now);
    let ghost p = is_on(off);
    let names = model_names(keys);
    let ghost shown = views(names@);
    let mut list: Vec<Json> = Vec::new();
    let mut on: usize = 0;
    let mut i: usize = 0;
    proof {
        kept_all(shown, p);
    }
    while i < names.len()
        invariant
            i <= names@.len(),
            all == state_views(keys@),
            off == views(disabled@),
            p == is_on(off),
            shown == views(names@),
            list@.len() == i,
            on <= i,
            on == kept(shown.take(i as int), p).len(),
            forall|b: int|
                0 <= b < i ==> (#[trigger] list@[b])@ == model_json(
                    shown[b],
                    !off.contains(shown[b]),
                    capacity_of(all, shown[b], now),
                ),
        decreases names@.len() - i,
    {
        proof {
            kept_next(shown, p, i as int);
            assert(shown[i as int] == names@[i as int]@);
        }
        let enabled = !list_has(disabled, names[i].as_str());
        let capacity = model_capacity(keys, names[i].as_str(), now);
        list.push(model_to_json(names[i].as_str(), enabled, &capacity));
        if enabled {
            on += 1;
        }
        i += 1;
    }
    proof {
        kept_all(shown, p);
    }
    assert(items_view(list@) =~= goal->Object_0[1].1->Array_0);
    let mut o = ObjectBuilder::new();
    o.put_text("provider", provider);
    o.put("models", Json::Array(list));
    o.put_num("total", names.len() as u64);
    o.put_num("enabled_count", on as u64);
    o.put_num("disabled_count", (names.len() - on) as u64);
    assert(o@ =~= goal->Object_0);
    o.done()
}

/// The keys of a provider in a snapshot.
pub open spec fn keys_in(snapshot: Seq<(String, Vec<KeyState>)>, provider: Seq<char>) -> Seq<
    KeyStateView,
> {
    match named_in(snapshot, provider) {
        Some(keys) => state_views(keys@),
        None => Seq::empty(),
    }
}

/// The models of a provider, with how much its keys can take.
pub fn admin_provider_models_get(
    snapshot: &Vec<(String, Vec<KeyState>)>,
    disabled: &DisabledModels,
    provider_name: &str,
    now: u64,
) -> (r: Json)
    ensures
        r@ == models_answer(
            provider_name@,
            keys_in(snapshot@, provider_name@),
            disabled_of(disabled@, provider_name@),
            now,
        ),
{
    let no_keys: Vec<KeyState> = Vec::new();
    let none_off: Vec<String> = Vec::new();
    assert(state_views(no_keys@) =~= Seq::<KeyStateView>::empty());
    assert(views(none_off@) =~= Seq::<Seq<char>>::empty());
    let keys = match lookup(snapshot, provider_name) {
        Some(k) => k,
        None => &no_keys,
    };
    let off = match lookup(disabled, provider_name) {
        Some(list) => list,
        None => &none_off,
    };
    models_to_json(provider_name, keys, off, now)
}

// ---------------------------------------------------------------- laws of capacities
/// Whether one sum is at most another, where both are there.
pub open spec fn within(a: Option<u64>, b: Option<u64>) -> bool {
    a matches Some(x) ==> b matches Some(y) && x <= y
}

/// What is left is at most what is effective, and that at most the limit.
pub open spec fn axis_consistent(c: AxisCapacity) -> bool {
    within(c.remaining, c.effective) && within(c.effective, c.limit)
}

proof fn capacity_consistent(c: Capacity, keys: Seq<KeyStateView>, now: u64)
    requires
        c.keys_healthy <= c.key_count,
        axis_consistent(c.rpm),
        axis_consistent(c.rpd),
        axis_consistent(c.tpm),
        axis_consistent(c.tpd),
    ensures
        c.with_all(keys, now).keys_healthy <= c.with_all(keys, now).key_count,
        axis_consistent(c.with_all(keys, now).rpm),
        axis_consistent(c.with_all(keys, now).rpd),
        axis_consistent(c.with_all(keys, now).tpm),
        axis_consistent(c.with_all(keys, now).tpd),
    decreases keys.len(),
{
    if keys.len() > 0 {
        capacity_consistent(c, keys.drop_last(), now);
    }
}

/// Of every model: no more keys are healthy than there are, no more is left than
/// is effective, and no more is effective than the limits allow.
pub proof fn capacities_are_consistent(keys: Seq<KeyStateView>, model: Seq<char>, now: u64)
    ensures
        ({
            let c = capacity_of(keys, model, now);
            &&& c.keys_healthy <= c.key_count
            &&& axis_consistent(c.rpm)
            &&& axis_consistent(c.rpd)
            &&& axis_consistent(c.tpm)
            &&& axis_consistent(c.tpd)
        }),
{
    capacity_consistent(Capacity::none(), serving(keys, model), now);
}

// ---------------------------------------------------------------- switching
/// The list without a name.
pub open spec fn without_name(list: Seq<Seq<char>>, name: Seq<char>) -> Seq<Seq<char>> {
    kept(list, |m: Seq<char>| m != name)
}

fn remove_name(list: &Vec<String>, name: &str) -> (r: Vec<String>)
    ensures
        views(r@) == without_name(views(list@), name@),
{
    let ghost all = views(list@);
    let ghost p = |m: Seq<char>| m != name@;
    let mut out: Vec<String> = Vec::new();
    let mut i: usize = 0;
    proof {
        kept_all(all, p);
        assert(views(out@) =~= kept(all.take(0), p));
    }
    while i < list.len()
        invariant
            i <= list@.len(),
            all == views(list@),
            p == (|m: Seq<char>| m != name@),
            views(out@) == kept(all.take(i as int), p),
        decreases list@.len() - i,
    {
        proof {
            kept_next(all, p, i as int);
            assert(all[i as int] == list@[i as int]@);
        }
        if !same(list[i].as_str(), name) {
            let ghost before = views(out@);
            out.push(list[i].clone());
            assert(views(out@) =~= before.push(list@[i as int]@));
        }
        i += 1;
    }
    proof {
        kept_all(all, p);
    }
    out
}

/// What is told of a switch.
pub open spec fn switch_data(provider: Seq<char>, model: Seq<char>, enabled: bool) -> Seq<
    (Seq<char>, JsonView),
> {
    seq![
        ("provider"@, JsonView::Text(provider)),
        ("model"@, JsonView::Text(model)),
        ("enabled"@, JsonView::Bool(enabled)),
    ]
}

/// The reply to a switch.
pub open spec fn switch_reply(provider: Seq<char>, model: Seq<char>, enabled: bool) -> JsonView {
    JsonView::Object(
        seq![("success"@, JsonView::Bool(true))] + switch_data(provider, model, enabled),
    )
}

/// Whether exactly one model of one provider was switched.
pub open spec fn toggled(
    before: Seq<(String, Vec<String>)>,
    after: Seq<(String, Vec<String>)>,
    provider: Seq<char>,
    model: Seq<char>,
) -> bool {
    forall|p: Seq<char>, m: Seq<char>| #[trigger]
        is_disabled(after, p, m) == if p == provider && m == model {
            !is_disabled(before, p, m)
        } else {
            is_disabled(before, p, m)
        }
}

/// Switches a model of a provider. Gives what listeners are told, and the reply.
pub fn admin_provider_models_toggle(
    disabled: &mut DisabledModels,
    provider_name: &str,
    model_id: &str,
) -> (r: (Json, Json))
    ensures
        toggled(old(disabled)@, final(disabled)@, provider_name@, model_id@),
        exists|now: u64|
            r.0@ == #[trigger] event_json(
                "model_toggle"@,
                JsonView::Object(
                    switch_data(
                        provider_name@,
                        model_id@,
                        is_disabled(old(disabled)@, provider_name@, model_id@),
                    ),
                ),
                now,
            ),
        r.1@ == switch_reply(
            provider_name@,
            model_id@,
            is_disabled(old(disabled)@, provider_name@, model_id@),
        ),
{
    let ghost before = disabled@;
    let off = match lookup(disabled, provider_name) {
        Some(list) => copy_strings(list),
        None => Vec::new(),
    };
    let ghost names = views(off@);
    let ghost was = is_disabled(before, provider_name@, model_id@);
    assert(was == names.contains(model_id@));
    let enabled = list_has(&off, model_id);
    let changed = if enabled {
        remove_name(&off, model_id)
    } else {
        let mut more = off;
        more.push(model_id.to_owned());
        assert(views(more@) =~= names.push(model_id@));
        more
    };
    let ghost after_names = views(changed@);
    put_named(disabled, provider_name, changed);
    proof {
        assert forall|p: Seq<char>, m: Seq<char>| #[trigger]
            is_disabled(disabled@, p, m) == if p == provider_name@ && m == model_id@ {
                !is_disabled(before, p, m)
            } else {
                is_disabled(before, p, m)
            } by {
            if p == provider_name@ {
                assert(named_in(disabled@, p) == Some(changed));
                assert(is_disabled(before, p, m) == names.contains(m));
                if enabled {
                    let keep = |x: Seq<char>| x != model_id@;
                    kept_satisfies(names, keep);
                    assert(after_names == kept(names, keep));
                    if after_names.contains(m) {
                        let k = choose|k: int| 0 <= k < after_names.len() && after_names[k] == m;
                        assert(keep(after_names[k]));
                    }
                } else {
                    assert(after_names == names.push(model_id@));
                    if names.contains(m) {
                        let k = choose|k: int| 0 <= k < names.len() && names[k] == m;
                        assert(after_names[k] == m);
                    }
                    assert(after_names[names.len() as int] == model_id@);
                    if after_names.contains(m) && m != model_id@ {
                        let k = choose|k: int| 0 <= k < after_names.len() && after_names[k] == m;
                        assert(names[k] == m);
                    }
                }
            } else {
                assert(named_in(disabled@, p) == named_in(before, p));
            }
        }
    }
    let mut data = ObjectBuilder::new();
    data.put_text("provider", provider_name);
    data.put_text("model", model_id);
    data.put_bool("enabled", enabled);
    assert(data@ =~= switch_data(provider_name@, model_id@, was));
    let told = event("model_toggle", data.done(), now_seconds());
    let mut o = ObjectBuilder::new();
    o.put_bool("success", true);
    o.put_text("provider", provider_name);
    o.put_text("model", model_id);
    o.put_bool("enabled", enabled);
    assert(o@ =~= switch_reply(provider_name@, model_id@, was)->Object_0);
    (told, o.done())
}

/// Switching a model twice leaves everything as it was.
pub proof fn switching_twice_restores(
    first: Seq<(String, Vec<String>)>,
    second: Seq<(String, Vec<String>)>,
    third: Seq<(String, Vec<String>)>,
    provider: Seq<char>,
    model: Seq<char>,
    p: Seq<char>,
    m: Seq<char>,
)
    requires
        toggled(first, second, provider, model),
        toggled(second, third, provider, model),
    ensures
        is_disabled(third, p, m) == is_disabled(first, p, m),
{
    assert(is_disabled(second, p, m) == if p == provider && m == model {
        !is_disabled(first, p, m)
    } else {
        is_disabled(first, p, m)
    });
}

/// A model that is switched off is not shown as available, whatever its keys
/// can take.
pub proof fn disabled_models_are_unavailable(id: Seq<char>, c: Capacity)
    ensures
        model_json(id, false, c)->Object_0[20] == ("available"@, JsonView::Bool(false)),
        model_json(id, false, c)->Object_0[21] == (
            "unavailable_reason"@,
            JsonView::Text("disabled"@),
        ),
{
}

// ---------------------------------------------------------------- restoring keys
/// A restored key as JSON.
pub open spec fn restored_key(k: KeyStateView) -> JsonView {
    JsonView::Object(
        seq![
            ("key_id"@, JsonView::Text(k.key_id)),
            ("key"@, JsonView::Text(mask(k.key))),
            ("status"@, JsonView::Text(status_name(k.status))),
            ("fail_count"@, num(k.fail_count as u64)),
            ("last_error_at"@, opt_num_json(k.last_error_at)),
            ("last_error_status"@, opt_num_json(wide16(k.last_error_status))),
            ("status_updated_at"@, opt_num_json(k.status_updated_at)),
            ("last_recovered_at"@, opt_num_json(k.last_recovered_at)),
        ],
    )
}

/// The reply to the restoration of a key.
pub open spec fn restore_reply(provider: Seq<char>, key_id: Seq<char>, k: KeyStateView) -> JsonView {
    JsonView::Object(
        seq![
            ("success"@, JsonView::Bool(true)),
            ("provider"@, JsonView::Text(provider)),
            ("key_id"@, JsonView::Text(key_id)),
            ("key"@, restored_key(k)),
        ],
    )
}

/// What is told of the restoration of a key.
pub open spec fn restore_data(provider: Seq<char>, key_id: Seq<char>, status: KeyStatus) -> JsonView {
    JsonView::Object(
        seq![
            ("provider"@, JsonView::Text(provider)),
            ("key_id"@, JsonView::Text(key_id)),
            ("status"@, JsonView::Text(status_name(status))),
        ],
    )
}

/// What a restoration is answered: what listeners are told, where there is
/// something to tell, and the reply.
pub open spec fn tells_of_restore(
    result: GatewayResult<KeyState>,
    provider: Seq<char>,
    key_id: Seq<char>,
    r: (Option<Json>, Json),
    now: u64,
) -> bool {
    match result {
        Ok(k) => {
            &&& r.0 matches Some(told) && told@ == event_json(
                "key_restore"@,
                restore_data(provider, key_id, k.status),
                now,
            )
            &&& r.1@ == restore_reply(provider, key_id, k@)
        },
        Err(e) => r.0 is None && r.1@ == key_refusal(provider, key_id, message_of(e)),
    }
}

/// Restores a key by hand. Gives what listeners are told, and the reply.
pub fn admin_provider_key_restore(keyhub: &mut KeyHub, provider_name: &str, key_id: &str) -> (r: (
    Option<Json>,
    Json,
))
    requires
        old(keyhub).wf(),
        old(keyhub)@.pools.contains_key(provider_name@) ==> id_maskable(
            old(keyhub)@.pools[provider_name@],
            key_id@,
        ),
    ensures
        final(keyhub).wf(),
        exists|result: GatewayResult<KeyState>, now: u64, then: u64|
            {
                &&& final(keyhub)@ == old(keyhub)@.with_restored(provider_name@, key_id@, now)
                &&& #[trigger] restored_result(old(keyhub)@, provider_name@, key_id@, now, result)
                &&& #[trigger] tells_of_restore(result, provider_name@, key_id@, r, then)
            },
{
    let ghost hub = keyhub@;
    let result = keyhub.restore_key(provider_name, key_id);
    let ghost given = result;
    let ghost now = choose|now: u64|
        keyhub@ == #[trigger] hub.with_restored(provider_name@, key_id@, now) && restored_result(
            hub,
            provider_name@,
            key_id@,
            now,
            given,
        );
    assert(restored_result(hub, provider_name@, key_id@, now, given));
    match result {
        Ok(key) => {
            proof {
                let i = id_index(hub.pools[provider_name@].keys, key_id@, 0)->0;
                id_index_in_range(hub.pools[provider_name@].keys, key_id@, 0);
                masking_is_idempotent(hub.pools[provider_name@].keys[i].key);
            }
            let mut data = ObjectBuilder::new();
            data.put_text("provider", provider_name);
            data.put_text("key_id", key_id);
            data.put_text("status", key.status.name());
            assert(data@ =~= restore_data(provider_name@, key_id@, key.status)->Object_0);
            let then = now_seconds();
            let told = event("key_restore", data.done(), then);
            let mut shown = ObjectBuilder::new();
            shown.put_text("key_id", key.key_id.as_str());
            shown.put_text("key", key.masked_key().as_str());
            shown.put_text("status", key.status.name());
            shown.put_num("fail_count", key.fail_count as u64);
            shown.put_opt_num("last_error_at", key.last_error_at);
            shown.put_opt_num("last_error_status", widen16(key.last_error_status));
            shown.put_opt_num("status_updated_at", key.status_updated_at);
            shown.put_opt_num("last_recovered_at", key.last_recovered_at);
            assert(shown@ =~= restored_key(key@)->Object_0);
            let mut o = ObjectBuilder::new();
            o.put_bool("success", true);
            o.put_text("provider", provider_name);
            o.put_text("key_id", key_id);
            o.put("key", shown.done());
            assert(o@ =~= restore_reply(provider_name@, key_id@, key@)->Object_0);
            let r = (Some(told), o.done());
            assert(tells_of_restore(given, provider_name@, key_id@, r, then));
            r
        },
        Err(e) => {
            let r = (
                None,
                key_refusal_to_json(provider_name, key_id, e.to_string().as_str()),
            );
            assert(tells_of_restore(given, provider_name@, key_id@, r, 0));
            r
        },
    }
}

} // verus!
