//! Laws of what administrators are shown of keys, models and providers.
use crate::api::admin::keys::{
    axis_json, AxisUsage, key_detail, KeyPercents, RateUsage, share_of, usage_at,
};
use crate::api::admin::models::{
    as_often, AxisCapacity, Capacity, capacity_of, is_model, is_on, listed_models, model_json,
    models_answer, models_of, serving,
};
use crate::api::admin::overview::{
    computed_status, count_standing, is_of, Standing, standing_of, stands, usable_keys,
};
use crate::api::admin::settings::provider_settings;
use crate::config::ProviderConfig;
use crate::health::HealthView;
use crate::json::{JsonView, member_at, num};
use crate::keyhub::pool::is_ready;
use crate::keystate::{KeyState, KeyStateView, KeyStatus, mask, state_views};
use crate::lists::{first_where, first_where_is_first, flat_from, flat_has, kept, kept_satisfies};
use crate::sorting::sorted_set_is_increasing;
use vstd::prelude::*;

verus! {

// ---------------------------------------------------------------- usage of keys
/// What a key has used is what was counted in the minute and in the day that
/// run: requests against the limits of requests, prompt tokens against the
/// minute's limit of tokens, all tokens against the day's.
pub proof fn the_running_windows_count(k: KeyStateView, now: u64)
    requires
        k.tpd_prompt_count + k.tpd_completion_count <= u32::MAX,
    ensures
        ({
            let u = usage_at(k, now);
            &&& u.rpm.limit == k.rpm_limit && u.rpd.limit == k.rpd_limit
            &&& u.tpm.limit == k.tpm_limit && u.tpd.limit == k.tpd_limit
            &&& 60 * k.rpm_window_start <= now < 60 * k.rpm_window_start + 60 ==> u.rpm.used
                == k.rpm_count && u.tpm.used == k.tpm_prompt_count
            &&& now >= 60 * k.rpm_window_start + 60 ==> u.rpm.used == 0 && u.tpm.used == 0
            &&& 86400 * k.rpd_window_start <= now < 86400 * k.rpd_window_start + 86400
                ==> u.rpd.used == k.rpd_count && u.tpd.used == k.tpd_prompt_count
                + k.tpd_completion_count
            &&& now >= 86400 * k.rpd_window_start + 86400 ==> u.rpd.used == 0 && u.tpd.used == 0
        }),
{
}

/// What is used of a limit and what is left of it make up the limit; nothing is
/// left exactly where it is used up.
pub proof fn used_and_left_make_the_limit(a: AxisUsage, limit: u32)
    requires
        a.limit == Some(limit),
    ensures
        a.left() is Some,
        a.used <= limit ==> a.left()->0 + a.used == limit,
        a.used_up() <==> a.left()->0 == 0,
{
}

/// A limit is none where none is set: nothing is said to be left of it, and it
/// is never used up.
pub proof fn no_limit_is_never_used_up(a: AxisUsage)
    requires
        a.limit is None,
    ensures
        a.left() is None,
        a.used_share() is None,
        !a.used_up(),
{
}

/// The used share of a limit is the used part of it, at most the whole.
pub proof fn shares_are_of_the_limit(used: u32, limit: u32)
    ensures
        used < limit ==> share_of(used, limit).part * limit == used * share_of(used, limit).whole,
        used >= limit ==> share_of(used, limit).part == share_of(used, limit).whole,
{
    let s = share_of(used, limit);
    assert(used < limit ==> s.part * limit == used * s.whole) by (nonlinear_arith)
        requires
            used < limit ==> s.part == used && s.whole == limit,
    ;
}

/// What a key can still take is what is not shown as used.
pub proof fn headroom_is_what_is_not_used(u: RateUsage)
    requires
        u.displayed() is Some,
        u.displayed()->0.wf(),
    ensures
        u.free() is Some,
        u.free()->0.whole == u.displayed()->0.whole,
        u.free()->0.part + u.displayed()->0.part == u.free()->0.whole,
{
}

/// Of a limit, its number, what is used and what is left are shown as such.
pub proof fn limits_are_shown(a: AxisUsage, limit: u32, percent: Option<crate::json::NumberView>)
    requires
        a.limit == Some(limit),
    ensures
        axis_json(a, percent).get("limit"@) == Some(num(limit as u64)),
        axis_json(a, percent).get("used"@) == Some(num(a.used as u64)),
        a.used <= limit ==> axis_json(a, percent).get("remaining"@) == Some(
            num((limit - a.used) as u64),
        ),
        axis_json(a, percent).get("exhausted"@) == Some(JsonView::Bool(a.used >= limit)),
{
    reveal_strlit("limit");
    reveal_strlit("used");
    reveal_strlit("remaining");
    reveal_strlit("percent");
    reveal_strlit("window_active");
    reveal_strlit("exhausted");
    assert("limit"@.len() == 5);
    assert("used"@.len() == 4);
    assert("remaining"@.len() == 9);
    assert("percent"@.len() == 7);
    assert("window_active"@.len() == 13);
    assert("exhausted"@.len() == 9);
    assert("remaining"@[0] != "exhausted"@[0]);
    let m = (axis_json(a, percent))->Object_0;
    assert(m[0].0 == "limit"@);
    member_at(m, 0);
    assert(m[1].0 == "used"@);
    member_at(m, 1);
    assert(m[2].0 == "remaining"@);
    member_at(m, 2);
    assert(m[5].0 == "exhausted"@);
    member_at(m, 5);
}

/// A key is shown masked, with what succeeded, what failed in a row and what
/// failed in all.
pub proof fn keys_are_shown(k: KeyStateView, now: u64, p: KeyPercents)
    ensures
        key_detail(k, now, p).get("key_id"@) == Some(JsonView::Text(k.key_id)),
        key_detail(k, now, p).get("key"@) == Some(JsonView::Text(mask(k.key))),
        key_detail(k, now, p).get("success_count"@) == Some(num(k.success_count)),
        key_detail(k, now, p).get("fail_count"@) == Some(num(k.fail_count as u64)),
        key_detail(k, now, p).get("total_fail_count"@) == Some(num(k.total_fail_count)),
        k.last_success_at matches Some(t) ==> key_detail(k, now, p).get("last_success_at"@) == Some(
            num(t),
        ),
        k.last_error_at matches Some(t) ==> key_detail(k, now, p).get("last_error_at"@) == Some(
            num(t),
        ),
        k.cooldown_until matches Some(t) ==> key_detail(k, now, p).get("cooldown_until"@) == Some(
            num(t),
        ),
{
    reveal_strlit("key_id");
    reveal_strlit("key");
    reveal_strlit("tier");
    reveal_strlit("status");
    reveal_strlit("success_count");
    reveal_strlit("fail_count");
    reveal_strlit("total_fail_count");
    reveal_strlit("last_success_at");
    reveal_strlit("last_error_at");
    reveal_strlit("last_error_status");
    reveal_strlit("status_updated_at");
    reveal_strlit("last_recovered_at");
    reveal_strlit("cooldown_until");
    assert("key_id"@.len() == 6);
    assert("key"@.len() == 3);
    assert("tier"@.len() == 4);
    assert("status"@.len() == 6);
    assert("success_count"@.len() == 13);
    assert("fail_count"@.len() == 10);
    assert("total_fail_count"@.len() == 16);
    assert("last_success_at"@.len() == 15);
    assert("last_error_at"@.len() == 13);
    assert("last_error_status"@.len() == 17);
    assert("status_updated_at"@.len() == 17);
    assert("last_recovered_at"@.len() == 17);
    assert("cooldown_until"@.len() == 14);
    assert("key_id"@[0] != "status"@[0]);
    assert("success_count"@[0] != "last_error_at"@[0]);
    assert("last_error_status"@[0] != "status_updated_at"@[0]);
    assert("last_error_status"@[5] != "last_recovered_at"@[5]);
    assert("status_updated_at"@[0] != "last_recovered_at"@[0]);
    let m = (key_detail(k, now, p))->Object_0;
    assert(m[0].0 == "key_id"@);
    member_at(m, 0);
    assert(m[1].0 == "key"@);
    member_at(m, 1);
    assert(m[4].0 == "success_count"@);
    member_at(m, 4);
    assert(m[5].0 == "fail_count"@);
    member_at(m, 5);
    assert(m[6].0 == "total_fail_count"@);
    member_at(m, 6);
    assert(m[7].0 == "last_success_at"@);
    member_at(m, 7);
    assert(m[8].0 == "last_error_at"@);
    member_at(m, 8);
    assert(m[12].0 == "cooldown_until"@);
    member_at(m, 12);
}

// ---------------------------------------------------------------- capacities
/// One key more adds to a limit what it may do; to what can be done now only
/// where it can take a request.
pub proof fn capacities_add_up(c: AxisCapacity, a: AxisUsage, ready: bool, n: u64, limit: u32)
    requires
        c.limit == Some(n),
        a.limit == Some(limit),
        n + limit <= u64::MAX,
        c.effective matches Some(e) ==> e <= n,
        c.remaining matches Some(r) ==> r <= n,
        a.used <= limit,
    ensures
        c.with(a, ready).limit == Some((n + limit) as u64),
        !ready ==> c.with(a, ready).effective == c.effective && c.with(a, ready).remaining
            == c.remaining,
        ready ==> (c.effective matches Some(e) ==> c.with(a, ready).effective == Some(
            (e + limit) as u64,
        )),
        ready ==> (c.remaining matches Some(r) ==> c.with(a, ready).remaining == Some(
            (r + limit - a.used) as u64,
        )),
        c.with(a, ready).unconstrained == c.unconstrained,
{
}

/// The first key with a limit makes it; one without a limit makes none, and
/// where it can take a request there is no bound.
pub proof fn first_limits_count(a: AxisUsage, ready: bool)
    ensures
        a.limit matches Some(limit) ==> AxisCapacity::none().with(a, ready).limit == Some(
            limit as u64,
        ),
        a.limit is None ==> AxisCapacity::none().with(a, ready).limit is None,
        a.limit is None ==> AxisCapacity::none().with(a, ready).unconstrained == ready,
{
}

/// A key that lists a model once counts once for it; as one that can take a
/// request where it can. A key that does not list it does not count.
pub proof fn keys_count_for_their_models(
    keys: Seq<KeyStateView>,
    k: KeyStateView,
    model: Seq<char>,
    now: u64,
)
    requires
        capacity_of(keys, model, now).key_count < u64::MAX,
        capacity_of(keys, model, now).keys_healthy < u64::MAX,
    ensures
        !k.models.contains(model) ==> capacity_of(keys.push(k), model, now) == capacity_of(
            keys,
            model,
            now,
        ),
        kept(k.models, is_model(model)).len() == 1 ==> {
            let before = capacity_of(keys, model, now);
            let after = capacity_of(keys.push(k), model, now);
            &&& after.key_count == before.key_count + 1
            &&& after.keys_healthy == before.keys_healthy + (if k.status == KeyStatus::Available
                && !k.limited(now) {
                1int
            } else {
                0
            })
            &&& after.rpm == before.rpm.with(usage_at(k, now).rpm, k.ready(now))
            &&& after.rpd == before.rpd.with(usage_at(k, now).rpd, k.ready(now))
            &&& after.tpm == before.tpm.with(usage_at(k, now).tpm, k.ready(now))
            &&& after.tpd == before.tpd.with(usage_at(k, now).tpd, k.ready(now))
        },
{
    let listed = kept(k.models, is_model(model));
    let mine = as_often(model)(k);
    assert(keys.push(k).drop_last() =~= keys);
    assert(serving(keys.push(k), model) == serving(keys, model) + mine);
    kept_satisfies(k.models, is_model(model));
    if !k.models.contains(model) {
        if listed.len() > 0 {
            assert(is_model(model)(listed[0]) && k.models.contains(listed[0]));
        }
        assert(mine =~= Seq::empty());
        assert(serving(keys.push(k), model) =~= serving(keys, model));
    }
    if listed.len() == 1 {
        assert(mine =~= seq![k]);
        let all = serving(keys.push(k), model);
        assert(all =~= serving(keys, model).push(k));
        assert(all.drop_last() =~= serving(keys, model));
        assert(all.last() == k);
    }
}

/// The models of a provider are those that its keys list.
pub proof fn models_are_those_of_the_keys(keys: Seq<KeyStateView>, model: Seq<char>)
    ensures
        models_of(keys).contains(model) <==> exists|i: int|
            0 <= i < keys.len() && (#[trigger] keys[i]).models.contains(model),
{
    let f = listed_models();
    sorted_set_is_increasing(crate::lists::flat(keys, f));
    if exists|i: int| 0 <= i < keys.len() && (#[trigger] keys[i]).models.contains(model) {
        let i = choose|i: int| 0 <= i < keys.len() && (#[trigger] keys[i]).models.contains(model);
        assert(f(keys[i]).contains(model));
        flat_has(keys, f, i, model);
    }
    if models_of(keys).contains(model) {
        assert(crate::lists::flat(keys, f).contains(model));
        flat_from(keys, f, model);
        let i = choose|i: int| 0 <= i < keys.len() && f(#[trigger] keys[i]).contains(model);
        assert(keys[i].models.contains(model));
    }
}

/// A model is available where it is switched on and some key can serve it;
/// otherwise the reason is told.
pub proof fn available_models_can_be_served(id: Seq<char>, enabled: bool, c: Capacity)
    ensures
        model_json(id, enabled, c).get("available"@) == Some(
            JsonView::Bool(enabled && c.keys_healthy > 0),
        ),
        !enabled ==> model_json(id, enabled, c).get("unavailable_reason"@) == Some(
            JsonView::Text("disabled"@),
        ),
        enabled && c.keys_healthy == 0 ==> model_json(id, enabled, c).get("unavailable_reason"@)
            == Some(JsonView::Text("no_available_key"@)),
        enabled && c.keys_healthy > 0 ==> model_json(id, enabled, c).get("unavailable_reason"@)
            == Some(JsonView::Null),
{
    reveal_strlit("id");
    reveal_strlit("enabled");
    reveal_strlit("key_count");
    reveal_strlit("rpm_limit");
    reveal_strlit("rpd_limit");
    reveal_strlit("tpm_limit");
    reveal_strlit("tpd_limit");
    reveal_strlit("effective_rpm_limit");
    reveal_strlit("effective_rpd_limit");
    reveal_strlit("effective_tpm_limit");
    reveal_strlit("effective_tpd_limit");
    reveal_strlit("rpm_remaining");
    reveal_strlit("rpd_remaining");
    reveal_strlit("tpm_remaining");
    reveal_strlit("tpd_remaining");
    reveal_strlit("rpm_unconstrained");
    reveal_strlit("rpd_unconstrained");
    reveal_strlit("tpm_unconstrained");
    reveal_strlit("tpd_unconstrained");
    reveal_strlit("keys_healthy");
    reveal_strlit("available");
    reveal_strlit("unavailable_reason");
    assert("id"@.len() == 2);
    assert("enabled"@.len() == 7);
    assert("key_count"@.len() == 9);
    assert("rpm_limit"@.len() == 9);
    assert("rpd_limit"@.len() == 9);
    assert("tpm_limit"@.len() == 9);
    assert("tpd_limit"@.len() == 9);
    assert("effective_rpm_limit"@.len() == 19);
    assert("effective_rpd_limit"@.len() == 19);
    assert("effective_tpm_limit"@.len() == 19);
    assert("effective_tpd_limit"@.len() == 19);
    assert("rpm_remaining"@.len() == 13);
    assert("rpd_remaining"@.len() == 13);
    assert("tpm_remaining"@.len() == 13);
    assert("tpd_remaining"@.len() == 13);
    assert("rpm_unconstrained"@.len() == 17);
    assert("rpd_unconstrained"@.len() == 17);
    assert("tpm_unconstrained"@.len() == 17);
    assert("tpd_unconstrained"@.len() == 17);
    assert("keys_healthy"@.len() == 12);
    assert("available"@.len() == 9);
    assert("unavailable_reason"@.len() == 18);
    assert("key_count"@[0] != "rpm_limit"@[0]);
    assert("key_count"@[0] != "rpd_limit"@[0]);
    assert("key_count"@[0] != "tpm_limit"@[0]);
    assert("key_count"@[0] != "tpd_limit"@[0]);
    assert("key_count"@[0] != "available"@[0]);
    assert("rpm_limit"@[2] != "rpd_limit"@[2]);
    assert("rpm_limit"@[0] != "tpm_limit"@[0]);
    assert("rpm_limit"@[0] != "tpd_limit"@[0]);
    assert("rpm_limit"@[0] != "available"@[0]);
    assert("rpd_limit"@[0] != "tpm_limit"@[0]);
    assert("rpd_limit"@[0] != "tpd_limit"@[0]);
    assert("rpd_limit"@[0] != "available"@[0]);
    assert("tpm_limit"@[2] != "tpd_limit"@[2]);
    assert("tpm_limit"@[0] != "available"@[0]);
    assert("tpd_limit"@[0] != "available"@[0]);
    assert("effective_rpm_limit"@[12] != "effective_rpd_limit"@[12]);
    assert("effective_rpm_limit"@[10] != "effective_tpm_limit"@[10]);
    assert("effective_rpm_limit"@[10] != "effective_tpd_limit"@[10]);
    assert("effective_rpd_limit"@[10] != "effective_tpm_limit"@[10]);
    assert("effective_rpd_limit"@[10] != "effective_tpd_limit"@[10]);
    assert("effective_tpm_limit"@[12] != "effective_tpd_limit"@[12]);
    assert("rpm_remaining"@[2] != "rpd_remaining"@[2]);
    assert("rpm_remaining"@[0] != "tpm_remaining"@[0]);
    assert("rpm_remaining"@[0] != "tpd_remaining"@[0]);
    assert("rpd_remaining"@[0] != "tpm_remaining"@[0]);
    assert("rpd_remaining"@[0] != "tpd_remaining"@[0]);
    assert("tpm_remaining"@[2] != "tpd_remaining"@[2]);
    assert("rpm_unconstrained"@[2] != "rpd_unconstrained"@[2]);
    assert("rpm_unconstrained"@[0] != "tpm_unconstrained"@[0]);
    assert("rpm_unconstrained"@[0] != "tpd_unconstrained"@[0]);
    assert("rpd_unconstrained"@[0] != "tpm_unconstrained"@[0]);
    assert("rpd_unconstrained"@[0] != "tpd_unconstrained"@[0]);
    assert("tpm_unconstrained"@[2] != "tpd_unconstrained"@[2]);
    let m = (model_json(id, enabled, c))->Object_0;
    assert(m[20].0 == "available"@);
    member_at(m, 20);
    assert(m[21].0 == "unavailable_reason"@);
    member_at(m, 21);
}

/// The limits of a model are shown under their names.
pub proof fn capacities_are_shown(id: Seq<char>, enabled: bool, c: Capacity)
    ensures
        model_json(id, enabled, c).get("id"@) == Some(JsonView::Text(id)),
        model_json(id, enabled, c).get("enabled"@) == Some(JsonView::Bool(enabled)),
        model_json(id, enabled, c).get("key_count"@) == Some(num(c.key_count)),
        c.rpm.limit matches Some(n) ==> model_json(id, enabled, c).get("rpm_limit"@) == Some(
            num(n),
        ),
        c.rpd.limit matches Some(n) ==> model_json(id, enabled, c).get("rpd_limit"@) == Some(
            num(n),
        ),
        c.rpm.effective matches Some(n) ==> model_json(id, enabled, c).get("effective_rpm_limit"@)
            == Some(num(n)),
        c.rpd.effective matches Some(n) ==> model_json(id, enabled, c).get("effective_rpd_limit"@)
            == Some(num(n)),
        c.rpm.remaining matches Some(n) ==> model_json(id, enabled, c).get("rpm_remaining"@)
            == Some(num(n)),
        c.rpd.remaining matches Some(n) ==> model_json(id, enabled, c).get("rpd_remaining"@)
            == Some(num(n)),
{
    reveal_strlit("id");
    reveal_strlit("enabled");
    reveal_strlit("key_count");
    reveal_strlit("rpm_limit");
    reveal_strlit("rpd_limit");
    reveal_strlit("tpm_limit");
    reveal_strlit("tpd_limit");
    reveal_strlit("effective_rpm_limit");
    reveal_strlit("effective_rpd_limit");
    reveal_strlit("effective_tpm_limit");
    reveal_strlit("effective_tpd_limit");
    reveal_strlit("rpm_remaining");
    reveal_strlit("rpd_remaining");
    assert("id"@.len() == 2);
    assert("enabled"@.len() == 7);
    assert("key_count"@.len() == 9);
    assert("rpm_limit"@.len() == 9);
    assert("rpd_limit"@.len() == 9);
    assert("tpm_limit"@.len() == 9);
    assert("tpd_limit"@.len() == 9);
    assert("effective_rpm_limit"@.len() == 19);
    assert("effective_rpd_limit"@.len() == 19);
    assert("effective_tpm_limit"@.len() == 19);
    assert("effective_tpd_limit"@.len() == 19);
    assert("rpm_remaining"@.len() == 13);
    assert("rpd_remaining"@.len() == 13);
    assert("key_count"@[0] != "rpm_limit"@[0]);
    assert("key_count"@[0] != "rpd_limit"@[0]);
    assert("key_count"@[0] != "tpm_limit"@[0]);
    assert("key_count"@[0] != "tpd_limit"@[0]);
    assert("rpm_limit"@[2] != "rpd_limit"@[2]);
    assert("rpm_limit"@[0] != "tpm_limit"@[0]);
    assert("rpm_limit"@[0] != "tpd_limit"@[0]);
    assert("rpd_limit"@[0] != "tpm_limit"@[0]);
    assert("rpd_limit"@[0] != "tpd_limit"@[0]);
    assert("tpm_limit"@[2] != "tpd_limit"@[2]);
    assert("effective_rpm_limit"@[12] != "effective_rpd_limit"@[12]);
    assert("effective_rpm_limit"@[10] != "effective_tpm_limit"@[10]);
    assert("effective_rpm_limit"@[10] != "effective_tpd_limit"@[10]);
    assert("effective_rpd_limit"@[10] != "effective_tpm_limit"@[10]);
    assert("effective_rpd_limit"@[10] != "effective_tpd_limit"@[10]);
    assert("effective_tpm_limit"@[12] != "effective_tpd_limit"@[12]);
    assert("rpm_remaining"@[2] != "rpd_remaining"@[2]);
    let m = (model_json(id, enabled, c))->Object_0;
    assert(m[0].0 == "id"@);
    member_at(m, 0);
    assert(m[1].0 == "enabled"@);
    member_at(m, 1);
    assert(m[2].0 == "key_count"@);
    member_at(m, 2);
    assert(m[3].0 == "rpm_limit"@);
    member_at(m, 3);
    assert(m[4].0 == "rpd_limit"@);
    member_at(m, 4);
    assert(m[7].0 == "effective_rpm_limit"@);
    member_at(m, 7);
    assert(m[8].0 == "effective_rpd_limit"@);
    member_at(m, 8);
    assert(m[11].0 == "rpm_remaining"@);
    member_at(m, 11);
    assert(m[12].0 == "rpd_remaining"@);
    member_at(m, 12);
}

/// Of the models of a provider, those that are switched off and those that are
/// not are counted, and they make up the total.
pub proof fn switched_models_are_counted(
    provider: Seq<char>,
    keys: Seq<KeyStateView>,
    disabled: Seq<Seq<char>>,
    now: u64,
)
    requires
        models_of(keys).len() <= u64::MAX,
    ensures
        ({
            let answer = models_answer(provider, keys, disabled, now);
            let names = models_of(keys);
            let on = kept(names, |m: Seq<char>| !disabled.contains(m)).len();
            let off = kept(names, |m: Seq<char>| disabled.contains(m)).len();
            &&& answer.get("total"@) == Some(num(names.len() as u64))
            &&& answer.get("enabled_count"@) == Some(num(on as u64))
            &&& answer.get("disabled_count"@) == Some(num(off as u64))
            &&& on + off == names.len()
        }),
{
    reveal_strlit("provider");
    reveal_strlit("models");
    reveal_strlit("total");
    reveal_strlit("enabled_count");
    reveal_strlit("disabled_count");
    assert("provider"@.len() == 8);
    assert("models"@.len() == 6);
    assert("total"@.len() == 5);
    assert("enabled_count"@.len() == 13);
    assert("disabled_count"@.len() == 14);
    let m = (models_answer(provider, keys, disabled, now))->Object_0;
    assert(m[2].0 == "total"@);
    member_at(m, 2);
    assert(m[3].0 == "enabled_count"@);
    member_at(m, 3);
    assert(m[4].0 == "disabled_count"@);
    member_at(m, 4);
    let names = models_of(keys);
    let on = |m: Seq<char>| !disabled.contains(m);
    let off = |m: Seq<char>| disabled.contains(m);
    assert(on =~= is_on(disabled));
    both_sides(names, on, off);
}

proof fn both_sides<T>(s: Seq<T>, p: spec_fn(T) -> bool, q: spec_fn(T) -> bool)
    requires
        forall|x: T| #[trigger] p(x) == !q(x),
    ensures
        kept(s, p).len() + kept(s, q).len() == s.len(),
    decreases s.len(),
{
    if s.len() > 0 {
        both_sides(s.drop_last(), p, q);
        assert(p(s.last()) == !q(s.last()));
    }
}

// ---------------------------------------------------------------- providers
/// A provider stands by the keys that it can use: all of them, some, or none;
/// one that is down or switched off is down whatever its keys.
pub proof fn providers_stand_by_their_keys(h: HealthView, usable: nat)
    requires
        usable <= h.total_keys,
        h.total_keys > 0,
    ensures
        h.status == "unhealthy"@ || h.status == "disabled"@ ==> standing_of(h, usable)
            == Standing::Unhealthy && computed_status(h, usable) == h.status,
        h.status == "healthy"@ ==> {
            &&& usable == 0 ==> computed_status(h, usable) == "exhausted"@
            &&& 0 < usable < h.total_keys ==> computed_status(h, usable) == "degraded"@
            &&& usable == h.total_keys ==> computed_status(h, usable) == "healthy"@
        },
{
    reveal_strlit("unhealthy");
    reveal_strlit("disabled");
    reveal_strlit("healthy");
    assert("unhealthy"@.len() == 9);
    assert("disabled"@.len() == 8);
    assert("healthy"@.len() == 7);
}

/// One provider more counts for how it stands, and for nothing else.
pub proof fn standings_are_counted(
    states: Seq<HealthView>,
    h: HealthView,
    snapshot: Seq<(String, Vec<KeyState>)>,
    now: u64,
    s: Standing,
)
    ensures
        count_standing(states.push(h), snapshot, now, s) == count_standing(states, snapshot, now, s)
            + (if stands(snapshot, now, s)(h) {
            1int
        } else {
            0
        }),
{
    assert(states.push(h).drop_last() =~= states);
}

/// The keys of a provider are shown masked, each in its place, and their number
/// with them.
pub proof fn configured_keys_are_shown_masked(pc: ProviderConfig, i: int)
    requires
        0 <= i < pc.keys@.len(),
        pc.keys@.len() <= u64::MAX,
    ensures
        provider_settings(pc).get("keys"@) is Some,
        provider_settings(pc).get("keys"@)->0.item(i) == Some(
            JsonView::Text(mask(pc.keys@[i]@.value)),
        ),
        provider_settings(pc).get("keys_count"@) == Some(num(pc.keys@.len() as u64)),
        provider_settings(pc).get("enabled"@) == Some(JsonView::Bool(pc.enabled)),
        provider_settings(pc).get("base_url"@) == Some(JsonView::Text(pc.base_url@)),
        provider_settings(pc).get("timeout_seconds"@) == Some(num(pc.timeout_seconds)),
        provider_settings(pc).get("priority"@) == Some(num(pc.priority as u64)),
{
    reveal_strlit("type");
    reveal_strlit("enabled");
    reveal_strlit("base_url");
    reveal_strlit("proxy_url");
    reveal_strlit("keys");
    reveal_strlit("keys_count");
    reveal_strlit("health_check_model");
    reveal_strlit("timeout_seconds");
    reveal_strlit("priority");
    assert("type"@.len() == 4);
    assert("enabled"@.len() == 7);
    assert("base_url"@.len() == 8);
    assert("proxy_url"@.len() == 9);
    assert("keys"@.len() == 4);
    assert("keys_count"@.len() == 10);
    assert("health_check_model"@.len() == 18);
    assert("timeout_seconds"@.len() == 15);
    assert("priority"@.len() == 8);
    assert("type"@[0] != "keys"@[0]);
    assert("base_url"@[0] != "priority"@[0]);
    let m = (provider_settings(pc))->Object_0;
    assert(m[1].0 == "enabled"@);
    member_at(m, 1);
    assert(m[2].0 == "base_url"@);
    member_at(m, 2);
    assert(m[4].0 == "keys"@);
    member_at(m, 4);
    assert(m[5].0 == "keys_count"@);
    member_at(m, 5);
    assert(m[7].0 == "timeout_seconds"@);
    member_at(m, 7);
    assert(m[8].0 == "priority"@);
    member_at(m, 8);
}

/// Where no key lists a model, nothing can be done with it.
pub proof fn unlisted_models_have_no_capacity(model: Seq<char>, now: u64)
    ensures
        ({
            let c = capacity_of(Seq::empty(), model, now);
            &&& c.key_count == 0 && c.keys_healthy == 0
            &&& c.rpm.limit is None && c.rpd.limit is None && c.tpm.limit is None && c.tpd.limit
                is None
            &&& c.rpm.remaining is None && c.rpm.effective is None
            &&& !c.rpm.unconstrained
        }),
{
}

/// The usable keys of a provider are those of its own that can take a request;
/// a provider that is not there has none.
pub proof fn usable_keys_are_the_providers_own(
    snapshot: Seq<(String, Vec<KeyState>)>,
    provider: Seq<char>,
    now: u64,
    i: int,
)
    requires
        0 <= i < snapshot.len(),
        snapshot[i].0@ == provider,
        forall|j: int| 0 <= j < i ==> (#[trigger] snapshot[j]).0@ != provider,
    ensures
        usable_keys(snapshot, provider, now) == kept(
            state_views(snapshot[i].1@),
            |k: KeyStateView| k.ready(now),
        ).len(),
{
    let p = is_of(provider);
    first_where_is_first(snapshot, p, 0);
    assert(p(snapshot[i]));
    let f = first_where(snapshot, p, 0);
    if f is Some {
        assert(p(snapshot[f->0]));
    }
    assert(f == Some(i));
    assert(is_ready(now) =~= (|k: KeyStateView| k.ready(now)));
}

/// A provider that is not there has no usable key.
pub proof fn missing_providers_have_no_usable_key(
    snapshot: Seq<(String, Vec<KeyState>)>,
    provider: Seq<char>,
    now: u64,
)
    requires
        forall|j: int| 0 <= j < snapshot.len() ==> (#[trigger] snapshot[j]).0@ != provider,
    ensures
        usable_keys(snapshot, provider, now) == 0,
{
    let p = is_of(provider);
    first_where_is_first(snapshot, p, 0);
    let f = first_where(snapshot, p, 0);
    if f is Some {
        assert(p(snapshot[f->0]));
    }
}

} // verus!
