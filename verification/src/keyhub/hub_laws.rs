//! Laws of the providers of a hub and of the keys that it finds.
use crate::clock::Moment;
use crate::config::{KeyConfig, KeyTier, RoutingStrategy};
use crate::error::{GatewayError, GatewayResult};
use crate::keyhub::hub::{acquires, found_key, HubView, restored_result, serves_free};
use crate::keyhub::pool::{
    belongs, count_keys, id_index, is_free_and, is_free_limited, is_free_ready, is_not_free,
    is_paid_for, is_probe_key, is_ready, key_index, key_index_in_range, keys_and_tiers, PoolView,
    restored_from, RoundRobin, saved_index, summary_text,
};
use crate::keystate::{fingerprint, KeyStateView, KeyStatus};
use crate::lists::{first_where, first_where_is_first, kept, kept_satisfies};
use crate::text::decimal;
use vstd::prelude::*;

verus! {

/// Whatever happens at one provider leaves every other one as it was.
pub proof fn providers_do_not_touch_each_other(
    hub: HubView,
    provider: Seq<char>,
    other: Seq<char>,
    key: Seq<char>,
    configs: Seq<KeyConfig>,
    saved: Seq<KeyStateView>,
    models: Seq<Seq<char>>,
    error: GatewayError,
    status: u16,
    wait: Option<u64>,
    moment: Moment,
    now: u64,
)
    requires
        provider != other,
        hub.pools.contains_key(other),
    ensures
        hub.registered(provider, configs, now).pools[other] == hub.pools[other],
        hub.refreshed(provider, now).pools[other] == hub.pools[other],
        hub.searched(provider, now).pools[other] == hub.pools[other],
        hub.succeeded(provider, key, None, None, true, now).pools[other] == hub.pools[other],
        hub.reserved(provider, key, now).pools[other] == hub.pools[other],
        hub.failed(provider, key, status, wait, now).pools[other] == hub.pools[other],
        hub.failed_transiently(provider, key, status, now).pools[other] == hub.pools[other],
        hub.forced_to_cool(provider, key, status, now).pools[other] == hub.pools[other],
        hub.charged(provider, key, error, moment, now).pools[other] == hub.pools[other],
        hub.with_saved_states(provider, saved, now).pools[other] == hub.pools[other],
        hub.with_restored(provider, key, now).pools[other] == hub.pools[other],
        hub.with_models(provider, key, models, now).pools[other] == hub.pools[other],
        hub.with_model_error(provider, key, key).pools[other] == hub.pools[other],
{
}

/// Only a registration makes a provider known: reports on one that is not known
/// change nothing.
pub proof fn unknown_providers_stay_unknown(
    hub: HubView,
    provider: Seq<char>,
    key: Seq<char>,
    configs: Seq<KeyConfig>,
    saved: Seq<KeyStateView>,
    models: Seq<Seq<char>>,
    error: GatewayError,
    status: u16,
    wait: Option<u64>,
    moment: Moment,
    now: u64,
)
    requires
        !hub.pools.contains_key(provider),
    ensures
        hub.registered(provider, configs, now).pools.contains_key(provider),
        hub.refreshed(provider, now) == hub,
        hub.searched(provider, now) == hub,
        hub.succeeded(provider, key, None, None, true, now) == hub,
        !hub.can_reserve(provider, key, now),
        hub.reserved(provider, key, now) == hub,
        hub.failed(provider, key, status, wait, now) == hub,
        hub.failed_transiently(provider, key, status, now) == hub,
        hub.forced_to_cool(provider, key, status, now) == hub,
        hub.charged(provider, key, error, moment, now) == hub,
        hub.with_saved_states(provider, saved, now) == hub,
        hub.with_restored(provider, key, now) == hub,
        hub.with_models(provider, key, models, now) == hub,
        hub.free_infos(provider, None, now).len() == 0,
{
}

/// A registered provider has one key for each that is configured, in order, of
/// the configured value and tier, and nothing is held against it.
pub proof fn registered_providers_have_their_keys(
    hub: HubView,
    provider: Seq<char>,
    configs: Seq<KeyConfig>,
    now: u64,
    i: int,
)
    requires
        0 <= i < configs.len(),
    ensures
        ({
            let pool = hub.registered(provider, configs, now).pools[provider];
            &&& pool.name == provider
            &&& pool.keys.len() == configs.len()
            &&& pool.keys[i].key == configs[i]@.value
            &&& pool.keys[i].tier == configs[i]@.tier
            &&& pool.keys[i].rpm_limit == configs[i]@.rpm_limit
            &&& pool.keys[i].rpd_limit == configs[i]@.rpd_limit
            &&& pool.keys[i].status == KeyStatus::Available
            &&& pool.routing == hub.routing
            &&& pool.fail_count == 0 && !pool.cooling(now)
        }),
{
}

/// An error is charged to the key that it speaks against: a rate limit makes it
/// wait, a refusal of its credential speaks against it but not against its
/// provider, and a failure of the service is counted for both.
pub proof fn errors_are_charged_to_their_key(
    hub: HubView,
    provider: Seq<char>,
    error: GatewayError,
    moment: Moment,
    now: u64,
    i: int,
)
    requires
        hub.pools.contains_key(provider),
        0 <= i < hub.pools[provider].keys.len(),
        forall|j: int|
            0 <= j < i ==> (#[trigger] hub.pools[provider].keys[j]).key
                != hub.pools[provider].keys[i].key,
        hub.pools[provider].keys[i].total_fail_count < u64::MAX,
        hub.pools[provider].fail_count < u64::MAX,
    ensures
        ({
            let before = hub.pools[provider];
            let key = before.keys[i];
            let after = hub.charged(provider, key.key, error, moment, now).pools[provider];
            &&& error matches GatewayError::HttpError { status, .. } ==> {
                &&& status == 429 ==> after.keys[i].status == KeyStatus::RateLimited
                    && after.fail_count == before.fail_count
                &&& status == 429 || status == 401 || status >= 500
                    ==> after.keys[i].last_error_status == Some(status)
                    && after.keys[i].total_fail_count == key.total_fail_count + 1
                &&& status == 401 ==> after.fail_count == before.fail_count
                &&& status >= 500 ==> after.fail_count == before.fail_count + 1
                &&& status < 400 || 404 <= status < 429 || 429 < status < 500 ==> after == before
            }
            &&& error is AuthFailed ==> after.keys[i].total_fail_count == key.total_fail_count + 1
                && after.fail_count == before.fail_count
            &&& error is Timeout ==> after.keys[i].total_fail_count == key.total_fail_count + 1
                && after.fail_count == before.fail_count + 1
            &&& error is InvalidRequest ==> after == before
            &&& error is ModelNotFound ==> after == before
        }),
{
    let pool = hub.pools[provider];
    key_index_in_range(pool.keys, pool.keys[i].key, 0);
    assert(key_index(pool.keys, pool.keys[i].key, 0) == Some(i));
    let after = hub.charged(provider, pool.keys[i].key, error, moment, now);
    assert(after.pools[provider].keys.len() == pool.keys.len());
}

/// A saved state comes back to the key of its fingerprint. The value and the
/// tier of the key, and the limits that are configured, stay.
pub proof fn saved_states_come_back(
    hub: HubView,
    provider: Seq<char>,
    saved: Seq<KeyStateView>,
    now: u64,
    i: int,
    s: int,
)
    requires
        hub.pools.contains_key(provider),
        0 <= i < hub.pools[provider].keys.len(),
        0 <= s < saved.len(),
        saved[s].key_id == fingerprint(hub.pools[provider].keys[i].key),
        saved[s].key_id.len() > 0,
        forall|j: int|
            0 <= j < s ==> (#[trigger] saved[j]).key_id.len() > 0 && saved[j].key_id
                != saved[s].key_id,
    ensures
        ({
            let before = hub.pools[provider].keys[i];
            let after = hub.with_saved_states(provider, saved, now).pools[provider].keys[i];
            &&& after.key == before.key && after.tier == before.tier
            &&& after.success_count == saved[s].success_count
            &&& after.total_fail_count == saved[s].total_fail_count
            &&& after.models == saved[s].models
            &&& after.rpm_count == saved[s].rpm_count && after.rpd_count == saved[s].rpd_count
            &&& after.rate_limit_hits == saved[s].rate_limit_hits
            &&& before.rpm_limit is Some ==> after.rpm_limit == before.rpm_limit
            &&& before.rpm_limit is None ==> after.rpm_limit == saved[s].rpm_limit
            &&& before.rpd_limit is Some ==> after.rpd_limit == before.rpd_limit
            &&& before.rpd_limit is None ==> after.rpd_limit == saved[s].rpd_limit
            &&& after.tpm_limit == before.tpm_limit && after.tpd_limit == before.tpd_limit
            &&& saved[s].cooldown_until is None || saved[s].cooldown_until->0 > now ==> after.status
                == saved[s].status && after.cooldown_until == saved[s].cooldown_until
        }),
{
    let k = hub.pools[provider].keys[i];
    saved_is_first(saved, fingerprint(k.key), 0, s);
    let pool = hub.pools[provider];
    assert(pool.with_saved_states(saved, now).keys[i] == restored_from(k, saved).recovered(now));
}

proof fn saved_is_first(saved: Seq<KeyStateView>, id: Seq<char>, from: int, s: int)
    requires
        0 <= from <= s < saved.len(),
        belongs(saved[s], id),
        forall|j: int| from <= j < s ==> !belongs(#[trigger] saved[j], id),
    ensures
        saved_index(saved, id, from) == Some(s),
    decreases s - from,
{
    if from < s {
        saved_is_first(saved, id, from + 1, s);
    }
}

/// A key without a saved state stays as it was, but for a wait that is over.
pub proof fn keys_without_saved_state_stay(
    hub: HubView,
    provider: Seq<char>,
    saved: Seq<KeyStateView>,
    now: u64,
    i: int,
)
    requires
        hub.pools.contains_key(provider),
        0 <= i < hub.pools[provider].keys.len(),
        forall|j: int|
            0 <= j < saved.len() ==> (#[trigger] saved[j]).key_id.len() > 0 && saved[j].key_id
                != fingerprint(hub.pools[provider].keys[i].key),
    ensures
        hub.with_saved_states(provider, saved, now).pools[provider].keys[i]
            == hub.pools[provider].keys[i].recovered(now),
{
    let k = hub.pools[provider].keys[i];
    nothing_saved(saved, fingerprint(k.key), 0);
    let pool = hub.pools[provider];
    assert(pool.with_saved_states(saved, now).keys[i] == restored_from(k, saved).recovered(now));
}

proof fn nothing_saved(saved: Seq<KeyStateView>, id: Seq<char>, from: int)
    requires
        0 <= from,
        forall|j: int| from <= j < saved.len() ==> !belongs(#[trigger] saved[j], id),
    ensures
        saved_index(saved, id, from) is None,
    decreases saved.len() - from,
{
    if from < saved.len() {
        nothing_saved(saved, id, from + 1);
    }
}

/// A key that is found for free use is a free key of the provider that can take
/// a request.
pub proof fn found_keys_are_free(
    hub: HubView,
    provider: Seq<char>,
    now: u64,
    r: Option<String>,
)
    requires
        found_key(hub, provider, is_free_ready(now), now, r),
        r is Some,
    ensures
        hub.pools.contains_key(provider),
        !hub.pools[provider].cooling(now),
        exists|i: int|
            {
                &&& 0 <= i < hub.pools[provider].searched(now).keys.len()
                &&& (#[trigger] hub.pools[provider].searched(now).keys[i]).key == r->0@
                &&& hub.pools[provider].searched(now).keys[i].tier == KeyTier::Free
                &&& hub.pools[provider].searched(now).keys[i].status == KeyStatus::Available
                &&& !hub.pools[provider].searched(now).keys[i].limited(now)
            },
{
    let keys = hub.pools[provider].searched(now).keys;
    first_where_is_first(keys, is_free_ready(now), 0);
    let i = first_where(keys, is_free_ready(now), 0)->0;
    assert(keys[i].key == r->0@);
}

/// Where a provider that is not cooling down has a free key that can take a
/// request, one is found.
pub proof fn free_keys_are_found(
    hub: HubView,
    provider: Seq<char>,
    now: u64,
    r: Option<String>,
    i: int,
)
    requires
        found_key(hub, provider, is_free_ready(now), now, r),
        hub.pools.contains_key(provider),
        !hub.pools[provider].cooling(now),
        0 <= i < hub.pools[provider].searched(now).keys.len(),
        hub.pools[provider].searched(now).keys[i].tier == KeyTier::Free,
        hub.pools[provider].searched(now).keys[i].ready(now),
    ensures
        r is Some,
{
    let keys = hub.pools[provider].searched(now).keys;
    first_where_is_first(keys, is_free_ready(now), 0);
    assert(is_free_ready(now)(keys[i]));
}

/// A key that is found to be paid for is a paid one that lists the model and
/// can take a request; where there is one, one is found.
pub proof fn paid_keys_serve_their_model(
    hub: HubView,
    provider: Seq<char>,
    model: Seq<char>,
    now: u64,
    r: Option<String>,
)
    requires
        found_key(hub, provider, is_paid_for(model, now), now, r),
        hub.pools.contains_key(provider),
        !hub.pools[provider].cooling(now),
    ensures
        r is Some <==> exists|i: int|
            {
                &&& 0 <= i < hub.pools[provider].searched(now).keys.len()
                &&& (#[trigger] hub.pools[provider].searched(now).keys[i]).tier == KeyTier::Paid
                &&& hub.pools[provider].searched(now).keys[i].ready(now)
                &&& hub.pools[provider].searched(now).keys[i].models.contains(model)
            },
        r matches Some(key) ==> exists|i: int|
            {
                &&& 0 <= i < hub.pools[provider].searched(now).keys.len()
                &&& (#[trigger] hub.pools[provider].searched(now).keys[i]).key == key@
                &&& hub.pools[provider].searched(now).keys[i].tier == KeyTier::Paid
                &&& hub.pools[provider].searched(now).keys[i].ready(now)
                &&& hub.pools[provider].searched(now).keys[i].models.contains(model)
            },
{
    let keys = hub.pools[provider].searched(now).keys;
    let p = is_paid_for(model, now);
    first_where_is_first(keys, p, 0);
    if exists|i: int|
        {
            &&& 0 <= i < keys.len()
            &&& (#[trigger] keys[i]).tier == KeyTier::Paid
            &&& keys[i].ready(now)
            &&& keys[i].models.contains(model)
        } {
        let i = choose|i: int|
            {
                &&& 0 <= i < keys.len()
                &&& (#[trigger] keys[i]).tier == KeyTier::Paid
                &&& keys[i].ready(now)
                &&& keys[i].models.contains(model)
            };
        assert(p(keys[i]));
    }
    if let Some(i) = first_where(keys, p, 0) {
        assert(p(keys[i]));
        assert(keys[i].key == r->0@);
    }
}

/// A provider serves a model for free where one of its free keys lists it and
/// can take a request.
pub proof fn models_are_served_by_free_keys(
    hub: HubView,
    provider: Seq<char>,
    model: Seq<char>,
    now: u64,
)
    ensures
        serves_free(hub, provider, model, now) <==> hub.pools.contains_key(provider) && exists|i: int|
            {
                &&& 0 <= i < hub.pools[provider].refreshed(now).keys.len()
                &&& (#[trigger] hub.pools[provider].refreshed(now).keys[i]).tier == KeyTier::Free
                &&& hub.pools[provider].refreshed(now).keys[i].ready(now)
                &&& hub.pools[provider].refreshed(now).keys[i].models.contains(model)
            },
{
    let keys = hub.pools[provider].refreshed(now).keys;
    let p = is_free_ready(now);
    let free = kept(keys, p);
    let lists = free.map_values(|k: KeyStateView| k.models);
    kept_satisfies(keys, p);
    flattened_holds(lists, model);
    if exists|i: int|
        {
            &&& 0 <= i < keys.len()
            &&& (#[trigger] keys[i]).tier == KeyTier::Free
            &&& keys[i].ready(now)
            &&& keys[i].models.contains(model)
        } {
        let i = choose|i: int|
            {
                &&& 0 <= i < keys.len()
                &&& (#[trigger] keys[i]).tier == KeyTier::Free
                &&& keys[i].ready(now)
                &&& keys[i].models.contains(model)
            };
        assert(keys.contains(keys[i]) && p(keys[i]));
        assert(free.contains(keys[i]));
        let w = choose|w: int| 0 <= w < free.len() && free[w] == keys[i];
        assert(lists[w].contains(model));
    }
}

/// A flattened list holds what one of its lists holds.
proof fn flattened_holds<T>(lists: Seq<Seq<T>>, x: T)
    ensures
        lists.flatten().contains(x) <==> exists|i: int|
            0 <= i < lists.len() && (#[trigger] lists[i]).contains(x),
    decreases lists.len(),
{
    if lists.len() > 0 {
        let rest = lists.drop_first();
        let first = lists.first();
        flattened_holds(rest, x);
        let all = lists.flatten();
        assert(all == first + rest.flatten());
        if all.contains(x) {
            let w = choose|w: int| 0 <= w < all.len() && all[w] == x;
            if w < first.len() {
                assert(first[w] == x);
                assert(lists[0].contains(x));
            } else {
                assert(rest.flatten()[w - first.len()] == x);
                assert(rest.flatten().contains(x));
                let i = choose|i: int| 0 <= i < rest.len() && (#[trigger] rest[i]).contains(x);
                assert(lists[i + 1].contains(x));
            }
        }
        if exists|i: int| 0 <= i < lists.len() && (#[trigger] lists[i]).contains(x) {
            let i = choose|i: int| 0 <= i < lists.len() && (#[trigger] lists[i]).contains(x);
            if i == 0 {
                let w = choose|w: int| 0 <= w < first.len() && first[w] == x;
                assert(all[w] == x);
            } else {
                assert(rest[i - 1].contains(x));
                let w = choose|w: int|
                    0 <= w < rest.flatten().len() && rest.flatten()[w] == x;
                assert(all[first.len() + w] == x);
            }
        }
    }
}

/// The keys that are asked for their models are those that can take a request
/// and those that are disabled, with their tiers.
pub proof fn probed_keys_are_ready_or_disabled(
    pool: PoolView,
    now: u64,
    key: Seq<char>,
    tier: KeyTier,
)
    ensures
        keys_and_tiers(pool.keys, is_probe_key(now)).contains((key, tier)) <==> exists|i: int|
            {
                &&& 0 <= i < pool.keys.len()
                &&& (#[trigger] pool.keys[i]).key == key
                &&& pool.keys[i].tier == tier
                &&& pool.keys[i].status == KeyStatus::Disabled || pool.keys[i].status
                    == KeyStatus::Available && !pool.keys[i].limited(now)
            },
{
    let p = is_probe_key(now);
    let list = kept(pool.keys, p);
    let pairs = keys_and_tiers(pool.keys, p);
    kept_satisfies(pool.keys, p);
    if pairs.contains((key, tier)) {
        let w = choose|w: int| 0 <= w < pairs.len() && pairs[w] == (key, tier);
        assert(p(list[w]) && pool.keys.contains(list[w]));
        let i = choose|i: int| 0 <= i < pool.keys.len() && pool.keys[i] == list[w];
        assert(pool.keys[i].key == key);
    }
    if exists|i: int|
        {
            &&& 0 <= i < pool.keys.len()
            &&& (#[trigger] pool.keys[i]).key == key
            &&& pool.keys[i].tier == tier
            &&& pool.keys[i].status == KeyStatus::Disabled || pool.keys[i].status
                == KeyStatus::Available && !pool.keys[i].limited(now)
        } {
        let i = choose|i: int|
            {
                &&& 0 <= i < pool.keys.len()
                &&& (#[trigger] pool.keys[i]).key == key
                &&& pool.keys[i].tier == tier
                &&& pool.keys[i].status == KeyStatus::Disabled || pool.keys[i].status
                    == KeyStatus::Available && !pool.keys[i].limited(now)
            };
        assert(pool.keys.contains(pool.keys[i]) && p(pool.keys[i]));
        assert(list.contains(pool.keys[i]));
        let w = choose|w: int| 0 <= w < list.len() && list[w] == pool.keys[i];
        assert(pairs[w] == (key, tier));
    }
}

/// One key more counts for what it is: as one that can take a request, as a free
/// one of its status, or as one that is not free.
pub proof fn keys_count_for_what_they_are(keys: Seq<KeyStateView>, k: KeyStateView, now: u64)
    ensures
        count_keys(keys.push(k), is_ready(now)) == count_keys(keys, is_ready(now)) + (if k.status
            == KeyStatus::Available && !k.limited(now) {
            1int
        } else {
            0
        }),
        count_keys(keys.push(k), is_free_ready(now)) == count_keys(keys, is_free_ready(now)) + (
        if k.tier == KeyTier::Free && k.status == KeyStatus::Available && !k.limited(now) {
            1int
        } else {
            0
        }),
        count_keys(keys.push(k), is_free_and(KeyStatus::Cooldown)) == count_keys(
            keys,
            is_free_and(KeyStatus::Cooldown),
        ) + (if k.tier == KeyTier::Free && k.status == KeyStatus::Cooldown {
            1int
        } else {
            0
        }),
        count_keys(keys.push(k), is_free_and(KeyStatus::Disabled)) == count_keys(
            keys,
            is_free_and(KeyStatus::Disabled),
        ) + (if k.tier == KeyTier::Free && k.status == KeyStatus::Disabled {
            1int
        } else {
            0
        }),
        k.tier == KeyTier::Free && k.status == KeyStatus::RateLimited ==> count_keys(
            keys.push(k),
            is_free_limited(now),
        ) == count_keys(keys, is_free_limited(now)) + 1,
        count_keys(keys.push(k), is_not_free()) == count_keys(keys, is_not_free()) + (if k.tier
            != KeyTier::Free {
            1int
        } else {
            0
        }),
{
    assert(keys.push(k).drop_last() =~= keys);
}

/// The summary of the keys of a provider says each count after its name.
pub proof fn summaries_say_each_count(pool: PoolView, now: u64)
    ensures
        ({
            let keys = pool.refreshed(now).keys;
            let text = summary_text(pool, now);
            &&& exists|after: Seq<char>|
                text == #[trigger] ("available="@ + decimal(count_keys(keys, is_ready(now)))
                    + after)
            &&& exists|before: Seq<char>, after: Seq<char>|
                text == #[trigger] (before + ", free_available="@ + decimal(
                    count_keys(keys, is_free_ready(now)),
                ) + after)
            &&& exists|before: Seq<char>, after: Seq<char>|
                text == #[trigger] (before + ", free_cooldown="@ + decimal(
                    count_keys(keys, is_free_and(KeyStatus::Cooldown)),
                ) + after)
            &&& exists|before: Seq<char>, after: Seq<char>|
                text == #[trigger] (before + ", free_disabled="@ + decimal(
                    count_keys(keys, is_free_and(KeyStatus::Disabled)),
                ) + after)
            &&& exists|before: Seq<char>, after: Seq<char>|
                text == #[trigger] (before + ", paid_or_unknown="@ + decimal(
                    count_keys(keys, is_not_free()),
                ) + after)
            &&& pool.cooldown_until > now ==> exists|before: Seq<char>|
                text == #[trigger] (before + ", provider_cooldown_remaining_s="@ + decimal(
                    (pool.cooldown_until - now) as nat,
                ))
        }),
{
    let keys = pool.refreshed(now).keys;
    let a = "available="@;
    let an = decimal(count_keys(keys, is_ready(now)));
    let b = ", free_available="@;
    let bn = decimal(count_keys(keys, is_free_ready(now)));
    let c = ", free_probing="@;
    let cn = decimal(count_keys(keys, is_free_and(KeyStatus::Probing)));
    let d = ", free_cooldown="@;
    let dn = decimal(count_keys(keys, is_free_and(KeyStatus::Cooldown)));
    let e = ", free_rate_limited="@;
    let en = decimal(count_keys(keys, is_free_limited(now)));
    let f = ", free_disabled="@;
    let fnn = decimal(count_keys(keys, is_free_and(KeyStatus::Disabled)));
    let g = ", paid_or_unknown="@;
    let gn = decimal(count_keys(keys, is_not_free()));
    let h = ", provider_cooldown_remaining_s="@;
    let left: nat = if pool.cooldown_until > now {
        (pool.cooldown_until - now) as nat
    } else {
        0
    };
    let hn = decimal(left);
    let text = summary_text(pool, now);
    assert(text == a + an + b + bn + c + cn + d + dn + e + en + f + fnn + g + gn + h + hn);
    assert(text =~= a + an + (b + bn + c + cn + d + dn + e + en + f + fnn + g + gn + h + hn));
    assert(text =~= (a + an) + b + bn + (c + cn + d + dn + e + en + f + fnn + g + gn + h + hn));
    assert(text =~= (a + an + b + bn + c + cn) + d + dn + (e + en + f + fnn + g + gn + h + hn));
    assert(text =~= (a + an + b + bn + c + cn + d + dn + e + en) + f + fnn + (g + gn + h + hn));
    assert(text =~= (a + an + b + bn + c + cn + d + dn + e + en + f + fnn) + g + gn + (h + hn));
    assert(text =~= (a + an + b + bn + c + cn + d + dn + e + en + f + fnn + g + gn) + h + hn);
}

/// A turn is taken where keys are handed out in turn and there is one to hand
/// out, and nowhere else.
pub proof fn turns_are_taken_with_keys(
    before: HubView,
    counter: RoundRobin,
    provider: Seq<char>,
    r: GatewayResult<String>,
    after: HubView,
    counter_after: RoundRobin,
)
    requires
        acquires(before, counter, provider, r, after, counter_after),
        counter.turns < u64::MAX,
    ensures
        !before.pools.contains_key(provider) ==> counter_after == counter && (r matches Err(
            GatewayError::ProviderNotFound(name),
        ) && name@ == provider),
        before.pools.contains_key(provider) && r is Err ==> counter_after == counter && (r matches Err(
            e,
        ) && e is NoAvailableKeys),
        before.pools.contains_key(provider) && before.pools[provider].routing.strategy
            == RoutingStrategy::RoundRobin && r is Ok ==> counter_after.turns == counter.turns + 1,
        before.pools.contains_key(provider) && before.pools[provider].routing.strategy
            != RoutingStrategy::RoundRobin ==> counter_after == counter,
{
}

/// Looking for a key of a provider forgets what failed there once its cooldown
/// is over, and not otherwise.
pub proof fn searches_end_cooldowns(pool: PoolView, now: u64)
    ensures
        pool.cooldown_until == 0 ==> pool.searched(now).fail_count == pool.fail_count,
        pool.cooldown_until > now ==> pool.searched(now) == pool,
        0 < pool.cooldown_until <= now ==> pool.searched(now).fail_count == 0 && pool.searched(
            now,
        ).cooldown_until == 0,
        pool.searched(now).keys.len() == pool.keys.len(),
{
}

/// What is restored by a fingerprint that no key has is refused, and names it.
pub proof fn unknown_fingerprints_are_refused(
    hub: HubView,
    provider: Seq<char>,
    id: Seq<char>,
    now: u64,
    r: GatewayResult<crate::keystate::KeyState>,
)
    requires
        restored_result(hub, provider, id, now, r),
        hub.pools.contains_key(provider) ==> id_index(hub.pools[provider].keys, id, 0) is None,
    ensures
        !hub.pools.contains_key(provider) ==> (r matches Err(GatewayError::ProviderNotFound(n))
            && n@ == provider),
        hub.pools.contains_key(provider) ==> (r matches Err(GatewayError::InvalidRequest(m)) && m@
            == "Key id not found: "@ + id),
        hub.with_restored(provider, id, now).pools == hub.pools,
{
    assert(hub.with_restored(provider, id, now).pools =~= hub.pools);
}

/// Restoring by fingerprint reaches the first key of that fingerprint, and what
/// is told of it is its new state with the value masked.
pub proof fn restoring_reaches_its_key(
    hub: HubView,
    provider: Seq<char>,
    now: u64,
    i: int,
    r: GatewayResult<crate::keystate::KeyState>,
)
    requires
        hub.pools.contains_key(provider),
        0 <= i < hub.pools[provider].keys.len(),
        forall|j: int|
            0 <= j < i ==> fingerprint((#[trigger] hub.pools[provider].keys[j]).key) != fingerprint(
                hub.pools[provider].keys[i].key,
            ),
        restored_result(hub, provider, fingerprint(hub.pools[provider].keys[i].key), now, r),
    ensures
        ({
            let id = fingerprint(hub.pools[provider].keys[i].key);
            let after = hub.with_restored(provider, id, now).pools[provider].keys[i];
            &&& after.key == hub.pools[provider].keys[i].key
            &&& after.status == KeyStatus::Available
            &&& after.fail_count == 0 && after.cooldown_until is None
            &&& r matches Ok(told) && told@.key_id == id && told@.status == KeyStatus::Available
        }),
{
    id_is_first(hub.pools[provider].keys, fingerprint(hub.pools[provider].keys[i].key), 0, i);
}

/// The first key of a fingerprint is the one that is found.
pub(crate) proof fn id_is_first(keys: Seq<KeyStateView>, id: Seq<char>, from: int, i: int)
    requires
        0 <= from <= i < keys.len(),
        fingerprint(keys[i].key) == id,
        forall|j: int| from <= j < i ==> fingerprint((#[trigger] keys[j]).key) != id,
    ensures
        id_index(keys, id, from) == Some(i),
    decreases i - from,
{
    if from < i {
        id_is_first(keys, id, from + 1, i);
    }
}

} // verus!
