//! Laws of what happens to keys and providers.
use crate::config::KeyConfig;
use crate::keyhub::pool::{
    configured_key, key_index, key_index_in_range, PoolView, with_limits, with_models,
};
use crate::keystate::{KeyStateView, KeyStatus};
use crate::sorting::{sorted_set, sorted_set_is_increasing};
use vstd::prelude::*;

verus! {

/// A key begins as it is configured: available, with the limits that the
/// configuration gives, and with nothing used or failed.
pub proof fn keys_begin_as_configured(config: KeyConfig, now: u64)
    ensures
        ({
            let k = configured_key(config@, now);
            &&& k.key == config@.value
            &&& k.tier == config@.tier
            &&& k.rpm_limit == config@.rpm_limit
            &&& k.rpd_limit == config@.rpd_limit
            &&& k.tpm_limit == config@.tpm_limit
            &&& k.tpd_limit == config@.tpd_limit
            &&& k.status == KeyStatus::Available
            &&& k.fail_count == 0 && k.total_fail_count == 0 && k.success_count == 0
            &&& k.rpm_count == 0 && k.rpd_count == 0
            &&& k.rpm_limit != Some(0u32) && k.rpd_limit != Some(0u32) && k.tpm_limit != Some(0u32)
                && k.tpd_limit != Some(0u32) ==> k.selectable(now)
        }),
{
}

/// A request counts once in the minute and once in the day, and its tokens
/// count as what they are, in the minute and in the day.
pub proof fn requests_and_tokens_are_counted(
    k: KeyStateView,
    prompt: u32,
    completion: u32,
)
    requires
        k.rpm_count < u32::MAX,
        k.rpd_count < u32::MAX,
        k.tpm_prompt_count + prompt <= u32::MAX,
        k.tpd_prompt_count + prompt <= u32::MAX,
        k.tpm_completion_count + completion <= u32::MAX,
        k.tpd_completion_count + completion <= u32::MAX,
    ensures
        ({
            let after = k.with_request().with_tokens(Some(prompt), Some(completion));
            &&& after.rpm_count == k.rpm_count + 1
            &&& after.rpd_count == k.rpd_count + 1
            &&& after.tpm_prompt_count == k.tpm_prompt_count + prompt
            &&& after.tpd_prompt_count == k.tpd_prompt_count + prompt
            &&& after.tpm_completion_count == k.tpm_completion_count + completion
            &&& after.tpd_completion_count == k.tpd_completion_count + completion
            &&& after.status == k.status
            &&& after.key == k.key
        }),
        k.with_tokens(None, None) == k,
{
}

/// A success is counted, with its time, and what was failed before is forgotten.
/// Limits, value and models stay as they are, and what was used of the present
/// windows too.
pub proof fn successes_are_counted(k: KeyStateView, now: u64)
    requires
        k.success_count < u64::MAX,
    ensures
        ({
            let after = k.after_success(now);
            &&& after.success_count == k.success_count + 1
            &&& after.last_success_at == Some(now)
            &&& after.total_fail_count == k.total_fail_count
            &&& after.fail_count == 0
            &&& after.key == k.key && after.models == k.models && after.tier == k.tier
            &&& after.rpm_limit == k.rpm_limit && after.rpd_limit == k.rpd_limit
            &&& k.rpm_window_start == now / 60 ==> after.rpm_count == k.rpm_count
            &&& k.rpm_window_start != now / 60 ==> after.rpm_count == 0
            &&& k.rpd_window_start == now / 86400 ==> after.rpd_count == k.rpd_count
            &&& k.rpd_window_start != now / 86400 ==> after.rpd_count == 0
            &&& k.status == KeyStatus::Disabled || k.status == KeyStatus::Probing || k.status
                == KeyStatus::RateLimited ==> after.status == KeyStatus::Available
                && after.cooldown_until is None
        }),
{
}

/// A failure is counted, with its status and its time. Where it makes the key
/// rest, the key rests as long as is configured; then it can be used again and
/// its failures in a row are forgotten.
pub proof fn failed_keys_rest_and_come_back(
    k: KeyStateView,
    status: u16,
    now: u64,
    threshold: u32,
    cooldown: u64,
    later: u64,
)
    requires
        status != 401 && status != 403 && status != 429,
        k.fail_count < u32::MAX,
        k.total_fail_count < u64::MAX,
        now + cooldown <= u64::MAX,
    ensures
        ({
            let after = k.after_failure(status, None, now, threshold, cooldown);
            &&& after.fail_count == k.fail_count + 1
            &&& after.total_fail_count == k.total_fail_count + 1
            &&& after.last_error_at == Some(now)
            &&& after.last_error_status == Some(status)
            &&& k.fail_count + 1 >= threshold ==> {
                &&& after.cooldown_until == Some((now + cooldown) as u64)
                &&& later < now + cooldown ==> !after.refreshed(later).selectable(later)
                &&& later >= now + cooldown ==> after.refreshed(later).status
                    == KeyStatus::Available && after.refreshed(later).fail_count == 0
            }
            &&& k.fail_count + 1 < threshold ==> after.status == k.status && after.cooldown_until
                == k.cooldown_until
        }),
{
}

/// A key that is put into a cooldown rests as long as is configured, however
/// few its failures.
pub proof fn forced_cooldowns_hold(
    k: KeyStateView,
    status: u16,
    now: u64,
    cooldown: u64,
    later: u64,
)
    requires
        k.total_fail_count < u64::MAX,
        now + cooldown <= u64::MAX,
    ensures
        ({
            let after = k.after_forced_cooldown(status, now, cooldown);
            &&& after.status == KeyStatus::Cooldown
            &&& after.total_fail_count == k.total_fail_count + 1
            &&& after.last_error_status == Some(status)
            &&& after.last_error_at == Some(now)
            &&& later < now + cooldown ==> !after.refreshed(later).selectable(later)
            &&& later >= now + cooldown ==> after.refreshed(later).status == KeyStatus::Available
        }),
{
}

/// Refused credentials are counted as a failure in all, with their status and
/// time, and do not lengthen any row of failures or of rate limits.
pub proof fn refused_credentials_are_counted(
    k: KeyStateView,
    status: u16,
    retry_after: Option<u64>,
    now: u64,
    threshold: u32,
    cooldown: u64,
)
    requires
        status == 401 || status == 403,
        k.total_fail_count < u64::MAX,
    ensures
        ({
            let after = k.after_failure(status, retry_after, now, threshold, cooldown);
            &&& after.total_fail_count == k.total_fail_count + 1
            &&& after.fail_count == k.fail_count
            &&& after.rate_limit_hits == k.rate_limit_hits
            &&& after.last_error_status == Some(status)
            &&& after.last_error_at == Some(now)
            &&& after.success_count == k.success_count
        }),
{
}

/// A rate limit whose delay is five minutes or less teaches how many requests a
/// minute allows, any other how many a day does: as many as were counted, where
/// that is some and less than what was thought. The other limit stays.
pub proof fn rate_limits_teach_the_window_that_they_speak_of(
    k: KeyStateView,
    retry_after: Option<u64>,
    now: u64,
)
    requires
        k.rpm_limit_source is None,
        k.rpd_limit_source is None,
        k.rpm_limit is None,
        k.rpd_limit is None,
        k.rpm_window_start == now / 60,
        k.rpd_window_start == now / 86400,
        k.rpm_count > 0,
        k.rpd_count > 0,
    ensures
        ({
            let after = k.after_rate_limit(retry_after, now);
            if retry_after is Some && retry_after->0 <= 300 {
                after.rpm_limit == Some(k.rpm_count) && after.rpd_limit is None
            } else {
                after.rpd_limit == Some(k.rpd_count) && after.rpm_limit is None
            }
        }),
{
}

/// The cooldown of a rate limit ends with a probation: the key can be used
/// again, and stands behind keys that are not on probation.
pub proof fn rate_limits_end_in_probation(
    k: KeyStateView,
    retry_after: Option<u64>,
    now: u64,
    later: u64,
)
    requires
        k.after_rate_limit(retry_after, now).cooldown_until matches Some(until) && later >= until,
    ensures
        k.after_rate_limit(retry_after, now).refreshed(later).status == KeyStatus::Probing,
        k.after_rate_limit(retry_after, now).refreshed(later).cooldown_until is None,
        k.after_rate_limit(retry_after, now).refreshed(later).last_recovered_at == Some(later),
{
}

/// A restored key can be used again, as if it had not failed.
pub proof fn restored_keys_can_be_used(k: KeyStateView, now: u64)
    requires
        !k.limited(now),
    ensures
        k.restored(now).selectable(now),
        k.restored(now).fail_count == 0,
        k.restored(now).cooldown_until is None,
        k.restored(now).status_updated_at == Some(now),
        k.restored(now).total_fail_count == k.total_fail_count,
        k.restored(now).key == k.key,
{
}

/// A discovery lists each model once, in order, with its time; it forgets what
/// was wrong before. Where it found some, a disabled key can be used again;
/// where it found none, a disabled key stays so.
pub proof fn discoveries_list_models(
    k: KeyStateView,
    models: Seq<Seq<char>>,
    now: u64,
    model: Seq<char>,
)
    requires
        now <= i64::MAX,
    ensures
        ({
            let after = with_models(k, models, now);
            &&& after.models.contains(model) <==> models.contains(model)
            &&& after.models == sorted_set(models)
            &&& after.models_updated_at == Some(now as i64)
            &&& after.models_last_error.len() == 0
            &&& k.status == KeyStatus::Disabled && models.contains(model) ==> after.status
                == KeyStatus::Available
            &&& models.len() == 0 ==> after.status == k.status
            &&& k.status != KeyStatus::Disabled ==> after.status == k.status
        }),
{
    sorted_set_is_increasing(models);
    if models.len() == 0 {
        assert(sorted_set(models).len() == 0) by {
            if sorted_set(models).len() > 0 {
                assert(sorted_set(models).contains(sorted_set(models)[0]));
            }
        }
    }
    if models.contains(model) {
        assert(sorted_set(models).contains(model));
    }
}

/// An offered limit reaches the window that it is offered for, unless the
/// configuration has set it; the other window's stays. An offer of zero is none.
pub proof fn offered_limits_reach_their_window(
    k: KeyStateView,
    limit: u32,
    source: Seq<char>,
)
    requires
        k.rpm_limit is None,
        k.rpd_limit is None,
        k.rpm_limit_source is None,
        k.rpd_limit_source is None,
        limit > 0,
    ensures
        with_limits(k, Some(0), Some(0), source) == k,
        with_limits(k, Some(limit), None, source).rpm_limit == Some(limit),
        with_limits(k, Some(limit), None, source).rpm_limit_source == Some(source),
        with_limits(k, Some(limit), None, source).rpd_limit is None,
        with_limits(k, None, Some(limit), source).rpd_limit == Some(limit),
        with_limits(k, None, Some(limit), source).rpd_limit_source == Some(source),
        with_limits(k, None, Some(limit), source).rpm_limit is None,
        with_limits(k, None, None, source) == k,
{
}

/// What the configuration says of a limit no offer changes.
pub proof fn configured_limits_stay(
    k: KeyStateView,
    rpm: Option<u32>,
    rpd: Option<u32>,
    source: Seq<char>,
)
    requires
        source != "config"@,
    ensures
        k.rpm_limit_source == Some("config"@) ==> with_limits(k, rpm, rpd, source).rpm_limit
            == k.rpm_limit,
        k.rpd_limit_source == Some("config"@) ==> with_limits(k, rpm, rpd, source).rpd_limit
            == k.rpd_limit,
{
}

// ---------------------------------------------------------------- providers
/// A provider cools down when it has failed as often in a row as the threshold
/// allows its keys together, and as long as is configured; not before.
pub proof fn providers_cool_down_at_the_threshold(pool: PoolView, now: u64, later: u64)
    requires
        pool.fail_count < u64::MAX,
        now + pool.routing.cooldown_seconds <= u64::MAX,
        pool.cooldown_until == 0,
    ensures
        ({
            let after = pool.provider_failed(now);
            &&& after.fail_count == pool.fail_count + 1
            &&& after.keys == pool.keys
            &&& pool.fail_count + 1 < pool.keys.len() * pool.routing.fail_threshold
                ==> !after.cooling(later)
            &&& pool.fail_count + 1 >= pool.keys.len() * pool.routing.fail_threshold ==> (
            after.cooling(later) <==> later < now + pool.routing.cooldown_seconds)
        }),
{
}

/// A success on any key ends what is held against the provider. What speaks of
/// a key alone is not held against the provider, and any other failure is.
pub proof fn providers_answer_for_what_is_not_a_keys_fault(
    pool: PoolView,
    key: Seq<char>,
    status: u16,
    retry_after: Option<u64>,
    prompt: Option<u32>,
    completion: Option<u32>,
    reserved: bool,
    now: u64,
)
    requires
        pool.fail_count < u64::MAX,
    ensures
        pool.succeeded(key, prompt, completion, reserved, now).fail_count == 0,
        !pool.succeeded(key, prompt, completion, reserved, now).cooling(now),
        status == 401 || status == 403 || status == 429 ==> pool.failed(
            key,
            status,
            retry_after,
            now,
        ).fail_count == pool.fail_count,
        status != 401 && status != 403 && status != 429 && key_index(pool.keys, key, 0) is Some
            ==> pool.failed(key, status, retry_after, now).fail_count == pool.fail_count + 1,
        pool.failed_transiently(key, status, now).fail_count == pool.fail_count + 1,
        pool.forced_to_cool(key, status, now).fail_count == pool.fail_count + 1,
{
}

/// Reports on a key change that key alone: every other key of the pool stays as
/// it was, and no key is added or lost.
pub proof fn reports_change_one_key(
    pool: PoolView,
    key: Seq<char>,
    status: u16,
    retry_after: Option<u64>,
    prompt: Option<u32>,
    completion: Option<u32>,
    reserved: bool,
    now: u64,
    j: int,
)
    requires
        0 <= j < pool.keys.len(),
        pool.keys[j].key != key,
    ensures
        pool.failed(key, status, retry_after, now).keys.len() == pool.keys.len(),
        pool.failed(key, status, retry_after, now).keys[j] == pool.keys[j],
        pool.failed_transiently(key, status, now).keys[j] == pool.keys[j],
        pool.forced_to_cool(key, status, now).keys[j] == pool.keys[j],
        pool.succeeded(key, prompt, completion, reserved, now).keys.len() == pool.keys.len(),
        pool.succeeded(key, prompt, completion, reserved, now).keys[j] == pool.keys[j],
{
    key_index_in_range(pool.keys, key, 0);
}

/// A reported failure reaches the key that it is reported of: the first of that
/// value.
pub proof fn reports_reach_their_key(
    pool: PoolView,
    key: Seq<char>,
    status: u16,
    retry_after: Option<u64>,
    now: u64,
    i: int,
)
    requires
        0 <= i < pool.keys.len(),
        pool.keys[i].key == key,
        forall|j: int| 0 <= j < i ==> (#[trigger] pool.keys[j]).key != key,
        pool.keys[i].total_fail_count < u64::MAX,
        pool.keys[i].success_count < u64::MAX,
    ensures
        pool.failed(key, status, retry_after, now).keys[i].total_fail_count
            == pool.keys[i].total_fail_count + 1,
        pool.failed(key, status, retry_after, now).keys[i].last_error_status == Some(status),
        pool.failed_transiently(key, status, now).keys[i].total_fail_count
            == pool.keys[i].total_fail_count + 1,
        pool.forced_to_cool(key, status, now).keys[i].status == KeyStatus::Cooldown,
        pool.succeeded(key, None, None, true, now).keys[i].success_count
            == pool.keys[i].success_count + 1,
{
    key_index_in_range(pool.keys, key, 0);
    let k = key_index(pool.keys, key, 0);
    assert(k == Some(i));
}

/// A request that succeeds counts against the limits of its key once: with its
/// report, unless it was counted with its reservation.
pub proof fn requests_count_once(
    pool: PoolView,
    key: Seq<char>,
    now: u64,
    i: int,
)
    requires
        0 <= i < pool.keys.len(),
        pool.keys[i].key == key,
        forall|j: int| 0 <= j < i ==> (#[trigger] pool.keys[j]).key != key,
        pool.keys[i].rpm_window_start == now / 60,
        pool.keys[i].rpd_window_start == now / 86400,
        pool.keys[i].rpm_count < u32::MAX,
        pool.keys[i].rpd_count < u32::MAX,
        pool.keys[i].status == KeyStatus::Available,
    ensures
        pool.succeeded(key, None, None, true, now).keys[i].rpm_count == pool.keys[i].rpm_count,
        pool.succeeded(key, None, None, false, now).keys[i].rpm_count == pool.keys[i].rpm_count + 1,
        pool.succeeded(key, None, None, false, now).keys[i].rpd_count == pool.keys[i].rpd_count + 1,
        pool.can_reserve(key, now) ==> pool.reserved(key, now).keys[i].rpm_count
            == pool.keys[i].rpm_count + 1,
        pool.can_reserve(key, now) ==> pool.reserved(key, now).keys[i].rpd_count
            == pool.keys[i].rpd_count + 1,
        !pool.can_reserve(key, now) ==> pool.reserved(key, now).keys[i].rpm_count
            == pool.keys[i].rpm_count,
        pool.can_reserve(key, now) <==> !pool.keys[i].limited(now),
{
    key_index_in_range(pool.keys, key, 0);
    assert(key_index(pool.keys, key, 0) == Some(i));
    let r = pool.recovered(now);
    key_index_in_range(r.keys, key, 0);
    assert(r.keys[i] == pool.keys[i].recovered(now));
    assert(r.keys[i].key == key);
    assert forall|j: int| 0 <= j < i implies (#[trigger] r.keys[j]).key != key by {
        assert(r.keys[j] == pool.keys[j].recovered(now));
        assert(pool.keys[j].key != key);
    }
    assert(key_index(r.keys, key, 0) == Some(i));
}

} // verus!
