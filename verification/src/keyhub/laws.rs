//! Laws of the key states.
use crate::config::{KeyConfig, KeyTier, RoutingConfig};
use crate::keyhub::pool::{
    key_index, key_index_in_range, new_pool, PoolView, restored_from, saved_index,
};
use crate::keystate::{escalation, fingerprint, KeyStateView, KeyStatus, new_key, plus64};
use vstd::prelude::*;

verus! {

/// Resetting expired windows twice is resetting them once.
pub proof fn fresh_windows_are_idempotent(k: KeyStateView, now: u64)
    ensures
        k.with_fresh_windows(now).with_fresh_windows(now) == k.with_fresh_windows(now),
{
}

/// Resetting expired windows does not change whether a key is limited.
pub proof fn fresh_windows_keep_limits_unless_zero(k: KeyStateView, now: u64)
    requires
        k.rpm_limit != Some(0u32),
        k.rpd_limit != Some(0u32),
        k.tpm_limit != Some(0u32),
        k.tpd_limit != Some(0u32),
    ensures
        k.with_fresh_windows(now).limited(now) == k.limited(now),
{
}

/// A window that has expired limits nobody.
pub proof fn expired_windows_do_not_limit(k: KeyStateView, now: u64)
    requires
        k.rpm_window_start != now / 60,
        k.rpd_window_start != now / 86400,
    ensures
        !k.limited(now),
{
}

/// Recovery happens once: a recovered key has no cooldown left to recover from.
pub proof fn recovery_is_idempotent(k: KeyStateView, now: u64)
    ensures
        k.recovered(now).recovered(now) == k.recovered(now),
{
}

/// No passing of time enables a disabled key.
pub proof fn time_does_not_enable(k: KeyStateView, now: u64)
    requires
        k.status == KeyStatus::Disabled,
    ensures
        k.refreshed(now).status == KeyStatus::Disabled,
        !k.refreshed(now).selectable(now),
{
}

/// A key whose credentials were turned away is not used again, whatever the
/// time, until a success, a discovery or a restoration by hand.
pub proof fn auth_failure_disables(
    k: KeyStateView,
    status: u16,
    retry_after: Option<u64>,
    threshold: u32,
    cooldown: u64,
    now: u64,
    later: u64,
)
    requires
        status == 401 || status == 403,
    ensures
        ({
            let failed = k.after_failure(status, retry_after, now, threshold, cooldown);
            failed.status == KeyStatus::Disabled && !failed.refreshed(later).selectable(later)
        }),
{
}

/// A key that was rate limited is not used before its cooldown ends.
pub proof fn rate_limited_key_rests(
    k: KeyStateView,
    retry_after: Option<u64>,
    now: u64,
    later: u64,
)
    requires
        k.after_rate_limit(retry_after, now).cooldown_until matches Some(until) && later < until,
    ensures
        !k.after_rate_limit(retry_after, now).refreshed(later).selectable(later),
{
}

/// A rate limit is remembered across its recovery: the key is then on
/// probation, and another rate limit waits for the next of the escalating
/// durations.
pub proof fn escalation_survives_recovery(
    k: KeyStateView,
    retry_after: Option<u64>,
    now: u64,
    later: u64,
    again: u64,
)
    requires
        k.rate_limit_hits < u32::MAX,
        k.after_rate_limit(retry_after, now).cooldown_until matches Some(until) && later >= until,
    ensures
        ({
            let back = k.after_rate_limit(retry_after, now).refreshed(later);
            &&& back.status == KeyStatus::Probing
            &&& back.rate_limit_hits == k.rate_limit_hits + 1
            &&& back.after_rate_limit(None, again).cooldown_until == Some(
                plus64(again, escalation((k.rate_limit_hits + 1) as nat)),
            )
        }),
{
}

/// Each rate limit in a row means a cooldown at least as long as the one
/// before, from two minutes up to a day.
pub proof fn escalation_grows(hits: nat)
    ensures
        120 <= escalation(hits) <= escalation(hits + 1) <= 86400,
{
}

/// A pool after rate limits on a key in a row, with nothing in between; of each
/// stands how long the provider asked to wait, and its second.
pub open spec fn rate_limited_in_a_row(
    pool: PoolView,
    key: Seq<char>,
    hits: Seq<(Option<u64>, u64)>,
) -> PoolView
    decreases hits.len(),
{
    if hits.len() == 0 {
        pool
    } else {
        rate_limited_in_a_row(pool, key, hits.drop_last()).failed(
            key,
            429,
            hits.last().0,
            hits.last().1,
        )
    }
}

/// A key is found at the same place in lists that hold the same values.
proof fn same_values_same_index(
    a: Seq<KeyStateView>,
    b: Seq<KeyStateView>,
    key: Seq<char>,
    from: int,
)
    requires
        0 <= from,
        a.len() == b.len(),
        forall|j: int| 0 <= j < a.len() ==> (#[trigger] a[j]).key == b[j].key,
    ensures
        key_index(a, key, from) == key_index(b, key, from),
    decreases a.len() - from,
{
    if from < a.len() {
        assert(a[from].key == b[from].key);
        same_values_same_index(a, b, key, from + 1);
    }
}

/// Rate limits in a row on a key that had none before. The key waits from the
/// last of them on: as long as the provider asked, else 2 minutes after the
/// first, 10 minutes after the second, 1 hour after the third and 24 hours
/// after every later one. Each counts as one failure of the key and as none of
/// the provider; the other keys stay as they are.
pub proof fn rate_limits_in_a_row(
    pool: PoolView,
    key: Seq<char>,
    hits: Seq<(Option<u64>, u64)>,
    i: int,
)
    requires
        hits.len() > 0,
        key_index(pool.keys, key, 0) == Some(i),
        pool.keys[i].rate_limit_hits == 0,
        pool.keys[i].total_fail_count + hits.len() <= u64::MAX,
    ensures
        ({
            let after = rate_limited_in_a_row(pool, key, hits);
            let n = hits.len();
            let asked = hits.last().0;
            let now = hits.last().1;
            let wait: u64 = if asked is Some {
                asked->0
            } else if n == 1 {
                120
            } else if n == 2 {
                600
            } else if n == 3 {
                3600
            } else {
                86400
            };
            &&& after.keys[i].status == KeyStatus::RateLimited
            &&& after.keys[i].cooldown_until == Some(plus64(now, wait))
            &&& after.keys[i].total_fail_count == pool.keys[i].total_fail_count + n
            &&& after == pool.with_keys(pool.keys.update(i, after.keys[i]))
        }),
{
    rate_limits_counted(pool, key, hits, i);
}

/// What [`rate_limits_in_a_row`] says, with the count of the rate limits.
proof fn rate_limits_counted(
    pool: PoolView,
    key: Seq<char>,
    hits: Seq<(Option<u64>, u64)>,
    i: int,
)
    requires
        key_index(pool.keys, key, 0) == Some(i),
        pool.keys[i].rate_limit_hits == 0,
        pool.keys[i].total_fail_count + hits.len() <= u64::MAX,
    ensures
        ({
            let after = rate_limited_in_a_row(pool, key, hits);
            &&& after.keys[i].key == pool.keys[i].key
            &&& after.keys[i].rate_limit_hits == (if hits.len() <= u32::MAX {
                hits.len() as int
            } else {
                u32::MAX as int
            })
            &&& after.keys[i].total_fail_count == pool.keys[i].total_fail_count + hits.len()
            &&& after == pool.with_keys(pool.keys.update(i, after.keys[i]))
            &&& hits.len() > 0 ==> after.keys[i] == rate_limited_in_a_row(
                pool,
                key,
                hits.drop_last(),
            ).keys[i].after_rate_limit(hits.last().0, hits.last().1)
            &&& hits.len() > 0 ==> rate_limited_in_a_row(
                pool,
                key,
                hits.drop_last(),
            ).keys[i].rate_limit_hits == (if hits.len() - 1 <= u32::MAX {
                hits.len() - 1
            } else {
                u32::MAX as int
            })
        }),
    decreases hits.len(),
{
    key_index_in_range(pool.keys, key, 0);
    if hits.len() == 0 {
        assert(pool.keys =~= pool.keys.update(i, pool.keys[i]));
    } else {
        let mid = rate_limited_in_a_row(pool, key, hits.drop_last());
        let after = rate_limited_in_a_row(pool, key, hits);
        rate_limits_counted(pool, key, hits.drop_last(), i);
        same_values_same_index(mid.keys, pool.keys, key, 0);
        assert(after.keys =~= pool.keys.update(i, after.keys[i]));
    }
}

/// Rate limits in a row on a key of a new pool: the waits are the escalating
/// ones, the key has failed once for each of them, and the provider has not.
pub proof fn rate_limits_in_a_row_on_a_new_key(
    name: Seq<char>,
    configs: Seq<KeyConfig>,
    routing: RoutingConfig,
    start: u64,
    key: Seq<char>,
    seconds: Seq<u64>,
    i: int,
)
    requires
        0 < seconds.len() <= u64::MAX,
        key_index(new_pool(name, configs, routing, start).keys, key, 0) == Some(i),
    ensures
        ({
            let after = rate_limited_in_a_row(
                new_pool(name, configs, routing, start),
                key,
                seconds.map_values(|now: u64| (None::<u64>, now)),
            );
            &&& after.keys[i].status == KeyStatus::RateLimited
            &&& after.keys[i].cooldown_until == Some(
                plus64(seconds.last(), escalation((seconds.len() - 1) as nat)),
            )
            &&& after.keys[i].total_fail_count == seconds.len()
            &&& after.fail_count == 0
            &&& after.cooldown_until == 0
        }),
{
    let pool = new_pool(name, configs, routing, start);
    key_index_in_range(pool.keys, key, 0);
    rate_limits_in_a_row(pool, key, seconds.map_values(|now: u64| (None::<u64>, now)), i);
}

/// Only rate limits count towards the escalation: no other failure, no cooldown
/// and no recovery changes how many there were in a row.
pub proof fn only_rate_limits_escalate(
    k: KeyStateView,
    status: u16,
    retry_after: Option<u64>,
    now: u64,
    threshold: u32,
    cooldown: u64,
)
    requires
        status != 429,
    ensures
        k.after_failure(status, retry_after, now, threshold, cooldown).rate_limit_hits
            == k.rate_limit_hits,
        k.after_forced_cooldown(status, now, cooldown).rate_limit_hits == k.rate_limit_hits,
        k.reserved(now, cooldown).rate_limit_hits == k.rate_limit_hits,
        k.refreshed(now).rate_limit_hits == k.rate_limit_hits,
{
}

/// A success or a restoration ends the escalation: the next rate limit waits as
/// long as a first one.
pub proof fn escalation_starts_anew(k: KeyStateView, now: u64, later: u64)
    ensures
        k.after_success(now).after_rate_limit(None, later).cooldown_until == Some(
            plus64(later, 120),
        ),
        k.restored(now).after_rate_limit(None, later).cooldown_until == Some(plus64(later, 120)),
{
}

/// Whether a key has the end of a cooldown only while it cools down.
pub open spec fn waits_rightly(k: KeyStateView) -> bool {
    k.cooldown_until is Some ==> k.status == KeyStatus::Cooldown || k.status
        == KeyStatus::RateLimited
}

/// Whatever happens to a key, it has the end of a cooldown only while it cools
/// down.
pub proof fn cooldowns_belong_to_waiting_keys(
    k: KeyStateView,
    key: Seq<char>,
    tier: KeyTier,
    status: u16,
    retry_after: Option<u64>,
    now: u64,
    threshold: u32,
    cooldown: u64,
)
    requires
        waits_rightly(k),
    ensures
        waits_rightly(new_key(key, tier, now)),
        waits_rightly(k.refreshed(now)),
        waits_rightly(k.reserved(now, cooldown)),
        waits_rightly(k.after_success(now)),
        waits_rightly(k.after_failure(status, retry_after, now, threshold, cooldown)),
        waits_rightly(k.after_forced_cooldown(status, now, cooldown)),
        waits_rightly(k.restored(now)),
{
}

/// Completion tokens do not count against the limit of a minute.
pub proof fn minutes_limit_prompt_tokens(k: KeyStateView, completion: u32, now: u64)
    requires
        k.tpd_limit is None,
    ensures
        k.with_tokens(None, Some(completion)).limited(now) == k.limited(now),
{
}

/// What the configuration or the provider's own interface says of a limit no
/// observation changes.
pub proof fn declared_limits_are_not_observed_away(
    k: KeyStateView,
    retry_after: Option<u64>,
    now: u64,
)
    ensures
        ({
            let after = k.after_rate_limit(retry_after, now);
            &&& (k.rpm_limit_source == Some("config"@) || k.rpm_limit_source == Some(
                "official_api"@,
            )) ==> after.rpm_limit == k.rpm_limit && after.rpm_limit_source == k.rpm_limit_source
            &&& (k.rpd_limit_source == Some("config"@) || k.rpd_limit_source == Some(
                "official_api"@,
            )) ==> after.rpd_limit == k.rpd_limit && after.rpd_limit_source == k.rpd_limit_source
        }),
{
}

/// An observed rate limit never loosens a limit.
pub proof fn observed_limits_only_tighten(k: KeyStateView, retry_after: Option<u64>, now: u64)
    ensures
        ({
            let after = k.after_rate_limit(retry_after, now);
            &&& k.rpm_limit matches Some(before) ==> after.rpm_limit matches Some(l) && l <= before
            &&& k.rpd_limit matches Some(before) ==> after.rpd_limit matches Some(l) && l <= before
        }),
{
}

/// Reserving a request on a key that can take one keeps it within its request
/// limits.
pub proof fn reservation_respects_request_limits(k: KeyStateView, now: u64, cooldown: u64)
    requires
        k.with_fresh_windows(now).selectable(now),
    ensures
        ({
            let after = k.with_fresh_windows(now).reserved(now, cooldown);
            &&& k.rpm_limit matches Some(limit) ==> after.rpm_count <= limit
            &&& k.rpd_limit matches Some(limit) ==> after.rpd_count <= limit
        }),
{
}

/// A key on probation takes one request: once reserved, it is not selectable
/// again before its cooldown ends.
pub proof fn probation_takes_one_request(k: KeyStateView, now: u64, cooldown: u64, later: u64)
    requires
        k.status == KeyStatus::Probing,
        now + cooldown <= u64::MAX,
        later < now + cooldown,
    ensures
        !k.reserved(now, cooldown).refreshed(later).selectable(later),
{
}

/// A success ends every failure and every rate limit in a row, and makes a key available unless it
/// cools down from failures other than a rate limit.
pub proof fn success_forgives(k: KeyStateView, now: u64)
    ensures
        k.after_success(now).fail_count == 0,
        k.after_success(now).rate_limit_hits == 0,
        k.after_success(now).status == KeyStatus::Available || (k.status == KeyStatus::Cooldown
            && k.last_error_status != Some(429u16)),
{
}

/// A key cools down exactly when it has failed as often in a row as the
/// threshold says.
pub proof fn threshold_decides_cooldown(
    k: KeyStateView,
    status: u16,
    now: u64,
    threshold: u32,
    cooldown: u64,
)
    requires
        k.status == KeyStatus::Available,
        k.fail_count < u32::MAX,
    ensures
        k.after_general_failure(status, now, threshold, cooldown).status == (if k.fail_count + 1
            >= threshold {
            KeyStatus::Cooldown
        } else {
            KeyStatus::Available
        }),
{
}

/// Keys on probation are never preferred to keys that are not, as long as no
/// key has used up ten times its limits.
pub proof fn probation_comes_last(a: KeyStateView, b: KeyStateView, now: u64)
    requires
        a.status == KeyStatus::Probing,
        b.status != KeyStatus::Probing,
        b.usage_score(now) < 1000,
    ensures
        a.selection_sort_key(now).0 > b.selection_sort_key(now).0,
{
}

/// A request that was reserved counts once: reporting its success leaves the
/// key as if it had been sent without a reservation.
pub proof fn reserved_requests_count_once(
    k: KeyStateView,
    prompt: Option<u32>,
    completion: Option<u32>,
    now: u64,
    cooldown: u64,
)
    requires
        k.status == KeyStatus::Available || (k.status == KeyStatus::Probing && k.last_error_status
            == Some(429u16)),
    ensures
        ({
            let fresh = k.with_fresh_windows(now);
            fresh.reserved(now, cooldown).after_success(now).with_tokens(prompt, completion)
                == fresh.after_success(now).with_request().with_tokens(prompt, completion)
        }),
{
}

/// Whether a configured key is the one that a state is of, with the same
/// limits of its own: what the state has beyond them was learned.
pub open spec fn configured_alike(configured: KeyStateView, k: KeyStateView) -> bool {
    &&& configured.key == k.key
    &&& configured.tier == k.tier
    &&& configured.tpm_limit == k.tpm_limit
    &&& configured.tpd_limit == k.tpd_limit
    &&& configured.rpm_limit is Some ==> configured.rpm_limit == k.rpm_limit
        && configured.rpm_limit_source == k.rpm_limit_source
    &&& configured.rpd_limit is Some ==> configured.rpd_limit == k.rpd_limit
        && configured.rpd_limit_source == k.rpd_limit_source
}

/// The first state that belongs to a key, where identifiers are not shared.
proof fn own_state_is_found(keys: Seq<KeyStateView>, i: int, from: int)
    requires
        0 <= from <= i < keys.len(),
        forall|a: int, b: int|
            0 <= a < b < keys.len() ==> fingerprint((#[trigger] keys[a]).key) != fingerprint(
                (#[trigger] keys[b]).key,
            ),
    ensures
        saved_index(
            keys.map_values(|k: KeyStateView| k.masked()),
            fingerprint(keys[i].key),
            from,
        ) == Some(i),
    decreases i - from,
{
    reveal_strlit("key-");
    let saved = keys.map_values(|k: KeyStateView| k.masked());
    assert(saved[from] == keys[from].masked());
    assert(fingerprint(keys[from].key)[0] == 'k');
    if from < i {
        assert(fingerprint(keys[from].key) != fingerprint(keys[i].key));
        own_state_is_found(keys, i, from + 1);
    }
}

/// What a snapshot shows is enough to restore: put back onto the same
/// configuration, it gives every key the state it had, although the snapshot
/// holds no key in full.
pub proof fn snapshots_restore_states(keys: Seq<KeyStateView>, configured: Seq<KeyStateView>)
    requires
        configured.len() == keys.len(),
        forall|i: int|
            0 <= i < keys.len() ==> configured_alike(configured[i], #[trigger] keys[i])
                && keys[i].key_id == fingerprint(keys[i].key),
        forall|i: int, j: int|
            0 <= i < j < keys.len() ==> fingerprint((#[trigger] keys[i]).key) != fingerprint(
                (#[trigger] keys[j]).key,
            ),
    ensures
        configured.map_values(
            |c: KeyStateView| restored_from(c, keys.map_values(|k: KeyStateView| k.masked())),
        ) == keys,
{
    let saved = keys.map_values(|k: KeyStateView| k.masked());
    let back = configured.map_values(|c: KeyStateView| restored_from(c, saved));
    assert forall|i: int| 0 <= i < keys.len() implies back[i] == keys[i] by {
        own_state_is_found(keys, i, 0);
        assert(saved[i] == keys[i].masked());
        assert(configured_alike(configured[i], keys[i]));
    }
    assert(back =~= keys);
}

} // verus!
