//! Laws of the choice among keys.
use crate::config::{KeyTier, RoutingStrategy};
use crate::error::{GatewayError, GatewayResult};
use crate::keyhub::hub::{by_strategy, byte_sum, HubView, preferred, tried_order};
use crate::keyhub::pool::{
    acquired, as_candidate, CandidateView, chosen, chosen_key_is_selectable, free_candidates_of,
    is_free_candidate, least_failed, least_failed_is_least, least_used, least_used_is_least,
    open_positions, open_positions_are_selectable, PoolView, ranks_before,
};
use crate::keystate::{KeyStateView, KeyStatus};
use crate::lists::{kept, kept_satisfies, rotated};
use crate::sorting::{is_order, sorted_is_in_order, sorted_is_permutation};
use vstd::prelude::*;

verus! {

// ---------------------------------------------------------------- limits
/// What a key has used of its limits at second `now`, by number: requests of
/// the minute and of the day, prompt tokens of the minute, all tokens of the
/// day. What was counted in an earlier window does not matter.
pub open spec fn used(k: KeyStateView, n: int, now: u64) -> int {
    let minute = k.rpm_window_start == now / 60;
    let day = k.rpd_window_start == now / 86400;
    if n == 0 {
        if minute {
            k.rpm_count as int
        } else {
            0
        }
    } else if n == 1 {
        if day {
            k.rpd_count as int
        } else {
            0
        }
    } else if n == 2 {
        if minute {
            k.tpm_prompt_count as int
        } else {
            0
        }
    } else if day {
        k.tpd_prompt_count + k.tpd_completion_count
    } else {
        0
    }
}

/// The limits of a key, by the same numbers.
pub open spec fn allowance(k: KeyStateView, n: int) -> Option<u32> {
    if n == 0 {
        k.rpm_limit
    } else if n == 1 {
        k.rpd_limit
    } else if n == 2 {
        k.tpm_limit
    } else {
        k.tpd_limit
    }
}

/// A key that can take a request is available or on probation, and has used
/// less than it may of everything that is limited.
pub proof fn selectable_keys_are_within_their_limits(k: KeyStateView, now: u64, n: int)
    requires
        k.selectable(now),
        0 <= n < 4,
        allowance(k, n) matches Some(limit) && limit > 0,
    ensures
        k.status == KeyStatus::Available || k.status == KeyStatus::Probing,
        used(k, n, now) < allowance(k, n)->0,
{
}

/// A key that is available or on probation, and has used less than it may of
/// everything that is limited, can take a request.
pub proof fn keys_within_their_limits_are_selectable(k: KeyStateView, now: u64)
    requires
        k.status == KeyStatus::Available || k.status == KeyStatus::Probing,
        forall|n: int|
            0 <= n < 4 ==> (#[trigger] allowance(k, n) is None || used(k, n, now) < allowance(
                k,
                n,
            )->0),
    ensures
        k.selectable(now),
{
    assert(allowance(k, 0) is None || used(k, 0, now) < allowance(k, 0)->0);
    assert(allowance(k, 1) is None || used(k, 1, now) < allowance(k, 1)->0);
    assert(allowance(k, 2) is None || used(k, 2, now) < allowance(k, 2)->0);
    assert(allowance(k, 3) is None || used(k, 3, now) < allowance(k, 3)->0);
}

proof fn share_bounds(part: int, whole: int, q: int)
    requires
        0 <= part,
        0 < whole,
        q == part * 100 / whole,
    ensures
        0 <= q,
        q * whole <= part * 100 < (q + 1) * whole,
{
    vstd::arithmetic::div_mod::lemma_fundamental_div_mod(part * 100, whole);
    vstd::arithmetic::div_mod::lemma_mod_bound(part * 100, whole);
    let r = (part * 100) % whole;
    assert(q * whole <= part * 100 < (q + 1) * whole) by (nonlinear_arith)
        requires
            part * 100 == whole * q + r,
            0 <= r < whole,
    ;
    assert(0 <= q) by (nonlinear_arith)
        requires
            0 <= part * 100 < (q + 1) * whole,
            0 < whole,
    ;
}

/// The share that a key has used is that of its tightest limit, in percent and
/// rounded down: no limit is used by a percent more, and one is used by as much
/// unless nothing is.
pub proof fn the_used_share_is_that_of_the_tightest_limit(k: KeyStateView, now: u64)
    requires
        forall|n: int|
            0 <= n < 4 ==> 0 <= #[trigger] used(k, n, now) < 40_000_000 && (allowance(
                k,
                n,
            ) matches Some(limit) ==> limit > 0),
    ensures
        forall|n: int|
            0 <= n < 4 && #[trigger] allowance(k, n) is Some ==> used(k, n, now) * 100 < (
            k.usage_score(now) + 1) * allowance(k, n)->0,
        k.usage_score(now) == 0 || exists|n: int|
            0 <= n < 4 && #[trigger] allowance(k, n) is Some && k.usage_score(now) * allowance(
                k,
                n,
            )->0 <= used(k, n, now) * 100,
{
    let s = k.usage_score(now) as int;
    assert forall|n: int| 0 <= n < 4 && #[trigger] allowance(k, n) is Some implies {
        let q = used(k, n, now) * 100 / allowance(k, n)->0 as int;
        &&& q <= s
        &&& q * allowance(k, n)->0 <= used(k, n, now) * 100 < (q + 1) * allowance(k, n)->0
        &&& used(k, n, now) * 100 < (s + 1) * allowance(k, n)->0
    } by {
        let part = used(k, n, now);
        let whole = allowance(k, n)->0 as int;
        let q = part * 100 / whole;
        share_bounds(part, whole, q);
        assert(q <= part * 100) by (nonlinear_arith)
            requires
                q * whole <= part * 100,
                0 < whole,
                0 <= q,
        ;
        assert(q <= s);
        assert(part * 100 < (s + 1) * whole) by (nonlinear_arith)
            requires
                part * 100 < (q + 1) * whole,
                q <= s,
                0 < whole,
        ;
    }
    if s != 0 {
        assert forall|n: int| 0 <= n < 4 implies 0 <= #[trigger] used(k, n, now) < 40_000_000 by {}
        let q = |n: int| used(k, n, now) * 100 / allowance(k, n)->0 as int;
        if allowance(k, 0) is Some && s == q(0) {
        } else if allowance(k, 1) is Some && s == q(1) {
        } else if allowance(k, 2) is Some && s == q(2) {
        } else {
            assert(0 <= used(k, 0, now) < 40_000_000);
            assert(0 <= used(k, 1, now) < 40_000_000);
            assert(0 <= used(k, 2, now) < 40_000_000);
            assert(0 <= used(k, 3, now) < 40_000_000);
            assert(allowance(k, 3) is Some && s == q(3));
        }
    }
}

/// Of two keys that are not on probation, one that has used a smaller share has
/// the smaller number for selection: it is the share itself.
pub proof fn selection_goes_by_the_used_share(k: KeyStateView, now: u64)
    ensures
        k.status != KeyStatus::Probing ==> k.selection_sort_key(now).0 == k.usage_score(now),
        k.status == KeyStatus::Probing && k.usage_score(now) < 1_000_000 ==> k.selection_sort_key(
            now,
        ).0 == k.usage_score(now) + 1000,
{
}

// ---------------------------------------------------------------- handing out
/// A key is handed out exactly where one can take a request, and then one that
/// can; which, the strategy says.
pub proof fn a_key_is_handed_out_where_there_is_one(
    pool: PoolView,
    now: u64,
    draw: usize,
    r: GatewayResult<String>,
)
    requires
        acquired(pool, now, draw, r),
    ensures
        r is Ok <==> exists|i: int| 0 <= i < pool.keys.len() && #[trigger] pool.keys[i].selectable(now),
        r matches Ok(key) ==> exists|i: int|
            0 <= i < pool.keys.len() && #[trigger] pool.keys[i].selectable(now) && pool.keys[i].key
                == key@,
        r matches Err(e) ==> (e matches GatewayError::NoAvailableKeys(name) && name@ == pool.name),
{
    let keys = pool.keys;
    let positions = open_positions(keys, now);
    open_positions_are_selectable(keys, now);
    if positions.len() > 0 {
        assert(keys[positions[0]].selectable(now));
        let c = chosen(keys, now, pool.routing.strategy, draw);
        chosen_key_is_selectable(keys, now, pool.routing.strategy, draw);
        assert(keys[c].selectable(now));
    }
}

/// By the least rate: the key that is handed out has used no greater share of
/// its limits than any other key that can take a request. Among those that have
/// used as much, it has had no more requests in the day.
pub proof fn the_least_used_key_is_handed_out(
    pool: PoolView,
    now: u64,
    draw: usize,
    r: GatewayResult<String>,
    i: int,
)
    requires
        acquired(pool, now, draw, r),
        pool.routing.strategy == RoutingStrategy::LeastRate,
        0 <= i < pool.keys.len(),
        pool.keys[i].selectable(now),
    ensures
        r matches Ok(key) && exists|k: int|
            {
                &&& 0 <= k < pool.keys.len()
                &&& #[trigger] pool.keys[k].selectable(now)
                &&& pool.keys[k].key == key@
                &&& pool.keys[k].selection_sort_key(now).0 <= pool.keys[i].selection_sort_key(now).0
                &&& pool.keys[k].selection_sort_key(now).0 == pool.keys[i].selection_sort_key(now).0
                    ==> pool.keys[k].selection_sort_key(now).1 <= pool.keys[i].selection_sort_key(
                    now,
                ).1
            },
{
    let keys = pool.keys;
    let positions = open_positions(keys, now);
    open_positions_are_selectable(keys, now);
    assert(positions.contains(i));
    let j = choose|j: int| 0 <= j < positions.len() && positions[j] == i;
    least_used_is_least(keys, positions, now);
    let k = least_used(keys, positions, now);
    let w = choose|w: int| 0 <= w < positions.len() && positions[w] == k;
    assert(keys[positions[w]].selectable(now));
    assert(!ranks_before(
        keys[positions[j]].selection_sort_key(now),
        keys[k].selection_sort_key(now),
    ));
    assert(keys[k].selectable(now));
}

/// By the fewest failures: the key that is handed out has failed no more often
/// in a row than any other key that can take a request.
pub proof fn the_least_failed_key_is_handed_out(
    pool: PoolView,
    now: u64,
    draw: usize,
    r: GatewayResult<String>,
    i: int,
)
    requires
        acquired(pool, now, draw, r),
        pool.routing.strategy == RoutingStrategy::LeastFailed,
        0 <= i < pool.keys.len(),
        pool.keys[i].selectable(now),
    ensures
        r matches Ok(key) && exists|k: int|
            {
                &&& 0 <= k < pool.keys.len()
                &&& #[trigger] pool.keys[k].selectable(now)
                &&& pool.keys[k].key == key@
                &&& pool.keys[k].fail_count <= pool.keys[i].fail_count
            },
{
    let keys = pool.keys;
    let positions = open_positions(keys, now);
    open_positions_are_selectable(keys, now);
    assert(positions.contains(i));
    let j = choose|j: int| 0 <= j < positions.len() && positions[j] == i;
    least_failed_is_least(keys, positions);
    let k = least_failed(keys, positions);
    let w = choose|w: int| 0 <= w < positions.len() && positions[w] == k;
    assert(keys[positions[w]].selectable(now));
    assert(keys[k].fail_count <= keys[positions[j]].fail_count);
    assert(keys[k].selectable(now));
}

/// The open positions ascend.
proof fn open_positions_ascend(keys: Seq<KeyStateView>, now: u64)
    ensures
        forall|a: int, b: int|
            0 <= a < b < open_positions(keys, now).len() ==> (#[trigger] open_positions(
                keys,
                now,
            )[a]) < (#[trigger] open_positions(keys, now)[b]),
    decreases keys.len(),
{
    if keys.len() > 0 {
        let before = keys.drop_last();
        open_positions_ascend(before, now);
        open_positions_are_selectable(before, now);
        let p = open_positions(before, now);
        let all = open_positions(keys, now);
        assert forall|a: int, b: int| 0 <= a < b < all.len() implies (#[trigger] all[a])
            < (#[trigger] all[b]) by {
            assert(all[a] == p[a]);
            assert(0 <= p[a] < before.len());
            if b < p.len() {
                assert(all[b] == p[b]);
            }
        }
    }
}

/// By priority: the key that is handed out stands before every other key that
/// can take a request.
pub proof fn the_first_key_is_handed_out(
    pool: PoolView,
    now: u64,
    draw: usize,
    r: GatewayResult<String>,
    i: int,
)
    requires
        acquired(pool, now, draw, r),
        pool.routing.strategy == RoutingStrategy::Priority,
        0 <= i < pool.keys.len(),
        pool.keys[i].selectable(now),
    ensures
        r matches Ok(key) && exists|k: int|
            0 <= k <= i && #[trigger] pool.keys[k].selectable(now) && pool.keys[k].key == key@,
{
    let keys = pool.keys;
    let positions = open_positions(keys, now);
    open_positions_are_selectable(keys, now);
    open_positions_ascend(keys, now);
    assert(positions.contains(i));
    let j = choose|j: int| 0 <= j < positions.len() && positions[j] == i;
    assert(keys[positions[0]].selectable(now));
    if j > 0 {
        assert(positions[0] < positions[j]);
    }
}

/// In turn: turns that follow each other hand out the keys that can take a
/// request one after the other, and start again with the first when all had
/// their turn. So of two turns less than a round apart each gives another key.
pub proof fn turns_go_round(keys: Seq<KeyStateView>, now: u64, turn: usize, later: usize)
    requires
        open_positions(keys, now).len() > 0,
        turn < later,
    ensures
        ({
            let first = chosen(keys, now, RoutingStrategy::RoundRobin, turn);
            let second = chosen(keys, now, RoutingStrategy::RoundRobin, later);
            let n = open_positions(keys, now).len();
            &&& later - turn < n ==> first != second
            &&& later - turn == n ==> first == second
            &&& later - turn == 1 && first < second ==> forall|i: int|
                first < i < second ==> !(#[trigger] keys[i].selectable(now))
            &&& later - turn == 1 && second <= first ==> forall|i: int|
                (0 <= i < second || first < i < keys.len()) ==> !(#[trigger] keys[i].selectable(now))
        }),
{
    let p = open_positions(keys, now);
    let n = p.len() as int;
    let a = turn as int % n;
    let b = later as int % n;
    open_positions_ascend(keys, now);
    open_positions_are_selectable(keys, now);
    vstd::arithmetic::div_mod::lemma_fundamental_div_mod(turn as int, n);
    vstd::arithmetic::div_mod::lemma_fundamental_div_mod(later as int, n);
    vstd::arithmetic::div_mod::lemma_mod_bound(turn as int, n);
    vstd::arithmetic::div_mod::lemma_mod_bound(later as int, n);
    let qa = turn as int / n;
    let qb = later as int / n;
    let d = later - turn;
    assert(n * qb - n * qa == n * (qb - qa)) by (nonlinear_arith);
    let m = qb - qa;
    assert(d == n * m + b - a);
    if d < n {
        assert(a != b) by (nonlinear_arith)
            requires
                d == n * m + b - a,
                0 < d < n,
        ;
        if a < b {
            assert(p[a] < p[b]);
        } else {
            assert(p[b] < p[a]);
        }
    }
    if d == n {
        assert(a == b) by (nonlinear_arith)
            requires
                d == n * m + b - a,
                d == n,
                0 <= a < n,
                0 <= b < n,
        ;
    }
    if d == 1 {
        assert(b == a + 1 || (b == 0 && a == n - 1)) by (nonlinear_arith)
            requires
                d == n * m + b - a,
                d == 1,
                0 <= a < n,
                0 <= b < n,
        ;
        if p[a] < p[b] {
            if b == 0 && a == n - 1 && n > 1 {
                assert(p[0] < p[n - 1]);
            }
            assert forall|i: int| p[a] < i < p[b] implies !(#[trigger] keys[i].selectable(now)) by {
                if keys[i].selectable(now) {
                    assert(p.contains(i));
                    let w = choose|w: int| 0 <= w < n && p[w] == i;
                    if w <= a {
                        if w < a {
                            assert(p[w] < p[a]);
                        }
                    } else if w > b {
                        assert(p[b] < p[w]);
                    }
                }
            }
        } else {
            if b == a + 1 {
                assert(p[a] < p[b]);
            }
            assert forall|i: int| (0 <= i < p[b] || p[a] < i < keys.len()) implies !(
            #[trigger] keys[i].selectable(now)) by {
                if keys[i].selectable(now) {
                    assert(p.contains(i));
                    let w = choose|w: int| 0 <= w < n && p[w] == i;
                    if w > 0 {
                        assert(p[0] < p[w]);
                    }
                    if w < n - 1 {
                        assert(p[w] < p[n - 1]);
                    }
                }
            }
        }
    }
}

// ---------------------------------------------------------------- candidates
/// A key that is free, can take a request and lists a model is a candidate for
/// it.
pub proof fn free_keys_are_candidates(
    keys: Seq<KeyStateView>,
    model: Seq<char>,
    now: u64,
    i: int,
)
    requires
        0 <= i < keys.len(),
        keys[i].tier == KeyTier::Free,
        keys[i].selectable(now),
        keys[i].models.contains(model),
    ensures
        exists|j: int|
            0 <= j < free_candidates_of(keys, Some(model), now).len() && (
            #[trigger] free_candidates_of(keys, Some(model), now)[j]).key == keys[i].key,
{
    let p = is_free_candidate(Some(model), now);
    let fit = kept(keys, p);
    let r = free_candidates_of(keys, Some(model), now);
    kept_satisfies(keys, p);
    assert(p(keys[i]));
    assert(keys.contains(keys[i]));
    assert(fit.contains(keys[i]));
    let j = choose|j: int| 0 <= j < fit.len() && fit[j] == keys[i];
    assert(r[j] == as_candidate(fit[j], now));
    assert(r[j].key == keys[i].key);
}

/// A candidate for a model is a key that is free, can take a request and lists
/// the model. It is compared by its failures and by the share that it has used.
pub proof fn candidates_are_free_keys(
    keys: Seq<KeyStateView>,
    model: Seq<char>,
    now: u64,
    j: int,
)
    requires
        0 <= j < free_candidates_of(keys, Some(model), now).len(),
    ensures
        exists|k: int|
            {
                let c = free_candidates_of(keys, Some(model), now)[j];
                &&& 0 <= k < keys.len()
                &&& #[trigger] keys[k].selectable(now)
                &&& keys[k].tier == KeyTier::Free
                &&& keys[k].models.contains(model)
                &&& keys[k].key == c.key
                &&& keys[k].fail_count == c.fail_count
                &&& keys[k].total_fail_count == c.total_fail_count
                &&& keys[k].selection_sort_key(now) == c.usage_sort_key
            },
{
    let p = is_free_candidate(Some(model), now);
    let fit = kept(keys, p);
    kept_satisfies(keys, p);
    assert(free_candidates_of(keys, Some(model), now)[j] == as_candidate(fit[j], now));
    assert(p(fit[j]) && keys.contains(fit[j]));
    let k = choose|k: int| 0 <= k < keys.len() && keys[k] == fit[j];
    assert(keys[k].selectable(now));
}

/// While a provider cools down, none of its keys is a candidate.
pub proof fn a_cooling_provider_has_no_candidates(
    hub: HubView,
    provider: Seq<char>,
    model: Option<Seq<char>>,
    now: u64,
)
    requires
        hub.pools.contains_key(provider) ==> now < hub.pools[provider].cooldown_until,
    ensures
        hub.free_infos(provider, model, now).len() == 0,
{
}

proof fn preference_is_order(strategy: RoutingStrategy)
    ensures
        is_order(preferred(strategy)),
{
}

/// By the least rate, candidates are tried in the order of the shares that they
/// have used, the smallest first.
pub proof fn candidates_are_tried_by_used_share(
    list: Seq<CandidateView>,
    draw: usize,
    i: int,
    j: int,
)
    requires
        0 <= i < j < list.len(),
    ensures
        by_strategy(list, RoutingStrategy::LeastRate, draw).len() == list.len(),
        by_strategy(list, RoutingStrategy::LeastRate, draw)[i].usage_sort_key.0 <= by_strategy(
            list,
            RoutingStrategy::LeastRate,
            draw,
        )[j].usage_sort_key.0,
{
    let p = preferred(RoutingStrategy::LeastRate);
    preference_is_order(RoutingStrategy::LeastRate);
    sorted_is_in_order(list, p);
    sorted_is_permutation(list, p);
    let r = by_strategy(list, RoutingStrategy::LeastRate, draw);
    assert(!p(r[j], r[i]));
}

/// By the fewest failures, candidates are tried in the order of their failures
/// in a row, the fewest first; with as many in a row, in the order of all their
/// failures.
pub proof fn candidates_are_tried_by_failures(
    list: Seq<CandidateView>,
    draw: usize,
    i: int,
    j: int,
)
    requires
        0 <= i < j < list.len(),
    ensures
        by_strategy(list, RoutingStrategy::LeastFailed, draw).len() == list.len(),
        ({
            let a = by_strategy(list, RoutingStrategy::LeastFailed, draw)[i];
            let b = by_strategy(list, RoutingStrategy::LeastFailed, draw)[j];
            &&& a.fail_count <= b.fail_count
            &&& a.fail_count == b.fail_count && b.total_fail_count < u32::MAX
                ==> a.total_fail_count <= b.total_fail_count
        }),
{
    let p = preferred(RoutingStrategy::LeastFailed);
    preference_is_order(RoutingStrategy::LeastFailed);
    sorted_is_in_order(list, p);
    sorted_is_permutation(list, p);
    let r = by_strategy(list, RoutingStrategy::LeastFailed, draw);
    assert(!p(r[j], r[i]));
}

/// By priority, candidates are tried as they are listed. In turn, or by chance,
/// they are tried from the one that the draw hits, on to the last and then from
/// the first.
pub proof fn candidates_are_tried_from_the_draw(
    list: Seq<CandidateView>,
    draw: usize,
    i: int,
)
    requires
        0 <= i < list.len(),
    ensures
        by_strategy(list, RoutingStrategy::Priority, draw) == list,
        by_strategy(list, RoutingStrategy::RoundRobin, draw).len() == list.len(),
        by_strategy(list, RoutingStrategy::RoundRobin, draw)[i] == list[(draw + i)
            % list.len() as int],
        by_strategy(list, RoutingStrategy::Random, draw) == by_strategy(
            list,
            RoutingStrategy::RoundRobin,
            draw,
        ),
{
    let n = list.len() as int;
    let k = draw as int % n;
    vstd::arithmetic::div_mod::lemma_mod_bound(draw as int, n);
    vstd::arithmetic::div_mod::lemma_fundamental_div_mod(draw as int, n);
    if n > 1 {
        let r = rotated(list, k);
        assert(r.len() == n);
        vstd::arithmetic::div_mod::lemma_add_mod_noop(draw as int, i, n);
        vstd::arithmetic::div_mod::lemma_small_mod(i as nat, n as nat);
        assert((draw + i) % n == (k + i) % n);
        if k + i < n {
            vstd::arithmetic::div_mod::lemma_small_mod((k + i) as nat, n as nat);
        } else {
            vstd::arithmetic::div_mod::lemma_mod_sub_multiples_vanish(k + i, n);
            vstd::arithmetic::div_mod::lemma_small_mod((k + i - n) as nat, n as nat);
        }
    } else {
        assert((draw + i) % 1 == 0);
    }
}

/// Without an agent, keys are tried in the order of the strategy. An agent
/// changes only where that order starts.
pub proof fn agents_change_where_the_order_starts(
    list: Seq<CandidateView>,
    strategy: RoutingStrategy,
    draw: usize,
    agent: Option<Seq<char>>,
)
    ensures
        ({
            let order = by_strategy(list, strategy, draw).map_values(|c: CandidateView| c.key);
            let tried = tried_order(list, strategy, draw, agent);
            &&& agent is None ==> tried == order
            &&& exists|k: int| 0 <= k <= order.len() && tried == #[trigger] order.skip(k)
                + order.take(k)
        }),
{
    let order = by_strategy(list, strategy, draw).map_values(|c: CandidateView| c.key);
    let tried = tried_order(list, strategy, draw, agent);
    if tried == order {
        assert(order =~= order.skip(0) + order.take(0));
    } else {
        let name = agent->0;
        let k = byte_sum(vstd::utf8::encode_utf8(name)) as int
            % order.len() as int;
        vstd::arithmetic::div_mod::lemma_mod_bound(
            byte_sum(vstd::utf8::encode_utf8(name)) as int,
            order.len() as int,
        );
        assert(tried =~= order.skip(k) + order.take(k));
    }
}

} // verus!
