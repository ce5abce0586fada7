//! Laws of refreshes, trials of keys, and reports.
use crate::api::admin::metadata::{
    amount_of, amounts, by_category, by_model, capped_total, category_totals, entry_names,
    larger_first, top_failing, under,
};
use crate::api::admin::refresh::{after_refresh, refreshed_health, RefreshView};
use crate::api::admin::reports::{
    asked, between, mean_latency, task_row, totals_summary, usage_row, usage_totals, UsageTotals,
};
use crate::api::admin::trial::{
    failure_reply, fresh_trial, provider_timeout, steps, success_reply, TrialStep, TrialView,
};
use crate::api::admin::validation::{
    can_be_tried, candidates_of, content_preview, disabled_of, failure_status, first_content,
    health_check_of, models_of_id, models_of_key,
};
use crate::clock::Moment;
use crate::config::Config;
use crate::error::{auth_failure, GatewayError, message_of, status_of};
use crate::health::HealthView;
use crate::json::{int_json, JsonView, member_at, num, NumberView};
use crate::keyhub::hub::HubView;
use crate::keyhub::hub_laws::id_is_first;
use crate::keyhub::pool::{key_index, key_index_in_range};
use crate::keystate::fingerprint;
use crate::lists::{firsts_are_distinct, kept, kept_satisfies, named_in_is_first, named_in_nowhere};
use crate::metadata::rows::{ErrorSummaryRow, TaskStatsRow, UsageSummaryRow};
use crate::providers::traits::ChatResponse;
use crate::sorting::{sorted, sorted_is_in_order, sorted_set, sorted_set_is_increasing};
use crate::text::{is_blank, trimmed, views};
use vstd::utf8::{decode_utf8, encode_utf8};
use vstd::prelude::*;

verus! {

// ---------------------------------------------------------------- refreshes
/// A key that names its models succeeds: its models are found, and its time is
/// added. One that fails leaves its reason, and one that does not answer in time
/// another; neither finds a model. Either way the next key is asked.
pub proof fn answers_of_keys_are_taken(
    r: RefreshView,
    models: Vec<String>,
    e: GatewayError,
    latency: u64,
)
    requires
        r.total_latency + latency <= u64::MAX,
    ensures
        r.answered(Some(Ok(models)), latency).done == r.done + 1,
        r.answered(Some(Ok(models)), latency).successful_keys == r.successful_keys + 1,
        r.answered(Some(Ok(models)), latency).total_latency == r.total_latency + latency,
        forall|m: Seq<char>|
            #![trigger r.answered(Some(Ok(models)), latency).found.contains(m)]
            r.answered(Some(Ok(models)), latency).found.contains(m) <==> r.found.contains(m)
                || views(models@).contains(m),
        r.answered(Some(Err(e)), latency).done == r.done + 1,
        r.answered(Some(Err(e)), latency).successful_keys == r.successful_keys,
        r.answered(Some(Err(e)), latency).found == r.found,
        r.answered(Some(Err(e)), latency).last_error == message_of(e),
        r.answered(None, latency).done == r.done + 1,
        r.answered(None, latency).successful_keys == r.successful_keys,
        r.answered(None, latency).found == r.found,
        r.answered(None, latency).last_error == "Model discovery timed out"@,
        r.answered(None, latency).total_latency == r.total_latency,
{
    let after = r.answered(Some(Ok(models)), latency).found;
    assert forall|m: Seq<char>| #[trigger] after.contains(m) <==> r.found.contains(m) || views(
        models@,
    ).contains(m) by {
        if r.found.contains(m) {
            let w = choose|w: int| 0 <= w < r.found.len() && r.found[w] == m;
            assert(after[w] == m);
        }
        if views(models@).contains(m) {
            let w = choose|w: int| 0 <= w < views(models@).len() && views(models@)[w] == m;
            assert(after[r.found.len() + w] == m);
        }
    }
}

/// A provider is healthy after a refresh where some key answered, with the mean
/// of their times; else it is not, and the reason is kept.
pub proof fn refreshes_tell_of_health(
    h: HealthView,
    r: RefreshView,
    each: u64,
    available: usize,
    total: usize,
)
    requires
        r.successful_keys <= u64::MAX,
        r.total_latency == r.successful_keys * each,
        r.models_found() <= usize::MAX,
        h.success_count < u64::MAX,
        h.fail_count < u64::MAX,
    ensures
        ({
            let after = refreshed_health(h, r, available, total);
            &&& r.successful_keys > 0 ==> {
                &&& after.status == "healthy"@
                &&& after.latency_ms == each
                &&& after.models_count == r.models_found()
                &&& after.success_count == h.success_count + 1
                &&& after.fail_count == h.fail_count
                &&& after.last_error.len() == 0
            }
            &&& r.successful_keys == 0 ==> {
                &&& after.status == "unhealthy"@
                &&& after.fail_count == h.fail_count + 1
                &&& after.success_count == h.success_count
                &&& r.last_error.len() > 0 ==> after.last_error == r.last_error
                &&& r.last_error.len() == 0 ==> after.last_error == "No configured keys"@
            }
            &&& after.available_keys == available && after.total_keys == total
            &&& after.provider == h.provider
        }),
{
    if r.successful_keys > 0 {
        let n = r.successful_keys;
        assert(n * each / n as int == each) by (nonlinear_arith)
            requires
                n > 0,
        ;
    }
}

/// A model that several keys name is found once.
pub proof fn models_are_found_once(r: RefreshView, m: Seq<char>)
    requires
        r.found.len() > 0,
        forall|i: int| 0 <= i < r.found.len() ==> #[trigger] r.found[i] == m,
    ensures
        r.models_found() == 1,
{
    firsts_are_distinct(r.found);
    let f = crate::lists::firsts(r.found);
    assert(r.found[0] == m);
    assert(r.found.contains(m));
    assert(f.contains(m));
    assert forall|i: int| 0 <= i < f.len() implies #[trigger] f[i] == m by {
        assert(f.contains(f[i]));
        assert(r.found.contains(f[i]));
    }
    if f.len() > 1 {
        assert(f[0] == m && f[1] == m);
    }
}

/// A refresh changes what is known of its provider alone.
pub proof fn refreshes_are_of_their_provider(
    registry: Map<Seq<char>, HealthView>,
    r: RefreshView,
    available: usize,
    total: usize,
    other: Seq<char>,
)
    requires
        other != r.provider,
    ensures
        after_refresh(registry, r, available, total).contains_key(other) <==> registry.contains_key(
            other,
        ),
        registry.contains_key(other) ==> after_refresh(registry, r, available, total)[other]
            == registry[other],
{
}

// ---------------------------------------------------------------- trials
/// A trial tries every model that its key lists, unless it is blank or switched
/// off; and the model that health checks use.
pub proof fn listed_models_are_tried(
    config: Config,
    disabled: Seq<(String, Vec<String>)>,
    hub: HubView,
    provider: Seq<char>,
    api_key: Seq<char>,
    key_id: Option<Seq<char>>,
    model: Seq<char>,
)
    requires
        models_of_key(hub, provider, api_key).contains(model) || (key_id matches Some(id)
            && models_of_id(hub, provider, id).contains(model)),
        !is_blank(model),
        !disabled_of(disabled, provider).contains(model),
    ensures
        candidates_of(config, disabled, hub, provider, Some(api_key), key_id).contains(model),
{
    let by_id = match key_id {
        Some(id) => models_of_id(hub, provider, id),
        None => Seq::empty(),
    };
    let by_key = models_of_key(hub, provider, api_key);
    let check = crate::api::admin::validation::health_check_of(config, provider);
    let all = by_id + by_key + check;
    if by_key.contains(model) {
        let w = choose|w: int| 0 <= w < by_key.len() && by_key[w] == model;
        assert(all[by_id.len() + w] == model);
    } else {
        let w = choose|w: int| 0 <= w < by_id.len() && by_id[w] == model;
        assert(all[w] == model);
    }
    assert(all.contains(model));
    let off = disabled_of(disabled, provider);
    let p = can_be_tried(off);
    kept_satisfies(all, p);
    assert(p(model));
    assert(kept(all, p).contains(model));
    firsts_are_distinct(kept(all, p));
}

/// A trial of a key waits as long as the provider is configured to, but no less
/// than 5 seconds and no more than 60; a test of the provider waits as
/// configured.
pub proof fn trials_wait_within_bounds(
    config: Config,
    disabled: Seq<(String, Vec<String>)>,
    hub: HubView,
    provider: Seq<char>,
    id: Seq<char>,
    api_key: Seq<char>,
    millis: i64,
)
    ensures
        ({
            let t = fresh_trial(config, disabled, hub, provider, Some(id), api_key, millis);
            let configured = provider_timeout(config, provider);
            &&& 5 <= t.timeout_seconds <= 60
            &&& 5 <= configured <= 60 ==> t.timeout_seconds == configured
            &&& t.provider == provider && t.api_key == api_key && t.key_id == Some(id)
            &&& t.skipped.len() == 0
        }),
        fresh_trial(config, disabled, hub, provider, None, api_key, millis).timeout_seconds
            == provider_timeout(config, provider),
        (forall|j: int|
            0 <= j < config.providers@.len() ==> (#[trigger] config.providers@[j]).0@ != provider)
            ==> provider_timeout(config, provider) == 30,
{
    if forall|j: int|
        0 <= j < config.providers@.len() ==> (#[trigger] config.providers@[j]).0@ != provider {
        named_in_nowhere(config.providers@, provider);
    }
}

/// A model that the provider does not know is passed over: the next is tried,
/// and nobody is blamed. Any other answer ends the trial.
pub proof fn unknown_models_are_passed_over(
    trial: TrialView,
    after: TrialView,
    hub: HubView,
    hub_after: HubView,
    e: GatewayError,
    step: TrialStep,
    at: Moment,
    moment: Moment,
    now: u64,
    then: u64,
)
    requires
        trial.goes_on(),
        steps(trial, after, hub, hub_after, Err(e), step, at, moment, now, then),
    ensures
        status_of(e) == 404 ==> {
            &&& hub_after == hub
            &&& step.reply is None
            &&& after.skipped.len() == trial.skipped.len() + 1
            &&& after.skipped.last().model == trial.model()
            &&& after.skipped.last().http_status == 404
            &&& after.candidates == trial.candidates
        },
        status_of(e) == 429 ==> step.reply is Some && after == trial && hub_after == hub.charged(
            trial.provider,
            trial.api_key,
            e,
            moment,
            now,
        ),
        e is AuthFailed && status_of(e) == 401 ==> step.reply is Some && hub_after == hub.charged(
            trial.provider,
            trial.api_key,
            e,
            moment,
            now,
        ),
        status_of(e) >= 500 && !auth_failure(e) ==> step.reply is Some && hub_after == hub,
        step.attempt@.success == false,
        step.attempt@.model == trial.model(),
        step.attempt@.http_status == Some(status_of(e)),
        step.attempt@.key_id == fingerprint(trial.api_key),
        step.attempt@.attempt_index == (trial.skipped.len() + 1) as i64,
        step.event is None,
{
}

/// An answer ends a trial in success: it is recorded as such, counted for the
/// key, and told.
pub proof fn answers_end_trials(
    trial: TrialView,
    after: TrialView,
    hub: HubView,
    hub_after: HubView,
    o: (ChatResponse, u64),
    step: TrialStep,
    at: Moment,
    moment: Moment,
    now: u64,
    then: u64,
)
    requires
        trial.goes_on(),
        steps(trial, after, hub, hub_after, Ok(o), step, at, moment, now, then),
    ensures
        step.attempt@.success,
        step.attempt@.http_status == Some(o.0.status),
        step.attempt@.message is None,
        step.attempt@.model == trial.model(),
        step.attempt@.key_id == fingerprint(trial.api_key),
        step.event is Some,
        step.reply is Some,
        hub_after == hub.succeeded(
            trial.provider,
            trial.api_key,
            None,
            None,
            trial.key_id is None,
            now,
        ),
{
}

/// A failure is held against the key where it is a rate limit or a refusal of
/// its credential; else nothing is known of the key.
pub proof fn failures_tell_of_keys(e: GatewayError)
    ensures
        status_of(e) == 429 ==> failure_status(e) == "key_limited_or_invalid"@,
        auth_failure(e) ==> failure_status(e) == "key_limited_or_invalid"@,
        status_of(e) != 429 && !auth_failure(e) ==> failure_status(e) == "inconclusive"@,
{
}

/// A failed trial is told with its message, its status, and whether it changed
/// what is known of the key.
pub proof fn failed_trials_are_told(t: TrialView, e: GatewayError)
    requires
        t.key_id is None,
    ensures
        failure_reply(t, e).get("success"@) == Some(JsonView::Bool(false)),
        failure_reply(t, e).get("provider"@) == Some(JsonView::Text(t.provider)),
        failure_reply(t, e).get("model"@) == Some(JsonView::Text(t.model())),
        failure_reply(t, e).get("error"@) == Some(JsonView::Text(message_of(e))),
        failure_reply(t, e).get("http_status"@) == Some(num(status_of(e) as u64)),
        failure_reply(t, e).get("key_state_updated"@) == Some(
            JsonView::Bool(status_of(e) == 429 || auth_failure(e)),
        ),
{
    reveal_strlit("success");
    reveal_strlit("provider");
    reveal_strlit("model");
    reveal_strlit("attempted_models");
    reveal_strlit("skipped_models");
    reveal_strlit("error");
    reveal_strlit("http_status");
    reveal_strlit("validation_status");
    reveal_strlit("key_state_updated");
    assert("success"@.len() == 7);
    assert("provider"@.len() == 8);
    assert("model"@.len() == 5);
    assert("attempted_models"@.len() == 16);
    assert("skipped_models"@.len() == 14);
    assert("error"@.len() == 5);
    assert("http_status"@.len() == 11);
    assert("validation_status"@.len() == 17);
    assert("key_state_updated"@.len() == 17);
    assert("model"@[0] != "error"@[0]);
    assert("validation_status"@[0] != "key_state_updated"@[0]);
    let m = (failure_reply(t, e))->Object_0;
    assert(m[0].0 == "success"@);
    member_at(m, 0);
    assert(m[1].0 == "provider"@);
    member_at(m, 1);
    assert(m[2].0 == "model"@);
    member_at(m, 2);
    assert(m[5].0 == "error"@);
    member_at(m, 5);
    assert(m[6].0 == "http_status"@);
    member_at(m, 6);
    assert(m[8].0 == "key_state_updated"@);
    member_at(m, 8);
}

/// A successful trial is told with its time and its status.
pub proof fn successful_trials_are_told(t: TrialView, status: u16, body: JsonView, latency: u64)
    requires
        t.key_id is None,
    ensures
        success_reply(t, status, body, latency).get("success"@) == Some(JsonView::Bool(true)),
        success_reply(t, status, body, latency).get("provider"@) == Some(
            JsonView::Text(t.provider),
        ),
        success_reply(t, status, body, latency).get("latency_ms"@) == Some(num(latency)),
        success_reply(t, status, body, latency).get("status"@) == Some(num(status as u64)),
{
    reveal_strlit("success");
    reveal_strlit("provider");
    reveal_strlit("model");
    reveal_strlit("attempted_models");
    reveal_strlit("skipped_models");
    reveal_strlit("latency_ms");
    reveal_strlit("status");
    assert("success"@.len() == 7);
    assert("provider"@.len() == 8);
    assert("model"@.len() == 5);
    assert("attempted_models"@.len() == 16);
    assert("skipped_models"@.len() == 14);
    assert("latency_ms"@.len() == 10);
    assert("status"@.len() == 6);
    let m = (success_reply(t, status, body, latency))->Object_0;
    assert(m[0].0 == "success"@);
    member_at(m, 0);
    assert(m[1].0 == "provider"@);
    member_at(m, 1);
    assert(m[5].0 == "latency_ms"@);
    member_at(m, 5);
    assert(m[6].0 == "status"@);
    member_at(m, 6);
}

// ---------------------------------------------------------------- reports
/// A number out of bounds becomes the nearer bound, any other stays.
pub proof fn bounds_hold(n: i64, low: i64, high: i64)
    requires
        low <= high,
    ensures
        low <= between(n, low, high) <= high,
        low <= n <= high ==> between(n, low, high) == n,
        n < low ==> between(n, low, high) == low,
        n > high ==> between(n, low, high) == high,
{
}

/// What is not asked for has its default.
pub proof fn defaults_stand_for_what_is_not_asked(
    query: Seq<(String, String)>,
    name: Seq<char>,
    default: i64,
)
    requires
        forall|j: int| 0 <= j < query.len() ==> (#[trigger] query[j]).0@ != name,
    ensures
        asked(query, name, default) == default,
{
    named_in_nowhere(query, name);
}

/// The mean time of some requests is their whole time shared among them, in
/// whole units; of no request there is none.
pub proof fn means_are_shares(total: i64, requests: i64)
    requires
        total >= 0,
    ensures
        requests > 0 ==> (mean_latency(total, requests) matches Some(m) && m * requests <= total
            < m * requests + requests),
        requests <= 0 ==> mean_latency(total, requests) is None,
{
    if requests > 0 {
        let q = total as int / requests as int;
        assert(q * requests <= total < q * requests + requests && 0 <= q <= total)
            by (nonlinear_arith)
            requires
                q == total as int / requests as int,
                requests > 0,
                total >= 0,
        ;
    }
}

/// One row more adds each of its amounts to the total of that amount.
pub proof fn rows_add_to_their_totals(rows: Seq<UsageSummaryRow>, u: UsageSummaryRow)
    requires
        i64::MIN <= usage_totals(rows).total_requests + u.total_requests <= i64::MAX,
        i64::MIN <= usage_totals(rows).total_prompt_tokens + u.total_prompt_tokens <= i64::MAX,
        i64::MIN <= usage_totals(rows).total_completion_tokens + u.total_completion_tokens
            <= i64::MAX,
        i64::MIN <= usage_totals(rows).total_success + u.total_success <= i64::MAX,
        i64::MIN <= usage_totals(rows).total_errors + u.total_errors <= i64::MAX,
        i64::MIN <= usage_totals(rows).reported_prompt_tokens + u.reported_prompt_tokens <= i64::MAX,
        i64::MIN <= usage_totals(rows).estimated_prompt_tokens + u.estimated_prompt_tokens
            <= i64::MAX,
    ensures
        ({
            let before = usage_totals(rows);
            let after = usage_totals(rows.push(u));
            &&& after.total_requests == before.total_requests + u.total_requests
            &&& after.total_prompt_tokens == before.total_prompt_tokens + u.total_prompt_tokens
            &&& after.total_completion_tokens == before.total_completion_tokens
                + u.total_completion_tokens
            &&& after.total_success == before.total_success + u.total_success
            &&& after.total_errors == before.total_errors + u.total_errors
            &&& after.reported_prompt_tokens == before.reported_prompt_tokens
                + u.reported_prompt_tokens
            &&& after.estimated_prompt_tokens == before.estimated_prompt_tokens
                + u.estimated_prompt_tokens
        }),
{
    one_row_more(rows, u, |u: UsageSummaryRow| u.total_requests);
    one_row_more(rows, u, |u: UsageSummaryRow| u.total_prompt_tokens);
    one_row_more(rows, u, |u: UsageSummaryRow| u.total_completion_tokens);
    one_row_more(rows, u, |u: UsageSummaryRow| u.total_success);
    one_row_more(rows, u, |u: UsageSummaryRow| u.total_errors);
    one_row_more(rows, u, |u: UsageSummaryRow| u.reported_prompt_tokens);
    one_row_more(rows, u, |u: UsageSummaryRow| u.estimated_prompt_tokens);
}

proof fn one_row_more<T>(rows: Seq<T>, u: T, f: spec_fn(T) -> i64)
    requires
        i64::MIN <= capped_total(rows.map_values(f)) + f(u) <= i64::MAX,
    ensures
        capped_total(rows.push(u).map_values(f)) == capped_total(rows.map_values(f)) + f(u),
{
    let s = rows.push(u).map_values(f);
    assert(s.drop_last() =~= rows.map_values(f));
    assert(s.last() == f(u));
}

/// The rows of usage tell each amount under its name; what was not reported was
/// estimated.
pub proof fn usage_rows_tell_their_amounts(u: UsageSummaryRow, coverage: Option<NumberView>)
    requires
        0 <= u.token_reported_requests <= u.total_requests,
    ensures
        usage_row(u, coverage).get("provider"@) == Some(JsonView::Text(u.provider@)),
        usage_row(u, coverage).get("model_id"@) == Some(JsonView::Text(u.model_id@)),
        usage_row(u, coverage).get("total_requests"@) == Some(int_json(u.total_requests as int)),
        usage_row(u, coverage).get("total_prompt_tokens"@) == Some(
            int_json(u.total_prompt_tokens as int),
        ),
        usage_row(u, coverage).get("total_completion_tokens"@) == Some(
            int_json(u.total_completion_tokens as int),
        ),
        usage_row(u, coverage).get("token_estimated_requests"@) == Some(
            int_json(u.total_requests - u.token_reported_requests),
        ),
        usage_row(u, coverage).get("total_success"@) == Some(int_json(u.total_success as int)),
        usage_row(u, coverage).get("total_errors"@) == Some(int_json(u.total_errors as int)),
{
    reveal_strlit("provider");
    reveal_strlit("model_id");
    reveal_strlit("total_requests");
    reveal_strlit("total_prompt_tokens");
    reveal_strlit("total_completion_tokens");
    reveal_strlit("reported_prompt_tokens");
    reveal_strlit("reported_completion_tokens");
    reveal_strlit("reported_tokens");
    reveal_strlit("estimated_prompt_tokens");
    reveal_strlit("estimated_completion_tokens");
    reveal_strlit("estimated_tokens");
    reveal_strlit("token_reported_requests");
    reveal_strlit("token_estimated_requests");
    reveal_strlit("token_reporting_coverage");
    reveal_strlit("total_success");
    reveal_strlit("total_errors");
    assert("provider"@.len() == 8);
    assert("model_id"@.len() == 8);
    assert("total_requests"@.len() == 14);
    assert("total_prompt_tokens"@.len() == 19);
    assert("total_completion_tokens"@.len() == 23);
    assert("reported_prompt_tokens"@.len() == 22);
    assert("reported_completion_tokens"@.len() == 26);
    assert("reported_tokens"@.len() == 15);
    assert("estimated_prompt_tokens"@.len() == 23);
    assert("estimated_completion_tokens"@.len() == 27);
    assert("estimated_tokens"@.len() == 16);
    assert("token_reported_requests"@.len() == 23);
    assert("token_estimated_requests"@.len() == 24);
    assert("token_reporting_coverage"@.len() == 24);
    assert("total_success"@.len() == 13);
    assert("total_errors"@.len() == 12);
    assert("provider"@[0] != "model_id"@[0]);
    assert("total_completion_tokens"@[0] != "estimated_prompt_tokens"@[0]);
    assert("total_completion_tokens"@[2] != "token_reported_requests"@[2]);
    assert("estimated_prompt_tokens"@[0] != "token_reported_requests"@[0]);
    assert("token_estimated_requests"@[6] != "token_reporting_coverage"@[6]);
    let m = (usage_row(u, coverage))->Object_0;
    assert(m[0].0 == "provider"@);
    member_at(m, 0);
    assert(m[1].0 == "model_id"@);
    member_at(m, 1);
    assert(m[2].0 == "total_requests"@);
    member_at(m, 2);
    assert(m[3].0 == "total_prompt_tokens"@);
    member_at(m, 3);
    assert(m[4].0 == "total_completion_tokens"@);
    member_at(m, 4);
    assert(m[12].0 == "token_estimated_requests"@);
    member_at(m, 12);
    assert(m[14].0 == "total_success"@);
    member_at(m, 14);
    assert(m[15].0 == "total_errors"@);
    member_at(m, 15);
}

/// The summary of usage tells the window where there is one, and all tokens as
/// those of prompts and of completions.
pub proof fn summaries_tell_all_tokens(t: UsageTotals, days: i64, coverage: Option<NumberView>)
    requires
        i64::MIN <= t.total_prompt_tokens + t.total_completion_tokens <= i64::MAX,
    ensures
        days > 0 ==> totals_summary(t, days, coverage).get("window_days"@) == Some(
            int_json(days as int),
        ),
        days <= 0 ==> totals_summary(t, days, coverage).get("window_days"@) == Some(JsonView::Null),
        totals_summary(t, days, coverage).get("total_requests"@) == Some(
            int_json(t.total_requests as int),
        ),
        totals_summary(t, days, coverage).get("total_tokens"@) == Some(
            int_json(t.total_prompt_tokens + t.total_completion_tokens),
        ),
{
    reveal_strlit("window_days");
    reveal_strlit("total_requests");
    reveal_strlit("total_prompt_tokens");
    reveal_strlit("total_completion_tokens");
    reveal_strlit("total_tokens");
    assert("window_days"@.len() == 11);
    assert("total_requests"@.len() == 14);
    assert("total_prompt_tokens"@.len() == 19);
    assert("total_completion_tokens"@.len() == 23);
    assert("total_tokens"@.len() == 12);
    let m = (totals_summary(t, days, coverage))->Object_0;
    assert(m[0].0 == "window_days"@);
    member_at(m, 0);
    assert(m[1].0 == "total_requests"@);
    member_at(m, 1);
    assert(m[4].0 == "total_tokens"@);
    member_at(m, 4);
}

/// The rows of tasks tell their counts under their names.
pub proof fn task_rows_tell_their_counts(t: TaskStatsRow, rate: Option<NumberView>)
    ensures
        task_row(t, rate).get("task_kind"@) == Some(JsonView::Text(t.task_kind@)),
        task_row(t, rate).get("request_count"@) == Some(int_json(t.request_count as int)),
        task_row(t, rate).get("success_count"@) == Some(int_json(t.success_count as int)),
        task_row(t, rate).get("error_count"@) == Some(int_json(t.error_count as int)),
        task_row(t, rate).get("prompt_tokens"@) == Some(int_json(t.prompt_tokens as int)),
        task_row(t, rate).get("completion_tokens"@) == Some(int_json(t.completion_tokens as int)),
{
    reveal_strlit("provider");
    reveal_strlit("model_id");
    reveal_strlit("agent");
    reveal_strlit("task_kind");
    reveal_strlit("request_count");
    reveal_strlit("success_count");
    reveal_strlit("error_count");
    reveal_strlit("success_rate");
    reveal_strlit("avg_latency_ms");
    reveal_strlit("prompt_tokens");
    reveal_strlit("completion_tokens");
    assert("provider"@.len() == 8);
    assert("model_id"@.len() == 8);
    assert("agent"@.len() == 5);
    assert("task_kind"@.len() == 9);
    assert("request_count"@.len() == 13);
    assert("success_count"@.len() == 13);
    assert("error_count"@.len() == 11);
    assert("success_rate"@.len() == 12);
    assert("avg_latency_ms"@.len() == 14);
    assert("prompt_tokens"@.len() == 13);
    assert("completion_tokens"@.len() == 17);
    assert("provider"@[0] != "model_id"@[0]);
    assert("request_count"@[0] != "success_count"@[0]);
    assert("request_count"@[0] != "prompt_tokens"@[0]);
    assert("success_count"@[0] != "prompt_tokens"@[0]);
    let m = (task_row(t, rate))->Object_0;
    assert(m[3].0 == "task_kind"@);
    member_at(m, 3);
    assert(m[4].0 == "request_count"@);
    member_at(m, 4);
    assert(m[5].0 == "success_count"@);
    member_at(m, 5);
    assert(m[6].0 == "error_count"@);
    member_at(m, 6);
    assert(m[9].0 == "prompt_tokens"@);
    member_at(m, 9);
    assert(m[10].0 == "completion_tokens"@);
    member_at(m, 10);
}

/// One failure more counts for its category and for its model, and for no other.
pub proof fn failures_count_for_their_category(
    rows: Seq<ErrorSummaryRow>,
    row: ErrorSummaryRow,
    name: Seq<char>,
)
    requires
        i64::MIN <= amount_of(by_category(rows), name) + row.total <= i64::MAX,
        i64::MIN <= amount_of(by_model(rows), name) + row.total <= i64::MAX,
    ensures
        amount_of(by_category(rows.push(row)), name) == amount_of(by_category(rows), name) + (
        if row.category@ == name {
            row.total as int
        } else {
            0
        }),
        amount_of(by_model(rows.push(row)), name) == amount_of(by_model(rows), name) + (
        if row.provider@ + "/"@ + row.model_id@ == name {
            row.total as int
        } else {
            0
        }),
{
    one_entry_more(by_category(rows), (row.category@, row.total), name);
    one_entry_more(by_model(rows), (row.provider@ + "/"@ + row.model_id@, row.total), name);
    assert(by_category(rows.push(row)) =~= by_category(rows).push((row.category@, row.total)));
    assert(by_model(rows.push(row)) =~= by_model(rows).push(
        (row.provider@ + "/"@ + row.model_id@, row.total),
    ));
}

proof fn one_entry_more(entries: Seq<(Seq<char>, i64)>, e: (Seq<char>, i64), name: Seq<char>)
    requires
        i64::MIN <= amount_of(entries, name) + e.1 <= i64::MAX,
    ensures
        amount_of(entries.push(e), name) == amount_of(entries, name) + (if e.0 == name {
            e.1 as int
        } else {
            0
        }),
{
    let p = under(name);
    let f = |e: (Seq<char>, i64)| e.1;
    assert(entries.push(e).drop_last() =~= entries);
    if e.0 == name {
        assert(kept(entries.push(e), p) == kept(entries, p).push(e));
        one_row_more(kept(entries, p), e, f);
    } else {
        assert(kept(entries.push(e), p) == kept(entries, p));
    }
}

/// The models that fail most come first, and no more than ten are shown.
pub proof fn models_that_fail_most_come_first(rows: Seq<ErrorSummaryRow>, i: int, j: int)
    requires
        0 <= i < j < top_failing(rows).len(),
    ensures
        top_failing(rows)[i].1 >= top_failing(rows)[j].1,
        top_failing(rows).len() <= 10,
{
    let list = amounts(by_model(rows), crate::lists::firsts(entry_names(by_model(rows))));
    sorted_is_in_order(list, larger_first());
    let r = sorted(list, larger_first());
    assert(!larger_first()(r[j], r[i]));
}

/// Every category of a row is shown with its amount.
pub proof fn categories_are_shown_with_their_amount(rows: Seq<ErrorSummaryRow>, i: int)
    requires
        0 <= i < rows.len(),
    ensures
        category_totals(rows).contains(
            (rows[i].category@, amount_of(by_category(rows), rows[i].category@)),
        ),
{
    let entries = by_category(rows);
    let names = entry_names(entries);
    sorted_set_is_increasing(names);
    assert(names[i] == rows[i].category@);
    assert(names.contains(rows[i].category@));
    let set = sorted_set(names);
    assert(set.contains(rows[i].category@));
    let k = choose|k: int| 0 <= k < set.len() && set[k] == rows[i].category@;
    assert(category_totals(rows)[k] == (rows[i].category@, amount_of(entries, rows[i].category@)));
}

/// The models of a key are those of the first key of its value, and the models
/// of a fingerprint those of the first key that has it.
pub proof fn models_are_of_their_key(hub: HubView, provider: Seq<char>, i: int)
    requires
        hub.pools.contains_key(provider),
        0 <= i < hub.pools[provider].keys.len(),
        forall|j: int|
            0 <= j < i ==> (#[trigger] hub.pools[provider].keys[j]).key
                != hub.pools[provider].keys[i].key && fingerprint(hub.pools[provider].keys[j].key)
                != fingerprint(hub.pools[provider].keys[i].key),
    ensures
        models_of_key(hub, provider, hub.pools[provider].keys[i].key)
            == hub.pools[provider].keys[i].models,
        models_of_id(hub, provider, fingerprint(hub.pools[provider].keys[i].key))
            == hub.pools[provider].keys[i].models,
{
    let keys = hub.pools[provider].keys;
    key_index_in_range(keys, keys[i].key, 0);
    assert(key_index(keys, keys[i].key, 0) == Some(i));
    id_is_first(keys, fingerprint(keys[i].key), 0, i);
}

/// A model for health checks is tried trimmed; a blank one is not tried.
pub proof fn health_checks_have_their_model(config: Config, provider: Seq<char>, i: int)
    requires
        0 <= i < config.providers@.len(),
        config.providers@[i].0@ == provider,
        forall|j: int| 0 <= j < i ==> (#[trigger] config.providers@[j]).0@ != provider,
    ensures
        trimmed(config.providers@[i].1.health_check_model@).len() > 0 ==> health_check_of(
            config,
            provider,
        ) == seq![trimmed(config.providers@[i].1.health_check_model@)],
        trimmed(config.providers@[i].1.health_check_model@).len() == 0 ==> health_check_of(
            config,
            provider,
        ).len() == 0,
{
    named_in_is_first(config.providers@, provider, i);
}

/// The preview of an answer is what its first choice says, whole where it is
/// short.
pub proof fn previews_are_of_the_first_choice(
    body: JsonView,
    choices: Seq<JsonView>,
    message: JsonView,
    text: Seq<char>,
)
    requires
        body.get("choices"@) == Some(JsonView::Array(choices)),
        choices.len() > 0,
        choices[0].get("message"@) == Some(message),
        message.get("content"@) == Some(JsonView::Text(text)),
    ensures
        first_content(body) == Some(text),
        encode_utf8(text).len() <= 100 ==> content_preview(body) == Some(text),
        encode_utf8(text).len() > 100 ==> content_preview(body) == Some(
            decode_utf8(encode_utf8(text).subrange(0, 100)) + "..."@,
        ),
{
}

} // verus!
