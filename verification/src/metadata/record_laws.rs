//! Laws of what is recorded of models, deployments and tasks.
use crate::json::NumberView;
use crate::metadata::learner::ModelUpdateView;
use crate::metadata::store::{ModelRowView, UsageCounts};
use crate::metadata::sync::{catalog_entry, OpenRouterModel};
use crate::metadata::tallies::{SyncStatusView, TaskStatsView};
use crate::metadata::usage::{
    BucketView, dense, DeploymentStateView, empty_bucket, last_with, last_with_is_there, usage_of,
    wait_ends,
};
use crate::text::views;
use vstd::prelude::*;

verus! {

/// A limit that is learned of a kind is that kind's limit of the model, where
/// it is tighter than what was known; the other kinds stay as they are. A wait
/// is no limit.
pub proof fn learned_limits_reach_their_kind(row: ModelRowView, n: i64, now: i64)
    ensures
        row.rpm_limit is None || n < row.rpm_limit->0 ==> row.limited("rpm"@, n, now).rpm_limit
            == Some(n),
        row.rpd_limit is None || n < row.rpd_limit->0 ==> row.limited("rpd"@, n, now).rpd_limit
            == Some(n),
        row.tpm_limit is None || n < row.tpm_limit->0 ==> row.limited("tpm"@, n, now).tpm_limit
            == Some(n),
        row.tpd_limit is None || n < row.tpd_limit->0 ==> row.limited("tpd"@, n, now).tpd_limit
            == Some(n),
        ({
            let after = row.limited("rpm"@, n, now);
            after.rpd_limit == row.rpd_limit && after.tpm_limit == row.tpm_limit
                && after.tpd_limit == row.tpd_limit
        }),
        ({
            let after = row.limited("rpd"@, n, now);
            after.rpm_limit == row.rpm_limit && after.tpm_limit == row.tpm_limit
                && after.tpd_limit == row.tpd_limit
        }),
        ({
            let after = row.limited("tpm"@, n, now);
            after.rpm_limit == row.rpm_limit && after.rpd_limit == row.rpd_limit
                && after.tpd_limit == row.tpd_limit
        }),
        ({
            let after = row.limited("tpd"@, n, now);
            after.rpm_limit == row.rpm_limit && after.rpd_limit == row.rpd_limit
                && after.tpm_limit == row.tpm_limit
        }),
        row.limited("cooldown_seconds"@, n, now) == row,
{
    reveal_strlit("rpm");
    reveal_strlit("rpd");
    reveal_strlit("tpm");
    reveal_strlit("tpd");
    reveal_strlit("cooldown_seconds");
    assert("rpm"@.len() == 3);
    assert("rpd"@.len() == 3);
    assert("tpm"@.len() == 3);
    assert("tpd"@.len() == 3);
    assert("cooldown_seconds"@.len() == 16);
    assert("rpm"@[2] != "rpd"@[2]);
    assert("rpm"@[0] != "tpm"@[0]);
    assert("rpm"@[0] != "tpd"@[0]);
    assert("rpd"@[0] != "tpm"@[0]);
    assert("rpd"@[0] != "tpd"@[0]);
    assert("tpm"@[2] != "tpd"@[2]);
}

/// What an update says of a model is what is known of it then; what it does not
/// say stays. The update is counted, with its time and where it came from.
pub proof fn updates_are_believed(
    row: ModelRowView,
    u: ModelUpdateView,
    prompt: Option<NumberView>,
    completion: Option<NumberView>,
    now: i64,
)
    requires
        row.update_count < i64::MAX,
    ensures
        ({
            let after = row.updated(u, prompt, completion, now);
            &&& after.display_name == (if u.display_name is Some {
                u.display_name
            } else {
                row.display_name
            })
            &&& after.context_window == (if u.context_window is Some {
                u.context_window
            } else {
                row.context_window
            })
            &&& after.max_completion_tokens == (if u.max_completion_tokens is Some {
                u.max_completion_tokens
            } else {
                row.max_completion_tokens
            })
            &&& after.supports_vision == (if u.supports_vision is Some {
                u.supports_vision
            } else {
                row.supports_vision
            })
            &&& after.supports_tools == (if u.supports_tools is Some {
                u.supports_tools
            } else {
                row.supports_tools
            })
            &&& after.supports_reasoning == (if u.supports_reasoning is Some {
                u.supports_reasoning
            } else {
                row.supports_reasoning
            })
            &&& prompt is Some ==> after.pricing_prompt == prompt
            &&& completion is Some ==> after.pricing_completion == completion
            &&& prompt is None ==> after.pricing_prompt == row.pricing_prompt
            &&& completion is None ==> after.pricing_completion == row.pricing_completion
            &&& u.rpm_limit is Some ==> after.rpm_limit == u.rpm_limit
            &&& u.rpd_limit is Some ==> after.rpd_limit == u.rpd_limit
            &&& u.tpm_limit is Some ==> after.tpm_limit == u.tpm_limit
            &&& u.tpd_limit is Some ==> after.tpd_limit == u.tpd_limit
            &&& u.rpm_limit is None ==> after.rpm_limit == row.rpm_limit
            &&& u.rpd_limit is None ==> after.rpd_limit == row.rpd_limit
            &&& after.update_count == row.update_count + 1
            &&& after.last_updated_at == now
            &&& after.source == u.source
        }),
{
}

/// A request adds its tokens to what it is counted under: once to all, and once
/// to those that were reported or to those that were estimated, as it was.
pub proof fn requests_are_added(
    counts: UsageCounts,
    success: bool,
    prompt: i64,
    completion: i64,
    reported: bool,
    now: i64,
)
    requires
        0 <= prompt,
        0 <= completion,
        0 <= counts.request_count < i64::MAX,
        0 <= counts.success_count < i64::MAX,
        0 <= counts.error_count < i64::MAX,
        0 <= counts.token_reported_requests < i64::MAX,
        0 <= counts.prompt_tokens && counts.prompt_tokens + prompt <= i64::MAX,
        0 <= counts.completion_tokens && counts.completion_tokens + completion <= i64::MAX,
        0 <= counts.reported_prompt_tokens && counts.reported_prompt_tokens + prompt <= i64::MAX,
        0 <= counts.reported_completion_tokens && counts.reported_completion_tokens + completion
            <= i64::MAX,
        0 <= counts.estimated_prompt_tokens && counts.estimated_prompt_tokens + prompt <= i64::MAX,
        0 <= counts.estimated_completion_tokens && counts.estimated_completion_tokens + completion
            <= i64::MAX,
    ensures
        ({
            let after = counts.with(
                usage_of(success, Some(prompt), Some(completion), reported),
                now,
            );
            let p = if reported {
                prompt as int
            } else {
                0
            };
            let c = if reported {
                completion as int
            } else {
                0
            };
            &&& after.request_count == counts.request_count + 1
            &&& after.success_count == counts.success_count + (if success {
                1int
            } else {
                0
            })
            &&& after.error_count == counts.error_count + (if success {
                0int
            } else {
                1
            })
            &&& after.prompt_tokens == counts.prompt_tokens + prompt
            &&& after.completion_tokens == counts.completion_tokens + completion
            &&& after.reported_prompt_tokens == counts.reported_prompt_tokens + p
            &&& after.reported_completion_tokens == counts.reported_completion_tokens + c
            &&& after.estimated_prompt_tokens == counts.estimated_prompt_tokens + prompt - p
            &&& after.estimated_completion_tokens == counts.estimated_completion_tokens + completion
                - c
            &&& after.token_reported_requests == counts.token_reported_requests + (if reported {
                1int
            } else {
                0
            })
            &&& after.last_used_at == Some(now)
            &&& counts.first_used_at is Some ==> after.first_used_at == counts.first_used_at
            &&& counts.first_used_at is None ==> after.first_used_at == Some(now)
        }),
{
}

/// A run of days or hours has a bucket for each, in order, and what was counted
/// for a label stands in its bucket.
pub proof fn what_was_counted_stands_in_its_bucket(
    labels: Seq<Seq<char>>,
    rows: Seq<BucketView>,
    i: int,
    k: int,
)
    requires
        0 <= i < labels.len(),
        labels.no_duplicates(),
        0 <= k < rows.len(),
        rows[k].label == labels[i],
        forall|a: int, b: int|
            0 <= a < b < rows.len() ==> (#[trigger] rows[a]).label != (#[trigger] rows[b]).label,
    ensures
        dense(labels, rows).len() == labels.len(),
        dense(labels, rows)[i] == rows[k],
{
    let names = rows.map_values(|r: BucketView| r.label);
    assert(!labels.take(i).contains(labels[i])) by {
        if labels.take(i).contains(labels[i]) {
            let w = choose|w: int| 0 <= w < i && labels.take(i)[w] == labels[i];
            assert(labels[w] == labels[i]);
        }
    }
    last_with_is_there(names, labels[i]);
    assert(names[k] == labels[i]);
    assert(names.contains(labels[i]));
    let w = last_with(names, labels[i])->0;
    assert(rows[w].label == rows[k].label);
}

/// A label for which nothing was counted has an empty bucket.
pub proof fn nothing_counted_is_an_empty_bucket(
    labels: Seq<Seq<char>>,
    rows: Seq<BucketView>,
    i: int,
)
    requires
        0 <= i < labels.len(),
        forall|k: int| 0 <= k < rows.len() ==> (#[trigger] rows[k]).label != labels[i],
    ensures
        dense(labels, rows)[i] == empty_bucket(labels[i]),
        dense(labels, rows)[i].label == labels[i],
        dense(labels, rows)[i].total_requests == 0,
        dense(labels, rows)[i].total_errors == 0,
{
    let names = rows.map_values(|r: BucketView| r.label);
    last_with_is_there(names, labels[i]);
    if let Some(w) = last_with(names, labels[i]) {
        assert(names[w] == rows[w].label);
    }
}

/// A deployment counts its successes and failures, remembers the last of each,
/// and waits as long as a failure asks for.
pub proof fn deployments_remember(
    state: DeploymentStateView,
    category: Seq<char>,
    http_status: Option<i64>,
    seconds: i64,
    now: i64,
)
    requires
        state.success_count < i64::MAX,
        state.error_count < i64::MAX,
        state.consecutive_failures < i64::MAX,
        0 < seconds,
        now + seconds <= i64::MAX,
    ensures
        state.succeeded(now).success_count == state.success_count + 1,
        state.succeeded(now).last_success_at == Some(now),
        state.succeeded(now).last_error_at == state.last_error_at,
        ({
            let after = state.failed(now, category, http_status, wait_ends(now, Some(seconds)));
            &&& after.error_count == state.error_count + 1
            &&& after.consecutive_failures == state.consecutive_failures + 1
            &&& after.last_error_at == Some(now)
            &&& after.last_error_category == Some(category)
            &&& after.last_http_status == http_status
            &&& after.cooldown_until == Some((now + seconds) as i64)
            &&& after.last_success_at == state.last_success_at
        }),
        wait_ends(now, None) is None,
        wait_ends(now, Some(0)) is None,
{
}

/// A kind of task counts what it was used for.
pub proof fn tasks_are_counted(
    stats: TaskStatsView,
    success: bool,
    latency_ms: i64,
    prompt: i64,
    completion: i64,
    now: i64,
)
    requires
        0 <= latency_ms && 0 <= prompt && 0 <= completion,
        0 <= stats.request_count < i64::MAX,
        0 <= stats.success_count < i64::MAX,
        0 <= stats.error_count < i64::MAX,
        0 <= stats.total_latency_ms && stats.total_latency_ms + latency_ms <= i64::MAX,
        0 <= stats.prompt_tokens && stats.prompt_tokens + prompt <= i64::MAX,
        0 <= stats.completion_tokens && stats.completion_tokens + completion <= i64::MAX,
    ensures
        ({
            let after = stats.used(success, latency_ms, Some(prompt), Some(completion), now);
            &&& after.request_count == stats.request_count + 1
            &&& after.success_count == stats.success_count + (if success {
                1int
            } else {
                0
            })
            &&& after.error_count == stats.error_count + (if success {
                0int
            } else {
                1
            })
            &&& after.total_latency_ms == stats.total_latency_ms + latency_ms
            &&& after.prompt_tokens == stats.prompt_tokens + prompt
            &&& after.completion_tokens == stats.completion_tokens + completion
            &&& after.last_used_at == Some(now)
            &&& after.provider == stats.provider && after.model_id == stats.model_id
                && after.agent == stats.agent && after.task_kind == stats.task_kind
        }),
{
}

/// A catalog that was read is noted with its time, what was found and what was
/// updated; one that could not be read with its error.
pub proof fn readings_are_noted(
    status: SyncStatusView,
    error: Seq<char>,
    found: i64,
    updated: i64,
    now: i64,
)
    ensures
        status.synced(found, updated, now).items_found == found,
        status.synced(found, updated, now).items_updated == updated,
        status.synced(found, updated, now).last_sync_at == now,
        status.synced(found, updated, now).error_message is None,
        status.not_synced(error, now).error_message == Some(error),
        status.not_synced(error, now).last_sync_at == now,
{
}

/// What the catalog says of a model is learned as what it is.
pub proof fn catalog_entries_are_read_as_what_they_say(m: OpenRouterModel)
    ensures
        ({
            let u = catalog_entry(m);
            &&& u.provider == "openrouter"@
            &&& u.model_id == m.id@
            &&& m.name matches Some(n) ==> u.display_name == Some(n@)
            &&& m.context_length is Some ==> u.context_window == m.context_length
            &&& m.context_length is None ==> (m.top_provider matches Some(t) ==> u.context_window
                == t.context_length)
            &&& m.top_provider matches Some(t) ==> u.max_completion_tokens
                == t.max_completion_tokens
            &&& m.supported_parameters matches Some(l) ==> {
                &&& u.supports_tools == Some(
                    views(l@).contains("tools"@) || views(l@).contains("tool_choice"@),
                )
                &&& u.supports_reasoning == Some(views(l@).contains("reasoning"@))
            }
            &&& m.supported_parameters is None ==> u.supports_tools is None && u.supports_reasoning
                is None
            &&& m.architecture matches Some(a) ==> (a.input_modalities matches Some(l)
                ==> u.supports_vision == Some(views(l@).contains("image"@)))
            &&& m.architecture is None ==> u.supports_vision is None
            &&& m.pricing matches Some(p) ==> (p.prompt matches Some(t) ==> u.pricing_prompt
                == Some(t@))
            &&& m.pricing matches Some(p) ==> (p.completion matches Some(t)
                ==> u.pricing_completion == Some(t@))
            &&& u.rpm_limit == m.per_request_limits
        }),
{
}

/// Of a deployment that nothing was recorded of, nothing is known.
pub proof fn unknown_deployments_have_no_history(
    provider: Seq<char>,
    model_id: Seq<char>,
    key_id: Seq<char>,
)
    ensures
        ({
            let d = DeploymentStateView::unknown(provider, model_id, key_id);
            &&& d.provider == provider && d.model_id == model_id && d.key_id == key_id
            &&& d.success_count == 0 && d.error_count == 0 && d.consecutive_failures == 0
            &&& d.last_success_at is None && d.last_error_at is None && d.cooldown_until is None
        }),
{
}

} // verus!
