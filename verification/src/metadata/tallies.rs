//! What is counted of tasks, capabilities, errors, attempts and synchronisations.
use crate::metadata::rows::{
    CapabilityObservationRow, ErrorDistRow, RequestAttemptRow, SyncStatusRow, TaskStatsRow,
};
use crate::metadata::store::{add_capped, capped_add};
use crate::metadata::usage::{one_if, stored_category};
use crate::text::{copy_str, opt_view, str_view};
use vstd::prelude::*;

verus! {

// ---------------------------------------------------------------- tasks
/// What a [`TaskStatsRow`] holds.
pub struct TaskStatsView {
    pub provider: Seq<char>,
    pub model_id: Seq<char>,
    pub agent: Option<Seq<char>>,
    pub task_kind: Seq<char>,
    pub request_count: i64,
    pub success_count: i64,
    pub error_count: i64,
    pub total_latency_ms: i64,
    pub prompt_tokens: i64,
    pub completion_tokens: i64,
    pub last_used_at: Option<i64>,
}

impl View for TaskStatsRow {
    type V = TaskStatsView;

    open spec fn view(&self) -> TaskStatsView {
        TaskStatsView {
            provider: self.provider@,
            model_id: self.model_id@,
            agent: opt_view(self.agent),
            task_kind: self.task_kind@,
            request_count: self.request_count,
            success_count: self.success_count,
            error_count: self.error_count,
            total_latency_ms: self.total_latency_ms,
            prompt_tokens: self.prompt_tokens,
            completion_tokens: self.completion_tokens,
            last_used_at: self.last_used_at,
        }
    }
}

/// A number, nought where it is absent.
pub open spec fn or_nought(n: Option<i64>) -> int {
    match n {
        Some(v) => v as int,
        None => 0,
    }
}

impl TaskStatsView {
    /// A model that has not served a kind of task yet.
    pub open spec fn unused(
        provider: Seq<char>,
        model_id: Seq<char>,
        agent: Option<Seq<char>>,
        task_kind: Seq<char>,
    ) -> TaskStatsView {
        TaskStatsView {
            provider,
            model_id,
            agent,
            task_kind,
            request_count: 0,
            success_count: 0,
            error_count: 0,
            total_latency_ms: 0,
            prompt_tokens: 0,
            completion_tokens: 0,
            last_used_at: None,
        }
    }

    /// With one more request; a negative latency counts as none.
    pub open spec fn used(
        self,
        success: bool,
        latency_ms: i64,
        prompt_tokens: Option<i64>,
        completion_tokens: Option<i64>,
        now: i64,
    ) -> TaskStatsView {
        TaskStatsView {
            request_count: capped_add(self.request_count, 1),
            success_count: capped_add(self.success_count, one_if(success)),
            error_count: capped_add(self.error_count, one_if(!success)),
            total_latency_ms: capped_add(
                self.total_latency_ms,
                if latency_ms > 0 {
                    latency_ms as int
                } else {
                    0
                },
            ),
            prompt_tokens: capped_add(self.prompt_tokens, or_nought(prompt_tokens)),
            completion_tokens: capped_add(self.completion_tokens, or_nought(completion_tokens)),
            last_used_at: Some(now),
            ..self
        }
    }
}

impl TaskStatsRow {
    /// A model that has not served a kind of task yet.
    pub fn unused(provider: &str, model_id: &str, agent: Option<&str>, task_kind: &str) -> (r:
        TaskStatsRow)
        ensures
            r@ == TaskStatsView::unused(provider@, model_id@, str_view(agent), task_kind@),
    {
        TaskStatsRow {
            provider: provider.to_owned(),
            model_id: model_id.to_owned(),
            agent: copy_str(agent),
            task_kind: task_kind.to_owned(),
            request_count: 0,
            success_count: 0,
            error_count: 0,
            total_latency_ms: 0,
            prompt_tokens: 0,
            completion_tokens: 0,
            last_used_at: None,
        }
    }

    /// Counts one more request.
    pub fn record_task_usage(
        &mut self,
        success: bool,
        latency_ms: i64,
        prompt_tokens: Option<i64>,
        completion_tokens: Option<i64>,
        now: i64,
    )
        ensures
            final(self)@ == old(self)@.used(
                success,
                latency_ms,
                prompt_tokens,
                completion_tokens,
                now,
            ),
    {
        self.request_count = add_capped(self.request_count, 1);
        if success {
            self.success_count = add_capped(self.success_count, 1);
        } else {
            self.error_count = add_capped(self.error_count, 1);
        }
        if latency_ms > 0 {
            self.total_latency_ms = add_capped(self.total_latency_ms, latency_ms);
        }
        if let Some(n) = prompt_tokens {
            self.prompt_tokens = add_capped(self.prompt_tokens, n);
        }
        if let Some(n) = completion_tokens {
            self.completion_tokens = add_capped(self.completion_tokens, n);
        }
        self.last_used_at = Some(now);
    }
}

// ---------------------------------------------------------------- capabilities and errors
impl CapabilityObservationRow {
    /// Counts one more observation of this outcome.
    pub fn record_capability_observation(&mut self, now: i64)
        ensures
            *final(self) == (CapabilityObservationRow {
                count: capped_add(old(self).count, 1),
                last_observed_at: Some(now),
                ..*old(self)
            }),
    {
        self.count = add_capped(self.count, 1);
        self.last_observed_at = Some(now);
    }
}

impl ErrorDistRow {
    /// Counts one more error of this category.
    pub fn record_model_error(&mut self, now: i64)
        ensures
            *final(self) == (ErrorDistRow {
                total: capped_add(old(self).total, 1),
                last_error_at: Some(now),
                ..*old(self)
            }),
    {
        self.total = add_capped(self.total, 1);
        self.last_error_at = Some(now);
    }
}

// ---------------------------------------------------------------- synchronisations
/// What a [`SyncStatusRow`] holds.
pub struct SyncStatusView {
    pub source_name: Seq<char>,
    pub last_sync_at: i64,
    pub items_found: i64,
    pub items_updated: i64,
    pub error_message: Option<Seq<char>>,
}

impl View for SyncStatusRow {
    type V = SyncStatusView;

    open spec fn view(&self) -> SyncStatusView {
        SyncStatusView {
            source_name: self.source_name@,
            last_sync_at: self.last_sync_at,
            items_found: self.items_found,
            items_updated: self.items_updated,
            error_message: opt_view(self.error_message),
        }
    }
}

impl SyncStatusView {
    /// After a catalog was read.
    pub open spec fn synced(self, found: i64, updated: i64, now: i64) -> SyncStatusView {
        SyncStatusView {
            last_sync_at: now,
            items_found: found,
            items_updated: updated,
            error_message: None,
            ..self
        }
    }

    /// After a catalog could not be read.
    pub open spec fn not_synced(self, error: Seq<char>, now: i64) -> SyncStatusView {
        SyncStatusView { last_sync_at: now, error_message: Some(error), ..self }
    }
}

impl SyncStatusRow {
    /// A source that was never read.
    pub fn unread(source_name: &str) -> (r: SyncStatusRow)
        ensures
            r@ == (SyncStatusView {
                source_name: source_name@,
                last_sync_at: 0,
                items_found: 0,
                items_updated: 0,
                error_message: None,
            }),
    {
        SyncStatusRow {
            source_name: source_name.to_owned(),
            last_sync_at: 0,
            items_found: 0,
            items_updated: 0,
            error_message: None,
        }
    }

    /// Notes that the catalog was read.
    pub fn record_sync(&mut self, items_found: i64, items_updated: i64, now: i64)
        ensures
            final(self)@ == old(self)@.synced(items_found, items_updated, now),
    {
        self.last_sync_at = now;
        self.items_found = items_found;
        self.items_updated = items_updated;
        self.error_message = None;
    }

    /// Notes that the catalog could not be read.
    pub fn record_sync_error(&mut self, error: &str, now: i64)
        ensures
            final(self)@ == old(self)@.not_synced(error@, now),
    {
        self.last_sync_at = now;
        self.error_message = Some(error.to_owned());
    }
}

// ---------------------------------------------------------------- attempts
impl RequestAttemptRow {
    /// What is kept of an attempt: no category of one that succeeded.
    pub fn of_attempt(
        request_id: &str,
        attempt_index: i64,
        provider: &str,
        model_id: &str,
        key_id: &str,
        success: bool,
        error_category: &str,
        http_status: Option<u16>,
        error_message: Option<&str>,
        cooldown_seconds: Option<i64>,
        fallback: bool,
        now: i64,
    ) -> (r: RequestAttemptRow)
        ensures
            r.id == 0,
            r.request_id@ == request_id@,
            r.attempt_index == attempt_index,
            r.provider@ == provider@,
            r.model_id@ == model_id@,
            r.key_id@ == key_id@,
            r.success == success,
            opt_view(r.error_category) == if success {
                None
            } else {
                Some(error_category@)
            },
            r.http_status == match http_status {
                Some(s) => Some(s as i64),
                None => None,
            },
            opt_view(r.error_message) == str_view(error_message),
            r.cooldown_seconds == cooldown_seconds,
            r.fallback == fallback,
            r.created_at == now,
    {
        RequestAttemptRow {
            id: 0,
            request_id: request_id.to_owned(),
            attempt_index,
            provider: provider.to_owned(),
            model_id: model_id.to_owned(),
            key_id: key_id.to_owned(),
            success,
            error_category: stored_category(success, error_category),
            http_status: match http_status {
                Some(s) => Some(s as i64),
                None => None,
            },
            error_message: copy_str(error_message),
            cooldown_seconds,
            fallback,
            created_at: now,
        }
    }
}

// ---------------------------------------------------------------- laws
/// Every request of a task is a success or an error: the two counts make up
/// the third, before and after, as long as it fits.
pub proof fn tasks_succeed_or_fail(
    stats: TaskStatsView,
    success: bool,
    latency_ms: i64,
    prompt_tokens: Option<i64>,
    completion_tokens: Option<i64>,
    now: i64,
)
    requires
        0 <= stats.success_count,
        0 <= stats.error_count,
        stats.request_count < i64::MAX,
        stats.success_count + stats.error_count == stats.request_count,
    ensures
        ({
            let after = stats.used(success, latency_ms, prompt_tokens, completion_tokens, now);
            after.success_count + after.error_count == after.request_count
        }),
{
}

/// A catalog that cannot be read leaves what was found in it; one that can be
/// read again clears the error.
pub proof fn failures_keep_what_was_found(
    status: SyncStatusView,
    error: Seq<char>,
    found: i64,
    updated: i64,
    now: i64,
    later: i64,
)
    ensures
        status.not_synced(error, now).items_found == status.items_found,
        status.not_synced(error, now).items_updated == status.items_updated,
        status.not_synced(error, now).synced(found, updated, later) == status.synced(
            found,
            updated,
            later,
        ),
{
}

} // verus!
