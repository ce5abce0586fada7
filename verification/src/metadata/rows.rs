//! The rows in which learned metadata is kept.
use crate::json::Number;
use crate::text::opt_view;
use vstd::prelude::*;

verus! {

/// A share of a whole, where there is a whole.
#[derive(Debug, Clone, Copy, PartialEq, Eq, Structural)]
pub struct Ratio {
    pub numerator: i64,
    pub denominator: i64,
}

/// The share of `numerator` in `denominator`; none of nothing.
pub fn coverage(numerator: i64, denominator: i64) -> (r: Option<Ratio>)
    ensures
        r == if denominator > 0 {
            Some(Ratio { numerator, denominator })
        } else {
            None
        },
{
    if denominator > 0 {
        Some(Ratio { numerator, denominator })
    } else {
        None
    }
}

#[derive(Debug)]
pub struct ModelMetaRow {
    pub id: i64,
    pub provider: String,
    pub model_id: String,
    pub display_name: Option<String>,
    pub context_window: Option<i64>,
    pub max_completion_tokens: Option<i64>,
    pub supports_vision: Option<bool>,
    pub supports_tools: Option<bool>,
    pub supports_reasoning: Option<bool>,
    pub pricing_prompt: Option<Number>,
    pub pricing_completion: Option<Number>,
    pub architecture_modality: Option<String>,
    pub rpm_limit: Option<i64>,
    pub rpd_limit: Option<i64>,
    pub tpm_limit: Option<i64>,
    pub tpd_limit: Option<i64>,
    pub first_seen_at: i64,
    pub last_updated_at: i64,
    pub update_count: i64,
    pub source: String,
}

#[derive(Debug)]
pub struct UsageSummaryRow {
    pub provider: String,
    pub model_id: String,
    pub total_requests: i64,
    pub total_prompt_tokens: i64,
    pub total_completion_tokens: i64,
    pub reported_prompt_tokens: i64,
    pub reported_completion_tokens: i64,
    pub estimated_prompt_tokens: i64,
    pub estimated_completion_tokens: i64,
    pub total_success: i64,
    pub total_errors: i64,
    pub token_reported_requests: i64,
    pub last_used_at: Option<i64>,
}

#[derive(Debug)]
pub struct UsageDailyRow {
    pub date: String,
    pub total_requests: i64,
    pub total_prompt_tokens: i64,
    pub total_completion_tokens: i64,
    pub reported_prompt_tokens: i64,
    pub reported_completion_tokens: i64,
    pub estimated_prompt_tokens: i64,
    pub estimated_completion_tokens: i64,
    pub total_success: i64,
    pub total_errors: i64,
    pub token_reported_requests: i64,
    pub token_reporting_coverage: Option<Ratio>,
}

#[derive(Debug)]
pub struct UsageHourlyRow {
    pub hour: String,
    pub total_requests: i64,
    pub total_prompt_tokens: i64,
    pub total_completion_tokens: i64,
    pub reported_prompt_tokens: i64,
    pub reported_completion_tokens: i64,
    pub estimated_prompt_tokens: i64,
    pub estimated_completion_tokens: i64,
    pub total_success: i64,
    pub total_errors: i64,
    pub token_reported_requests: i64,
    pub token_reporting_coverage: Option<Ratio>,
}

#[derive(Debug, Clone, Copy, PartialEq, Eq, Structural)]
pub struct UsageLifetimeRow {
    pub total_requests: i64,
    pub total_prompt_tokens: i64,
    pub total_completion_tokens: i64,
    pub reported_prompt_tokens: i64,
    pub reported_completion_tokens: i64,
    pub estimated_prompt_tokens: i64,
    pub estimated_completion_tokens: i64,
    pub total_success: i64,
    pub total_errors: i64,
    pub token_reported_requests: i64,
    pub token_reporting_coverage: Option<Ratio>,
    pub first_used_at: Option<i64>,
    pub last_used_at: Option<i64>,
}

#[derive(Debug)]
pub struct TaskStatsRow {
    pub provider: String,
    pub model_id: String,
    pub agent: Option<String>,
    pub task_kind: String,
    pub request_count: i64,
    pub success_count: i64,
    pub error_count: i64,
    pub total_latency_ms: i64,
    pub prompt_tokens: i64,
    pub completion_tokens: i64,
    pub last_used_at: Option<i64>,
}

#[derive(Debug)]
pub struct CapabilityObservationRow {
    pub provider: String,
    pub model_id: String,
    pub capability: String,
    pub outcome: String,
    pub count: i64,
    pub last_observed_at: Option<i64>,
}

/// One attempt to serve a request.
#[derive(Debug)]
pub struct RequestAttemptRow {
    pub id: i64,
    pub request_id: String,
    pub attempt_index: i64,
    pub provider: String,
    pub model_id: String,
    pub key_id: String,
    pub success: bool,
    pub error_category: Option<String>,
    pub http_status: Option<i64>,
    pub error_message: Option<String>,
    pub cooldown_seconds: Option<i64>,
    pub fallback: bool,
    pub created_at: i64,
}

/// What a [`RequestAttemptRow`] holds.
pub struct AttemptView {
    pub id: i64,
    pub request_id: Seq<char>,
    pub attempt_index: i64,
    pub provider: Seq<char>,
    pub model_id: Seq<char>,
    pub key_id: Seq<char>,
    pub success: bool,
    pub error_category: Option<Seq<char>>,
    pub http_status: Option<i64>,
    pub error_message: Option<Seq<char>>,
    pub cooldown_seconds: Option<i64>,
    pub fallback: bool,
    pub created_at: i64,
}

impl View for RequestAttemptRow {
    type V = AttemptView;

    open spec fn view(&self) -> AttemptView {
        AttemptView {
            id: self.id,
            request_id: self.request_id@,
            attempt_index: self.attempt_index,
            provider: self.provider@,
            model_id: self.model_id@,
            key_id: self.key_id@,
            success: self.success,
            error_category: opt_view(self.error_category),
            http_status: self.http_status,
            error_message: opt_view(self.error_message),
            cooldown_seconds: self.cooldown_seconds,
            fallback: self.fallback,
            created_at: self.created_at,
        }
    }
}

/// The views of some attempts.
pub open spec fn attempt_views(rows: Seq<RequestAttemptRow>) -> Seq<AttemptView> {
    rows.map_values(|r: RequestAttemptRow| r@)
}

/// What attempts have shown of a provider, a model and a key together.
#[derive(Debug)]
pub struct DeploymentStateRow {
    pub provider: String,
    pub model_id: String,
    pub key_id: String,
    pub success_count: i64,
    pub error_count: i64,
    pub consecutive_failures: i64,
    pub last_success_at: Option<i64>,
    pub last_error_at: Option<i64>,
    pub last_error_category: Option<String>,
    pub last_http_status: Option<i64>,
    pub cooldown_until: Option<i64>,
    pub updated_at: i64,
}

#[derive(Debug)]
pub struct SyncStatusRow {
    pub source_name: String,
    pub last_sync_at: i64,
    pub items_found: i64,
    pub items_updated: i64,
    pub error_message: Option<String>,
}

#[derive(Debug)]
pub struct ErrorDistRow {
    pub category: String,
    pub total: i64,
    pub last_error_at: Option<i64>,
}

#[derive(Debug)]
pub struct ErrorSummaryRow {
    pub provider: String,
    pub model_id: String,
    pub category: String,
    pub total: i64,
}

#[derive(Debug, Clone, Copy, PartialEq, Eq, Structural)]
pub struct MetaStats {
    pub total_models: i64,
    pub with_context_window: i64,
    pub with_vision: i64,
    pub with_pricing: i64,
    pub synced_sources: i64,
    pub usage_records: i64,
    pub learned_rate_limits: i64,
}

} // verus!
