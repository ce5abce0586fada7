use free_agent_gateway::json::Number;
use free_agent_gateway::json_text::parse_json;
use free_agent_gateway::metadata::learner::{
    classify_error, learn_from_failure, learn_from_list, learn_from_models_response,
    learn_from_rate_limit, learn_from_request, unnamed_limit_kind, wait_seconds,
};
use free_agent_gateway::metadata::rows::{
    coverage, CapabilityObservationRow, DeploymentStateRow, ErrorDistRow, ModelMetaRow, Ratio,
    RequestAttemptRow, SyncStatusRow, TaskStatsRow, UsageDailyRow,
};
use free_agent_gateway::metadata::store::UsageCounts;
use free_agent_gateway::metadata::sync::{catalog_updates, sync_openrouter, OpenRouterModel, Pricing};
use free_agent_gateway::metadata::usage::{
    attempts_read, cooldown_end, days_covered, fill_days, fill_hours, hours_covered, usage_record,
};

fn limit(list: &Vec<free_agent_gateway::metadata::learner::LearnedLimit>, kind: &str) -> Option<i64> {
    list.iter().find(|l| l.limit_type == kind).map(|l| l.limit)
}

#[test]
fn model_lists_teach_what_they_say() {
    let body = r#"{"data":[
        {"id":"a","context_length":4096,"architecture":{"input_modalities":["text","image"]}},
        {"name":"nameless"}
    ]}"#;
    let updates = learn_from_models_response("p", body);
    assert_eq!(updates.len(), 1);
    assert_eq!(updates[0].model_id, "a");
    assert_eq!(updates[0].context_window, Some(4096));
    assert_eq!(updates[0].supports_vision, Some(true));
    assert!(learn_from_models_response("p", "no json").is_empty());
    let value = parse_json(body).unwrap();
    assert_eq!(learn_from_list("p", &value).len(), 1);
}

#[test]
fn rate_limits_disclose_limits() {
    let said = learn_from_rate_limit("Rate limit reached: 20 requests per minute");
    assert_eq!(limit(&said, "rpm"), Some(20));
    let said = learn_from_rate_limit("TPM: Limit 6000, Requested 7000. Try again in 12 seconds");
    assert_eq!(limit(&said, "tpm"), Some(6000));
    assert_eq!(limit(&said, "cooldown_seconds"), Some(12));
    assert!(learn_from_rate_limit("slow down").is_empty());
    assert_eq!(unnamed_limit_kind("tokens per minute"), "tpm");
    assert_eq!(wait_seconds("2", "minutes"), Some(120));
    assert_eq!(wait_seconds("2", "fortnights"), None);
}

#[test]
fn errors_are_classified() {
    assert_eq!(classify_error("x", 429), "rate_limit");
    assert_eq!(classify_error("x", 401), "auth");
    assert_eq!(classify_error("Unknown Model", 400), "not_found");
    assert_eq!(classify_error("connect Timeout", 0), "timeout");
    assert_eq!(classify_error("x", 504), "timeout");
    assert_eq!(classify_error("x", 502), "upstream");
    assert_eq!(classify_error("x", 400), "other");
    let failure = learn_from_failure("limit 10 rpm", 429);
    assert_eq!(failure.category, "rate_limit");
    assert_eq!(limit(&failure.limits, "rpm"), Some(10));
    assert_eq!(failure.usage.error_inc, 1);
    assert!(learn_from_failure("limit 10 rpm", 500).limits.is_empty());
}

#[test]
fn usage_is_reported_or_estimated() {
    let reported = usage_record(true, Some(3), Some(4), true);
    assert_eq!(reported.reported_prompt_tokens, 3);
    assert_eq!(reported.estimated_prompt_tokens, 0);
    assert_eq!(reported.success_inc, 1);
    let estimated = usage_record(true, Some(3), Some(4), false);
    assert_eq!(estimated.estimated_completion_tokens, 4);
    assert_eq!(estimated.token_reported, 0);
    let learned = learn_from_request(true, Some(3), None);
    assert_eq!(learned.prompt_tokens, 3);
    let mut counts = UsageCounts::empty();
    counts.add_request(&reported, 10);
    counts.add_request(&estimated, 20);
    assert_eq!(counts.request_count, 2);
    assert_eq!(counts.prompt_tokens, 6);
    assert_eq!(counts.reported_prompt_tokens + counts.estimated_prompt_tokens, 6);
    assert_eq!(counts.first_used_at, Some(10));
    assert_eq!(counts.last_used_at, Some(20));
}

#[test]
fn limits_only_tighten() {
    let mut row = ModelMetaRow::unheard("p", "m", 1);
    row.learn_limit("rpm", 20, 2);
    row.learn_limit("rpm", 30, 3);
    assert_eq!(row.rpm_limit, Some(20));
    row.learn_limit("rpm", 10, 4);
    assert_eq!(row.rpm_limit, Some(10));
    row.learn_limit("cooldown_seconds", 1, 5);
    assert_eq!(row.last_updated_at, 4);
}

#[test]
fn updates_forget_nothing() {
    let mut row = ModelMetaRow::unheard("p", "m", 1);
    row.context_window = Some(100);
    let updates = learn_from_models_response("p", r#"{"data":[{"id":"m"}]}"#);
    row.learn(&updates[0], Some(Number::Float("0.5".into())), None, 9);
    assert_eq!(row.context_window, Some(100));
    assert!(matches!(&row.pricing_prompt, Some(Number::Float(t)) if t == "0.5"));
    assert_eq!(row.update_count, 1);
    assert_eq!(row.last_updated_at, 9);
}

#[test]
fn deployments_fail_and_recover() {
    let mut row = DeploymentStateRow::unknown("p", "m", "k");
    row.record_failure(100, "timeout", Some(504), Some(30));
    row.record_failure(101, "timeout", Some(504), None);
    assert_eq!(row.consecutive_failures, 2);
    assert_eq!(row.cooldown_until, Some(130));
    row.record_success(140);
    assert_eq!(row.consecutive_failures, 0);
    assert_eq!(row.cooldown_until, None);
    assert_eq!(row.error_count, 2);
    assert_eq!(cooldown_end(i64::MAX, Some(5)), Some(i64::MAX));
    assert_eq!(cooldown_end(10, Some(0)), None);
}

#[test]
fn days_without_use_are_shown_too() {
    let days = vec!["2024-01-01".to_string(), "2024-01-02".to_string()];
    let row = UsageDailyRow {
        date: "2024-01-02".into(),
        total_requests: 4,
        total_prompt_tokens: 1,
        total_completion_tokens: 1,
        reported_prompt_tokens: 1,
        reported_completion_tokens: 1,
        estimated_prompt_tokens: 0,
        estimated_completion_tokens: 0,
        total_success: 4,
        total_errors: 0,
        token_reported_requests: 2,
        token_reporting_coverage: None,
    };
    let dense = fill_days(&days, &vec![row]);
    assert_eq!(dense.len(), 2);
    assert_eq!(dense[0].date, "2024-01-01");
    assert_eq!(dense[0].total_requests, 0);
    assert_eq!(dense[1].total_requests, 4);
    assert_eq!(coverage(2, 4), Some(Ratio { numerator: 2, denominator: 4 }));
    assert_eq!(coverage(2, 0), None);
    assert_eq!(attempts_read(5000), 1000);
    assert_eq!(days_covered(0), 1);
    assert_eq!(hours_covered(0), 1);
}

#[test]
fn the_catalog_becomes_updates() {
    let model = OpenRouterModel {
        id: "m".into(),
        name: Some("M".into()),
        context_length: Some(10),
        per_request_limits: None,
        architecture: None,
        pricing: Some(Pricing { prompt: Some("0.1".into()), completion: None }),
        top_provider: None,
        supported_parameters: Some(vec!["tools".into()]),
    };
    let updates = catalog_updates(&vec![model]);
    assert_eq!(updates.len(), 1);
    assert_eq!(updates[0].context_window, Some(10));
    assert_eq!(updates[0].supports_tools, Some(true));
    assert_eq!(updates[0].pricing_prompt.as_deref(), Some("0.1"));
}

#[test]
fn tasks_are_tallied() {
    let mut row = TaskStatsRow::unused("p", "m", Some("coder"), "coding");
    row.record_task_usage(true, 120, Some(3), None, 50);
    row.record_task_usage(false, -5, None, Some(7), 60);
    assert_eq!(row.agent.as_deref(), Some("coder"));
    assert_eq!(row.request_count, 2);
    assert_eq!(row.success_count + row.error_count, row.request_count);
    assert_eq!(row.total_latency_ms, 120);
    assert_eq!(row.prompt_tokens, 3);
    assert_eq!(row.completion_tokens, 7);
    assert_eq!(row.last_used_at, Some(60));
}

#[test]
fn observations_and_errors_are_tallied() {
    let mut seen = CapabilityObservationRow {
        provider: "p".into(),
        model_id: "m".into(),
        capability: "tools".into(),
        outcome: "failure".into(),
        count: i64::MAX - 1,
        last_observed_at: None,
    };
    seen.record_capability_observation(5);
    seen.record_capability_observation(6);
    assert_eq!(seen.count, i64::MAX);
    assert_eq!(seen.last_observed_at, Some(6));
    let mut errors = ErrorDistRow { category: "auth".into(), total: 0, last_error_at: None };
    errors.record_model_error(8);
    assert_eq!(errors.total, 1);
    assert_eq!(errors.last_error_at, Some(8));
}

#[test]
fn synchronisations_are_noted() {
    let mut row = SyncStatusRow::unread("openrouter");
    row.record_sync(10, 9, 100);
    row.record_sync_error("unreachable", 200);
    assert_eq!(row.items_found, 10);
    assert_eq!(row.error_message.as_deref(), Some("unreachable"));
    row.record_sync(11, 11, 300);
    assert_eq!(row.error_message, None);
    assert_eq!(row.last_sync_at, 300);
}

#[test]
fn attempts_are_kept() {
    let good = RequestAttemptRow::of_attempt(
        "r", 1, "p", "m", "k", true, "timeout", Some(200), None, None, false, 7,
    );
    assert_eq!(good.error_category, None);
    assert_eq!(good.http_status, Some(200));
    let bad = RequestAttemptRow::of_attempt(
        "r", 2, "p", "m", "k", false, "timeout", None, Some("slow"), Some(30), true, 8,
    );
    assert_eq!(bad.error_category.as_deref(), Some("timeout"));
    assert_eq!(bad.error_message.as_deref(), Some("slow"));
    assert!(bad.fallback);
}

#[test]
fn catalogs_are_learned_twice_over() {
    let body = r#"{"data":[{"id":"m","context_length":10}]}"#;
    let learned = sync_openrouter(body, &Vec::new());
    assert_eq!(learned.source, "openrouter");
    assert!(learned.updates.is_empty());
    assert_eq!(learned.learned.len(), 1);
    assert_eq!(learned.learned[0].context_window, Some(10));
}

#[test]
fn hours_without_use_are_shown_too() {
    let hours = vec!["2024-01-01 00:00:00".to_string()];
    let dense = fill_hours(&hours, &Vec::new());
    assert_eq!(dense.len(), 1);
    assert_eq!(dense[0].hour, "2024-01-01 00:00:00");
    assert_eq!(dense[0].token_reporting_coverage, None);
}
