use free_agent_gateway::api::admin::keys::{
    key_rate_usage, key_rate_usage_at, key_rate_usage_json, raw_share, AxisUsage, Share,
    UsagePercents,
};
use free_agent_gateway::api::admin::trial::{
    admin_provider_key_validate, admin_provider_test, KeyTrial,
};
use free_agent_gateway::api::admin::validation::{
    admin_test_model_candidates, dedupe_enabled_models, is_validation_model_mismatch,
    mismatch_said, probe_outcome, record_admin_validation_attempt, response_model_and_preview,
    validation_error_should_update_key_state, validation_failure_status, validation_test_request,
};
use free_agent_gateway::api::attempts::{
    build_attempt_analysis_prompt, summarize_attempts_for_routing,
};
use free_agent_gateway::config::{
    AdaptiveRoutingConfig, Config, CorsConfig, KeyConfig, KeyTier, ProviderConfig, ProviderType,
    RoutingConfig, RoutingStrategy, ServerConfig, StateConfig, WatcherConfig,
};
use free_agent_gateway::error::GatewayError;
use free_agent_gateway::json::{Json, Number};
use free_agent_gateway::json_text::parse_json;
use free_agent_gateway::keyhub::{KeyHub, RoundRobin};
use free_agent_gateway::metadata::rows::{DeploymentStateRow, RequestAttemptRow};
use free_agent_gateway::models::{KeyState, KeyStatus};
use free_agent_gateway::providers::traits::ChatResponse;

fn percent(share: Option<Share>) -> Option<f64> {
    share.map(|s| {
        if s.part == s.whole {
            100.0
        } else {
            s.part as f64 / s.whole as f64 * 100.0
        }
    })
}

fn number(n: Option<f64>) -> Option<Number> {
    n.map(|v| Number::Float(format!("{:?}", v)))
}

fn now_seconds() -> u64 {
    chrono::Utc::now().timestamp() as u64
}

fn routing() -> RoutingConfig {
    RoutingConfig {
        strategy: RoutingStrategy::LeastFailed,
        fail_threshold: 3,
        cooldown_seconds: 60,
        auto_discover: true,
    }
}

fn provider_config(keys: Vec<KeyConfig>, health_check_model: &str, timeout: u64) -> ProviderConfig {
    ProviderConfig {
        provider_type: ProviderType::OpenaiCompatible,
        enabled: true,
        base_url: "http://example".into(),
        keys,
        health_check_model: health_check_model.into(),
        timeout_seconds: timeout,
        priority: 0,
        proxy_url: None,
    }
}

fn config(timeout: u64) -> Config {
    Config {
        server: ServerConfig {
            host: "127.0.0.1".into(),
            port: 9000,
            log_level: "info".into(),
            request_timeout: 30,
            sse_keepalive: 15,
        },
        routing: routing(),
        fallback: vec!["p".into()],
        agents: Vec::new(),
        models: Vec::new(),
        providers: vec![(
            "p".to_string(),
            provider_config(
                vec![KeyConfig::detailed("key-one", KeyTier::Free)],
                " check-model ",
                timeout,
            ),
        )],
        watcher: WatcherConfig::default(),
        state: StateConfig::default(),
        cors: CorsConfig::default(),
        adaptive_routing: AdaptiveRoutingConfig {
            enabled: false,
            allow_paid: false,
            candidate_limit: 5,
            learning_window_days: 7,
            auto_models: Vec::new(),
            agent_profiles: Vec::new(),
            routing_groups: Vec::new(),
        },
    }
}

fn hub() -> KeyHub {
    let mut hub = KeyHub::new(routing());
    hub.register_provider("p", vec![KeyConfig::detailed("key-one", KeyTier::Free)]);
    hub.update_models("p", "key-one", vec!["bad-model".into(), "good-model".into()]);
    hub
}

fn text<'a>(value: &'a Json, key: &str) -> &'a str {
    value.get(key).unwrap().as_str().unwrap()
}

fn truth(value: &Json, key: &str) -> bool {
    value.get(key).unwrap().as_bool().unwrap()
}

fn attempt_row(
    request_id: &str,
    attempt_index: i64,
    provider: &str,
    model_id: &str,
    key_id: &str,
    success: bool,
    category: &str,
) -> RequestAttemptRow {
    RequestAttemptRow {
        id: attempt_index,
        request_id: request_id.to_string(),
        attempt_index,
        provider: provider.to_string(),
        model_id: model_id.to_string(),
        key_id: key_id.to_string(),
        success,
        error_category: if success { None } else { Some(category.to_string()) },
        http_status: (!success).then_some(if category == "rate_limited" { 429 } else { 500 }),
        error_message: if success { None } else { Some(category.to_string()) },
        cooldown_seconds: None,
        fallback: false,
        created_at: 1_700_000_000 + attempt_index,
    }
}

#[test]
fn rate_limited_key_usage_display_is_exhausted_even_when_counters_are_low() {
    let now = now_seconds();
    let mut key = KeyState::with_tier("limited-key".to_string(), KeyTier::Free);
    key.status = KeyStatus::RateLimited;
    key.rpd_limit = Some(100);
    key.rpd_count = 8;
    key.rpd_window_start = now / 86400;

    let usage = key_rate_usage(&key);
    assert_eq!(percent(usage.display_share()), Some(100.0));
    assert_eq!(percent(usage.max_share()), Some(8.0));
    assert_eq!(percent(usage.headroom_share()), Some(0.0));

    let percents = UsagePercents {
        rpm: number(percent(usage.rpm.share())),
        rpd: number(percent(usage.rpd.share())),
        tpm: number(percent(usage.tpm.share())),
        tpd: number(percent(usage.tpd.share())),
        display: number(percent(usage.display_share())),
        max: number(percent(usage.max_share())),
        headroom: number(percent(usage.headroom_share())),
    };
    let usage = key_rate_usage_json(&usage, &percents);
    assert_eq!(truth(&usage, "blocked_by_status"), true);
    assert_eq!(truth(&usage, "exhausted"), true);
    assert_eq!(truth(&usage, "counter_exhausted"), false);
    assert!(matches!(
        usage.get("display_percent"),
        Some(Json::Number(Number::Float(t))) if t.parse::<f64>() == Ok(100.0)
    ));
    assert!(matches!(
        usage.get("max_percent"),
        Some(Json::Number(Number::Float(t))) if t.parse::<f64>() == Ok(8.0)
    ));
    assert!(matches!(
        usage.get("headroom_percent"),
        Some(Json::Number(Number::Float(t))) if t.parse::<f64>() == Ok(0.0)
    ));
}

#[test]
fn region_unavailable_403_is_model_candidate_mismatch() {
    let error = GatewayError::http_error(403, "This model is not available in your region.", None);

    assert!(is_validation_model_mismatch(&error));
}

#[test]
fn validation_candidates_are_deduped_and_skip_disabled_models() {
    let disabled = vec!["bad-model".to_string()];
    let candidates = dedupe_enabled_models(
        vec![
            "bad-model".into(),
            "working-model".into(),
            "working-model".into(),
            "fallback-model".into(),
        ],
        &disabled,
    );

    assert_eq!(
        candidates,
        vec!["working-model".to_string(), "fallback-model".to_string()]
    );
}

#[test]
fn validation_transient_errors_are_inconclusive_not_key_state_updates() {
    let upstream = GatewayError::UpstreamError("error decoding response body".into());
    let timeout = GatewayError::Timeout("validation timed out".into());
    let http_500 = GatewayError::http_error(500, "provider failed", None);

    assert!(!validation_error_should_update_key_state(&upstream));
    assert!(!validation_error_should_update_key_state(&timeout));
    assert!(!validation_error_should_update_key_state(&http_500));
    assert_eq!(validation_failure_status(&upstream), "inconclusive");
}

#[test]
fn validation_confirmed_auth_or_rate_limit_updates_key_state() {
    let auth = GatewayError::http_error(401, "invalid api key", None);
    let forbidden = GatewayError::http_error(403, "invalid api key", None);
    let limited = GatewayError::http_error(429, "rate limited", Some(60));

    assert!(validation_error_should_update_key_state(&auth));
    assert!(validation_error_should_update_key_state(&forbidden));
    assert!(validation_error_should_update_key_state(&limited));
    assert_eq!(
        validation_failure_status(&limited),
        "key_limited_or_invalid"
    );
}

#[test]
fn validation_attempts_update_deployments() {
    let first = record_admin_validation_attempt(
        "validate-1",
        1,
        "openrouter",
        "google/gemma:free",
        "sk-test-a",
        Ok(200),
        false,
    );
    let error = GatewayError::http_error(403, "This model is not available in your region.", None);
    let second = record_admin_validation_attempt(
        "validate-1",
        2,
        "openrouter",
        "restricted-model",
        "sk-test-a",
        Err(&error),
        true,
    );

    assert!(first.success);
    assert_eq!(first.category, "success");
    assert_eq!(first.http_status, Some(200));
    assert_eq!(first.message, None);
    assert!(!second.success);
    assert_eq!(second.category, "region_forbidden");
    assert_eq!(second.model, "restricted-model");
    assert_eq!(second.attempt_index, 2);
    assert!(second.fallback);
    assert!(second.key_id.starts_with("key-"));
    assert_eq!(second.key_id.len(), 20);
    assert!(!second.key_id.contains("sk-test-a"));

    let mut good = DeploymentStateRow::unknown("openrouter", "google/gemma:free", &first.key_id);
    good.record_success(10);
    assert_eq!(good.success_count, 1);
    assert_eq!(good.consecutive_failures, 0);
    let mut bad = DeploymentStateRow::unknown("openrouter", "restricted-model", &second.key_id);
    bad.record_failure(10, &second.category, Some(403), second.cooldown_seconds);
    assert_eq!(bad.last_error_category.as_deref(), Some("region_forbidden"));
    assert_eq!(bad.consecutive_failures, 1);
}

#[test]
fn attempt_analysis_identifies_rate_limited_and_flaky_deployments() {
    let attempts = vec![
        attempt_row("req-1", 1, "openrouter", "model-a", "key-a", false, "rate_limited"),
        attempt_row("req-2", 1, "openrouter", "model-a", "key-a", false, "rate_limited"),
        attempt_row("req-3", 1, "nvidia", "model-b", "key-b", false, "upstream_error"),
        attempt_row("req-4", 1, "nvidia", "model-b", "key-b", false, "upstream_error"),
        attempt_row("req-5", 1, "opencode", "model-c", "key-c", true, "success"),
    ];

    let analysis = summarize_attempts_for_routing(&attempts);

    assert_eq!(analysis.total_attempts, 5);
    assert_eq!(analysis.failed_attempts, 4);
    assert_eq!(analysis.top_error_categories[0].category, "rate_limited");
    assert!(analysis.recommendations.iter().any(|item| {
        item.contains("openrouter/model-a/key-a") && item.contains("cooldown")
    }));
    assert!(analysis.recommendations.iter().any(|item| {
        item.contains("nvidia/model-b/key-b") && item.contains("deprioritize")
    }));
}

#[test]
fn attempt_analysis_detects_account_pool_saturation_for_provider_model() {
    let attempts = vec![
        attempt_row("req-1", 1, "openrouter", "model-a", "key-a", false, "rate_limited"),
        attempt_row("req-2", 1, "openrouter", "model-a", "key-b", false, "rate_limited"),
        attempt_row("req-3", 1, "openrouter", "model-a", "key-c", false, "rate_limited"),
        attempt_row("req-4", 1, "opencode", "model-a", "key-d", true, "success"),
    ];

    let analysis = summarize_attempts_for_routing(&attempts);

    assert!(analysis.recommendations.iter().any(|item| {
        item.contains("openrouter/model-a")
            && item.contains("3 independent account")
            && item.contains("switch provider")
    }));
}

#[test]
fn attempt_analysis_prompt_is_redacted_and_mentions_real_quota_cost() {
    let attempts = vec![attempt_row(
        "req-1",
        1,
        "openrouter",
        "model-a",
        "key-fingerprint-only",
        false,
        "rate_limited",
    )];
    let prompt = build_attempt_analysis_prompt(&attempts, 1);

    assert!(prompt.contains("This diagnostic model call is a real upstream request"));
    assert!(prompt.contains("key-fingerprint-only"));
    assert!(!prompt.contains("sk-"));
    assert!(prompt.contains("openrouter"));
}

#[test]
fn the_prompt_has_a_line_for_each_attempt() {
    let attempts = vec![
        attempt_row("req-1", 1, "openrouter", "model-a", "key-a", false, "rate_limited"),
        attempt_row("req-2", 2, "nvidia", "model-b", "key-b", true, "success"),
        attempt_row("req-3", 1, "groq", "model-c", "key-c", false, "timeout"),
    ];
    let prompt = build_attempt_analysis_prompt(&attempts, 2);
    let lines: Vec<&str> = prompt.split('\n').collect();
    assert_eq!(lines.len(), 8);
    assert_eq!(lines[5], "");
    assert!(lines[6].starts_with("request_id=req-1 ") && lines[6].contains(" key_id=key-a "));
    assert!(lines[7].starts_with("request_id=req-2 ") && lines[7].contains(" key_id=key-b "));
    assert_eq!(prompt, build_attempt_analysis_prompt(&attempts[..2], 2));
    assert_eq!(build_attempt_analysis_prompt(&attempts, 9).split('\n').count(), 9);
    assert_eq!(build_attempt_analysis_prompt(&attempts, 0).split('\n').count(), 6);
    assert_eq!(build_attempt_analysis_prompt(&attempts, -1).split('\n').count(), 9);
}

#[test]
fn mismatch_ignores_case_and_needs_its_status() {
    assert!(is_validation_model_mismatch(&GatewayError::http_error(404, "no", None)));
    assert!(is_validation_model_mismatch(&GatewayError::http_error(
        403,
        "MODEL IS NOT AVAILABLE here",
        None
    )));
    assert!(!is_validation_model_mismatch(&GatewayError::http_error(
        400,
        "model is not available",
        None
    )));
    assert!(mismatch_said(403, "x model_not_found"));
    assert!(!mismatch_said(403, "MODEL_NOT_FOUND"));
}

#[test]
fn the_test_request_asks_for_ok() {
    let request = validation_test_request("m");
    assert_eq!(request.model, "m");
    assert_eq!(request.messages.len(), 1);
    assert_eq!(request.messages[0].role, "user");
    assert_eq!(request.messages[0].content.as_str(), Some("Reply with OK"));
    assert_eq!(request.max_tokens, Some(20));
    assert_eq!(request.stream, Some(false));
}

#[test]
fn a_probe_without_an_answer_timed_out() {
    let late = probe_outcome(None, 5);
    assert!(matches!(late, Err(GatewayError::Timeout(m)) if m == "admin validation timed out"));
    let body = parse_json("{}").unwrap();
    let answered = probe_outcome(Some(Ok(ChatResponse::new(body, 200, None))), 5).unwrap();
    assert_eq!(answered.1, 5);
    assert_eq!(answered.0.status, 200);
}

#[test]
fn candidates_come_by_identifier_by_key_and_from_the_health_check() {
    let hub = hub();
    let config = config(5);
    let disabled = vec![("p".to_string(), vec!["bad-model".to_string()])];
    let none = Vec::new();
    assert_eq!(
        admin_test_model_candidates(&config, &none, &hub, "p", Some("key-one"), None),
        vec!["bad-model", "good-model", "check-model"]
    );
    assert_eq!(
        admin_test_model_candidates(&config, &disabled, &hub, "p", None, None),
        vec!["check-model"]
    );
    assert!(
        admin_test_model_candidates(&config, &disabled, &hub, "other", Some("key-one"), None)
            .is_empty()
    );
}

#[test]
fn previews_are_cut_after_a_hundred_bytes() {
    let long = "x".repeat(130);
    let mut body = String::from(r#"{"model":"real","choices":[{"message":{"content":""#);
    body.push_str(&long);
    body.push_str(r#""}}]}"#);
    let (model, preview) = response_model_and_preview(&parse_json(&body).unwrap(), "asked");
    assert_eq!(model, "real");
    let mut expected = "x".repeat(100);
    expected.push_str("...");
    assert_eq!(preview, Some(expected));
    let (model, preview) = response_model_and_preview(&parse_json("{}").unwrap(), "asked");
    assert_eq!(model, "asked");
    assert_eq!(preview, None);
}

fn begin_test(hub: &mut KeyHub) -> KeyTrial {
    let registered = vec!["p".to_string()];
    let mut counter = RoundRobin::new();
    admin_provider_test(&config(77), &registered, hub, &mut counter, &Vec::new(), "p").unwrap()
}

#[test]
fn a_test_skips_models_that_do_not_suit_and_ends_with_the_first_answer() {
    let mut hub = hub();
    let mut trial = begin_test(&mut hub);
    assert_eq!(trial.timeout_seconds, 77);
    assert!(trial.request_id.starts_with("admin-test-p-"));
    assert_eq!(trial.next_model(), Some("bad-model"));
    let step = trial.on_answer(
        &mut hub,
        Err(GatewayError::http_error(404, "no such model", None)),
    );
    assert!(step.reply.is_none());
    assert!(step.event.is_none());
    assert_eq!(step.attempt.attempt_index, 1);
    assert!(step.attempt.fallback);
    assert_eq!(trial.next_model(), Some("good-model"));
    let body = parse_json(r#"{"choices":[{"message":{"content":"OK"}}]}"#).unwrap();
    let step = trial.on_answer(&mut hub, Ok((ChatResponse::new(body, 200, None), 12)));
    let reply = step.reply.unwrap();
    assert!(truth(&reply, "success"));
    assert_eq!(text(&reply, "model"), "good-model");
    assert_eq!(text(&reply, "response_preview"), "OK");
    assert_eq!(reply.get("latency_ms").unwrap().as_u64(), Some(12));
    assert_eq!(
        text(reply.get("skipped_models").unwrap().item(0).unwrap(), "model"),
        "bad-model"
    );
    assert!(reply.get("key_id").is_none());
    let event = step.event.unwrap();
    assert_eq!(text(&event, "type"), "provider_test");
    assert_eq!(step.attempt.attempt_index, 2);
    assert!(step.attempt.success);
}

#[test]
fn an_error_that_blames_the_key_ends_the_test_and_disables_it() {
    let mut hub = hub();
    let mut trial = begin_test(&mut hub);
    let step = trial.on_answer(
        &mut hub,
        Err(GatewayError::http_error(401, "invalid api key", None)),
    );
    let reply = step.reply.unwrap();
    assert!(!truth(&reply, "success"));
    assert!(truth(&reply, "key_state_updated"));
    assert_eq!(text(&reply, "validation_status"), "key_limited_or_invalid");
    assert_eq!(hub.key_status("p", "key-one"), Some(KeyStatus::Disabled));
}

#[test]
fn an_inconclusive_error_leaves_the_key_alone() {
    let mut hub = hub();
    let mut trial = begin_test(&mut hub);
    let step = trial.on_answer(
        &mut hub,
        Err(GatewayError::http_error(500, "provider failed", None)),
    );
    let reply = step.reply.unwrap();
    assert!(!truth(&reply, "key_state_updated"));
    assert_eq!(text(&reply, "validation_status"), "inconclusive");
    assert_eq!(hub.key_status("p", "key-one"), Some(KeyStatus::Available));
}

#[test]
fn a_test_of_nothing_but_misfits_reports_the_last() {
    let mut hub = hub();
    let mut trial = begin_test(&mut hub);
    while trial.next_model().is_some() {
        trial.on_answer(&mut hub, Err(GatewayError::http_error(404, "no such model", None)));
    }
    let reply = trial.finish(&mut hub);
    assert!(!truth(&reply, "success"));
    assert_eq!(text(&reply, "error"), "HTTP error 404: no such model");
    assert_eq!(reply.get("http_status").unwrap().as_u64(), Some(404));
    assert_eq!(reply.get("skipped_models").unwrap().as_array().unwrap().len(), 3);
}

#[test]
fn validation_clamps_the_timeout_and_tells_the_identifier() {
    let mut hub = hub();
    let id = free_agent_gateway::keystate::key_fingerprint("key-one");
    let registered = vec!["p".to_string()];
    let none = Vec::new();
    let mut slow =
        admin_provider_key_validate(&config(300), &registered, &hub, &none, "p", &id).unwrap();
    assert_eq!(slow.timeout_seconds, 60);
    let fast =
        admin_provider_key_validate(&config(1), &registered, &hub, &none, "p", &id).unwrap();
    assert_eq!(fast.timeout_seconds, 5);
    let body = parse_json(r#"{"model":"other"}"#).unwrap();
    let step = slow.on_answer(&mut hub, Ok((ChatResponse::new(body, 200, None), 3)));
    let reply = step.reply.unwrap();
    assert_eq!(text(&reply, "key_id"), id);
    assert_eq!(text(&reply, "model"), "other");
    assert!(reply.get("response_preview").unwrap().is_null());
    assert_eq!(text(&step.event.unwrap(), "type"), "key_validate");

    let wrong =
        admin_provider_key_validate(&config(5), &registered, &hub, &none, "p", "key-0").unwrap_err();
    assert_eq!(text(&wrong, "error"), "Invalid request: Key id not found: key-0");
    let missing =
        admin_provider_key_validate(&config(5), &registered, &hub, &none, "q", &id).unwrap_err();
    assert_eq!(text(&missing, "error"), "Provider 'q' not found");
    let mut counter = RoundRobin::new();
    let refused =
        admin_provider_test(&config(5), &Vec::new(), &mut hub, &mut counter, &none, "p")
            .unwrap_err();
    assert_eq!(text(&refused, "error"), "Provider 'p' not found");
    let mut empty = KeyHub::new(routing());
    empty.register_provider("p", Vec::new());
    let refused =
        admin_provider_test(&config(5), &registered, &mut empty, &mut counter, &none, "p")
            .unwrap_err();
    assert_eq!(
        text(&refused, "error"),
        "No available key: No available keys for provider: p"
    );
}

#[test]
fn a_trial_without_models_says_so() {
    let mut hub = KeyHub::new(routing());
    hub.register_provider("p", vec![KeyConfig::detailed("key-one", KeyTier::Free)]);
    let mut config = config(5);
    config.providers[0].1.health_check_model = "  ".to_string();
    let registered = vec!["p".to_string()];
    let mut counter = RoundRobin::new();
    let trial =
        admin_provider_test(&config, &registered, &mut hub, &mut counter, &Vec::new(), "p").unwrap();
    assert_eq!(trial.next_model(), None);
    let reply = trial.finish(&mut hub);
    assert_eq!(
        text(&reply, "error"),
        "Invalid request: No enabled validation models available"
    );
    assert_eq!(reply.get("http_status").unwrap().as_u64(), Some(500));
    assert_eq!(hub.key_status("p", "key-one"), Some(KeyStatus::Available));
}

#[test]
fn the_largest_share_is_shown_and_the_rest_is_free() {
    let now = 86400 * 20_000 + 60 * 7 + 3;
    let mut key = KeyState::with_tier_at("k".to_string(), KeyTier::Free, now);
    key.rpm_limit = Some(10);
    key.rpm_count = 5;
    key.tpm_limit = Some(1000);
    key.tpm_prompt_count = 750;
    key.tpm_completion_count = 450;
    let usage = key_rate_usage_at(&key, now);
    assert_eq!(usage.max_share(), Some(Share { part: 750, whole: 1000 }));
    assert_eq!(usage.headroom_share(), Some(Share { part: 250, whole: 1000 }));
    assert_eq!(usage.rpm.remaining(), Some(5));
    assert!(usage.constrained());
    assert!(!usage.exhausted());
    // a minute later nothing of it counts
    let later = key_rate_usage_at(&key, now + 60);
    assert_eq!(later.max_share(), Some(Share { part: 0, whole: 10 }));
    assert!(!later.rpm.window_active);
    let free = KeyState::with_tier_at("k".to_string(), KeyTier::Free, now);
    let usage = key_rate_usage_at(&free, now);
    assert!(!usage.constrained());
    assert_eq!(usage.display_share(), None);
    assert_eq!(usage.headroom_share(), None);
}

#[test]
fn raw_shares_have_no_bound() {
    let over = AxisUsage { limit: Some(4), used: 9, window_active: true };
    assert_eq!(raw_share(&over), Some((9, 4)));
    assert_eq!(over.share(), Some(Share { part: 1, whole: 1 }));
    assert!(over.exhausted());
    let zero = AxisUsage { limit: Some(0), used: 0, window_active: true };
    assert_eq!(raw_share(&zero), Some((1, 1)));
    let none = AxisUsage { limit: None, used: 3, window_active: true };
    assert_eq!(raw_share(&none), None);
    assert!(!none.exhausted());
}
