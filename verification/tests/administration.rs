use free_agent_gateway::adaptive::routing::AdaptiveScope;
use free_agent_gateway::api::admin::analysis::{
    admin_metadata_attempts, admin_metadata_attempts_analyze, analysis_request,
    diagnostics_request, diagnostics_scope, unread_attempts, ModelAnalysis,
};
use free_agent_gateway::api::admin::events::event;
use free_agent_gateway::api::admin::keys::{admin_keys, can_show, KeyPercents, UsagePercents};
use free_agent_gateway::api::admin::metadata::admin_metadata_stats;
use free_agent_gateway::api::admin::models::{
    admin_provider_key_restore, admin_provider_models_get, admin_provider_models_toggle,
    model_capacity,
};
use free_agent_gateway::api::admin::overview::{
    admin_status, count_standings, live_status, standing, Standing,
};
use free_agent_gateway::api::admin::refresh::{admin_provider_refresh, Refresh};
use free_agent_gateway::api::admin::reports::{
    admin_metadata_capabilities, admin_metadata_errors, admin_metadata_models,
    admin_metadata_sync_status, admin_metadata_tasks, admin_metadata_usage, analysis_limit,
    attempts_limit, average_latency, daily_days, hourly_hours, sum_usage, task_days, usage_days,
};
use free_agent_gateway::api::admin::settings::{
    admin_config_get, admin_config_put, can_show_config, changed_provider,
};
use free_agent_gateway::api::attempts::{summarize_attempts_for_routing, AttemptAnalysisQuery};
use free_agent_gateway::api::models::{model_disabled, DisabledModels};
use free_agent_gateway::config::{
    AdaptiveRoutingConfig, AgentConfig, AgentProfileConfig, AutoModelConfig, Config, CorsConfig,
    KeyConfig, KeyTier, ModelAlias, ProviderConfig, ProviderType, RoutingConfig,
    RoutingGroupConfig, RoutingStrategy, ServerConfig, StateConfig, WatcherConfig,
};
use free_agent_gateway::error::GatewayError;
use free_agent_gateway::health::HealthRegistry;
use free_agent_gateway::json::{Json, Number};
use free_agent_gateway::json_text::{json_text, parse_json};
use free_agent_gateway::keyhub::KeyHub;
use free_agent_gateway::keystate::{key_fingerprint, KeyState, KeyStatus};
use free_agent_gateway::metadata::rows::{
    CapabilityObservationRow, ErrorSummaryRow, MetaStats, ModelMetaRow, RequestAttemptRow,
    SyncStatusRow, TaskStatsRow, UsageSummaryRow,
};
use free_agent_gateway::models::HealthState;

fn now_seconds() -> u64 {
    chrono::Utc::now().timestamp() as u64
}

fn routing() -> RoutingConfig {
    RoutingConfig {
        strategy: RoutingStrategy::RoundRobin,
        fail_threshold: 3,
        cooldown_seconds: 60,
        auto_discover: true,
    }
}

fn provider(keys: Vec<KeyConfig>) -> ProviderConfig {
    ProviderConfig {
        provider_type: ProviderType::Ollama,
        enabled: true,
        base_url: "http://example".into(),
        proxy_url: None,
        keys,
        health_check_model: "check".into(),
        timeout_seconds: 5,
        priority: 2,
    }
}

fn config() -> Config {
    Config {
        server: ServerConfig {
            host: "127.0.0.1".into(),
            port: 9000,
            log_level: "info".into(),
            request_timeout: 30,
            sse_keepalive: 15,
        },
        routing: routing(),
        fallback: vec!["p".into()],
        agents: vec![("coder".into(), AgentConfig { default_model: "m".into() })],
        models: vec![("fast".into(), ModelAlias { provider: "p".into(), model: "m".into() })],
        providers: vec![(
            "p".to_string(),
            provider(vec![KeyConfig::Legacy("sk-abcdefgh".into()), KeyConfig::Legacy("tiny".into())]),
        )],
        watcher: WatcherConfig::default(),
        state: StateConfig::default(),
        cors: CorsConfig::default(),
        adaptive_routing: AdaptiveRoutingConfig {
            enabled: true,
            allow_paid: false,
            candidate_limit: 5,
            learning_window_days: 7,
            auto_models: vec![("auto-code".into(), AutoModelConfig { task: "coding".into() })],
            agent_profiles: vec![(
                "coder".into(),
                AgentProfileConfig {
                    provider_groups: vec!["g".into()],
                    default_auto_model: "auto-code".into(),
                },
            )],
            routing_groups: vec![("g".into(), RoutingGroupConfig { providers: vec!["p".into()] })],
        },
    }
}

fn at<'a>(value: &'a Json, path: &[&str]) -> &'a Json {
    let mut here = value;
    for step in path {
        here = match step.parse::<usize>() {
            Ok(i) => here.item(i).unwrap(),
            Err(_) => here.get(step).unwrap(),
        };
    }
    here
}

fn text<'a>(value: &'a Json, path: &[&str]) -> &'a str {
    at(value, path).as_str().unwrap()
}

fn num(value: &Json, path: &[&str]) -> i64 {
    at(value, path).as_i64().unwrap()
}

fn truth(value: &Json, path: &[&str]) -> bool {
    at(value, path).as_bool().unwrap()
}

fn no_percents() -> KeyPercents {
    KeyPercents {
        rpm: None,
        rpd: None,
        tpm: None,
        tpd: None,
        usage: UsagePercents {
            rpm: None,
            rpd: None,
            tpm: None,
            tpd: None,
            display: None,
            max: None,
            headroom: None,
        },
    }
}

fn percents_of(snapshot: &Vec<(String, Vec<KeyState>)>) -> Vec<Vec<KeyPercents>> {
    snapshot
        .iter()
        .map(|(_, keys)| keys.iter().map(|_| no_percents()).collect())
        .collect()
}

fn health(provider: &str, status: &str, total_keys: usize) -> HealthState {
    HealthState {
        provider: provider.into(),
        status: status.into(),
        latency_ms: 3,
        success_count: 1,
        fail_count: 0,
        last_error: String::new(),
        cooldown_until: None,
        models_count: 1,
        available_keys: 0,
        total_keys,
    }
}

// ---------------------------------------------------------------- settings

#[test]
fn the_configuration_is_shown_with_masked_keys() {
    let config = config();
    assert!(can_show_config(&config));
    let shown = admin_config_get(&config);
    assert_eq!(text(&shown, &["providers", "p", "keys", "0"]), "sk-a...efgh");
    assert_eq!(text(&shown, &["providers", "p", "keys", "1"]), "****");
    assert_eq!(num(&shown, &["providers", "p", "keys_count"]), 2);
    assert_eq!(text(&shown, &["providers", "p", "type"]), "Ollama");
    assert!(at(&shown, &["providers", "p", "proxy_url"]).is_null());
    assert_eq!(text(&shown, &["routing", "strategy"]), "RoundRobin");
    assert_eq!(text(&shown, &["agents", "coder", "default_model"]), "m");
    assert_eq!(text(&shown, &["models", "fast", "model"]), "m");
    assert_eq!(text(&shown, &["fallback", "0"]), "p");
    assert_eq!(num(&shown, &["server", "port"]), 9000);
    assert_eq!(
        text(&shown, &["adaptive_routing", "auto_models", "auto-code", "task"]),
        "coding"
    );
    assert_eq!(
        text(&shown, &["adaptive_routing", "routing_groups", "g", "providers", "0"]),
        "p"
    );
    assert!(!json_text(&shown).contains("sk-abcdefgh"));
    let odd = ProviderConfig {
        keys: vec![KeyConfig::Legacy("abc\u{e9}\u{e9}\u{e9}\u{e9}".into())],
        ..provider(Vec::new())
    };
    let odd_config = Config { providers: vec![("o".into(), odd)], ..config };
    assert!(!can_show_config(&odd_config));
}

#[test]
fn a_change_touches_what_it_names() {
    let before = provider(vec![KeyConfig::Legacy("a".into())]);
    let nothing = changed_provider(&before, &parse_json(r#"{"enabled":"no","keys":[]}"#).unwrap());
    assert!(nothing.enabled);
    assert_eq!(nothing.keys.len(), 1);
    let changed = changed_provider(
        &before,
        &parse_json(r#"{"enabled":false,"timeout_seconds":9,"base_url":"http://b","keys":["x",1,"y"]}"#)
            .unwrap(),
    );
    assert!(!changed.enabled);
    assert_eq!(changed.timeout_seconds, 9);
    assert_eq!(changed.base_url, "http://b");
    assert_eq!(changed.keys.len(), 2);
    assert_eq!(changed.keys[1].value(), "y");
    assert_eq!(changed.priority, 2);
}

#[test]
fn providers_are_set_up_anew_where_they_moved_or_were_switched() {
    let config = config();
    let body = parse_json(
        r#"{"providers":{"p":{"timeout_seconds":9},"unknown":{"enabled":false}}}"#,
    )
    .unwrap();
    let changes = admin_config_put(&config, &body, 77);
    assert_eq!(changes.len(), 1);
    assert_eq!(changes[0].name, "p");
    assert!(!changes[0].register);
    assert_eq!(text(&changes[0].event, &["type"]), "config_update");
    assert_eq!(num(&changes[0].event, &["timestamp"]), 77);
    let body = parse_json(r#"{"providers":{"p":{"enabled":false}}}"#).unwrap();
    assert!(admin_config_put(&config, &body, 77)[0].register);
    let body = parse_json(r#"{"providers":{"p":{"base_url":"http://other"}}}"#).unwrap();
    assert!(admin_config_put(&config, &body, 77)[0].register);
    assert!(admin_config_put(&config, &parse_json("{}").unwrap(), 77).is_empty());
}

// ---------------------------------------------------------------- overview

#[test]
fn the_status_follows_the_keys() {
    assert_eq!(standing(&health("p", "healthy", 2), 2), Standing::Healthy);
    assert_eq!(standing(&health("p", "healthy", 2), 1), Standing::Degraded);
    assert_eq!(standing(&health("p", "healthy", 2), 0), Standing::Exhausted);
    assert_eq!(standing(&health("p", "unhealthy", 2), 2), Standing::Unhealthy);
    assert_eq!(standing(&health("p", "disabled", 0), 0), Standing::Unhealthy);
    assert_eq!(live_status(&health("p", "disabled", 0), 0), "disabled");
    assert_eq!(live_status(&health("p", "unknown", 0), 0), "unknown");
    assert_eq!(live_status(&health("p", "unknown", 1), 1), "healthy");
    assert_eq!(live_status(&health("p", "unknown", 2), 1), "degraded");
    assert_eq!(live_status(&health("p", "unknown", 2), 0), "exhausted");
}

#[test]
fn the_overview_counts_and_shows_everybody() {
    let config = config();
    let mut hub = KeyHub::new(routing());
    hub.register_provider("p", vec![KeyConfig::Legacy("sk-abcdefgh".into()), KeyConfig::Legacy("tiny".into())]);
    hub.report_failure("p", "tiny", 401);
    let snapshot = hub.snapshot();
    assert!(can_show(&snapshot));
    let now = now_seconds();
    let states = vec![health("p", "healthy", 2), health("q", "unhealthy", 0)];
    let counts = count_standings(&states, &snapshot, now);
    assert_eq!((counts.healthy, counts.degraded, counts.exhausted, counts.unhealthy), (0, 1, 0, 1));
    let shown = admin_status(
        &config,
        &states,
        &snapshot,
        now,
        &percents_of(&snapshot),
        "1.0",
        5,
        6,
        7,
    );
    assert_eq!(num(&shown, &["healthy_count"]), 1);
    assert_eq!(num(&shown, &["unhealthy_count"]), 1);
    assert_eq!(num(&shown, &["total_providers"]), 2);
    assert_eq!(text(&shown, &["providers", "0", "computed_status"]), "degraded");
    assert_eq!(num(&shown, &["providers", "0", "available_keys"]), 1);
    assert_eq!(text(&shown, &["providers", "0", "type"]), "Ollama");
    assert_eq!(text(&shown, &["providers", "0", "keys", "0", "key"]), "sk-a...efgh");
    assert_eq!(text(&shown, &["providers", "0", "keys", "1", "status"]), "disabled");
    assert_eq!(text(&shown, &["providers", "1", "type"]), "");
    assert!(at(&shown, &["providers", "1", "base_url"]).is_null());
    assert!(at(&shown, &["providers", "1", "keys"]).as_array().unwrap().is_empty());
    assert!(!json_text(&shown).contains("sk-abcdefgh"));
}

#[test]
fn all_keys_are_listed_in_full() {
    let mut hub = KeyHub::new(routing());
    let key = KeyConfig::Detailed {
        value: "sk-abcdefgh".into(),
        tier: KeyTier::Free,
        rpm_limit: Some(10),
        rpd_limit: None,
        tpm_limit: None,
        tpd_limit: None,
    };
    hub.register_provider("p", vec![key]);
    let snapshot = hub.snapshot();
    let shown = admin_keys(&snapshot, now_seconds(), &percents_of(&snapshot));
    assert_eq!(text(&shown, &["providers", "p", "0", "key"]), "sk-a...efgh");
    assert_eq!(num(&shown, &["providers", "p", "0", "rate_limits", "rpm", "limit"]), 10);
    assert_eq!(text(&shown, &["providers", "p", "0", "rate_limits", "rpm", "source"]), "config");
    assert!(at(&shown, &["providers", "p", "0", "rate_limits", "tpm", "limit"]).is_null());
    assert!(truth(&shown, &["providers", "p", "0", "rate_usage", "constrained"]));
    assert_eq!(text(&shown, &["providers", "p", "0", "tier"]), "free");
}

// ---------------------------------------------------------------- models

#[test]
fn capacities_add_up_over_the_keys_of_a_model() {
    let now = 86400 * 20_000 + 60 * 5 + 1;
    let mut ready = KeyState::with_tier_at("a".into(), KeyTier::Free, now);
    ready.models = vec!["m".into(), "n".into()];
    ready.rpm_limit = Some(10);
    ready.rpm_count = 4;
    let mut off = KeyState::with_tier_at("b".into(), KeyTier::Free, now);
    off.models = vec!["m".into()];
    off.rpm_limit = Some(7);
    off.status = KeyStatus::Disabled;
    let keys = vec![ready, off];
    let m = model_capacity(&keys, "m", now);
    assert_eq!((m.key_count, m.keys_healthy), (2, 1));
    assert_eq!(m.rpm.limit, Some(17));
    assert_eq!(m.rpm.effective, Some(10));
    assert_eq!(m.rpm.remaining, Some(6));
    assert!(!m.rpm.unconstrained);
    assert!(m.rpd.unconstrained);
    assert_eq!(m.rpd.limit, None);
    let snapshot = vec![("p".to_string(), keys)];
    let disabled = vec![("p".to_string(), vec!["n".to_string()])];
    let shown = admin_provider_models_get(&snapshot, &disabled, "p", now);
    assert_eq!(num(&shown, &["total"]), 2);
    assert_eq!(num(&shown, &["enabled_count"]), 1);
    assert_eq!(num(&shown, &["disabled_count"]), 1);
    assert_eq!(text(&shown, &["models", "0", "id"]), "m");
    assert!(truth(&shown, &["models", "0", "available"]));
    assert!(at(&shown, &["models", "0", "unavailable_reason"]).is_null());
    assert!(!truth(&shown, &["models", "1", "available"]));
    assert_eq!(text(&shown, &["models", "1", "unavailable_reason"]), "disabled");
    let nobody = admin_provider_models_get(&snapshot, &disabled, "q", now);
    assert_eq!(num(&nobody, &["total"]), 0);
}

#[test]
fn a_model_without_a_ready_key_is_unavailable() {
    let now = 600;
    let mut off = KeyState::with_tier_at("b".into(), KeyTier::Free, now);
    off.models = vec!["m".into()];
    off.status = KeyStatus::Cooldown;
    let shown =
        admin_provider_models_get(&vec![("p".to_string(), vec![off])], &Vec::new(), "p", now);
    assert_eq!(text(&shown, &["models", "0", "unavailable_reason"]), "no_available_key");
}

#[test]
fn switching_a_model_twice_restores_it() {
    let mut disabled: DisabledModels = vec![("q".to_string(), vec!["m".to_string()])];
    let (told, reply) = admin_provider_models_toggle(&mut disabled, "p", "m");
    assert!(model_disabled(&disabled, "p", "m"));
    assert!(model_disabled(&disabled, "q", "m"));
    assert!(!truth(&reply, &["enabled"]));
    assert_eq!(text(&told, &["type"]), "model_toggle");
    let (_, reply) = admin_provider_models_toggle(&mut disabled, "p", "m");
    assert!(!model_disabled(&disabled, "p", "m"));
    assert!(model_disabled(&disabled, "q", "m"));
    assert!(truth(&reply, &["enabled"]));
}

#[test]
fn a_key_is_restored_and_shown_masked() {
    let mut hub = KeyHub::new(routing());
    hub.register_provider("p", vec![KeyConfig::Legacy("sk-abcdefgh".into())]);
    hub.report_failure("p", "sk-abcdefgh", 401);
    let id = key_fingerprint("sk-abcdefgh");
    let (told, reply) = admin_provider_key_restore(&mut hub, "p", &id);
    assert_eq!(text(&told.unwrap(), &["data", "status"]), "available");
    assert_eq!(text(&reply, &["key", "key"]), "sk-a...efgh");
    assert_eq!(hub.key_status("p", "sk-abcdefgh"), Some(KeyStatus::Available));
    let (told, reply) = admin_provider_key_restore(&mut hub, "p", "key-x");
    assert!(told.is_none());
    assert_eq!(text(&reply, &["error"]), "Invalid request: Key id not found: key-x");
    let (_, reply) = admin_provider_key_restore(&mut hub, "q", "key-x");
    assert_eq!(text(&reply, &["error"]), "Provider not found: q");
}

// ---------------------------------------------------------------- refresh

fn begin(hub: &mut KeyHub) -> Refresh {
    admin_provider_refresh(&vec!["p".to_string()], hub, "p").unwrap()
}

#[test]
fn a_refresh_asks_every_key_and_settles_the_health() {
    let config = config();
    let mut hub = KeyHub::new(routing());
    hub.register_provider("p", vec![KeyConfig::Legacy("sk-abcdefgh".into()), KeyConfig::Legacy("tiny".into())]);
    hub.report_failure("p", "tiny", 401);
    let mut registry = HealthRegistry::new();
    registry.register("p", &config.providers[0].1);
    let mut refresh = begin(&mut hub);
    let mut asked = 0;
    while let Some(key) = refresh.next_key().map(|k| k.to_string()) {
        if !refresh.begin_probe(&mut hub) {
            continue;
        }
        asked += 1;
        if key == "tiny" {
            refresh.on_models(&mut hub, Some(Ok(vec!["m".into(), "n".into()])), 30);
        } else {
            refresh.on_models(&mut hub, Some(Ok(vec!["m".into()])), 10);
        }
    }
    assert_eq!(asked, 2);
    let (told, reply) = refresh.finish(&config, &mut hub, &mut registry);
    assert_eq!(text(&told, &["data", "status"]), "healthy");
    assert_eq!(num(&reply, &["models_found"]), 2);
    assert_eq!(num(&reply, &["health", "latency_ms"]), 20);
    assert_eq!(num(&reply, &["health", "total_keys"]), 2);
    // a disabled key that answers is enabled again
    assert_eq!(hub.key_status("p", "tiny"), Some(KeyStatus::Available));
}

#[test]
fn a_refresh_without_answers_remembers_the_last_error() {
    let config = config();
    let mut hub = KeyHub::new(routing());
    hub.register_provider("p", vec![KeyConfig::Legacy("sk-abcdefgh".into()), KeyConfig::Legacy("tiny".into())]);
    let mut registry = HealthRegistry::new();
    registry.register("p", &config.providers[0].1);
    let mut refresh = begin(&mut hub);
    assert!(refresh.begin_probe(&mut hub));
    refresh.on_models(
        &mut hub,
        Some(Err(GatewayError::http_error(500, "broken key=abc", None))),
        1,
    );
    assert_eq!(refresh.last_error, "HTTP error 500: broken key=abc");
    assert!(refresh.begin_probe(&mut hub));
    refresh.on_models(&mut hub, None, 1);
    assert!(refresh.next_key().is_none());
    let (told, reply) = refresh.finish(&config, &mut hub, &mut registry);
    assert_eq!(text(&told, &["data", "status"]), "unhealthy");
    assert_eq!(text(&reply, &["health", "last_error"]), "Model discovery timed out");
    let errors: Vec<String> =
        hub.snapshot()[0].1.iter().map(|k| k.models_last_error.clone()).collect();
    assert_eq!(errors, vec!["HTTP error 500: broken key=[REDACTED]", "Model discovery timed out"]);
}

#[test]
fn a_refresh_of_nobody_is_refused_or_finds_no_keys() {
    let config = config();
    let mut hub = KeyHub::new(routing());
    let refused = admin_provider_refresh(&Vec::new(), &mut hub, "p").unwrap_err();
    assert_eq!(text(&refused, &["error"]), "Provider 'p' not found");
    let mut registry = HealthRegistry::new();
    registry.register("p", &config.providers[0].1);
    let refresh = begin(&mut hub);
    let (_, reply) = refresh.finish(&config, &mut hub, &mut registry);
    assert_eq!(text(&reply, &["health", "last_error"]), "No configured keys");
    let mut nobody = HealthRegistry::new();
    let (_, reply) = refresh.finish(&config, &mut hub, &mut nobody);
    assert!(at(&reply, &["health"]).is_null());
}

// ---------------------------------------------------------------- reports

fn error(provider: &str, model: &str, category: &str, total: i64) -> ErrorSummaryRow {
    ErrorSummaryRow {
        provider: provider.into(),
        model_id: model.into(),
        category: category.into(),
        total,
    }
}

#[test]
fn statistics_sum_errors_by_category_and_model() {
    let stats = MetaStats {
        total_models: 4,
        with_context_window: 3,
        with_vision: 2,
        with_pricing: 1,
        synced_sources: 1,
        usage_records: 9,
        learned_rate_limits: 0,
    };
    let errors = vec![
        error("p", "a", "timeout", 3),
        error("p", "b", "rate_limited", 10),
        error("p", "a", "rate_limited", 4),
    ];
    let shown = admin_metadata_stats(&stats, &errors);
    assert_eq!(num(&shown, &["error_total"]), 17);
    assert_eq!(num(&shown, &["error_categories", "rate_limited"]), 14);
    assert_eq!(num(&shown, &["error_categories", "timeout"]), 3);
    assert_eq!(text(&shown, &["top_failing_models", "0", "model"]), "p/b");
    assert_eq!(num(&shown, &["top_failing_models", "1", "errors"]), 7);
    let many: Vec<ErrorSummaryRow> = (0..15)
        .map(|i| error("p", &format!("m{}", i), "timeout", i))
        .collect();
    let shown = admin_metadata_stats(&stats, &many);
    assert_eq!(at(&shown, &["top_failing_models"]).as_array().unwrap().len(), 10);
    assert_eq!(text(&shown, &["top_failing_models", "0", "model"]), "p/m14");
    let huge = vec![error("p", "a", "x", i64::MAX), error("p", "a", "x", 5)];
    assert_eq!(num(&admin_metadata_stats(&stats, &huge), &["error_total"]), i64::MAX);
}

fn usage(model: &str, requests: i64, reported: i64) -> UsageSummaryRow {
    UsageSummaryRow {
        provider: "p".into(),
        model_id: model.into(),
        total_requests: requests,
        total_prompt_tokens: 10,
        total_completion_tokens: 5,
        reported_prompt_tokens: 6,
        reported_completion_tokens: 3,
        estimated_prompt_tokens: 4,
        estimated_completion_tokens: 2,
        total_success: requests - 1,
        total_errors: 1,
        token_reported_requests: reported,
        last_used_at: Some(99),
    }
}

#[test]
fn usage_is_summed_up() {
    let rows = vec![usage("a", 4, 3), usage("b", 2, 0)];
    let totals = sum_usage(&rows);
    assert_eq!(totals.total_requests, 6);
    assert_eq!(totals.token_reported_requests, 3);
    let half = Some(Number::Float("0.5".into()));
    let shown =
        admin_metadata_usage(&rows, &vec![half.as_ref().map(|n| n.copy()), None], Json::Null, 7, &half);
    assert_eq!(num(&shown, &["total"]), 2);
    assert_eq!(num(&shown, &["usage", "0", "reported_tokens"]), 9);
    assert_eq!(num(&shown, &["usage", "0", "token_estimated_requests"]), 1);
    assert!(at(&shown, &["usage", "1", "token_reporting_coverage"]).is_null());
    assert_eq!(num(&shown, &["summary", "total_tokens"]), 30);
    assert_eq!(num(&shown, &["summary", "token_estimated_requests"]), 3);
    assert_eq!(num(&shown, &["summary", "window_days"]), 7);
    assert!(matches!(
        at(&shown, &["summary", "token_reporting_coverage"]),
        Json::Number(Number::Float(t)) if t == "0.5"
    ));
    let all = admin_metadata_usage(&Vec::new(), &Vec::new(), Json::Null, 0, &None);
    assert!(at(&all, &["summary", "window_days"]).is_null());
}

#[test]
fn queries_are_read_and_bounded() {
    let query = |name: &str, value: &str| vec![(name.to_string(), value.to_string())];
    let none = Vec::new();
    assert_eq!(usage_days(&none), 0);
    assert_eq!(usage_days(&query("days", "30")), 30);
    assert_eq!(usage_days(&query("days", "many")), 0);
    assert_eq!(daily_days(&none), 7);
    assert_eq!(daily_days(&query("days", "0")), 1);
    assert_eq!(daily_days(&query("days", "1000")), 366);
    assert_eq!(hourly_hours(&none), 24);
    assert_eq!(hourly_hours(&query("hours", "100000")), 8784);
    assert_eq!(hourly_hours(&query("hours", "-4")), 1);
    assert_eq!(task_days(&none, 14), 14);
    assert_eq!(attempts_limit(None), 100);
    assert_eq!(attempts_limit(Some(5000)), 1000);
    assert_eq!(analysis_limit(Some(5000)), 200);
    assert_eq!(analysis_limit(Some(-1)), 1);
}

#[test]
fn latencies_are_averaged() {
    assert_eq!(average_latency(10, 3), Some(3));
    assert_eq!(average_latency(10, 0), None);
    assert_eq!(average_latency(-10, 3), Some(-3));
    assert_eq!(average_latency(i64::MIN, 1), Some(i64::MIN));
    let row = TaskStatsRow {
        provider: "p".into(),
        model_id: "m".into(),
        agent: None,
        task_kind: "coding".into(),
        request_count: 4,
        success_count: 3,
        error_count: 1,
        total_latency_ms: 42,
        prompt_tokens: 1,
        completion_tokens: 2,
        last_used_at: None,
    };
    let rate = Some(Number::Float("0.75".into()));
    let shown = admin_metadata_tasks(&vec![row], &vec![rate], 14);
    assert_eq!(num(&shown, &["tasks", "0", "avg_latency_ms"]), 10);
    assert!(at(&shown, &["tasks", "0", "agent"]).is_null());
    assert_eq!(num(&shown, &["window_days"]), 14);
}

#[test]
fn rows_are_listed() {
    let mut row = ModelMetaRow::unheard("p", "m", 5);
    row.supports_vision = Some(true);
    let shown = admin_metadata_models(&vec![row]);
    assert_eq!(num(&shown, &["total"]), 1);
    assert!(truth(&shown, &["models", "0", "supports_vision"]));
    let seen = CapabilityObservationRow {
        provider: "p".into(),
        model_id: "m".into(),
        capability: "tools".into(),
        outcome: "success".into(),
        count: 3,
        last_observed_at: Some(4),
    };
    let shown = admin_metadata_capabilities(&vec![seen]);
    assert_eq!(text(&shown, &["capabilities", "0", "capability"]), "tools");
    let shown = admin_metadata_errors(&vec![error("p", "m", "timeout", 2)]);
    assert_eq!(num(&shown, &["errors", "0", "total"]), 2);
    let source = SyncStatusRow {
        source_name: "openrouter".into(),
        last_sync_at: 1,
        items_found: 2,
        items_updated: 3,
        error_message: Some("late".into()),
    };
    let shown = admin_metadata_sync_status(&vec![source]);
    assert_eq!(text(&shown, &["sources", "0", "error_message"]), "late");
}

// ---------------------------------------------------------------- analysis

fn attempt() -> RequestAttemptRow {
    RequestAttemptRow {
        id: 1,
        request_id: "r".into(),
        attempt_index: 1,
        provider: "p".into(),
        model_id: "m".into(),
        key_id: "key-a".into(),
        success: false,
        error_category: Some("timeout".into()),
        http_status: Some(504),
        error_message: None,
        cooldown_seconds: None,
        fallback: true,
        created_at: 9,
    }
}

#[test]
fn attempts_are_analyzed_with_and_without_a_model() {
    let attempts = vec![attempt()];
    let analysis = summarize_attempts_for_routing(&attempts);
    let shown = admin_metadata_attempts(&attempts, 100);
    assert_eq!(text(&shown, &["attempts", "0", "error_category"]), "timeout");
    assert_eq!(num(&shown, &["limit"]), 100);
    let alone =
        admin_metadata_attempts_analyze(&analysis, &attempts, 50, &ModelAnalysis::NotAsked);
    assert!(at(&alone, &["model_analysis"]).is_null());
    assert!(!truth(&alone, &["model_call_costs_quota"]));
    assert_eq!(num(&alone, &["analysis", "failed_attempts"]), 1);
    let body = parse_json(r#"{"choices":[{"message":{"content":"look at p"}}]}"#).unwrap();
    let asked = admin_metadata_attempts_analyze(
        &analysis,
        &attempts,
        50,
        &ModelAnalysis::Asked { model: "chat".into(), answer: Ok(body) },
    );
    assert_eq!(text(&asked, &["model_analysis"]), "look at p");
    assert!(truth(&asked, &["model_call_costs_quota"]));
    let failed = admin_metadata_attempts_analyze(
        &analysis,
        &attempts,
        50,
        &ModelAnalysis::Asked {
            model: "chat".into(),
            answer: Err(GatewayError::Timeout("late".into())),
        },
    );
    assert_eq!(text(&failed, &["model_error"]), "Timeout: late");
    assert!(at(&failed, &["model_analysis"]).is_null());
    let unread = unread_attempts(Some("locked"), &summarize_attempts_for_routing(&[]));
    assert_eq!(text(&unread, &["error"]), "locked");
    assert_eq!(num(&unread, &["total"]), 0);
    assert!(unread_attempts(None, &analysis).get("error").is_none());
}

#[test]
fn the_analysis_is_asked_for_under_a_fresh_identifier() {
    let query = AttemptAnalysisQuery { limit: None, use_model: true, model: None };
    let request = analysis_request(&query, &vec![attempt()], 100);
    assert_eq!(request.model, "chat");
    assert_eq!(request.max_tokens, Some(700));
    assert_eq!(request.agent_name.as_deref(), Some("admin"));
    assert!(matches!(&request.temperature, Some(Number::Float(t)) if t == "0.1"));
    let id = request.request_id.unwrap();
    assert!(id.starts_with("admin-log-analysis-"));
    assert_eq!(id.len(), "admin-log-analysis-".len() + 36);
    let again = analysis_request(&query, &vec![attempt()], 100);
    assert!(again.request_id.unwrap() != id);
    let named = AttemptAnalysisQuery { limit: None, use_model: true, model: Some("big".into()) };
    assert_eq!(analysis_request(&named, &Vec::new(), 1).model, "big");
}

#[test]
fn a_query_chooses_what_is_explained() {
    let query = |pairs: &[(&str, &str)]| -> Vec<(String, String)> {
        pairs.iter().map(|(a, b)| (a.to_string(), b.to_string())).collect()
    };
    assert!(matches!(diagnostics_scope(&Vec::new()), AdaptiveScope::Auto));
    assert!(matches!(
        diagnostics_scope(&query(&[("agent", "a"), ("group", "g"), ("provider", "p")])),
        AdaptiveScope::Provider(p) if p == "p"
    ));
    assert!(matches!(
        diagnostics_scope(&query(&[("agent", "a"), ("group", "g")])),
        AdaptiveScope::ProviderGroup(g) if g == "g"
    ));
    assert!(matches!(
        diagnostics_scope(&query(&[("agent", "a")])),
        AdaptiveScope::Agent(a) if a == "a"
    ));
    let plain = diagnostics_request(&Vec::new());
    assert_eq!(plain.model, "auto");
    assert_eq!(plain.messages[0].content.as_str(), Some("diagnose adaptive route"));
    let asked = diagnostics_request(&query(&[("model", "x"), ("q", "why"), ("agent", "a")]));
    assert_eq!(asked.model, "x");
    assert_eq!(asked.messages[0].content.as_str(), Some("why"));
    assert_eq!(asked.agent_name.as_deref(), Some("a"));
}

#[test]
fn events_have_a_kind_data_and_a_time() {
    let told = event("kind", Json::string("d"), 5);
    assert_eq!(json_text(&told), r#"{"data":"d","timestamp":5,"type":"kind"}"#);
}
