use free_agent_gateway::adaptive::chat::{
    chat_failed, chat_succeeded, plan_chat, status_for_adaptive_error,
};
use free_agent_gateway::adaptive::observations::required_capabilities;
use free_agent_gateway::adaptive::profile::{build_task_profile, task_kind_name, TaskKind};
use free_agent_gateway::adaptive::routing::{
    concrete_requested_model, constraints_for_scope, is_reserved_provider_prefix, scope_label,
    scoped_models, select_model, AdaptiveScope, ModelFacts,
};
use free_agent_gateway::adaptive::scoring::{
    name_suggests_coding, score_breakdown, score_candidates, AdaptiveCandidate, CandidateTier,
    RouteConstraints,
};
use free_agent_gateway::adaptive::summary::{
    routing_diagnostics, routing_groups_summary, routing_routes_summary,
};
use free_agent_gateway::api::admin::validation::user_request;
use free_agent_gateway::config::{
    AdaptiveRoutingConfig, AgentProfileConfig, AutoModelConfig, Config, CorsConfig, KeyConfig,
    KeyTier, ProviderConfig, ProviderType, RoutingConfig, RoutingGroupConfig, RoutingStrategy,
    ServerConfig, StateConfig, WatcherConfig,
};
use free_agent_gateway::error::GatewayError;
use free_agent_gateway::json::Json;
use free_agent_gateway::json_text::parse_json;
use free_agent_gateway::keyhub::KeyHub;
use free_agent_gateway::keystate::KeyStatus;

fn routing() -> RoutingConfig {
    RoutingConfig {
        strategy: RoutingStrategy::LeastFailed,
        fail_threshold: 3,
        cooldown_seconds: 60,
        auto_discover: true,
    }
}

fn provider(priority: u32) -> ProviderConfig {
    ProviderConfig {
        provider_type: ProviderType::OpenaiCompatible,
        enabled: true,
        base_url: "http://example".into(),
        proxy_url: None,
        keys: vec![KeyConfig::detailed("k", KeyTier::Free)],
        health_check_model: String::new(),
        timeout_seconds: 5,
        priority,
    }
}

fn config() -> Config {
    Config {
        server: ServerConfig {
            host: "127.0.0.1".into(),
            port: 9000,
            log_level: "info".into(),
            request_timeout: 30,
            sse_keepalive: 15,
        },
        routing: routing(),
        fallback: vec!["p".into()],
        agents: Vec::new(),
        models: Vec::new(),
        providers: vec![("p".into(), provider(0)), ("q".into(), provider(0))],
        watcher: WatcherConfig::default(),
        state: StateConfig::default(),
        cors: CorsConfig::default(),
        adaptive_routing: AdaptiveRoutingConfig {
            enabled: true,
            allow_paid: false,
            candidate_limit: 5,
            learning_window_days: 7,
            auto_models: vec![("auto-code".into(), AutoModelConfig { task: "coding".into() })],
            agent_profiles: vec![(
                "coder".into(),
                AgentProfileConfig {
                    provider_groups: vec!["g".into()],
                    default_auto_model: "auto-code".into(),
                },
            )],
            routing_groups: vec![("g".into(), RoutingGroupConfig { providers: vec!["q".into()] })],
        },
    }
}

// short keys are hidden whole in a snapshot, so that a hub of them cannot be
// told apart by its keys
fn hub() -> KeyHub {
    let mut hub = KeyHub::new(routing());
    hub.register_provider("p", vec![KeyConfig::detailed("****", KeyTier::Free)]);
    hub.register_provider("q", vec![KeyConfig::detailed("****", KeyTier::Free)]);
    hub.update_models("p", "****", vec!["plain".into()]);
    hub.update_models("q", "****", vec!["qwen-coder".into()]);
    hub
}

fn candidate(provider: &str, model: &str) -> AdaptiveCandidate {
    AdaptiveCandidate {
        provider: provider.into(),
        model: model.into(),
        api_key: None,
        tier: CandidateTier::Free,
        supports_vision: None,
        supports_tools: None,
        supports_reasoning: None,
        context_window: None,
        recent_successes: 0,
        recent_errors: 0,
        recent_429s: 0,
        recent_timeouts: 0,
        quota_headroom: 50,
        provider_priority: 0,
        prompt_is_free: None,
    }
}

#[test]
fn tasks_are_recognized_by_their_words() {
    let coding = build_task_profile(None, &user_request("m", "please fix main.rs, PANIC!"), None);
    assert!(coding.needs_coding);
    assert!(coding.needs_reasoning);
    assert!(coding.task_kinds.contains(&TaskKind::Coding));
    let plain = build_task_profile(None, &user_request("m", "hello"), None);
    assert!(!plain.needs_coding);
    assert_eq!(plain.task_kinds, vec![TaskKind::Balanced]);
    assert_eq!(plain.estimated_prompt_tokens, 1);
    let routed = build_task_profile(None, &user_request("m", "hello"), Some("coding"));
    assert!(routed.needs_coding);
    let by_agent = build_task_profile(Some("My-Coding-Agent"), &user_request("m", "hello"), None);
    assert!(by_agent.needs_coding);
    let long = build_task_profile(None, &user_request("m", &"x ".repeat(20_000)), None);
    assert!(long.needs_long_context);
    assert_eq!(task_kind_name(&TaskKind::LongContext), "longcontext");
    assert!(required_capabilities(&coding).len() > 0);
}

#[test]
fn candidates_are_ranked_by_what_they_can_do() {
    let profile = build_task_profile(None, &user_request("m", "fix main.rs"), None);
    let mut coder = candidate("b", "Some-CODER");
    coder.supports_reasoning = Some(true);
    let plain = candidate("a", "plain");
    let mut paid = candidate("c", "coder");
    paid.tier = CandidateTier::Paid;
    let free_only = RouteConstraints { provider: None, provider_group: None, allow_paid: false };
    let ranked = score_candidates(
        &profile,
        &vec![plain.copy(), paid.copy(), coder.copy()],
        &free_only,
    );
    assert_eq!(ranked.len(), 2);
    assert_eq!(ranked[0].candidate.model, "Some-CODER");
    assert!(ranked[0].score > ranked[1].score);
    assert_eq!(ranked[0].score, ranked[0].breakdown.total());
    // 20 to begin with, 20 for reasoning, 12 for its name
    assert_eq!(ranked[0].breakdown.capability_match, 52);
    let only_a = RouteConstraints {
        provider: Some("a".into()),
        provider_group: None,
        allow_paid: true,
    };
    let ranked = score_candidates(&profile, &vec![plain, paid, coder], &only_a);
    assert_eq!(ranked.len(), 1);
    assert!(name_suggests_coding("qwen3-big"));
    assert!(!name_suggests_coding("Coder"));
}

#[test]
fn equal_scores_are_ranked_by_name() {
    let profile = build_task_profile(None, &user_request("m", "hello"), None);
    let all = RouteConstraints { provider: None, provider_group: None, allow_paid: true };
    let ranked = score_candidates(
        &profile,
        &vec![candidate("b", "m"), candidate("a", "n"), candidate("a", "m")],
        &all,
    );
    let names: Vec<(&str, &str)> = ranked
        .iter()
        .map(|s| (s.candidate.provider.as_str(), s.candidate.model.as_str()))
        .collect();
    assert_eq!(names, vec![("a", "m"), ("a", "n"), ("b", "m")]);
}

#[test]
fn a_model_is_selected_in_its_scope() {
    let config = config();
    let mut hub = hub();
    let none = Vec::new();
    let facts: Vec<ModelFacts> = Vec::new();
    let code = user_request("auto-code", "write something");
    let picked =
        select_model(&config, &mut hub, &none, &facts, &AdaptiveScope::Auto, &code).unwrap();
    assert_eq!(picked.model, "qwen-coder");
    let only_p = AdaptiveScope::Provider("p".into());
    let picked = select_model(&config, &mut hub, &none, &facts, &only_p, &code).unwrap();
    assert_eq!(picked.model, "plain");
    let agent = AdaptiveScope::Agent("coder".into());
    let picked = select_model(&config, &mut hub, &none, &facts, &agent, &code).unwrap();
    assert_eq!(picked.provider, "q");
    let off = vec![("q".to_string(), vec!["qwen-coder".to_string()])];
    assert!(select_model(&config, &mut hub, &off, &facts, &agent, &code).is_err());
    let missing = AdaptiveScope::ProviderGroup("none".into());
    assert!(select_model(&config, &mut hub, &none, &facts, &missing, &code).is_err());
    let exact = user_request("plain", "write something");
    let picked =
        select_model(&config, &mut hub, &none, &facts, &AdaptiveScope::Auto, &exact).unwrap();
    assert_eq!(picked.model, "plain");
}

#[test]
fn a_plan_reserves_the_key_it_names() {
    let config = config();
    let mut hub = hub();
    let none = Vec::new();
    let facts = Vec::new();
    let registered = vec!["p".to_string(), "q".to_string()];
    let plan = plan_chat(
        &config,
        &mut hub,
        &registered,
        &none,
        &facts,
        &AdaptiveScope::Agent("coder".into()),
        user_request("auto-code", "hello"),
    )
    .unwrap();
    assert_eq!(plan.request.model, "qwen-coder");
    assert_eq!(plan.request.stream, Some(false));
    assert_eq!(plan.request.agent_name.as_deref(), Some("coder"));
    let body = parse_json(r#"{"usage":{"prompt_tokens":3,"completion_tokens":4}}"#).unwrap();
    let scope = AdaptiveScope::Agent("coder".into());
    let records = chat_succeeded(&mut hub, &plan, &scope, &body);
    assert!(records.success);
    assert_eq!(records.prompt_tokens, Some(3));
    assert_eq!(records.agent.as_deref(), Some("coder"));
    let records = chat_failed(
        &mut hub,
        &plan,
        &scope,
        &GatewayError::http_error(401, "invalid api key", None),
    );
    assert!(!records.success);
    assert_eq!(hub.key_status("q", "****"), Some(KeyStatus::Disabled));
}

#[test]
fn plans_are_refused() {
    let mut config = config();
    let mut hub = hub();
    let none = Vec::new();
    let facts = Vec::new();
    let registered = vec!["p".to_string(), "q".to_string()];
    let mut stream = user_request("auto-code", "hello");
    stream.stream = Some(true);
    let refused = plan_chat(
        &config,
        &mut hub,
        &registered,
        &none,
        &facts,
        &AdaptiveScope::Auto,
        stream,
    );
    assert!(matches!(refused, Err(GatewayError::InvalidRequest(m)) if m.contains("streaming")));
    let unregistered = plan_chat(
        &config,
        &mut hub,
        &Vec::new(),
        &none,
        &facts,
        &AdaptiveScope::Auto,
        user_request("auto-code", "hello"),
    );
    assert!(matches!(unregistered, Err(GatewayError::ProviderNotFound(_))));
    config.adaptive_routing.enabled = false;
    let disabled = plan_chat(
        &config,
        &mut hub,
        &registered,
        &none,
        &facts,
        &AdaptiveScope::Auto,
        user_request("auto-code", "hello"),
    );
    assert!(matches!(
        disabled,
        Err(GatewayError::InvalidRequest(m)) if m == "adaptive routing is disabled in config"
    ));
}

#[test]
fn routing_is_explained() {
    let config = config();
    let mut hub = hub();
    let snapshot = hub.snapshot();
    let now = chrono::Utc::now().timestamp() as u64;
    let told = routing_diagnostics(
        &config,
        &snapshot,
        &Vec::new(),
        &Vec::new(),
        now,
        &AdaptiveScope::Auto,
        &user_request("auto-code", "hello"),
    )
    .unwrap();
    assert!(told.adaptive_enabled);
    assert_eq!(told.candidates.len(), 2);
    assert!(told.candidates[0].selected);
    assert!(!told.candidates[1].selected);
    assert_eq!(told.candidates[0].model, "qwen-coder");
    let groups = routing_groups_summary(&config, &snapshot, &Vec::new(), now);
    assert_eq!(groups.len(), 1);
    assert_eq!(groups[0].name, "g");
    assert_eq!(groups[0].provider_names, vec!["q"]);
    assert_eq!(groups[0].agents, vec!["coder"]);
    let routes = routing_routes_summary(&config, &groups);
    assert_eq!(routes[0].route_prefix, "/auto/v1");
    assert!(routes.iter().any(|r| r.name == "coder"));
    let models =
        scoped_models(&config, &snapshot, &Vec::new(), &AdaptiveScope::Provider("q".into()), 5, now)
            .unwrap();
    assert!(models.iter().any(|m| m.id == "qwen-coder"));
    assert!(!models.iter().any(|m| m.id == "plain"));
}

#[test]
fn prefixes_of_the_gateway_are_reserved() {
    assert!(is_reserved_provider_prefix("V1"));
    assert!(is_reserved_provider_prefix("metrics"));
    assert!(!is_reserved_provider_prefix("openrouter"));
}

#[test]
fn scopes_have_labels_and_constraints() {
    let config = config();
    assert_eq!(scope_label(&AdaptiveScope::Auto), "auto");
    let group = constraints_for_scope(&config, &AdaptiveScope::ProviderGroup("g".into())).unwrap();
    assert_eq!(group.provider_group, Some(vec!["q".to_string()]));
    assert!(!group.allow_paid);
    let one = constraints_for_scope(&config, &AdaptiveScope::Provider("p".into())).unwrap();
    assert_eq!(one.provider.as_deref(), Some("p"));
    let agent = constraints_for_scope(&config, &AdaptiveScope::Agent("coder".into())).unwrap();
    assert_eq!(agent.provider_group, Some(vec!["q".to_string()]));
    let unknown = constraints_for_scope(&config, &AdaptiveScope::Agent("x".into())).unwrap();
    assert_eq!(unknown.provider_group, None);
    let missing = constraints_for_scope(&config, &AdaptiveScope::ProviderGroup("x".into()));
    assert!(matches!(missing, Err(GatewayError::InvalidRequest(_))));
    assert_eq!(concrete_requested_model(&config, "auto-code"), None);
    assert_eq!(concrete_requested_model(&config, "real-model").as_deref(), Some("real-model"));
}

#[test]
fn what_a_request_needs_is_seen_in_it() {
    let mut request = user_request("m", "hello");
    request.extra.push(("tools".to_string(), Json::Null));
    assert!(build_task_profile(None, &request, None).needs_tools);
    let mut picture = user_request("m", "hello");
    picture.messages[0].content =
        parse_json(r#"[{"type":"image_url","image_url":{"url":"x"}}]"#).unwrap();
    assert!(build_task_profile(None, &picture, None).needs_vision);
}

#[test]
fn errors_are_answered_with_a_status() {
    assert_eq!(status_for_adaptive_error(&GatewayError::RateLimited), 429);
    assert_eq!(status_for_adaptive_error(&GatewayError::http_error(404, "gone", None)), 404);
    assert_eq!(status_for_adaptive_error(&GatewayError::http_error(7, "odd", None)), 502);
    assert_eq!(status_for_adaptive_error(&GatewayError::http_error(1000, "odd", None)), 502);
}

#[test]
fn scores_are_computed_in_whole_numbers() {
    let profile = build_task_profile(None, &user_request("m", "hello"), None);
    let mut c = candidate("p", "m");
    c.recent_successes = 2;
    c.recent_errors = 5;
    c.recent_429s = 1;
    let parts = score_breakdown(&profile, &c, "m");
    assert_eq!(parts.reliability, 4);
    assert_eq!(parts.penalty, 15);
    assert_eq!(parts.quota, 5);
    assert_eq!(parts.total(), 20 + 4 + 5 + 5 + 3 - 15);
    c.recent_successes = -1;
    c.recent_errors = 3;
    assert_eq!(score_breakdown(&profile, &c, "m").reliability, -7);
    c.recent_errors = 1 << 32;
    c.recent_429s = 0;
    assert_eq!(score_breakdown(&profile, &c, "m").penalty, 0);
    c.recent_errors = 1 << 31;
    assert_eq!(score_breakdown(&profile, &c, "m").penalty, i32::MIN);
}
