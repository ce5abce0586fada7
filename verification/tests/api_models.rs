use free_agent_gateway::api::models::{
    enrich_model_metadata, merge_model_families, merged_visible_models, model_disabled,
    model_families_json, model_family_id, visible_models,
};
use free_agent_gateway::config::{
    AdaptiveRoutingConfig, Config, CorsConfig, KeyConfig, KeyTier, ModelAlias, ProviderConfig,
    ProviderType, RoutingConfig, RoutingStrategy, ServerConfig, StateConfig, WatcherConfig,
};
use free_agent_gateway::json::{Json, Number};
use free_agent_gateway::keyhub::KeyHub;
use free_agent_gateway::metadata::rows::ModelMetaRow;
use free_agent_gateway::models::ModelInfo;

fn routing() -> RoutingConfig {
    RoutingConfig {
        strategy: RoutingStrategy::LeastFailed,
        fail_threshold: 3,
        cooldown_seconds: 60,
        auto_discover: true,
    }
}

fn config(
    fallback: Vec<String>,
    models: Vec<(String, ModelAlias)>,
    providers: Vec<(String, ProviderConfig)>,
) -> Config {
    Config {
        server: ServerConfig {
            host: "127.0.0.1".into(),
            port: 9000,
            log_level: "info".into(),
            request_timeout: 30,
            sse_keepalive: 15,
        },
        routing: routing(),
        fallback,
        agents: Vec::new(),
        models,
        providers,
        watcher: WatcherConfig::default(),
        state: StateConfig::default(),
        cors: CorsConfig::default(),
        adaptive_routing: AdaptiveRoutingConfig {
            enabled: false,
            allow_paid: false,
            candidate_limit: 5,
            learning_window_days: 7,
            auto_models: Vec::new(),
            agent_profiles: Vec::new(),
            routing_groups: Vec::new(),
        },
    }
}

fn provider(base_url: &str, keys: Vec<KeyConfig>) -> ProviderConfig {
    ProviderConfig {
        provider_type: ProviderType::OpenaiCompatible,
        enabled: true,
        base_url: base_url.into(),
        proxy_url: None,
        keys,
        health_check_model: String::new(),
        timeout_seconds: 5,
        priority: 0,
    }
}

fn alias(provider: &str, model: &str) -> ModelAlias {
    ModelAlias { provider: provider.into(), model: model.into() }
}

fn zero() -> Option<Number> {
    Some(Number::Float("0.0".into()))
}

fn text_at<'a>(value: &'a Json, list: &str, i: usize) -> &'a str {
    value.get(list).unwrap().item(i).unwrap().as_str().unwrap()
}

fn count(value: &Json, name: &str) -> u64 {
    value.get(name).unwrap().as_u64().unwrap()
}

fn shared_keys() -> Vec<KeyConfig> {
    vec![
        KeyConfig::detailed("free", KeyTier::Free),
        KeyConfig::detailed("paid", KeyTier::Paid),
        KeyConfig::Legacy("unknown".into()),
    ]
}

#[test]
fn visible_models_exclude_paid_and_unknown_only_models() {
    let config = config(
        vec!["shared".into()],
        vec![
            ("free-alias".into(), alias("", "free-model")),
            ("paid-alias".into(), alias("", "paid-model")),
        ],
        vec![("shared".into(), provider("http://example", shared_keys()))],
    );
    let mut keyhub = KeyHub::new(routing());
    keyhub.register_provider("shared", shared_keys());
    keyhub.update_models("shared", "free", vec!["free-model".into()]);
    keyhub.update_models("shared", "paid", vec!["paid-model".into()]);
    keyhub.update_models("shared", "unknown", vec!["unknown-model".into()]);

    let disabled = Vec::new();
    let ids: Vec<String> = visible_models(&config, &mut keyhub, &disabled, 1)
        .into_iter()
        .map(|model| model.id)
        .collect();

    assert_eq!(ids, vec!["free-alias", "free-model"]);
}

#[test]
fn visible_models_respect_alias_provider() {
    let config = config(
        vec!["first".into(), "second".into()],
        vec![("second-alias".into(), alias("second", "same-model"))],
        vec![
            (
                "first".into(),
                provider(
                    "http://first.example",
                    vec![KeyConfig::detailed("first-key", KeyTier::Free)],
                ),
            ),
            (
                "second".into(),
                provider(
                    "http://second.example",
                    vec![KeyConfig::detailed("second-key", KeyTier::Free)],
                ),
            ),
        ],
    );
    let mut keyhub = KeyHub::new(routing());
    keyhub.register_provider("first", vec![KeyConfig::detailed("first-key", KeyTier::Free)]);
    keyhub.register_provider("second", vec![KeyConfig::detailed("second-key", KeyTier::Free)]);
    keyhub.update_models("first", "first-key", vec!["same-model".into()]);
    keyhub.update_models("second", "second-key", vec!["same-model".into()]);

    let disabled = Vec::new();
    let alias = visible_models(&config, &mut keyhub, &disabled, 1)
        .into_iter()
        .find(|model| model.id == "second-alias")
        .expect("alias should be visible");

    assert_eq!(alias.owned_by, "second");
    assert_eq!(alias.provider.as_deref(), Some("second"));
}

#[test]
fn model_families_group_openrouter_suffix_without_collapsing_variants() {
    let models = vec![
        ModelInfo {
            id: "nvidia/nemotron-3-super-120b-a12b".into(),
            object: "model".into(),
            created: 1,
            owned_by: "nvidia".into(),
            provider: Some("nvidia".into()),
            context_window: None,
            supports_vision: None,
            supports_tools: None,
            supports_reasoning: None,
            pricing_prompt: None,
            pricing_completion: None,
        },
        ModelInfo {
            id: "nvidia/nemotron-3-super-120b-a12b:free".into(),
            object: "model".into(),
            created: 1,
            owned_by: "openrouter".into(),
            provider: Some("openrouter".into()),
            context_window: Some(1_000_000),
            supports_vision: Some(false),
            supports_tools: Some(true),
            supports_reasoning: Some(true),
            pricing_prompt: zero(),
            pricing_completion: zero(),
        },
    ];

    let grouped = model_families_json(&models);
    let summary = grouped.get("summary").unwrap();
    assert_eq!(count(summary, "total_models"), 2);
    assert_eq!(count(summary, "total_families"), 1);
    assert_eq!(count(summary, "cross_provider_families"), 1);
    let family = grouped.get("families").unwrap().item(0).unwrap();
    assert_eq!(
        family.get("id").unwrap().as_str(),
        Some("nvidia/nemotron-3-super-120b-a12b")
    );
    assert_eq!(count(family, "variant_count"), 2);
    assert_eq!(count(family, "provider_count"), 2);
    assert_eq!(text_at(family, "tiers", 0), "default");
    assert_eq!(text_at(family, "tiers", 1), "free");
    assert_eq!(
        family.get("variants").unwrap().item(1).unwrap().get("id").unwrap().as_str(),
        Some("nvidia/nemotron-3-super-120b-a12b:free")
    );
}

#[test]
fn merge_model_families_collapses_pricing_suffixes_for_model_list() {
    let models = vec![
        ModelInfo {
            id: "nvidia/nemotron-3-super-120b-a12b:free".into(),
            object: "model".into(),
            created: 1,
            owned_by: "openrouter".into(),
            provider: Some("openrouter".into()),
            context_window: Some(1_000_000),
            supports_vision: None,
            supports_tools: Some(true),
            supports_reasoning: Some(true),
            pricing_prompt: zero(),
            pricing_completion: zero(),
        },
        ModelInfo {
            id: "nvidia/nemotron-3-super-120b-a12b".into(),
            object: "model".into(),
            created: 1,
            owned_by: "nvidia".into(),
            provider: Some("nvidia".into()),
            context_window: None,
            supports_vision: None,
            supports_tools: None,
            supports_reasoning: None,
            pricing_prompt: None,
            pricing_completion: None,
        },
    ];

    let merged = merge_model_families(&models);

    assert_eq!(merged.len(), 1);
    assert_eq!(merged[0].id, "nvidia/nemotron-3-super-120b-a12b");
    assert_eq!(merged[0].provider.as_deref(), Some("nvidia"));
}

#[test]
fn model_family_id_only_strips_openrouter_pricing_suffixes() {
    assert_eq!(
        model_family_id("qwen/qwen3-next-80b-a3b-instruct:free"),
        (
            "qwen/qwen3-next-80b-a3b-instruct".to_string(),
            "free".to_string()
        )
    );
    assert_eq!(
        model_family_id("deepseek-v4-flash-free"),
        ("deepseek-v4-flash-free".to_string(), "default".to_string())
    );
}

#[test]
fn listing_models_uses_what_is_known_and_hides_what_is_off() {
    let keys = || vec![KeyConfig::detailed("cached-key", KeyTier::Free)];
    let config = config(
        vec!["cached".into()],
        Vec::new(),
        vec![("cached".into(), provider("http://cached", keys()))],
    );
    let mut keyhub = KeyHub::new(routing());
    keyhub.register_provider("cached", keys());
    keyhub.update_models("cached", "cached-key", vec!["cached-model".into()]);
    let shown = merged_visible_models(&config, &mut keyhub, &Vec::new(), 16);
    assert_eq!(shown.len(), 1);
    assert_eq!(shown[0].id, "cached-model");
    assert_eq!(shown[0].created, 16);
    let off = vec![("cached".to_string(), vec!["cached-model".to_string()])];
    assert!(model_disabled(&off, "cached", "cached-model"));
    assert!(!model_disabled(&off, "other", "cached-model"));
    assert!(merged_visible_models(&config, &mut keyhub, &off, 16).is_empty());
}

#[test]
fn known_facts_are_added_to_models() {
    let models = vec![ModelInfo {
        id: "m".into(),
        object: "model".into(),
        created: 1,
        owned_by: "p".into(),
        provider: Some("p".into()),
        context_window: None,
        supports_vision: None,
        supports_tools: None,
        supports_reasoning: None,
        pricing_prompt: None,
        pricing_completion: None,
    }];
    let mut row = ModelMetaRow::unheard("p", "m", 5);
    row.context_window = Some(4096);
    row.supports_tools = Some(true);
    let known = enrich_model_metadata(&models, &vec![row]);
    assert_eq!(known[0].context_window, Some(4096));
    assert_eq!(known[0].supports_tools, Some(true));
    assert_eq!(known[0].supports_vision, None);
}
