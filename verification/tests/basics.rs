use free_agent_gateway::api::status::{
    health, key_state_to_json, metrics, metrics_prometheus, provider_type_debug, providers,
    status, strategy_debug,
};
use free_agent_gateway::clock::{seconds_until, Moment};
use free_agent_gateway::config::{
    default_host, default_port, expand_reference, next_reference, AdaptiveRoutingConfig, Config,
    CorsConfig, KeyConfig, KeyTier, ProviderConfig, ProviderType, RoutingConfig, RoutingStrategy,
    ServerConfig, StateConfig, WatcherConfig,
};
use free_agent_gateway::health::HealthRegistry;
use free_agent_gateway::json::{Json, Number, ObjectBuilder};
use free_agent_gateway::json_text::{from_value, json_text, parse_json, read_json, to_value};
use free_agent_gateway::keyhub::KeyHub;
use free_agent_gateway::keystate::{can_mask, mask_text};
use free_agent_gateway::lists::{distinct_strings, lookup, put_named};
use free_agent_gateway::sanitize::sanitize_diagnostic;
use free_agent_gateway::sorting::{dedup_strings, sort_and_dedup, sort_and_dedup_pairs, sort_strings};
use free_agent_gateway::text::{
    blank, comes_before, contains, find_from, i64_text, join, parse_i64, parse_u32, parse_u64,
    same_ignoring_case, split_words, strip_prefix, strip_suffix, to_chars, to_lower, trim,
    u64_text,
};

fn routing() -> RoutingConfig {
    RoutingConfig {
        strategy: RoutingStrategy::LeastFailed,
        fail_threshold: 3,
        cooldown_seconds: 60,
        auto_discover: true,
    }
}

fn provider(provider_type: ProviderType) -> ProviderConfig {
    ProviderConfig {
        provider_type,
        enabled: true,
        base_url: "http://example".into(),
        proxy_url: None,
        keys: vec![KeyConfig::legacy("secret-key-value")],
        health_check_model: String::new(),
        timeout_seconds: 5,
        priority: 4,
    }
}

fn config() -> Config {
    Config {
        server: ServerConfig {
            host: default_host(),
            port: default_port(),
            log_level: "info".into(),
            request_timeout: 30,
            sse_keepalive: 15,
        },
        routing: routing(),
        fallback: vec!["a".into()],
        agents: Vec::new(),
        models: Vec::new(),
        providers: vec![("a".into(), provider(ProviderType::Nvidia))],
        watcher: WatcherConfig::default(),
        state: StateConfig::default(),
        cors: CorsConfig::default(),
        adaptive_routing: AdaptiveRoutingConfig {
            enabled: false,
            allow_paid: false,
            candidate_limit: 5,
            learning_window_days: 7,
            auto_models: Vec::new(),
            agent_profiles: Vec::new(),
            routing_groups: Vec::new(),
        },
    }
}

fn texts(list: &[&str]) -> Vec<String> {
    list.iter().map(|s| s.to_string()).collect()
}

#[test]
fn texts_are_searched_and_cut() {
    assert!(contains("abcabc", "cab"));
    assert!(!contains("abc", "abcd"));
    assert_eq!(find_from(&to_chars("abcabc"), &to_chars("bc"), 2), Some(4));
    assert_eq!(strip_prefix("models/x", "models/").as_deref(), Some("x"));
    assert_eq!(strip_suffix("x:free", ":free").as_deref(), Some("x"));
    assert_eq!(strip_suffix("x", ":free"), None);
    assert_eq!(trim(" \u{3000}a b\t"), "a b");
    assert!(blank(" \n\u{a0}"));
    assert_eq!(to_lower("ÄBC"), "Äbc");
    assert!(same_ignoring_case("Ab", "aB"));
    assert_eq!(split_words(" a  b\tc "), texts(&["a", "b", "c"]));
    assert_eq!(join(&texts(&["a", "b"]), ", "), "a, b");
    assert!(comes_before("a", "ab"));
    assert!(comes_before("Z", "a"));
    assert!(!comes_before("a", "a"));
}

#[test]
fn numbers_are_read_and_written() {
    assert_eq!(u64_text(u64::MAX), u64::MAX.to_string());
    assert_eq!(i64_text(i64::MIN), i64::MIN.to_string());
    assert_eq!(u64_text(0), "0");
    for text in ["0", "+7", "18446744073709551615", "18446744073709551616", "", "-1", "1a", " 1"] {
        assert_eq!(parse_u64(text), text.parse::<u64>().ok(), "{}", text);
        assert_eq!(parse_i64(text), text.parse::<i64>().ok(), "{}", text);
        assert_eq!(parse_u32(text), text.parse::<u32>().ok(), "{}", text);
    }
    assert_eq!(parse_i64("-9223372036854775808"), Some(i64::MIN));
    assert_eq!(parse_i64("-9223372036854775809"), None);
}

#[test]
fn lists_are_sorted_and_thinned() {
    assert_eq!(sort_strings(texts(&["b", "a", "b", "A"])), texts(&["A", "a", "b", "b"]));
    assert_eq!(dedup_strings(texts(&["b", "b", "a", "b"])), texts(&["b", "a", "b"]));
    assert_eq!(sort_and_dedup(texts(&["b", "a", "b"])), texts(&["a", "b"]));
    assert_eq!(distinct_strings(&texts(&["b", "a", "b"])), texts(&["b", "a"]));
    let pair = |a: &str, b: &str| (a.to_string(), b.to_string());
    assert_eq!(
        sort_and_dedup_pairs(vec![pair("b", "1"), pair("a", "2"), pair("a", "1"), pair("b", "1")]),
        vec![pair("a", "1"), pair("a", "2"), pair("b", "1")]
    );
    let mut named: Vec<(String, u32)> = Vec::new();
    put_named(&mut named, "x", 1);
    put_named(&mut named, "y", 2);
    put_named(&mut named, "x", 3);
    assert_eq!(lookup(&named, "x"), Some(&3));
    assert_eq!(named.len(), 2);
    assert_eq!(lookup(&named, "z"), None);
}

#[test]
fn json_is_read_and_written() {
    let read = parse_json(r#"{"b":[1,-2,1.5,"x",null,true],"a":{}}"#).unwrap();
    let list = read.get("b").unwrap();
    assert_eq!(list.item(0).unwrap().as_u64(), Some(1));
    assert_eq!(list.item(1).unwrap().as_i64(), Some(-2));
    assert_eq!(list.item(1).unwrap().as_u64(), None);
    assert_eq!(list.item(2).unwrap().as_u64(), None);
    assert!(matches!(list.item(2), Some(Json::Number(Number::Float(t))) if t == "1.5"));
    assert!(list.item(4).unwrap().is_null());
    assert_eq!(list.item(5).unwrap().as_bool(), Some(true));
    assert!(list.item(6).is_none());
    assert_eq!(json_text(&read), r#"{"a":{},"b":[1,-2,1.5,"x",null,true]}"#);
    assert!(parse_json("{").is_none());
    assert!(read_json("{").unwrap_err().contains("EOF"));
    let value: serde_json::Value = serde_json::from_str(r#"{"x":[1.25,"y"]}"#).unwrap();
    assert_eq!(to_value(&from_value(value.clone())), value);
    let mut object = ObjectBuilder::new();
    object.put_text("k", "v");
    object.put_opt_num("n", None);
    assert_eq!(json_text(&object.done()), r#"{"k":"v","n":null}"#);
}

#[test]
fn references_to_variables_are_found() {
    let found = next_reference("a${B}c${D}").unwrap();
    assert_eq!(found.before, "a");
    assert_eq!(found.name, "B");
    assert_eq!(found.after, "c${D}");
    assert_eq!(expand_reference(&found, "x"), "axc${D}");
    assert!(next_reference("a${B").is_none());
    assert!(next_reference("plain").is_none());
}

#[test]
fn strategies_are_read() {
    assert_eq!(RoutingStrategy::parse("round_robin").unwrap(), RoutingStrategy::RoundRobin);
    assert_eq!(RoutingStrategy::parse("random").unwrap(), RoutingStrategy::Random);
    assert_eq!(RoutingStrategy::parse("least_failed").unwrap(), RoutingStrategy::LeastFailed);
    assert!(RoutingStrategy::parse("whatever").is_err());
    assert_eq!(strategy_debug(RoutingStrategy::RoundRobin), "RoundRobin");
    assert_eq!(provider_type_debug(ProviderType::OpenaiCompatible), "OpenaiCompatible");
    assert_eq!(KeyTier::Free.to_string(), "free");
}

#[test]
fn waiting_times_are_whole_seconds() {
    let now = Moment { seconds: 100, nanos: 1 };
    assert_eq!(seconds_until(Moment { seconds: 102, nanos: 0 }, now), 1);
    assert_eq!(seconds_until(Moment { seconds: 90, nanos: 0 }, now), 0);
    assert_eq!(seconds_until(Moment { seconds: -90, nanos: 0 }, now), 0);
}

#[test]
fn leap_seconds_are_counted_by_the_time_of_day() {
    let leap = Moment { seconds: 129_659, nanos: 1_000_000_000 };
    // the next day, at an earlier time than now
    assert_eq!(seconds_until(leap, Moment { seconds: 46_800, nanos: 0 }), 82_859);
    // the same day, at a later time
    assert_eq!(seconds_until(leap, Moment { seconds: 129_600, nanos: 0 }), 60);
    assert_eq!(seconds_until(leap, Moment { seconds: 129_659, nanos: 0 }), 1);
}

#[test]
fn secrets_are_hidden() {
    assert!(can_mask("abcdefghijkl"));
    assert_eq!(mask_text("abcd"), "****");
    let masked = mask_text("abcdefghijkl");
    assert!(masked.contains("..."));
    assert!(!masked.contains("efgh"));
    let clean = sanitize_diagnostic("Authorization: Bearer abc123 token=xyz");
    assert!(!clean.contains("abc123"));
    assert!(!clean.contains("xyz"));
}

#[test]
fn the_state_is_reported() {
    let mut registry = HealthRegistry::new();
    registry.register("a", &provider(ProviderType::Nvidia));
    registry.update("a", "healthy", 12, 3, 1, 2);
    let states = registry.snapshot();
    let answer = health(&states, "1.2.3");
    assert_eq!(answer.get("status").unwrap().as_str(), Some("ok"));
    assert!(json_text(&answer).contains("1.2.3"));
    let whole = status("1.2.3", 77, registry.snapshot(), 5, 2);
    assert_eq!(whole.uptime_seconds, 77);
    assert_eq!(whole.total_requests, 5);
    assert_eq!(whole.providers.len(), 1);
    let listed = providers(&config(), &states);
    let first = listed.get("providers").unwrap().item(0).unwrap();
    assert_eq!(first.get("type").unwrap().as_str(), Some("Nvidia"));
    assert_eq!(first.get("priority").unwrap().as_u64(), Some(4));
    assert!(first.get("last_error").unwrap().is_null());
}

#[test]
fn metrics_do_not_show_keys() {
    let mut registry = HealthRegistry::new();
    registry.register("a", &provider(ProviderType::Nvidia));
    let mut hub = KeyHub::new(routing());
    hub.register_provider("a", vec![KeyConfig::legacy("secret-key-value")]);
    let snapshot = hub.snapshot();
    let told = metrics(&config(), &registry.snapshot(), &snapshot, "1", 2, 3, 4);
    let text = json_text(&told);
    assert!(!text.contains("secret-key-value"));
    assert!(text.contains("LeastFailed"));
    assert!(!json_text(&key_state_to_json(&snapshot[0].1[0])).contains("secret-key-value"));
}

#[test]
fn prometheus_reads_the_metrics() {
    let mut registry = HealthRegistry::new();
    registry.register("a\"b", &provider(ProviderType::Nvidia));
    registry.update("a\"b", "healthy", 12, 3, 1, 2);
    let text = metrics_prometheus(&registry.snapshot(), 9, 8, 7);
    assert!(text.starts_with(
        "# HELP free_agent_gateway_uptime_seconds Gateway process uptime in seconds.\n# TYPE free_agent_gateway_uptime_seconds gauge\nfree_agent_gateway_uptime_seconds 9\n"
    ));
    assert!(text.contains("\nfree_agent_gateway_requests_total 8\n"));
    assert!(text.contains("\nfree_agent_gateway_errors_total 7\n"));
    assert!(text.contains("free_agent_gateway_provider_up{provider=\"a\\\"b\"} 1\n"));
    assert!(text.contains("free_agent_gateway_provider_latency_ms{provider=\"a\\\"b\"} 12\n"));
    assert!(text.contains(
        "free_agent_gateway_provider_keys{provider=\"a\\\"b\",state=\"total\"} 2\n"
    ));
}
