use std::collections::hash_map::DefaultHasher;
use std::hash::{Hash, Hasher};

use free_agent_gateway::config::{KeyConfig, KeyTier, RoutingConfig, RoutingStrategy};
use free_agent_gateway::error::GatewayError;
use free_agent_gateway::keyhub::{KeyHub, KeyPool, RoundRobin};
use free_agent_gateway::keystate::{
    can_mask, escalation_seconds, key_fingerprint, key_usage_score, mask_text, KeyState, KeyStatus,
};

fn test_routing() -> RoutingConfig {
    with_strategy(RoutingStrategy::LeastFailed)
}

fn with_strategy(strategy: RoutingStrategy) -> RoutingConfig {
    RoutingConfig { strategy, fail_threshold: 3, cooldown_seconds: 60, auto_discover: true }
}

fn legacy(values: &[&str]) -> Vec<KeyConfig> {
    values.iter().map(|v| v.to_string().into()).collect()
}

fn free(value: &str) -> KeyConfig {
    KeyConfig::detailed(value, KeyTier::Free)
}

#[test]
fn test_key_pool_basic() {
    let mut pool = KeyPool::new("test", legacy(&["key1", "key2", "key3"]), test_routing());
    assert_eq!(pool.total_count(), 3);
    assert_eq!(pool.available_count(), 3);
}

#[test]
fn test_acquire_key() {
    let mut pool = KeyPool::new("test", legacy(&["key1", "key2"]), test_routing());
    let key = pool.acquire_key(&mut RoundRobin::new()).unwrap();
    assert!(!key.is_empty());
}

#[test]
fn test_report_failure_429() {
    let mut pool = KeyPool::new("test", legacy(&["key1"]), test_routing());
    let key = "key1".to_string();
    pool.report_failure(&key, 429);
    let snapshot = pool.snapshot();
    assert_eq!(snapshot[0].status, KeyStatus::RateLimited);
    assert_eq!(pool.available_count(), 0);
}

#[test]
fn test_report_failure_401_disables_key() {
    let mut pool = KeyPool::new("test", legacy(&["key1"]), test_routing());
    pool.report_failure("key1", 401);
    assert_eq!(pool.available_count(), 0);
    let snapshot = pool.snapshot();
    assert_eq!(snapshot[0].status, KeyStatus::Disabled);
}

#[test]
fn test_consecutive_failures_cooldown() {
    let mut pool = KeyPool::new("test", legacy(&["key1"]), test_routing());
    pool.report_failure("key1", 500);
    pool.report_failure("key1", 500);
    pool.report_failure("key1", 500); // threshold reached
    let snapshot = pool.snapshot();
    assert_eq!(snapshot[0].status, KeyStatus::Cooldown);
    assert_eq!(pool.available_count(), 0);
}

#[test]
fn test_no_available_keys() {
    let mut pool = KeyPool::new("test", Vec::new(), test_routing());
    let result = pool.acquire_key(&mut RoundRobin::new());
    assert!(result.is_err());
}

#[test]
fn a_cooldown_runs_out() {
    let mut pool = KeyPool::new_at("test", legacy(&["key1"]), test_routing(), 1000);
    for _ in 0..3 {
        pool.report_failure_with_retry_after_at("key1", 500, None, 1000);
    }
    assert_eq!(pool.available_count_at(1059), 0);
    assert_eq!(pool.available_count_at(1060), 1);
}

#[test]
fn a_rate_limited_key_rests_as_long_as_it_was_told() {
    let mut pool = KeyPool::new_at("test", legacy(&["key1"]), test_routing(), 1000);
    pool.report_failure_with_retry_after_at("key1", 429, Some(500), 1000);
    assert!(pool.acquire_key_at(1499, 0).is_err());
    assert_eq!(pool.acquire_key_at(1500, 0).unwrap(), "key1");
    assert_eq!(pool.snapshot_at(1500)[0].status, KeyStatus::Probing);
    // on probation one request is taken
    assert!(pool.reserve_key_at("key1", 1500));
    assert!(!pool.reserve_key_at("key1", 1501));
}

#[test]
fn escalation_grows_up_to_a_day() {
    assert_eq!(escalation_seconds(0), 120);
    assert_eq!(escalation_seconds(1), 600);
    let mut last = 0;
    for hits in 0..12 {
        let seconds = escalation_seconds(hits);
        assert!(seconds >= last);
        assert!(seconds <= 86400);
        last = seconds;
    }
}

#[test]
fn limits_of_requests_are_kept() {
    let key = KeyConfig::Detailed {
        value: "k".into(),
        tier: KeyTier::Free,
        rpm_limit: Some(2),
        rpd_limit: None,
        tpm_limit: None,
        tpd_limit: None,
    };
    let mut pool = KeyPool::new_at("test", vec![key], test_routing(), 600);
    assert!(pool.reserve_key_at("k", 600));
    assert!(pool.reserve_key_at("k", 601));
    assert!(!pool.reserve_key_at("k", 602));
    assert!(pool.reserve_key_at("k", 660));
}

#[test]
fn round_robin_takes_turns() {
    let mut hub = KeyHub::new(with_strategy(RoutingStrategy::RoundRobin));
    hub.register_provider("p", legacy(&["a", "b"]));
    let mut counter = RoundRobin::new();
    assert_eq!(hub.acquire_key("p", &mut counter).unwrap(), "a");
    assert_eq!(hub.acquire_key("p", &mut counter).unwrap(), "b");
    assert_eq!(hub.acquire_key("p", &mut counter).unwrap(), "a");
    assert_eq!(counter.turns, 3);
}

#[test]
fn a_turn_is_taken_only_where_a_key_is_found() {
    let routing = with_strategy(RoutingStrategy::RoundRobin);
    let mut counter = RoundRobin::new();
    let mut none = KeyPool::new("none", Vec::new(), routing);
    assert!(none.acquire_key(&mut counter).is_err());
    assert_eq!(counter.turns, 0);
    let mut hub = KeyHub::new(routing);
    hub.register_provider("none", Vec::new());
    hub.register_provider("p", legacy(&["a", "b"]));
    assert!(hub.acquire_key("none", &mut counter).is_err());
    assert!(hub.acquire_key("missing", &mut counter).is_err());
    assert_eq!(counter.turns, 0);
    assert_eq!(hub.acquire_key("p", &mut counter).unwrap(), "a");
    assert_eq!(counter.turns, 1);
}

#[test]
fn one_counter_serves_all_pools() {
    let routing = with_strategy(RoutingStrategy::RoundRobin);
    let mut counter = RoundRobin::new();
    let mut first = KeyPool::new("x", legacy(&["a", "b"]), routing);
    let mut second = KeyPool::new("y", legacy(&["c", "d"]), routing);
    assert_eq!(first.acquire_key(&mut counter).unwrap(), "a");
    assert_eq!(second.acquire_key(&mut counter).unwrap(), "d");
    assert_eq!(first.acquire_key(&mut counter).unwrap(), "a");
    let mut fixed = KeyPool::new("z", legacy(&["e"]), test_routing());
    assert_eq!(fixed.acquire_key(&mut counter).unwrap(), "e");
    assert_eq!(counter.turns, 3);
}

#[test]
fn free_keys_are_tried_in_turn() {
    let mut hub = KeyHub::new(with_strategy(RoutingStrategy::RoundRobin));
    hub.register_provider("p", vec![free("a"), free("b")]);
    hub.register_provider("q", vec![free("c")]);
    hub.update_models("p", "a", vec!["m".into()]);
    hub.update_models("p", "b", vec!["m".into()]);
    hub.update_models("q", "c", vec!["m".into()]);
    let mut counter = RoundRobin::new();
    assert_eq!(hub.free_candidates("p", "m", None, &mut counter), vec!["a", "b"]);
    assert_eq!(hub.free_candidates("q", "m", None, &mut counter), vec!["c"]);
    assert_eq!(counter.turns, 1);
    assert_eq!(hub.free_candidates("p", "m", None, &mut counter), vec!["b", "a"]);
    assert_eq!(counter.turns, 2);
}

#[test]
fn a_random_choice_is_one_of_the_keys() {
    let mut hub = KeyHub::new(with_strategy(RoutingStrategy::Random));
    hub.register_provider("p", legacy(&["a", "b", "c"]));
    for _ in 0..20 {
        let key = hub.acquire_key("p", &mut RoundRobin::new()).unwrap();
        assert!(["a", "b", "c"].contains(&key.as_str()));
    }
}

#[test]
fn an_unknown_provider_has_no_keys() {
    let mut hub = KeyHub::new(test_routing());
    let missing = hub.acquire_key("p", &mut RoundRobin::new());
    assert!(matches!(missing, Err(GatewayError::ProviderNotFound(n)) if n == "p"));
    assert_eq!(hub.available_count("p"), 0);
    assert_eq!(hub.provider_key_status_summary("p"), "provider_not_registered");
    assert!(!hub.reserve_key("p", "k"));
    assert!(hub.key_by_id("p", "x").is_err());
    assert!(hub.provider_keys("p").is_empty());
}

#[test]
fn providers_are_kept_apart() {
    let mut hub = KeyHub::new(test_routing());
    hub.register_provider("p", legacy(&["shared"]));
    hub.register_provider("q", legacy(&["shared"]));
    hub.report_failure("p", "shared", 401);
    assert_eq!(hub.key_status("p", "shared"), Some(KeyStatus::Disabled));
    assert_eq!(hub.key_status("q", "shared"), Some(KeyStatus::Available));
    assert!(hub.has_available_keys("q"));
    let snapshot = hub.snapshot();
    assert_eq!(snapshot.len(), 2);
    // registering anew starts anew
    hub.register_provider("p", legacy(&["shared"]));
    assert_eq!(hub.key_status("p", "shared"), Some(KeyStatus::Available));
}

#[test]
fn a_disabled_key_is_restored_by_hand_or_by_a_discovery() {
    let mut hub = KeyHub::new(test_routing());
    hub.register_provider("p", vec![free("one-long-key"), free("two-long-key")]);
    hub.report_failure("p", "one-long-key", 403);
    hub.report_failure("p", "two-long-key", 401);
    let id = key_fingerprint("one-long-key");
    assert_eq!(hub.key_by_id("p", &id).unwrap(), "one-long-key");
    let restored = hub.restore_key("p", &id).unwrap();
    assert_eq!(restored.status, KeyStatus::Available);
    assert_eq!(restored.key, "one-...-key");
    assert!(hub.restore_key("p", "key-none").is_err());
    hub.update_models("p", "two-long-key", vec!["m".into()]);
    assert_eq!(hub.key_status("p", "two-long-key"), Some(KeyStatus::Available));
    assert_eq!(hub.models_for_key("p", "two-long-key"), vec!["m"]);
}

#[test]
fn only_errors_of_the_key_are_charged() {
    let mut hub = KeyHub::new(test_routing());
    hub.register_provider("p", vec![free("k")]);
    hub.report_gateway_error("p", "k", &GatewayError::http_error(404, "no", None));
    hub.report_gateway_error(
        "p",
        "k",
        &GatewayError::http_error(403, "not available in your region", None),
    );
    assert_eq!(hub.key_status("p", "k"), Some(KeyStatus::Available));
    hub.report_gateway_error("p", "k", &GatewayError::http_error(429, "slow down", Some(30)));
    assert_eq!(hub.key_status("p", "k"), Some(KeyStatus::RateLimited));
}

#[test]
fn free_keys_come_before_paid_ones() {
    let mut hub = KeyHub::new(test_routing());
    hub.register_provider("p", vec![free("f"), KeyConfig::detailed("paid", KeyTier::Paid)]);
    hub.update_models("p", "f", vec!["m".into()]);
    hub.update_models("p", "paid", vec!["m".into(), "n".into()]);
    assert_eq!(hub.free_candidates("p", "m", None, &mut RoundRobin::new()), vec!["f"]);
    assert!(hub.free_candidates("p", "n", None, &mut RoundRobin::new()).is_empty());
    assert_eq!(hub.paid_candidate_for_model("p", "n").as_deref(), Some("paid"));
    assert_eq!(hub.any_free_key("p").as_deref(), Some("f"));
    assert_eq!(
        hub.available_free_models(),
        vec![("p".to_string(), "m".to_string())]
    );
}

#[test]
fn states_are_saved_and_restored() {
    let mut hub = KeyHub::new(test_routing());
    hub.register_provider("p", vec![free("a-very-long-key")]);
    hub.report_failure("p", "a-very-long-key", 401);
    let saved = hub.snapshot();
    let mut fresh = KeyHub::new(test_routing());
    fresh.register_provider("p", vec![free("a-very-long-key")]);
    fresh.restore_provider_states("p", &saved[0].1);
    assert_eq!(fresh.key_status("p", "a-very-long-key"), Some(KeyStatus::Disabled));
}

#[test]
fn observed_limits_do_not_override_the_configuration() {
    let mut hub = KeyHub::new(test_routing());
    let configured = KeyConfig::Detailed {
        value: "c".into(),
        tier: KeyTier::Free,
        rpm_limit: Some(50),
        rpd_limit: None,
        tpm_limit: None,
        tpd_limit: None,
    };
    hub.register_provider("p", vec![configured, free("k")]);
    assert!(hub.apply_request_limits("p", "c", Some(5), Some(9), "official_api"));
    assert!(hub.apply_request_limits("p", "k", Some(5), None, "official_api"));
    assert!(!hub.apply_request_limits("p", "x", Some(5), None, "official_api"));
    let snapshot = hub.snapshot();
    assert_eq!(snapshot[0].1[0].rpm_limit, Some(50));
    assert_eq!(snapshot[0].1[0].rpd_limit, Some(9));
    assert_eq!(snapshot[0].1[1].rpm_limit, Some(5));
}

#[test]
fn keys_are_masked_and_named_without_being_told() {
    assert_eq!(mask_text("sk-abcdefgh"), "sk-a...efgh");
    assert_eq!(mask_text("12345678"), "****");
    assert_eq!(mask_text(&mask_text("sk-abcdefgh")), "sk-a...efgh");
    assert!(can_mask("sk-abcdefgh"));
    assert!(!can_mask("abc\u{e9}\u{e9}\u{e9}\u{e9}\u{e9}"));
    let a = key_fingerprint("sk-abcdefgh");
    assert_eq!(a.len(), 20);
    assert_eq!(a, key_fingerprint("sk-abcdefgh"));
    assert!(a != key_fingerprint("sk-abcdefgi"));
    assert!(a[4..].chars().all(|c| c.is_ascii_hexdigit()));
}

#[test]
fn usage_is_scored_by_the_fullest_limit() {
    let mut key = KeyState::with_tier_at("k".into(), KeyTier::Free, 60_000);
    key.rpm_limit = Some(10);
    key.rpm_count = 5;
    assert_eq!(key_usage_score(&key, 60_000), 50);
    assert_eq!(key_usage_score(&key, 60_060), 0);
    key.rpm_count = 10;
    assert!(key.is_rate_limited(60_000));
    key.reset_rate_windows(60_060);
    assert!(!key.is_rate_limited(60_060));
}

#[test]
fn keys_are_found_for_discovery() {
    let mut hub = KeyHub::new(test_routing());
    hub.register_provider("p", vec![free("key-a"), KeyConfig::detailed("key-b", KeyTier::Paid)]);
    assert_eq!(hub.discovery_keys("p").len(), 2);
    hub.report_failure("p", "key-a", 429);
    assert_eq!(hub.discovery_keys("p"), vec![("key-b".to_string(), KeyTier::Paid)]);
    assert!(hub.discovery_keys("unknown").is_empty());
}

#[test]
fn a_broken_stream_cools_a_key_down() {
    let mut hub = KeyHub::new(test_routing());
    hub.register_provider("p", vec![free("key-a")]);
    hub.force_transient_cooldown("p", "key-a", 502);
    assert_eq!(hub.key_status("p", "key-a"), Some(KeyStatus::Cooldown));
    assert!(!hub.has_available_keys("p"));
}

#[test]
fn free_models_are_summarized() {
    let mut hub = KeyHub::new(test_routing());
    hub.register_provider("p", vec![free("key-a")]);
    hub.update_models("p", "key-a", vec!["x".into(), "y".into(), "x".into()]);
    assert_eq!(hub.free_model_summary(), "p=2");
    assert_eq!(hub.free_candidate_infos("p", "x")[0].key, "key-a");
    assert!(hub.free_candidate_infos("p", "z").is_empty());
    assert_eq!(hub.free_provider_candidate_infos("p").len(), 1);
}

#[test]
fn keys_are_restored_by_hand() {
    let mut pool = KeyPool::new("p", legacy(&["key-number-one"]), test_routing());
    pool.report_failure("key-number-one", 401);
    let id = key_fingerprint("key-number-one");
    let restored = pool.restore_key_by_id(&id).unwrap();
    assert_eq!(restored.status, KeyStatus::Available);
    assert_ne!(restored.key, "key-number-one");
    assert!(pool.restore_key_by_id("missing").is_err());
    let mut later = KeyPool::new("p", legacy(&["key-number-one"]), test_routing());
    let mut kept = KeyState::new("key-number-one".into());
    kept.total_fail_count = 9;
    later.restore_states(&[kept]);
    assert_eq!(later.snapshot()[0].total_fail_count, 9);
}

#[test]
fn fingerprints_are_hashes() {
    let mut hasher = DefaultHasher::new();
    "some key".hash(&mut hasher);
    assert_eq!(key_fingerprint("some key"), format!("key-{:016x}", hasher.finish()));
}

#[test]
fn reserved_requests_count_once() {
    let mut sent = KeyPool::new("p", legacy(&["key-a"]), test_routing());
    let mut reserved = KeyPool::new("p", legacy(&["key-a"]), test_routing());
    sent.report_success("key-a", Some(3), Some(4));
    assert!(reserved.reserve_key("key-a"));
    reserved.report_reserved_success("key-a", Some(3), Some(4));
    let (a, b) = (&sent.snapshot()[0], &reserved.snapshot()[0]);
    assert_eq!(a.rpm_count, 1);
    assert_eq!(b.rpm_count, 1);
    assert_eq!(a.success_count, b.success_count);
    assert_eq!(a.tpd_prompt_count, b.tpd_prompt_count);
}

#[test]
fn snapshots_restore_states() {
    let mut before = KeyPool::new("p", legacy(&["key-one-abc", "key-two-abc"]), test_routing());
    before.report_failure("key-two-abc", 401);
    before.report_success("key-one-abc", Some(9), None);
    let kept = before.snapshot();
    assert_ne!(kept[1].key, "key-two-abc");
    let mut after = KeyPool::new("p", legacy(&["key-one-abc", "key-two-abc"]), test_routing());
    after.restore_states(&kept);
    let back = after.snapshot();
    assert_eq!(back[0].tpm_prompt_count, 9);
    assert_eq!(back[1].status, KeyStatus::Disabled);
    assert_eq!(back[1].total_fail_count, kept[1].total_fail_count);
}

#[test]
fn a_first_rate_limit_waits_two_minutes() {
    let mut pool = KeyPool::new_at("p", legacy(&["key1"]), test_routing(), 999_000);
    pool.report_failure_with_retry_after_at("key1", 500, None, 999_999);
    pool.report_failure_with_retry_after_at("key1", 429, None, 1_000_000);
    let state = &pool.snapshot_at(1_000_000)[0];
    assert_eq!(state.status, KeyStatus::RateLimited);
    assert_eq!(state.cooldown_until, Some(1_000_120));
    assert_eq!(state.fail_count, 2);
    assert_eq!(state.rate_limit_hits, 1);
}

#[test]
fn rate_limits_in_a_row_wait_longer() {
    let mut pool = KeyPool::new_at("p", legacy(&["key1"]), test_routing(), 0);
    let mut now = 1_000_000;
    for wait in [120, 600, 3600, 86400, 86400] {
        pool.report_failure_with_retry_after_at("key1", 429, None, now);
        assert_eq!(pool.snapshot_at(now)[0].cooldown_until, Some(now + wait));
        now += wait;
        assert_eq!(pool.snapshot_at(now)[0].status, KeyStatus::Probing);
        // neither another failure nor a cooldown changes how many there were
        pool.report_failure_with_retry_after_at("key1", 502, None, now);
        pool.force_transient_cooldown_at("key1", 503, now);
        now += 60;
        assert_eq!(pool.snapshot_at(now)[0].status, KeyStatus::Available);
    }
    pool.report_success_at("key1", None, None, now);
    pool.report_failure_with_retry_after_at("key1", 429, None, now);
    assert_eq!(pool.snapshot_at(now)[0].cooldown_until, Some(now + 120));
    let id = key_fingerprint("key1");
    assert_eq!(pool.restore_key_by_id_at(&id, now).unwrap().rate_limit_hits, 0);
}

#[test]
fn rate_limits_in_a_row_count_for_the_key_alone() {
    let mut pool = KeyPool::new_at("p", legacy(&["key1", "key2"]), test_routing(), 0);
    let now = 1_000_000;
    let asked = [None, None, None, None, None, Some(7)];
    let waits = [120, 600, 3600, 86400, 86400, 7];
    for n in 0..asked.len() {
        pool.report_failure_with_retry_after_at("key1", 429, asked[n], now);
        let keys = pool.snapshot_at(now);
        assert_eq!(keys[0].status, KeyStatus::RateLimited);
        assert_eq!(keys[0].cooldown_until, Some(now + waits[n]));
        assert_eq!(keys[0].total_fail_count, n as u64 + 1);
        assert_eq!(keys[1].total_fail_count, 0);
        assert!(pool.key_status_summary_at(now).ends_with("provider_cooldown_remaining_s=0"));
    }
    assert_eq!(pool.acquire_key_at(now, 0).unwrap(), "key2");
}

#[test]
fn rate_limit_hits_are_kept_with_the_state() {
    let mut before = KeyPool::new_at("p", legacy(&["key-one-abc"]), test_routing(), 1000);
    before.report_failure_with_retry_after_at("key-one-abc", 429, Some(1), 1000);
    let kept = before.snapshot_at(1000);
    let mut after = KeyPool::new_at("p", legacy(&["key-one-abc"]), test_routing(), 1000);
    after.restore_states_at(&kept, 1000);
    after.report_failure_with_retry_after_at("key-one-abc", 429, None, 1000);
    assert_eq!(after.snapshot_at(1000)[0].cooldown_until, Some(1600));
}

#[test]
fn only_the_restored_key_is_masked() {
    assert!(!can_mask("abc\u{20ac}defghijk"));
    let keys = legacy(&["abc\u{20ac}defghijk", "key-number-two"]);
    let mut pool = KeyPool::new_at("p", keys, test_routing(), 1000);
    let id = key_fingerprint("key-number-two");
    assert_eq!(pool.restore_key_by_id_at(&id, 1010).unwrap().key, "key-...-two");
    assert!(pool.restore_key_by_id_at("key-none", 1010).is_err());
    let mut hub = KeyHub::new(test_routing());
    hub.register_provider("p", legacy(&["abc\u{20ac}defghijk", "key-number-two"]));
    assert_eq!(hub.restore_key("p", &id).unwrap().key, "key-...-two");
    assert!(hub.restore_key("p", "key-none").is_err());
}

#[test]
fn restored_keys_did_not_recover_by_themselves() {
    let mut pool = KeyPool::new_at("p", legacy(&["key-one-abc"]), test_routing(), 1000);
    pool.report_failure_with_retry_after_at("key-one-abc", 429, Some(10), 1000);
    assert_eq!(pool.snapshot_at(1010)[0].last_recovered_at, Some(1010));
    pool.report_failure_with_retry_after_at("key-one-abc", 401, None, 1020);
    let id = key_fingerprint("key-one-abc");
    let restored = pool.restore_key_by_id_at(&id, 1030).unwrap();
    assert_eq!(restored.status, KeyStatus::Available);
    assert_eq!(restored.status_updated_at, Some(1030));
    assert_eq!(restored.last_recovered_at, Some(1010));
    // nor does a disabled key that serves a discovery
    pool.report_failure_with_retry_after_at("key-one-abc", 401, None, 1040);
    pool.update_models_at("key-one-abc", vec!["m".into()], 1050);
    let found = &pool.snapshot_at(1050)[0];
    assert_eq!(found.status, KeyStatus::Available);
    assert_eq!(found.last_recovered_at, Some(1010));
}

#[test]
fn disabled_keys_have_no_cooldown() {
    let mut pool = KeyPool::new_at("p", legacy(&["key1"]), test_routing(), 1000);
    pool.report_failure_with_retry_after_at("key1", 429, None, 1000);
    pool.report_failure_with_retry_after_at("key1", 403, None, 1001);
    let state = &pool.snapshot_at(1001)[0];
    assert_eq!(state.status, KeyStatus::Disabled);
    assert_eq!(state.cooldown_until, None);
}

#[test]
fn prompt_tokens_count_for_the_minute() {
    let mut key = KeyState::new("sk".into());
    key.tpm_limit = Some(100);
    key.tpm_prompt_count = 60;
    key.tpm_completion_count = 60;
    key.rpm_window_start = 1;
    assert!(!key.is_rate_limited(60));
    assert_eq!(key_usage_score(&key, 60), 60);
    key.tpm_prompt_count = 100;
    assert!(key.is_rate_limited(60));
    // the limit of a day is on all tokens
    key.tpm_limit = None;
    key.tpd_limit = Some(100);
    key.tpd_prompt_count = 60;
    key.tpd_completion_count = 40;
    key.rpd_window_start = 0;
    assert!(key.is_rate_limited(60));
    key.tpd_completion_count = 39;
    assert!(!key.is_rate_limited(60));
}

#[test]
fn summaries_change_nothing() {
    let mut routing = test_routing();
    routing.fail_threshold = 1;
    routing.cooldown_seconds = 0;
    let mut hub = KeyHub::new(routing);
    hub.register_provider("p", vec![free("key-a")]);
    hub.update_models("p", "key-a", vec!["x".into()]);
    hub.report_failure("p", "key-a", 500);
    let seen = &hub;
    // its cooldown has run out, and it is not ended by being counted
    assert_eq!(seen.free_model_summary(), "");
    assert_eq!(seen.key_status("p", "key-a"), Some(KeyStatus::Cooldown));
    assert_eq!(hub.available_free_models(), vec![("p".to_string(), "x".to_string())]);
    assert_eq!(hub.free_model_summary(), "p=1");
}
