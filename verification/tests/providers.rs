use free_agent_gateway::api::admin::validation::user_request;
use free_agent_gateway::api::chat::{
    apply_chat_headers, apply_request_headers, deadline_error, is_secret_header,
    keepalive_seconds, sanitize_headers, wants_stream, RelayEvent, StreamRelay,
};
use free_agent_gateway::config::{
    KeyConfig, KeyTier, ProviderConfig, ProviderType, RoutingConfig, RoutingStrategy,
};
use free_agent_gateway::error::GatewayError;
use free_agent_gateway::health::HealthRegistry;
use free_agent_gateway::json::Json;
use free_agent_gateway::json_text::{json_text, parse_json};
use free_agent_gateway::keyhub::KeyHub;
use free_agent_gateway::providers::cloudflare::{
    callable_model_name, chat_reply, normalize_response, CloudflareProvider,
};
use free_agent_gateway::providers::ollama::{
    build_ollama_options, convert_ollama_to_openai, ollama_request, sse_data, sse_last,
    OllamaProvider, OllamaStream,
};
use free_agent_gateway::providers::openai_compatible::{
    ask_for_stream, can_preview, cloudflare_models_search_url, extract_cloudflare_model_ids,
    interpret_reading, parse_json_body, preview_body, strip_unsupported_extra_fields,
    try_parse_json_body, ListRefused, OpenAiCompatibleProvider,
};
use free_agent_gateway::providers::traits::{
    endpoint_url, extract_rate_limit_headers, health_reply, listed_names, nested_error_message,
    post_reply, retry_after_seconds,
};
use free_agent_gateway::providers::{
    connect_timeout, create_provider, header_timeout, header_timeout_error, proxy_of, read_timeout, AnyProvider,
};
use free_agent_gateway::rate_rules::{apply_openrouter_rule, cloudflare_limits, is_free_tier};

fn provider(provider_type: ProviderType, base_url: &str) -> ProviderConfig {
    ProviderConfig {
        provider_type,
        enabled: true,
        base_url: base_url.into(),
        proxy_url: None,
        keys: Vec::new(),
        health_check_model: "check".into(),
        timeout_seconds: 5,
        priority: 0,
    }
}

fn headers(pairs: &[(&str, &str)]) -> Vec<(String, Option<String>)> {
    pairs.iter().map(|(a, b)| (a.to_string(), Some(b.to_string()))).collect()
}

#[test]
fn timeouts_are_bounded() {
    assert_eq!(connect_timeout(1), 5);
    assert_eq!(connect_timeout(100), 30);
    assert_eq!(read_timeout(10), 120);
    assert_eq!(read_timeout(500), 500);
    assert_eq!(header_timeout(61), 60);
    assert_eq!(proxy_of(&Some("  ".into())), None);
    assert_eq!(proxy_of(&Some("http://x".into())).as_deref(), Some("http://x"));
}

#[test]
fn the_type_decides_the_provider() {
    assert!(matches!(
        create_provider("o", &provider(ProviderType::Ollama, "http://o")),
        AnyProvider::Ollama(_)
    ));
    assert!(matches!(
        create_provider("c", &provider(ProviderType::Cloudflare, "http://c")),
        AnyProvider::Cloudflare(_)
    ));
    assert!(matches!(
        create_provider("n", &provider(ProviderType::Nvidia, "http://n")),
        AnyProvider::OpenAiCompatible(_)
    ));
}

#[test]
fn limits_are_read_from_headers() {
    let info = extract_rate_limit_headers(&headers(&[
        ("x-ratelimit-limit-requests", "100"),
        ("x-ratelimit-remaining-requests", "7"),
    ]));
    assert_eq!(info.rpm_limit, Some(100));
    assert_eq!(info.rpm_remaining, Some(7));
    assert_eq!(info.tpm_limit, None);
    assert_eq!(retry_after_seconds(&headers(&[("retry-after", "12")])), Some(12));
    assert_eq!(retry_after_seconds(&Vec::new()), None);
}

#[test]
fn replies_are_told_from_errors() {
    let body = parse_json(r#"{"error":{"message":"bad"}}"#).unwrap();
    let refused = post_reply(400, body, Some(3), None);
    assert!(matches!(
        refused,
        Err(GatewayError::HttpError { status: 400, message, retry_after_seconds: Some(3) })
            if message == "bad"
    ));
    let fine = post_reply(200, parse_json("{}").unwrap(), None, None).unwrap();
    assert_eq!(fine.status, 200);
    let nested = parse_json(r#"{"error":{"message":"outer","metadata":{"raw":"inner"}}}"#).unwrap();
    assert!(nested_error_message(&nested).contains("outer"));
    assert!(health_reply(0, 5, "nothing").is_err());
    assert_eq!(health_reply(2, 5, "nothing").unwrap(), 5);
}

#[test]
fn urls_are_joined() {
    assert_eq!(endpoint_url("http://a/v1/", "/models"), "http://a/v1/models");
    assert_eq!(endpoint_url("http://a/v1", "models"), "http://a/v1/models");
    let p = OpenAiCompatibleProvider::new(
        "p",
        &provider(ProviderType::OpenaiCompatible, "http://a/v1"),
    );
    assert_eq!(p.models_url(), "http://a/v1/models");
    assert_eq!(p.chat_completions_url(), "http://a/v1/chat/completions");
}

#[test]
fn a_refused_list_is_sought_elsewhere_assumed_or_an_error() {
    let p = OpenAiCompatibleProvider::new(
        "p",
        &provider(ProviderType::OpenaiCompatible, "http://a/v1"),
    );
    assert!(matches!(p.list_refused(401, "no", None), ListRefused::Fail(_)));
    assert_eq!(p.assumed_models(), vec!["check"]);
    assert_eq!(
        cloudflare_models_search_url("https://api.cloudflare.com/client/v4/accounts/x/ai/v1")
            .as_deref(),
        Some("https://api.cloudflare.com/client/v4/accounts/x/ai/models/search")
    );
    assert_eq!(cloudflare_models_search_url("http://a"), None);
    assert_eq!(p.after_search(Some(vec!["m".into()])), vec!["m"]);
}

#[test]
fn models_are_listed_from_answers() {
    let list = parse_json(r#"{"data":[{"id":"a"},{"x":1},{"id":"b"}]}"#).unwrap();
    assert_eq!(listed_names(&list, "data", "id"), vec!["a", "b"]);
    let cf = parse_json(r#"{"result":[{"name":"@cf/a"},{"name":"other"}]}"#).unwrap();
    assert_eq!(extract_cloudflare_model_ids(&cf), vec!["@cf/a"]);
    let model = parse_json(r#"{"name":"x","id":"@cf/b"}"#).unwrap();
    assert_eq!(callable_model_name(&model).as_deref(), Some("@cf/b"));
}

#[test]
fn bodies_that_are_no_json_are_explained() {
    assert_eq!(preview_body(" a \n b  "), "a b");
    let long = preview_body(&"x".repeat(300));
    assert_eq!(long.len(), 243);
    assert!(long.ends_with("..."));
    let ok = parse_json_body(200, r#"{"a":1}"#, "p", "e").unwrap();
    assert_eq!(ok.get("a").unwrap().as_u64(), Some(1));
    let broken = parse_json_body(200, "<html>", "p", "e").unwrap_err();
    let message = broken.to_string();
    assert!(message.contains("non-JSON response from upstream provider=p endpoint=e status=200"));
    assert!(message.contains("body_preview=<html>"));
    let refused = parse_json_body(502, "<html>", "p", "e").unwrap();
    assert_eq!(
        refused.get("error").unwrap().get("message").unwrap().as_str(),
        Some("<html>")
    );
    let read = interpret_reading(Err("why".into()), 200, "text", "p", "e").unwrap_err();
    assert!(read.to_string().contains(": why; "));
}

#[test]
fn fields_that_nobody_knows_are_left_out() {
    let mut request = user_request("m", "x");
    request.extra.push(("tools".to_string(), Json::Null));
    request.extra.push(("reasoning".to_string(), Json::Null));
    let before = request.extra.len();
    strip_unsupported_extra_fields(&mut request);
    assert!(request.extra.len() <= before);
    assert!(request.extra.iter().any(|(k, _)| k == "tools"));
}

#[test]
fn cloudflare_answers_are_unwrapped() {
    let raw = parse_json(r#"{"result":{"response":"hi"},"success":true}"#).unwrap();
    let body = normalize_response(&raw);
    assert!(json_text(&body).contains("hi"));
    let openai = parse_json(r#"{"choices":[{"message":{"content":"x"}}]}"#).unwrap();
    assert_eq!(json_text(&normalize_response(&openai)), json_text(&openai));
}

#[test]
fn ollama_speaks_its_own_protocol() {
    let mut request = user_request("llama", "hi");
    request.max_tokens = Some(9);
    let asked = ollama_request(&request, true);
    assert_eq!(asked.get("model").unwrap().as_str(), Some("llama"));
    assert_eq!(asked.get("stream").unwrap().as_bool(), Some(true));
    let options = build_ollama_options(&request).unwrap();
    assert_eq!(options.get("num_predict").unwrap().as_u64(), Some(9));
    let plain = user_request("llama", "hi");
    assert!(build_ollama_options(&plain).is_none());
    let answer = parse_json(
        r#"{"message":{"role":"assistant","content":"hello"},"prompt_eval_count":3,"eval_count":4}"#,
    )
    .unwrap();
    let openai = convert_ollama_to_openai(&answer, "llama", 77);
    let content = openai
        .get("choices")
        .unwrap()
        .item(0)
        .unwrap()
        .get("message")
        .unwrap()
        .get("content")
        .unwrap();
    assert_eq!(content.as_str(), Some("hello"));
    assert_eq!(
        openai.get("usage").unwrap().get("total_tokens").unwrap().as_u64(),
        Some(7)
    );
}

#[test]
fn an_ollama_stream_is_cut_into_chunks() {
    let mut stream = OllamaStream::new("id", 5, "llama");
    let chunks = stream.on_text("{\"message\":{\"content\":\"he\"},\"done\":false}\n");
    assert_eq!(chunks.len(), 1);
    assert_eq!(chunks[0].choices[0].delta.content.as_deref(), Some("he"));
    let last = stream.on_text("{\"message\":{\"content\":\"\"},\"done\":true}\n");
    assert!(last.iter().any(|c| c.choices[0].finish_reason.is_some()));
    assert_eq!(sse_data("x"), "data: x\n\n");
    assert!(sse_last("x").ends_with("data: [DONE]\n\n"));
}

#[test]
fn free_accounts_are_limited() {
    let routing = RoutingConfig {
        strategy: RoutingStrategy::LeastFailed,
        fail_threshold: 3,
        cooldown_seconds: 60,
        auto_discover: true,
    };
    let mut hub = KeyHub::new(routing);
    hub.register_provider("openrouter", vec![KeyConfig::detailed("k", KeyTier::Free)]);
    let free = parse_json(r#"{"data":{"is_free_tier":true}}"#).unwrap();
    assert!(is_free_tier(&free));
    assert!(apply_openrouter_rule(&mut hub, "k", &free));
    assert!(hub.snapshot()[0].1[0].rpd_limit.is_some());
    let limits =
        cloudflare_limits(&parse_json(r#"{"result":{"monthly_remaining":3000}}"#).unwrap()).unwrap();
    assert_eq!(limits.daily_tokens(), Some(100));
    assert_eq!(limits.applied(), (None, None, None, Some(100)));
    let body = r#"{"result":{"monthly_remaining":150000000000,"requests_per_minute":40}}"#;
    let limits = cloudflare_limits(&parse_json(body).unwrap()).unwrap();
    assert_eq!(limits.applied(), (Some(40), None, Some(40), Some(u32::MAX)));
    assert!(cloudflare_limits(&parse_json("{}").unwrap()).is_err());
}

#[test]
fn secrets_in_headers_are_not_logged() {
    assert!(is_secret_header("authorization"));
    assert!(is_secret_header("x-api-key"));
    assert!(!is_secret_header("accept"));
    let shown = sanitize_headers(&headers(&[("Authorization", "Bearer x"), ("accept", "y")]));
    assert!(!shown[0].1.contains("Bearer"));
    assert_eq!(shown[1].1, "y");
}

#[test]
fn headers_name_the_agent_and_the_request() {
    let mut request = user_request("m", "x");
    apply_chat_headers(&headers(&[("x-agent-name", "coder")]), &mut request);
    assert_eq!(request.agent_name.as_deref(), Some("coder"));
    let mut request = user_request("m", "x");
    apply_request_headers(&headers(&[("x-request-id", "r1")]), &mut request);
    assert_eq!(request.request_id.as_deref(), Some("r1"));
    let mut request = user_request("m", "x");
    apply_request_headers(&Vec::new(), &mut request);
    assert!(request.request_id.unwrap().starts_with("req-"));
    assert!(!wants_stream(&user_request("m", "x")));
    assert_eq!(keepalive_seconds(0), 1);
    assert!(matches!(deadline_error(), GatewayError::Timeout(_)));
}

#[test]
fn a_stream_is_relayed() {
    let mut relay = StreamRelay::new();
    let silence = relay.on_event(&RelayEvent::Silence);
    assert_eq!(silence.send, vec![": keep-alive\n\n"]);
    assert!(!silence.stop);
    let mut empty = StreamRelay::new();
    let ended = empty.on_event(&RelayEvent::Ended);
    assert!(ended.stop);
    assert!(ended.send[0].contains("empty_stream"));
    assert_eq!(ended.errors, 1);
    let chunk = relay.on_event(&RelayEvent::Chunk);
    assert!(chunk.forward);
    let failed =
        relay.on_event(&RelayEvent::Failed(GatewayError::UpstreamError("key=secret".into())));
    assert!(failed.stop);
    assert_eq!(failed.errors, 1);
    assert_eq!(failed.send.len(), 1);
    assert!(failed.send[0].contains("key=[REDACTED]"));
    assert!(failed.send[0].ends_with("data: [DONE]\n\n"));
}

#[test]
fn health_is_remembered_by_provider() {
    let mut registry = HealthRegistry::new();
    registry.register("a", &provider(ProviderType::Nvidia, "http://a"));
    registry.register("ollama", &provider(ProviderType::Ollama, "http://o"));
    assert!(registry.all_remote_down());
    registry.update("a", "healthy", 12, 3, 1, 2);
    assert!(!registry.all_remote_down());
    registry.update("ollama", "healthy", 1, 1, 1, 1);
    registry.record_error("a", "gone");
    let states = registry.snapshot();
    let a = states.iter().find(|h| h.provider == "a").unwrap();
    assert_eq!(a.last_error, "gone");
    assert_eq!(a.fail_count, 1);
    registry.update("unknown", "healthy", 1, 1, 1, 1);
    assert_eq!(registry.snapshot().len(), 2);
}

#[test]
fn bodies_without_a_preview_are_told_apart() {
    let cut = "x".repeat(239) + "\u{e9}x";
    assert!(!can_preview(&cut));
    assert!(try_parse_json_body(200, &cut, "p", "e").is_none());
    let json = format!("\"{}\"", cut);
    assert!(matches!(try_parse_json_body(200, &json, "p", "e"), Some(Ok(_))));
    assert!(matches!(try_parse_json_body(200, "<html>", "p", "e"), Some(Err(_))));
}

#[test]
fn every_provider_has_its_addresses() {
    let ollama = OllamaProvider::new("o", &provider(ProviderType::Ollama, "http://o/"));
    assert_eq!(ollama.tags_url(), "http://o/api/tags");
    assert_eq!(ollama.chat_url(), "http://o/api/chat");
    let cloudflare =
        CloudflareProvider::new("c", &provider(ProviderType::Cloudflare, "http://c/x/ai/v1"));
    assert_eq!(cloudflare.models_search_url(), "http://c/x/ai/models/search");
    let answer = parse_json(r#"{"result":[{"name":"@cf/a"}]}"#).unwrap();
    assert_eq!(cloudflare_ids(&answer), vec!["@cf/a"]);
}

fn cloudflare_ids(answer: &Json) -> Vec<String> {
    CloudflareProvider::extract_model_ids(answer)
}

#[test]
fn cloudflare_refusals_are_errors() {
    let body = parse_json(r#"{"errors":[{"message":"no"}],"success":false}"#).unwrap();
    let refused = chat_reply(403, &body, None);
    assert!(matches!(refused, Err(GatewayError::HttpError { status: 403, .. })));
    assert!(chat_reply(200, &parse_json("{}").unwrap(), None).is_ok());
}

#[test]
fn late_headers_are_an_error() {
    assert!(matches!(
        header_timeout_error(1),
        GatewayError::Timeout(m) if m == "upstream stream response headers timed out after 5s"
    ));
    let mut request = user_request("m", "x");
    ask_for_stream(&mut request);
    assert_eq!(request.stream, Some(true));
}
