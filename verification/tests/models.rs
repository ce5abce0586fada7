use free_agent_gateway::json::Json;
use free_agent_gateway::json_text::parse_json;
use free_agent_gateway::models::{
    compress_large_tool_context, content_to_text, estimate_text_tokens, extract_usage,
    extract_usage_or_estimate, repair_tool_call_arguments, request_has_vision,
    response_has_useful_output, ChatCompletionRequest, ChatMessage,
};

fn message(role: &str, content: Json, tool_call_id: Option<&str>) -> ChatMessage {
    ChatMessage {
        role: role.to_string(),
        content,
        name: None,
        tool_calls: None,
        tool_call_id: tool_call_id.map(|s| s.to_string()),
        extra: Vec::new(),
    }
}

fn request(messages: Vec<ChatMessage>) -> ChatCompletionRequest {
    ChatCompletionRequest {
        model: "auto".to_string(),
        messages,
        temperature: None,
        top_p: None,
        n: None,
        stream: None,
        stop: None,
        max_tokens: None,
        presence_penalty: None,
        frequency_penalty: None,
        user: None,
        request_id: None,
        agent_name: None,
        extra: Vec::new(),
    }
}

fn arguments(body: &Json) -> &Json {
    body.get("choices")
        .unwrap()
        .item(0)
        .unwrap()
        .get("message")
        .unwrap()
        .get("tool_calls")
        .unwrap()
        .item(0)
        .unwrap()
        .get("function")
        .unwrap()
        .get("arguments")
        .unwrap()
}

#[test]
fn test_tool_call_argument_objects_are_repaired_to_strings() {
    let mut body = parse_json(
        r#"{
            "choices": [{
                "message": {
                    "role": "assistant",
                    "content": null,
                    "tool_calls": [{
                        "id": "call_1",
                        "type": "function",
                        "function": {
                            "name": "lookup",
                            "arguments": {"city": "Shanghai"}
                        }
                    }]
                }
            }]
        }"#,
    )
    .unwrap();

    repair_tool_call_arguments(&mut body);

    assert_eq!(arguments(&body).as_str().unwrap(), r#"{"city":"Shanghai"}"#);
    assert!(response_has_useful_output(&body));
}

#[test]
fn test_null_tool_call_arguments_are_repaired_to_empty_object_string() {
    let mut body = parse_json(
        r#"{
            "choices": [{
                "message": {
                    "role": "assistant",
                    "content": null,
                    "tool_calls": [{
                        "id": "call_1",
                        "type": "function",
                        "function": {
                            "name": "lookup",
                            "arguments": null
                        }
                    }]
                }
            }]
        }"#,
    )
    .unwrap();

    repair_tool_call_arguments(&mut body);

    assert_eq!(arguments(&body).as_str(), Some("{}"));
    assert!(response_has_useful_output(&body));
}

#[test]
fn test_empty_tool_call_shell_is_not_useful_output() {
    let body = parse_json(
        r#"{
            "choices": [{
                "message": {
                    "role": "assistant",
                    "content": "",
                    "tool_calls": [{}]
                }
            }]
        }"#,
    )
    .unwrap();

    assert!(!response_has_useful_output(&body));
}

#[test]
fn test_usage_estimation_marks_tokens_as_estimated() {
    let body = parse_json(
        r#"{
            "choices": [{
                "message": {
                    "role": "assistant",
                    "content": "12345678"
                }
            }]
        }"#,
    )
    .unwrap();

    let (prompt, completion, reported) = extract_usage_or_estimate(&body, 7);

    assert_eq!(prompt, Some(7));
    assert_eq!(completion, Some(2));
    assert!(!reported);
}

#[test]
fn compress_large_tool_context_keeps_user_messages_unchanged() {
    let request = request(vec![
        message("user", Json::string(&"x".repeat(80)), None),
        message("tool", Json::string(&"log line\n".repeat(20)), Some("call-1")),
    ]);

    let compressed = compress_large_tool_context(request, 10, |text| {
        assert!(text.contains("log line"));
        Some("compact log".to_string())
    });

    assert_eq!(
        compressed.messages[0].content.as_str(),
        Some("x".repeat(80).as_str())
    );
    assert_eq!(
        compressed.messages[1].content.as_str(),
        Some("[Compressed tool output]\ncompact log")
    );
}

#[test]
fn compress_large_tool_context_uses_original_when_compressor_fails() {
    let request = request(vec![message("tool", Json::string(&"log line\n".repeat(20)), None)]);

    let compressed = compress_large_tool_context(request, 10, |_text| None);

    assert_eq!(
        compressed.messages[0].content.as_str(),
        Some("log line\n".repeat(20).as_str())
    );
}

#[test]
fn repairing_twice_is_repairing_once() {
    let text = r#"{"choices":[{"message":{"tool_calls":[{"function":{"arguments":[1,2]}}]}}]}"#;
    let mut once = parse_json(text).unwrap();
    repair_tool_call_arguments(&mut once);
    assert_eq!(arguments(&once).as_str(), Some("[1,2]"));
    repair_tool_call_arguments(&mut once);
    assert_eq!(arguments(&once).as_str(), Some("[1,2]"));
}

#[test]
fn usage_is_taken_from_the_body() {
    let body =
        parse_json(r#"{"usage":{"prompt_tokens":11,"completion_tokens":4}}"#).unwrap();
    assert_eq!(extract_usage(&body), (Some(11), Some(4)));
    assert_eq!(extract_usage_or_estimate(&body, 7), (Some(11), Some(4), true));
    assert_eq!(extract_usage(&parse_json("{}").unwrap()), (None, None));
}

#[test]
fn contents_are_read_as_text() {
    assert_eq!(content_to_text(&Json::string("a")), "a");
    assert_eq!(content_to_text(&Json::Null), "");
    let parts = parse_json(
        r#"[{"type":"text","text":"a"},{"type":"image_url"},{"type":"text","text":"b"}]"#,
    )
    .unwrap();
    assert_eq!(content_to_text(&parts), "a\nb");
    let other = parse_json(r#"{"k": 1}"#).unwrap();
    assert_eq!(content_to_text(&other), r#"{"k":1}"#);
}

#[test]
fn images_are_seen() {
    let picture = parse_json(r#"[{"type":"image_url","image_url":{"url":"x"}}]"#).unwrap();
    assert!(request_has_vision(&vec![
        message("user", Json::string("a"), None),
        message("user", picture, None),
    ]));
    assert!(!request_has_vision(&vec![message("user", Json::string("a"), None)]));
}

#[test]
fn four_characters_are_a_token() {
    assert_eq!(estimate_text_tokens(""), 0);
    assert_eq!(estimate_text_tokens("a"), 1);
    assert_eq!(estimate_text_tokens("12345678"), 2);
    assert_eq!(estimate_text_tokens("123456789"), 3);
}
