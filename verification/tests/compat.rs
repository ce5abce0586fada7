use free_agent_gateway::api::compat::{
    answer_status, chat_to_completion_body, chat_to_response_body, completions_to_chat_request,
    embeddings_model, prepare_completions, prepare_responses, request_id,
    responses_to_chat_request,
};
use free_agent_gateway::error::GatewayError;
use free_agent_gateway::json_text::parse_json;

#[test]
fn responses_input_string_maps_to_chat_request() {
    let request = responses_to_chat_request(
        &parse_json(
            r#"{
            "model": "auto",
            "instructions": "be concise",
            "input": "hello",
            "max_output_tokens": 64
        }"#,
        )
        .unwrap(),
    )
    .unwrap();

    assert_eq!(request.model, "auto");
    assert_eq!(request.messages[0].role, "system");
    assert_eq!(request.messages[1].role, "user");
    assert_eq!(request.messages[1].content.as_str(), Some("hello"));
    assert_eq!(request.max_tokens, Some(64));
}

#[test]
fn completions_prompt_maps_to_chat_request() {
    let request = completions_to_chat_request(
        &parse_json(
            r#"{
            "model": "text-model",
            "prompt": ["a", "b"],
            "max_tokens": 12
        }"#,
        )
        .unwrap(),
    )
    .unwrap();

    assert_eq!(request.model, "text-model");
    assert_eq!(request.messages[0].content.as_str(), Some("a\nb"));
    assert_eq!(request.max_tokens, Some(12));
}

#[test]
fn chat_response_maps_to_responses_shape() {
    let body = chat_to_response_body(
        &parse_json(
            r#"{
            "model": "m",
            "choices": [{"message": {"role": "assistant", "content": "done"}}],
            "usage": {"prompt_tokens": 1, "completion_tokens": 1, "total_tokens": 2}
        }"#,
        )
        .unwrap(),
    );

    assert_eq!(body.get("object").unwrap().as_str(), Some("response"));
    assert_eq!(body.get("output_text").unwrap().as_str(), Some("done"));
    let part = body
        .get("output")
        .unwrap()
        .item(0)
        .unwrap()
        .get("content")
        .unwrap()
        .item(0)
        .unwrap();
    assert_eq!(part.get("type").unwrap().as_str(), Some("output_text"));
}

#[test]
fn a_completion_carries_the_text() {
    let chat = parse_json(
        r#"{"model":"m","choices":[{"message":{"content":"done"}}],"usage":{"total_tokens":2}}"#,
    )
    .unwrap();
    let body = chat_to_completion_body(&chat);
    assert_eq!(body.get("object").unwrap().as_str(), Some("text_completion"));
    assert_eq!(
        body.get("choices").unwrap().item(0).unwrap().get("text").unwrap().as_str(),
        Some("done")
    );
    let other = chat_to_completion_body(&chat);
    assert!(body.get("id").unwrap().as_str() != other.get("id").unwrap().as_str());
}

#[test]
fn requests_without_what_they_need_are_refused() {
    let empty = parse_json("{}").unwrap();
    assert!(matches!(responses_to_chat_request(&empty), Err(GatewayError::InvalidRequest(_))));
    assert!(matches!(completions_to_chat_request(&empty), Err(GatewayError::InvalidRequest(_))));
    assert!(matches!(embeddings_model(&empty), Err(GatewayError::InvalidRequest(_))));
    let model = parse_json(r#"{"model":"e"}"#).unwrap();
    assert_eq!(embeddings_model(&model).unwrap(), "e");
}

#[test]
fn a_request_keeps_its_identifier_or_gets_one() {
    assert_eq!(request_id(Some("mine")), "mine");
    let fresh = request_id(None);
    assert!(fresh != request_id(None));
    let body = parse_json(r#"{"model":"m","input":"x"}"#).unwrap();
    let prepared = prepare_responses(&body, "id-1").unwrap();
    assert_eq!(prepared.request_id.as_deref(), Some("id-1"));
    assert_eq!(prepared.model, "m");
}

#[test]
fn completions_do_not_stream() {
    let asked = parse_json(r#"{"model":"m","prompt":"x","stream":true}"#).unwrap();
    assert!(matches!(
        prepare_completions(&asked, "r"),
        Err(GatewayError::InvalidRequest(m)) if m == "Completions streaming is not implemented yet"
    ));
    let plain = parse_json(r#"{"model":"m","prompt":"x"}"#).unwrap();
    let request = prepare_completions(&plain, "r").unwrap();
    assert_eq!(request.request_id.as_deref(), Some("r"));
    assert_eq!(answer_status(99), 200);
    assert_eq!(answer_status(404), 404);
}

#[test]
fn new_requests_have_identifiers_of_their_own() {
    let first = request_id(None);
    let second = request_id(None);
    assert_ne!(first, second);
    assert_eq!(first.len(), 40);
    assert_eq!(&first[18..19], "4");
    assert_eq!(request_id(Some("given")), "given");
}
