//! The older and the newer OpenAI interfaces, mapped to chat completions.
use crate::clock::now_seconds;
use crate::error::{GatewayError, GatewayResult};
use crate::identifiers::{is_random_uuid, new_uuid};
use crate::json::{
    group_json_views, items_view, Json, JsonView, num, Number, NumberView, ObjectBuilder,
    update_items,
};
use crate::json_text::{json_text, text_of};
use crate::lists::{collected, collected_all, collected_next};
use crate::models::{
    ChatCompletionRequest, ChatMessage, content_text, content_to_text, get_text, low32, member_is,
    message_views, MessageView, opt_number, RequestView, StopToken, StopView, str_member,
    truncate32,
};
use crate::text::{blank, concat2, is_blank, join, joined, opt_view, views};
use vstd::prelude::*;

verus! {

// ---------------------------------------------------------------- reading
/// The number member of a value.
pub open spec fn get_number(value: JsonView, key: Seq<char>) -> Option<NumberView> {
    match value.get(key) {
        Some(JsonView::Number(n)) => Some(n),
        _ => None,
    }
}

/// The number member of a value, its low 32 bits, where it is whole and not
/// negative.
pub open spec fn get_u32(value: JsonView, key: Seq<char>) -> Option<u32> {
    match value.get(key) {
        Some(v) => match v.unsigned() {
            Some(n) => Some(low32(n as int)),
            None => None,
        },
        None => None,
    }
}

/// The truth member of a value.
pub open spec fn get_truth(value: JsonView, key: Seq<char>) -> Option<bool> {
    match value.get(key) {
        Some(v) => v.truth(),
        None => None,
    }
}

fn number_member(value: &Json, key: &str) -> (r: Option<Number>)
    ensures
        opt_number(r) == get_number(value@, key@),
{
    match value.get(key) {
        Some(Json::Number(n)) => Some(
            match n {
                Number::Unsigned(u) => Number::Unsigned(*u),
                Number::Negative(i) => Number::Negative(*i),
                Number::Float(t) => Number::Float(t.clone()),
            },
        ),
        _ => None,
    }
}

fn u32_member(value: &Json, key: &str) -> (r: Option<u32>)
    ensures
        r == get_u32(value@, key@),
{
    match value.get(key) {
        Some(v) => match v.as_u64() {
            Some(n) => Some(truncate32(n)),
            None => None,
        },
        None => None,
    }
}

fn bool_member(value: &Json, key: &str) -> (r: Option<bool>)
    ensures
        r == get_truth(value@, key@),
{
    match value.get(key) {
        Some(v) => v.as_bool(),
        None => None,
    }
}

fn owned_member(value: &Json, key: &str) -> (r: Option<String>)
    ensures
        opt_view(r) == get_text(value@, key@),
{
    match str_member(value, key) {
        Some(t) => Some(t.to_owned()),
        None => None,
    }
}

/// A message of a role with a content and nothing else.
pub open spec fn plain_message(role: Seq<char>, content: JsonView) -> MessageView {
    MessageView {
        role,
        content,
        name: None,
        tool_calls: None,
        tool_call_id: None,
        extra: Seq::empty(),
    }
}

/// A message of a role with a content and nothing else.
pub fn chat_message(role: &str, content: Json) -> (r: ChatMessage)
    ensures
        r@ == plain_message(role@, content@),
{
    let r = ChatMessage {
        role: role.to_owned(),
        content,
        name: None,
        tool_calls: None,
        tool_call_id: None,
        extra: Vec::new(),
    };
    assert(r@.extra =~= Seq::<(Seq<char>, JsonView)>::empty());
    r
}

/// The stop tokens of a request: a string, or the strings of an array.
pub open spec fn stop_of(value: Option<JsonView>) -> Option<StopView> {
    match value {
        Some(JsonView::Text(t)) => Some(StopView::Single(t)),
        Some(JsonView::Array(items)) => Some(
            StopView::Multiple(collected(items, |i: JsonView| i.text())),
        ),
        _ => None,
    }
}

/// The stop tokens of a request.
pub fn parse_stop(value: Option<&Json>) -> (r: Option<StopToken>)
    ensures
        match r {
            Some(t) => stop_of(
                match value {
                    Some(v) => Some(v@),
                    None => None,
                },
            ) == Some(t@),
            None => stop_of(
                match value {
                    Some(v) => Some(v@),
                    None => None,
                },
            ) is None,
        },
{
    broadcast use group_json_views;

    match value {
        Some(Json::Text(t)) => Some(StopToken::Single(t.clone())),
        Some(Json::Array(items)) => {
            let ghost all = items_view(items@);
            let ghost f = |i: JsonView| i.text();
            let mut list: Vec<String> = Vec::new();
            let mut i: usize = 0;
            proof {
                collected_all(all, f);
                assert(views(list@) =~= collected(all.take(0), f));
            }
            while i < items.len()
                invariant
                    i <= items@.len(),
                    all == items_view(items@),
                    f == (|i: JsonView| i.text()),
                    views(list@) == collected(all.take(i as int), f),
                decreases items@.len() - i,
            {
                proof {
                    collected_next(all, f, i as int);
                    assert(all[i as int] == items@[i as int]@);
                }
                if let Some(t) = items[i].as_str() {
                    let ghost so_far = views(list@);
                    list.push(t.to_owned());
                    assert(views(list@) =~= so_far.push(t@));
                }
                i += 1;
            }
            Some(StopToken::Multiple(list))
        },
        _ => None,
    }
}

// ---------------------------------------------------------------- responses
/// A content part of the newer interface as one of a chat completion.
pub open spec fn normal_part(part: JsonView) -> JsonView {
    if get_text(part, "type"@) == Some("input_text"@) {
        JsonView::Object(
            seq![
                ("type"@, JsonView::Text("text"@)),
                (
                    "text"@,
                    match part.get("text"@) {
                        Some(t) => t,
                        None => JsonView::Text(Seq::empty()),
                    },
                ),
            ],
        )
    } else {
        part
    }
}

/// A content of the newer interface as one of a chat completion.
pub open spec fn normal_content(content: JsonView) -> JsonView {
    content.each(|p: JsonView| normal_part(p))
}

fn normalize_part(part: Json) -> (r: Json)
    ensures
        r@ == normal_part(part@),
{
    if member_is(&part, "type", "input_text") {
        let text = match part.get("text") {
            Some(t) => t.copy(),
            None => Json::Text(String::new()),
        };
        let mut b = ObjectBuilder::new();
        b.put_text("type", "text");
        b.put("text", text);
        assert(text@ == match part@.get("text"@) {
            Some(t) => t,
            None => JsonView::Text(Seq::empty()),
        });
        assert(b@ =~= normal_part(part@)->Object_0);
        b.done()
    } else {
        part
    }
}

/// A content of the newer interface as one of a chat completion.
pub fn normalize_response_content(content: Json) -> (r: Json)
    ensures
        r@ == normal_content(content@),
{
    let change = |p: Json| -> (q: Json)
        ensures
            q@ == normal_part(p@),
        { normalize_part(p) };
    update_items(content, change, Ghost(|p: JsonView| normal_part(p)))
}

/// An input item as a message: its role, `user` where it has none; its content,
/// else its text, else the whole item as compact JSON.
pub open spec fn item_message(item: JsonView) -> MessageView {
    let role = match get_text(item, "role"@) {
        Some(r) => r,
        None => "user"@,
    };
    let content = match item.get("content"@) {
        Some(c) => c,
        None => match item.get("text"@) {
            Some(t) => t,
            None => JsonView::Text(text_of(item)),
        },
    };
    plain_message(role, normal_content(content))
}

/// The messages of an input: a string is one of the user, the items of an array
/// are one each, any other value is one of the user as compact JSON.
pub open spec fn input_messages(input: JsonView) -> Seq<MessageView> {
    match input {
        JsonView::Text(t) => seq![plain_message("user"@, JsonView::Text(t))],
        JsonView::Array(items) => items.map_values(|i: JsonView| item_message(i)),
        other => seq![plain_message("user"@, JsonView::Text(text_of(other)))],
    }
}

fn message_of_item(item: &Json) -> (r: ChatMessage)
    ensures
        r@ == item_message(item@),
{
    let content = match item.get("content") {
        Some(c) => c.copy(),
        None => match item.get("text") {
            Some(t) => t.copy(),
            None => Json::Text(json_text(item)),
        },
    };
    let role = match str_member(item, "role") {
        Some(r) => r,
        None => "user",
    };
    chat_message(role, normalize_response_content(content))
}

/// The messages of an input.
pub fn response_input_to_messages(input: &Json) -> (r: Vec<ChatMessage>)
    ensures
        message_views(r@) == input_messages(input@),
{
    broadcast use group_json_views;

    match input {
        Json::Text(t) => {
            let m = chat_message("user", Json::Text(t.clone()));
            let mut out: Vec<ChatMessage> = Vec::new();
            out.push(m);
            assert(message_views(out@) =~= input_messages(input@));
            out
        },
        Json::Array(items) => {
            let mut out: Vec<ChatMessage> = Vec::new();
            let mut i: usize = 0;
            while i < items.len()
                invariant
                    i <= items@.len(),
                    out@.len() == i,
                    forall|j: int| 0 <= j < i ==> (#[trigger] out@[j])@ == item_message(items@[j]@),
                decreases items@.len() - i,
            {
                out.push(message_of_item(&items[i]));
                i += 1;
            }
            assert(message_views(out@) =~= items_view(items@).map_values(
                |i: JsonView| item_message(i),
            ));
            out
        },
        other => {
            let m = chat_message("user", Json::Text(json_text(other)));
            let mut out: Vec<ChatMessage> = Vec::new();
            out.push(m);
            assert(message_views(out@) =~= input_messages(input@));
            out
        },
    }
}

/// The messages that a request of the newer interface makes: its instructions,
/// where they are not blank, then its input.
pub open spec fn responses_messages(body: JsonView) -> Seq<MessageView> {
    let system = match get_text(body, "instructions"@) {
        Some(t) => if is_blank(t) {
            Seq::empty()
        } else {
            seq![plain_message("system"@, JsonView::Text(t))]
        },
        None => Seq::empty(),
    };
    system + (match body.get("input"@) {
        Some(input) => input_messages(input),
        None => Seq::empty(),
    })
}

/// The chat completion that a request of the newer interface asks for.
pub open spec fn responses_request(body: JsonView) -> RequestView {
    RequestView {
        model: get_text(body, "model"@)->0,
        messages: responses_messages(body),
        temperature: get_number(body, "temperature"@),
        top_p: get_number(body, "top_p"@),
        n: None,
        stream: get_truth(body, "stream"@),
        stop: stop_of(body.get("stop"@)),
        max_tokens: if body.get("max_output_tokens"@) is Some {
            get_u32(body, "max_output_tokens"@)
        } else {
            get_u32(body, "max_tokens"@)
        },
        presence_penalty: None,
        frequency_penalty: None,
        user: get_text(body, "user"@),
        request_id: None,
        agent_name: None,
        extra: Seq::empty(),
    }
}

/// What is wrong with a request of the newer interface.
pub open spec fn responses_fault(body: JsonView) -> Option<Seq<char>> {
    if get_text(body, "model"@) is None {
        Some("Responses request missing model"@)
    } else if body.get("input"@) is None {
        Some("Responses request missing input"@)
    } else if responses_messages(body).len() == 0 {
        Some("Responses request input produced no messages"@)
    } else {
        None
    }
}

/// Whether a result is the request, or the error that names the fault.
pub open spec fn request_or_fault(
    r: GatewayResult<ChatCompletionRequest>,
    fault: Option<Seq<char>>,
    request: RequestView,
) -> bool {
    match fault {
        None => r matches Ok(q) && q@ == request,
        Some(m) => r matches Err(GatewayError::InvalidRequest(e)) && e@ == m,
    }
}

fn invalid(message: &str) -> (r: GatewayError)
    ensures
        r matches GatewayError::InvalidRequest(m) && m@ == message@,
{
    GatewayError::InvalidRequest(message.to_owned())
}

/// The chat completion that a request of the newer interface asks for.
pub fn responses_to_chat_request(body: &Json) -> (r: GatewayResult<ChatCompletionRequest>)
    ensures
        request_or_fault(r, responses_fault(body@), responses_request(body@)),
{
    let model = match str_member(body, "model") {
        Some(m) => m,
        None => {
            return Err(invalid("Responses request missing model"));
        },
    };
    let mut messages: Vec<ChatMessage> = Vec::new();
    assert(message_views(messages@) =~= Seq::<MessageView>::empty());
    if let Some(instructions) = str_member(body, "instructions") {
        if !blank(instructions) {
            let m = chat_message("system", Json::string(instructions));
            messages.push(m);
            assert(message_views(messages@) =~= seq![
                plain_message("system"@, JsonView::Text(instructions@)),
            ]);
        }
    }
    let ghost system = message_views(messages@);
    let input = match body.get("input") {
        Some(i) => i,
        None => {
            return Err(invalid("Responses request missing input"));
        },
    };
    let mut more = response_input_to_messages(input);
    let ghost given = message_views(more@);
    messages.append(&mut more);
    assert(message_views(messages@) =~= system + given);
    assert(message_views(messages@) =~= responses_messages(body@));
    if messages.len() == 0 {
        return Err(invalid("Responses request input produced no messages"));
    }
    let max_tokens: Option<u32> = if body.get("max_output_tokens").is_some() {
        u32_member(body, "max_output_tokens")
    } else {
        u32_member(body, "max_tokens")
    };
    let q = ChatCompletionRequest {
        model: model.to_owned(),
        messages,
        temperature: number_member(body, "temperature"),
        top_p: number_member(body, "top_p"),
        n: None,
        stream: bool_member(body, "stream"),
        stop: parse_stop(body.get("stop")),
        max_tokens,
        presence_penalty: None,
        frequency_penalty: None,
        user: owned_member(body, "user"),
        request_id: None,
        agent_name: None,
        extra: Vec::new(),
    };
    assert(q@.extra =~= Seq::<(Seq<char>, JsonView)>::empty());
    Ok(q)
}

/// The request of the newer interface to send on: one that asks for a stream is
/// turned away.
pub fn prepare_responses(body: &Json, request_id: &str) -> (r: GatewayResult<
    ChatCompletionRequest,
>)
    ensures
        request_or_fault(
            r,
            if responses_fault(body@) is None && responses_request(body@).stream == Some(true) {
                Some("Responses streaming is not implemented yet"@)
            } else {
                responses_fault(body@)
            },
            RequestView { request_id: Some(request_id@), ..responses_request(body@) },
        ),
{
    match responses_to_chat_request(body) {
        Ok(request) => {
            let mut request = request;
            let streams = match request.stream {
                Some(s) => s,
                None => false,
            };
            if streams {
                return Err(invalid("Responses streaming is not implemented yet"));
            }
            request.request_id = Some(request_id.to_owned());
            Ok(request)
        },
        Err(e) => Err(e),
    }
}

// ---------------------------------------------------------------- completions
/// A part of a prompt as text: a string as it is, else as compact JSON.
pub open spec fn prompt_part(part: JsonView) -> Seq<char> {
    match part {
        JsonView::Text(t) => t,
        other => text_of(other),
    }
}

/// A prompt as text: the parts of an array line by line.
pub open spec fn prompt_text(prompt: JsonView) -> Seq<char> {
    match prompt {
        JsonView::Text(t) => t,
        JsonView::Array(parts) => joined(
            parts.map_values(|p: JsonView| prompt_part(p)),
            "\n"@,
        ),
        other => text_of(other),
    }
}

fn text_of_prompt(prompt: &Json) -> (r: String)
    ensures
        r@ == prompt_text(prompt@),
{
    broadcast use group_json_views;

    match prompt {
        Json::Text(t) => t.clone(),
        Json::Array(parts) => {
            let mut texts: Vec<String> = Vec::new();
            let mut i: usize = 0;
            while i < parts.len()
                invariant
                    i <= parts@.len(),
                    texts@.len() == i,
                    forall|j: int| 0 <= j < i ==> (#[trigger] texts@[j])@ == prompt_part(parts@[j]@),
                decreases parts@.len() - i,
            {
                let t = match parts[i].as_str() {
                    Some(s) => s.to_owned(),
                    None => json_text(&parts[i]),
                };
                assert(t@ == prompt_part(parts@[i as int]@));
                texts.push(t);
                i += 1;
            }
            assert(views(texts@) =~= items_view(parts@).map_values(|p: JsonView| prompt_part(p)));
            join(&texts, "\n")
        },
        other => json_text(other),
    }
}

/// The chat completion that a request of the older interface asks for.
pub open spec fn completions_request(body: JsonView) -> RequestView {
    RequestView {
        model: get_text(body, "model"@)->0,
        messages: seq![
            plain_message("user"@, JsonView::Text(prompt_text(body.get("prompt"@)->0))),
        ],
        temperature: get_number(body, "temperature"@),
        top_p: get_number(body, "top_p"@),
        n: get_u32(body, "n"@),
        stream: Some(false),
        stop: stop_of(body.get("stop"@)),
        max_tokens: get_u32(body, "max_tokens"@),
        presence_penalty: get_number(body, "presence_penalty"@),
        frequency_penalty: get_number(body, "frequency_penalty"@),
        user: get_text(body, "user"@),
        request_id: None,
        agent_name: None,
        extra: Seq::empty(),
    }
}

/// What is wrong with a request of the older interface.
pub open spec fn completions_fault(body: JsonView) -> Option<Seq<char>> {
    if get_text(body, "model"@) is None {
        Some("Completions request missing model"@)
    } else if body.get("prompt"@) is None {
        Some("Completions request missing prompt"@)
    } else {
        None
    }
}

/// The chat completion that a request of the older interface asks for.
pub fn completions_to_chat_request(body: &Json) -> (r: GatewayResult<ChatCompletionRequest>)
    ensures
        request_or_fault(r, completions_fault(body@), completions_request(body@)),
{
    let model = match str_member(body, "model") {
        Some(m) => m,
        None => {
            return Err(invalid("Completions request missing model"));
        },
    };
    let prompt = match body.get("prompt") {
        Some(p) => p,
        None => {
            return Err(invalid("Completions request missing prompt"));
        },
    };
    let mut messages: Vec<ChatMessage> = Vec::new();
    let m = chat_message("user", Json::Text(text_of_prompt(prompt)));
    messages.push(m);
    let q = ChatCompletionRequest {
        model: model.to_owned(),
        messages,
        temperature: number_member(body, "temperature"),
        top_p: number_member(body, "top_p"),
        n: u32_member(body, "n"),
        stream: Some(false),
        stop: parse_stop(body.get("stop")),
        max_tokens: u32_member(body, "max_tokens"),
        presence_penalty: number_member(body, "presence_penalty"),
        frequency_penalty: number_member(body, "frequency_penalty"),
        user: owned_member(body, "user"),
        request_id: None,
        agent_name: None,
        extra: Vec::new(),
    };
    assert(q@.messages =~= completions_request(body@).messages);
    assert(q@.extra =~= Seq::<(Seq<char>, JsonView)>::empty());
    Ok(q)
}

/// The request of the older interface to send on: one that asks for a stream is
/// turned away before anything else.
pub fn prepare_completions(body: &Json, request_id: &str) -> (r: GatewayResult<
    ChatCompletionRequest,
>)
    ensures
        request_or_fault(
            r,
            if get_truth(body@, "stream"@) == Some(true) {
                Some("Completions streaming is not implemented yet"@)
            } else {
                completions_fault(body@)
            },
            RequestView { request_id: Some(request_id@), ..completions_request(body@) },
        ),
{
    let streams = match bool_member(body, "stream") {
        Some(s) => s,
        None => false,
    };
    if streams {
        return Err(invalid("Completions streaming is not implemented yet"));
    }
    match completions_to_chat_request(body) {
        Ok(request) => {
            let mut request = request;
            request.request_id = Some(request_id.to_owned());
            Ok(request)
        },
        Err(e) => Err(e),
    }
}

/// The model of a request for embeddings.
pub fn embeddings_model(body: &Json) -> (r: GatewayResult<String>)
    ensures
        match get_text(body@, "model"@) {
            Some(m) => r matches Ok(model) && model@ == m,
            None => r matches Err(GatewayError::InvalidRequest(e)) && e@
                == "Embeddings request missing model"@,
        },
{
    match str_member(body, "model") {
        Some(m) => Ok(m.to_owned()),
        None => Err(invalid("Embeddings request missing model")),
    }
}

/// The status to answer with: that of the provider, or 200 where it is none.
pub fn answer_status(status: u16) -> (r: u16)
    ensures
        r == if 100 <= status <= 999 {
            status
        } else {
            200
        },
{
    if 100 <= status && status <= 999 {
        status
    } else {
        200
    }
}

/// Whether a text is a new identifier of a request.
pub open spec fn is_new_request_id(text: Seq<char>) -> bool {
    exists|id: Seq<char>| #[trigger] is_random_uuid(id) && text == "req-"@ + id
}

/// The identifier of a request: that of its header, else a new one.
pub fn request_id(header: Option<&str>) -> (r: String)
    ensures
        match header {
            Some(h) => r@ == h@,
            None => is_new_request_id(r@),
        },
{
    match header {
        Some(h) => h.to_owned(),
        None => {
            let id = new_uuid();
            assert(is_random_uuid(id@));
            concat2("req-", id.as_str())
        },
    }
}

// ---------------------------------------------------------------- answers
/// The first choice of a response.
pub open spec fn first_choice(chat: JsonView) -> Option<JsonView> {
    match chat.get("choices"@) {
        Some(c) => c.item(0),
        None => None,
    }
}

/// What the assistant says in the first choice of a response.
pub open spec fn assistant_text(chat: JsonView) -> Seq<char> {
    match first_choice(chat) {
        Some(choice) => match choice.get("message"@) {
            Some(message) => match message.get("content"@) {
                Some(content) => content_text(content),
                None => Seq::empty(),
            },
            None => Seq::empty(),
        },
        None => Seq::empty(),
    }
}

fn first_choice_of(chat: &Json) -> (r: Option<&Json>)
    ensures
        match r {
            Some(c) => first_choice(chat@) == Some(c@),
            None => first_choice(chat@) is None,
        },
{
    match chat.get("choices") {
        Some(c) => c.item(0),
        None => None,
    }
}

/// What the assistant says in the first choice of a response.
pub fn first_assistant_text(chat: &Json) -> (r: String)
    ensures
        r@ == assistant_text(chat@),
{
    match first_choice_of(chat) {
        Some(choice) => match choice.get("message") {
            Some(message) => match message.get("content") {
                Some(content) => content_to_text(content),
                None => String::new(),
            },
            None => String::new(),
        },
        None => String::new(),
    }
}

/// A member of a value, `null` where it has none.
pub open spec fn member_or_null(value: JsonView, key: Seq<char>) -> JsonView {
    match value.get(key) {
        Some(v) => v,
        None => JsonView::Null,
    }
}

/// A copy of a member of a value, `null` where it has none.
pub fn copy_member(value: &Json, key: &str) -> (r: Json)
    ensures
        r@ == member_or_null(value@, key@),
{
    match value.get(key) {
        Some(v) => v.copy(),
        None => Json::Null,
    }
}

/// A chat completion as an answer of the newer interface.
pub open spec fn response_body(chat: JsonView, id: Seq<char>, created: u64) -> JsonView {
    let text = JsonView::Text(assistant_text(chat));
    let part = JsonView::Object(
        seq![("type"@, JsonView::Text("output_text"@)), ("text"@, text)],
    );
    let message = JsonView::Object(
        seq![
            ("type"@, JsonView::Text("message"@)),
            ("role"@, JsonView::Text("assistant"@)),
            ("content"@, JsonView::Array(seq![part])),
        ],
    );
    JsonView::Object(
        seq![
            ("id"@, JsonView::Text(id)),
            ("object"@, JsonView::Text("response"@)),
            ("created_at"@, num(created)),
            ("status"@, JsonView::Text("completed"@)),
            ("model"@, member_or_null(chat, "model"@)),
            ("output"@, JsonView::Array(seq![message])),
            ("output_text"@, text),
            ("usage"@, member_or_null(chat, "usage"@)),
        ],
    )
}

/// An array of one item.
pub fn array_of_one(item: Json) -> (r: Json)
    ensures
        r@ == JsonView::Array(seq![item@]),
{
    broadcast use group_json_views;

    let mut items: Vec<Json> = Vec::new();
    items.push(item);
    assert(items_view(items@) =~= seq![item@]);
    Json::Array(items)
}

/// A chat completion as an answer of the newer interface.
pub fn chat_to_response_body_with(chat: &Json, id: &str, created: u64) -> (r: Json)
    ensures
        r@ == response_body(chat@, id@, created),
{
    let text = first_assistant_text(chat);
    let mut part = ObjectBuilder::new();
    part.put_text("type", "output_text");
    part.put_text("text", text.as_str());
    assert(part@ =~= seq![
        ("type"@, JsonView::Text("output_text"@)),
        ("text"@, JsonView::Text(text@)),
    ]);
    let content = array_of_one(part.done());
    let mut message = ObjectBuilder::new();
    message.put_text("type", "message");
    message.put_text("role", "assistant");
    message.put("content", content);
    assert(message@ =~= seq![
        ("type"@, JsonView::Text("message"@)),
        ("role"@, JsonView::Text("assistant"@)),
        ("content"@, content@),
    ]);
    let output = array_of_one(message.done());
    let mut body = ObjectBuilder::new();
    body.put_text("id", id);
    body.put_text("object", "response");
    body.put_num("created_at", created);
    body.put_text("status", "completed");
    body.put("model", copy_member(chat, "model"));
    body.put("output", output);
    body.put_text("output_text", text.as_str());
    body.put("usage", copy_member(chat, "usage"));
    assert(body@ =~= response_body(chat@, id@, created)->Object_0);
    body.done()
}

/// A chat completion as an answer of the newer interface, under a new
/// identifier.
pub fn chat_to_response_body(chat: &Json) -> (r: Json)
    ensures
        exists|id: Seq<char>, created: u64|
            is_random_uuid(id) && r@ == #[trigger] response_body(chat@, "resp-"@ + id, created),
{
    let uuid = new_uuid();
    let id = concat2("resp-", uuid.as_str());
    let created = now_seconds();
    let r = chat_to_response_body_with(chat, id.as_str(), created);
    assert(r@ == response_body(chat@, "resp-"@ + uuid@, created));
    r
}

/// A chat completion as an answer of the older interface.
pub open spec fn completion_body(chat: JsonView, id: Seq<char>, created: u64) -> JsonView {
    let choice = JsonView::Object(
        seq![
            ("text"@, JsonView::Text(assistant_text(chat))),
            ("index"@, num(0)),
            ("logprobs"@, JsonView::Null),
            (
                "finish_reason"@,
                match first_choice(chat) {
                    Some(c) => member_or_null(c, "finish_reason"@),
                    None => JsonView::Null,
                },
            ),
        ],
    );
    JsonView::Object(
        seq![
            ("id"@, JsonView::Text(id)),
            ("object"@, JsonView::Text("text_completion"@)),
            ("created"@, num(created)),
            ("model"@, member_or_null(chat, "model"@)),
            ("choices"@, JsonView::Array(seq![choice])),
            ("usage"@, member_or_null(chat, "usage"@)),
        ],
    )
}

/// A chat completion as an answer of the older interface.
pub fn chat_to_completion_body_with(chat: &Json, id: &str, created: u64) -> (r: Json)
    ensures
        r@ == completion_body(chat@, id@, created),
{
    let text = first_assistant_text(chat);
    let finish = match first_choice_of(chat) {
        Some(c) => copy_member(c, "finish_reason"),
        None => Json::Null,
    };
    assert(finish@ == match first_choice(chat@) {
        Some(c) => member_or_null(c, "finish_reason"@),
        None => JsonView::Null,
    });
    let mut choice = ObjectBuilder::new();
    choice.put_text("text", text.as_str());
    choice.put_num("index", 0);
    choice.put("logprobs", Json::Null);
    choice.put("finish_reason", finish);
    assert(choice@ =~= completion_body(
        chat@,
        id@,
        created,
    )->Object_0[4].1->Array_0[0]->Object_0);
    let choices = array_of_one(choice.done());
    let mut body = ObjectBuilder::new();
    body.put_text("id", id);
    body.put_text("object", "text_completion");
    body.put_num("created", created);
    body.put("model", copy_member(chat, "model"));
    body.put("choices", choices);
    body.put("usage", copy_member(chat, "usage"));
    assert(body@ =~= completion_body(chat@, id@, created)->Object_0);
    body.done()
}

/// A chat completion as an answer of the older interface, under a new
/// identifier.
pub fn chat_to_completion_body(chat: &Json) -> (r: Json)
    ensures
        exists|id: Seq<char>, created: u64|
            is_random_uuid(id) && r@ == #[trigger] completion_body(chat@, "cmpl-"@ + id, created),
{
    let uuid = new_uuid();
    let id = concat2("cmpl-", uuid.as_str());
    let created = now_seconds();
    let r = chat_to_completion_body_with(chat, id.as_str(), created);
    assert(r@ == completion_body(chat@, "cmpl-"@ + uuid@, created));
    r
}

// ---------------------------------------------------------------- laws
/// Every item of an input becomes one message: nothing a client says is
/// dropped or doubled.
pub proof fn every_input_item_is_a_message(items: Seq<JsonView>)
    ensures
        input_messages(JsonView::Array(items)).len() == items.len(),
        forall|i: int|
            0 <= i < items.len() ==> (#[trigger] input_messages(JsonView::Array(items))[i])
                == item_message(items[i]),
{
}

/// A request of the newer interface that is taken has messages, and those of
/// its instructions come first.
pub proof fn instructions_come_first(body: JsonView)
    requires
        responses_fault(body) is None,
        get_text(body, "instructions"@) matches Some(t) && !is_blank(t),
    ensures
        responses_request(body).messages.len() > 0,
        responses_request(body).messages[0] == plain_message(
            "system"@,
            JsonView::Text(get_text(body, "instructions"@)->0),
        ),
{
}

} // verus!
