//! OpenAI-compatible requests and responses: what they hold, what is read from
//! them and what is repaired in them.
pub use crate::keystate::{KeyState, KeyStatus};
use crate::json::{
    each_is_idempotent, get_in, group_json_views, items_view, Json, JsonView, members_view, Number,
    NumberView, opt_json, update_items, update_member, updated_is_idempotent,
};
use crate::json_text::{json_text, text_of};
use crate::keystate::plus32;
use crate::lists::{collected, collected_all, collected_next, total32};
use crate::text::{blank, char_count, concat2, is_blank, join, joined, opt_view, same, views};
use vstd::prelude::*;

verus! {

// ---------------------------------------------------------------- requests
/// A chat completion request. Numbers with a fraction are kept as they were
/// read; fields that the gateway does not know are kept in `extra`.
#[derive(Debug)]
pub struct ChatCompletionRequest {
    pub model: String,
    pub messages: Vec<ChatMessage>,
    pub temperature: Option<Number>,
    pub top_p: Option<Number>,
    pub n: Option<u32>,
    pub stream: Option<bool>,
    pub stop: Option<StopToken>,
    pub max_tokens: Option<u32>,
    pub presence_penalty: Option<Number>,
    pub frequency_penalty: Option<Number>,
    pub user: Option<String>,
    /// Set by the gateway for request tracking. Never sent upstream.
    pub request_id: Option<String>,
    /// Set by the gateway to track agent context.
    pub agent_name: Option<String>,
    /// All other fields, forwarded verbatim to the upstream provider.
    pub extra: Vec<(String, Json)>,
}

#[derive(Debug)]
pub enum StopToken {
    Single(String),
    Multiple(Vec<String>),
}

#[derive(Debug)]
pub struct ChatMessage {
    pub role: String,
    pub content: Json,
    pub name: Option<String>,
    pub tool_calls: Option<Json>,
    pub tool_call_id: Option<String>,
    /// Any other message fields, forwarded verbatim.
    pub extra: Vec<(String, Json)>,
}

/// What a [`ChatMessage`] holds.
pub struct MessageView {
    pub role: Seq<char>,
    pub content: JsonView,
    pub name: Option<Seq<char>>,
    pub tool_calls: Option<JsonView>,
    pub tool_call_id: Option<Seq<char>>,
    pub extra: Seq<(Seq<char>, JsonView)>,
}

impl View for ChatMessage {
    type V = MessageView;

    open spec fn view(&self) -> MessageView {
        MessageView {
            role: self.role@,
            content: self.content@,
            name: opt_view(self.name),
            tool_calls: opt_json(self.tool_calls),
            tool_call_id: opt_view(self.tool_call_id),
            extra: members_view(self.extra@),
        }
    }
}

/// The views of some messages.
pub open spec fn message_views(messages: Seq<ChatMessage>) -> Seq<MessageView> {
    messages.map_values(|m: ChatMessage| m@)
}

/// What a [`StopToken`] holds.
pub enum StopView {
    Single(Seq<char>),
    Multiple(Seq<Seq<char>>),
}

impl View for StopToken {
    type V = StopView;

    open spec fn view(&self) -> StopView {
        match self {
            StopToken::Single(t) => StopView::Single(t@),
            StopToken::Multiple(list) => StopView::Multiple(views(list@)),
        }
    }
}

/// What a [`ChatCompletionRequest`] holds.
pub struct RequestView {
    pub model: Seq<char>,
    pub messages: Seq<MessageView>,
    pub temperature: Option<NumberView>,
    pub top_p: Option<NumberView>,
    pub n: Option<u32>,
    pub stream: Option<bool>,
    pub stop: Option<StopView>,
    pub max_tokens: Option<u32>,
    pub presence_penalty: Option<NumberView>,
    pub frequency_penalty: Option<NumberView>,
    pub user: Option<Seq<char>>,
    pub request_id: Option<Seq<char>>,
    pub agent_name: Option<Seq<char>>,
    pub extra: Seq<(Seq<char>, JsonView)>,
}

/// The view of an optional number.
pub open spec fn opt_number(n: Option<Number>) -> Option<NumberView> {
    match n {
        Some(v) => Some(v@),
        None => None,
    }
}

impl View for ChatCompletionRequest {
    type V = RequestView;

    open spec fn view(&self) -> RequestView {
        RequestView {
            model: self.model@,
            messages: message_views(self.messages@),
            temperature: opt_number(self.temperature),
            top_p: opt_number(self.top_p),
            n: self.n,
            stream: self.stream,
            stop: match self.stop {
                Some(t) => Some(t@),
                None => None,
            },
            max_tokens: self.max_tokens,
            presence_penalty: opt_number(self.presence_penalty),
            frequency_penalty: opt_number(self.frequency_penalty),
            user: opt_view(self.user),
            request_id: opt_view(self.request_id),
            agent_name: opt_view(self.agent_name),
            extra: members_view(self.extra@),
        }
    }
}

/// A single content part in a message (text or image_url).
#[derive(Debug)]
pub enum ContentPart {
    Text { text: String },
    ImageUrl { image_url: ImageUrl },
}

/// Image URL details for vision requests.
#[derive(Debug)]
pub struct ImageUrl {
    pub url: String,
    pub detail: Option<String>,
}

// ---------------------------------------------------------------- responses
#[derive(Debug)]
pub struct ChatCompletionResponse {
    pub id: String,
    pub object: String,
    pub created: i64,
    pub model: String,
    pub choices: Vec<ChatChoice>,
    pub usage: Option<Usage>,
    pub system_fingerprint: Option<String>,
}

#[derive(Debug)]
pub struct ChatChoice {
    pub index: usize,
    pub message: ChatMessage,
    pub finish_reason: Option<String>,
}

#[derive(Debug, Clone, Copy, PartialEq, Eq, Structural)]
pub struct Usage {
    pub prompt_tokens: u32,
    pub completion_tokens: u32,
    pub total_tokens: u32,
}

/// A chunk of a streamed response.
#[derive(Debug)]
pub struct ChatCompletionChunk {
    pub id: String,
    pub object: String,
    pub created: i64,
    pub model: String,
    pub choices: Vec<ChunkChoice>,
    pub system_fingerprint: Option<String>,
}

#[derive(Debug)]
pub struct ChunkChoice {
    pub index: usize,
    pub delta: ChunkDelta,
    pub finish_reason: Option<String>,
}

#[derive(Debug)]
pub struct ChunkDelta {
    pub role: Option<String>,
    pub content: Option<String>,
}

/// A list of models.
#[derive(Debug)]
pub struct ModelsResponse {
    pub object: String,
    pub data: Vec<ModelInfo>,
}

/// A model and what is known of it. Prices are kept as they were read.
#[derive(Debug)]
pub struct ModelInfo {
    pub id: String,
    pub object: String,
    pub created: i64,
    pub owned_by: String,
    pub provider: Option<String>,
    /// Context window (token limit) from metadata DB.
    pub context_window: Option<i64>,
    /// Whether the model supports vision/image inputs.
    pub supports_vision: Option<bool>,
    /// Whether the model supports tool/function calling.
    pub supports_tools: Option<bool>,
    /// Whether the model supports reasoning (e.g. chain-of-thought).
    pub supports_reasoning: Option<bool>,
    /// Prompt price per 1M tokens (USD).
    pub pricing_prompt: Option<Number>,
    /// Completion price per 1M tokens (USD).
    pub pricing_completion: Option<Number>,
}

// ---------------------------------------------------------------- gateway state
#[derive(Debug)]
pub struct HealthState {
    pub provider: String,
    pub status: String,
    pub latency_ms: u64,
    pub success_count: u64,
    pub fail_count: u64,
    pub last_error: String,
    pub cooldown_until: Option<u64>,
    pub models_count: usize,
    pub available_keys: usize,
    pub total_keys: usize,
}

/// The models of a provider as they were discovered.
#[derive(Debug)]
pub struct ProviderModels {
    pub provider: String,
    pub models: Vec<String>,
    pub updated_at: i64,
}

#[derive(Debug)]
pub struct GatewayStatus {
    pub version: String,
    pub uptime_seconds: u64,
    pub providers: Vec<HealthState>,
    pub total_requests: u64,
    pub total_errors: u64,
}

// ---------------------------------------------------------------- vision
/// Whether a part of a message is an image.
pub open spec fn is_image_part(part: JsonView) -> bool {
    get_text(part, "type"@) == Some("image_url"@)
}

/// The string member of a value.
pub open spec fn get_text(value: JsonView, key: Seq<char>) -> Option<Seq<char>> {
    match value.get(key) {
        Some(v) => v.text(),
        None => None,
    }
}

/// Whether a content holds an image.
pub open spec fn has_image(content: JsonView) -> bool {
    content matches JsonView::Array(parts) && exists|i: int|
        0 <= i < parts.len() && is_image_part(#[trigger] parts[i])
}

/// The string member of a value.
pub fn str_member<'a>(value: &'a Json, key: &str) -> (r: Option<&'a str>)
    ensures
        match r {
            Some(t) => get_text(value@, key@) == Some(t@),
            None => get_text(value@, key@) is None,
        },
{
    match value.get(key) {
        Some(v) => v.as_str(),
        None => None,
    }
}

/// Whether a string member has a given value.
pub fn member_is(value: &Json, key: &str, text: &str) -> (r: bool)
    ensures
        r == (get_text(value@, key@) == Some(text@)),
{
    match str_member(value, key) {
        Some(t) => same(t, text),
        None => false,
    }
}

/// Check if a chat message contains image content (vision input).
pub fn message_has_vision(msg: &ChatMessage) -> (r: bool)
    ensures
        r == has_image(msg@.content),
{
    match msg.content.as_array() {
        Some(parts) => {
            let mut i: usize = 0;
            while i < parts.len()
                invariant
                    i <= parts@.len(),
                    msg@.content == JsonView::Array(items_view(parts@)),
                    forall|j: int| 0 <= j < i ==> !is_image_part(#[trigger] items_view(parts@)[j]),
                decreases parts@.len() - i,
            {
                if member_is(&parts[i], "type", "image_url") {
                    assert(msg@.content->Array_0[i as int] == parts@[i as int]@);
assert(is_image_part(items_view(parts@)[i as int]));
                    return true;
                }
                i += 1;
            }
            false
        },
        None => false,
    }
}

/// Whether any of some messages shows an image.
pub open spec fn any_vision(messages: Seq<MessageView>) -> bool {
    exists|i: int| 0 <= i < messages.len() && has_image((#[trigger] messages[i]).content)
}

/// Check if any message in a request contains image content.
pub fn request_has_vision(messages: &Vec<ChatMessage>) -> (r: bool)
    ensures
        r == any_vision(message_views(messages@)),
{
    let mut i: usize = 0;
    while i < messages.len()
        invariant
            i <= messages@.len(),
            forall|j: int| 0 <= j < i ==> !has_image(#[trigger] messages@[j]@.content),
        decreases messages@.len() - i,
    {
        if message_has_vision(&messages[i]) {
            assert(message_views(messages@)[i as int] == messages@[i as int]@);
            return true;
        }
        i += 1;
    }
    false
}

// ---------------------------------------------------------------- tokens
/// The low 32 bits of a number.
pub open spec fn low32(n: int) -> u32 {
    (n % 0x1_0000_0000) as u32
}

/// The low 32 bits of a number.
pub fn truncate32(n: u64) -> (r: u32)
    ensures
        r == low32(n as int),
{
    let r: u32 = (n % 0x1_0000_0000) as u32;
    r
}

/// How many tokens a text is taken for: one for every four characters begun.
pub open spec fn token_estimate(text: Seq<char>) -> u32 {
    let chars = low32(text.len() as int);
    ((chars + 3) / 4) as u32
}

/// How many tokens a text is taken for: one for every four characters begun.
pub fn estimate_text_tokens(text: &str) -> (r: u32)
    ensures
        r == token_estimate(text@),
{
    let chars: u32 = truncate32(char_count(text) as u64);
    ((chars as u64 + 3) / 4) as u32
}

/// The text of a content part, where it has one.
pub open spec fn part_text(part: JsonView) -> Option<Seq<char>> {
    if get_text(part, "text"@) is Some {
        get_text(part, "text"@)
    } else if get_text(part, "type"@) == Some("input_text"@) {
        get_text(part, "input_text"@)
    } else {
        None
    }
}

/// What a content says: a string as it is, the texts of parts line by line,
/// nothing for `null`, any other value as compact JSON.
pub open spec fn content_text(content: JsonView) -> Seq<char> {
    match content {
        JsonView::Text(t) => t,
        JsonView::Array(parts) => joined(collected(parts, |p: JsonView| part_text(p)), "\n"@),
        JsonView::Null => Seq::empty(),
        other => text_of(other),
    }
}

fn text_of_part(part: &Json) -> (r: Option<String>)
    ensures
        opt_view(r) == part_text(part@),
{
    match str_member(part, "text") {
        Some(t) => Some(t.to_owned()),
        None => {
            if member_is(part, "type", "input_text") {
                match str_member(part, "input_text") {
                    Some(t) => Some(t.to_owned()),
                    None => None,
                }
            } else {
                None
            }
        },
    }
}

/// What a content says.
pub fn content_to_text(content: &Json) -> (r: String)
    ensures
        r@ == content_text(content@),
{
    broadcast use group_json_views;

    match content {
        Json::Text(t) => t.clone(),
        Json::Array(parts) => {
            let ghost all = items_view(parts@);
            let ghost f = |p: JsonView| part_text(p);
            let mut texts: Vec<String> = Vec::new();
            let mut i: usize = 0;
            proof {
                collected_all(all, f);
                assert(views(texts@) =~= collected(all.take(0), f));
            }
            while i < parts.len()
                invariant
                    i <= parts@.len(),
                    all == items_view(parts@),
                    f == (|p: JsonView| part_text(p)),
                    views(texts@) == collected(all.take(i as int), f),
                decreases parts@.len() - i,
            {
                proof {
                    collected_next(all, f, i as int);
                    assert(all[i as int] == parts@[i as int]@);
                }
                if let Some(t) = text_of_part(&parts[i]) {
                    let ghost so_far = views(texts@);
                    texts.push(t);
                    assert(views(texts@) =~= so_far.push(t@));
                }
                i += 1;
            }
            join(&texts, "\n")
        },
        Json::Null => String::new(),
        other => json_text(other),
    }
}

/// How many tokens a message is taken for: its content, its tool calls and the
/// call that it answers.
pub open spec fn message_tokens(m: MessageView) -> u32 {
    let content = token_estimate(content_text(m.content));
    let calls = match m.tool_calls {
        Some(c) => plus32(content, token_estimate(text_of(c))),
        None => content,
    };
    match m.tool_call_id {
        Some(id) => plus32(calls, token_estimate(id)),
        None => calls,
    }
}

/// How many tokens some messages are taken for.
pub fn estimate_message_tokens(messages: &Vec<ChatMessage>) -> (r: u32)
    ensures
        r == total32(message_views(messages@), |m: MessageView| message_tokens(m)),
{
    let ghost all = message_views(messages@);
    let ghost f = |m: MessageView| message_tokens(m);
    let mut sum: u32 = 0;
    let mut i: usize = 0;
    assert(all.take(0) =~= Seq::<MessageView>::empty());
    while i < messages.len()
        invariant
            i <= messages@.len(),
            all == message_views(messages@),
            f == (|m: MessageView| message_tokens(m)),
            sum == total32(all.take(i as int), f),
        decreases messages@.len() - i,
    {
        let message = &messages[i];
        let mut total: u32 = estimate_text_tokens(content_to_text(&message.content).as_str());
        if let Some(tool_calls) = &message.tool_calls {
            total = total.saturating_add(estimate_text_tokens(json_text(tool_calls).as_str()));
        }
        if let Some(tool_call_id) = &message.tool_call_id {
            total = total.saturating_add(estimate_text_tokens(tool_call_id.as_str()));
        }
        assert(total == message_tokens(message@));
        assert(all.take(i + 1).drop_last() =~= all.take(i as int));
        sum = sum.saturating_add(total);
        i += 1;
    }
    assert(all.take(all.len() as int) =~= all);
    sum
}

/// The token counts that a response reports.
pub open spec fn usage_of(body: JsonView, key: Seq<char>) -> Option<u32> {
    match get_in(body.get("usage"@), key) {
        Some(v) => match v.unsigned() {
            Some(n) => Some(low32(n as int)),
            None => None,
        },
        None => None,
    }
}

fn usage_member(body: &Json, key: &str) -> (r: Option<u32>)
    ensures
        r == usage_of(body@, key@),
{
    match body.get("usage") {
        Some(usage) => match usage.get(key) {
            Some(v) => match v.as_u64() {
                Some(n) => Some(truncate32(n)),
                None => None,
            },
            None => None,
        },
        None => None,
    }
}

/// Extract total token counts from a chat completion response body.
pub fn extract_usage(body: &Json) -> (r: (Option<u32>, Option<u32>))
    ensures
        r == (usage_of(body@, "prompt_tokens"@), usage_of(body@, "completion_tokens"@)),
{
    (usage_member(body, "prompt_tokens"), usage_member(body, "completion_tokens"))
}

/// How many tokens the message of a choice is taken for.
pub open spec fn choice_tokens(choice: JsonView) -> u32 {
    match choice.get("message"@) {
        None => 0,
        Some(message) => {
            let content = match message.get("content"@) {
                Some(c) => token_estimate(content_text(c)),
                None => 0,
            };
            match message.get("tool_calls"@) {
                Some(calls) => plus32(content, token_estimate(text_of(calls))),
                None => content,
            }
        },
    }
}

/// How many tokens the choices of a response are taken for.
pub open spec fn completion_estimate(body: JsonView) -> u32 {
    match body.get("choices"@) {
        Some(JsonView::Array(choices)) => total32(choices, |c: JsonView| choice_tokens(c)),
        _ => 0,
    }
}

/// The token counts that a response reports, else estimates; whether they were
/// reported.
pub open spec fn usage_or_estimate(body: JsonView, prompt_estimate: u32) -> (
    Option<u32>,
    Option<u32>,
    bool,
) {
    let prompt = usage_of(body, "prompt_tokens"@);
    let completion = usage_of(body, "completion_tokens"@);
    if prompt is Some || completion is Some {
        (prompt, completion, true)
    } else {
        (Some(prompt_estimate), Some(completion_estimate(body)), false)
    }
}

fn estimate_choice_tokens(choice: &Json) -> (r: u32)
    ensures
        r == choice_tokens(choice@),
{
    match choice.get("message") {
        None => 0,
        Some(message) => {
            let mut total: u32 = match message.get("content") {
                Some(content) => estimate_text_tokens(content_to_text(content).as_str()),
                None => 0,
            };
            if let Some(tool_calls) = message.get("tool_calls") {
                total = total.saturating_add(estimate_text_tokens(json_text(tool_calls).as_str()));
            }
            total
        },
    }
}

/// The token counts that a response reports, else estimates; whether they were
/// reported.
pub fn extract_usage_or_estimate(body: &Json, prompt_estimate: u32) -> (r: (
    Option<u32>,
    Option<u32>,
    bool,
))
    ensures
        r == usage_or_estimate(body@, prompt_estimate),
{
    let (prompt, completion) = extract_usage(body);
    if prompt.is_some() || completion.is_some() {
        return (prompt, completion, true);
    }
    let estimate: u32 = match body.get("choices") {
        Some(value) => match value.as_array() {
            Some(choices) => {
                let ghost all = items_view(choices@);
                let ghost f = |c: JsonView| choice_tokens(c);
                let mut sum: u32 = 0;
                let mut i: usize = 0;
                assert(all.take(0) =~= Seq::<JsonView>::empty());
                while i < choices.len()
                    invariant
                        i <= choices@.len(),
                        all == items_view(choices@),
                        f == (|c: JsonView| choice_tokens(c)),
                        sum == total32(all.take(i as int), f),
                    decreases choices@.len() - i,
                {
                    assert(all.take(i + 1).drop_last() =~= all.take(i as int));
                    assert(all[i as int] == choices@[i as int]@);
                    sum = sum.saturating_add(estimate_choice_tokens(&choices[i]));
                    i += 1;
                }
                assert(all.take(all.len() as int) =~= all);
                sum
            },
            None => 0,
        },
        None => 0,
    };
    (Some(prompt_estimate), Some(estimate), false)
}

// ---------------------------------------------------------------- compression
/// A message after a compressor was asked: a tool output of enough tokens is
/// replaced by what the compressor made of it, unless that is blank.
pub open spec fn compressed_message(
    m: MessageView,
    min_tokens: u32,
    compacted: Option<Seq<char>>,
) -> MessageView {
    if wants_compression(m, min_tokens) && compacted is Some && !is_blank(compacted->0) {
        MessageView {
            content: JsonView::Text("[Compressed tool output]\n"@ + compacted->0),
            ..m
        }
    } else {
        m
    }
}

/// Whether a message is a tool output of enough tokens.
pub open spec fn wants_compression(m: MessageView, min_tokens: u32) -> bool {
    m.role == "tool"@ && token_estimate(content_text(m.content)) >= min_tokens
}

/// Whether a message is what it was, or what the compressor made of it.
pub open spec fn compressed_by<F: Fn(&str) -> Option<String>>(
    before: MessageView,
    after: MessageView,
    min_tokens: u32,
    compressor: F,
) -> bool {
    if wants_compression(before, min_tokens) {
        exists|text: &str, out: Option<String>| #[trigger]
            call_ensures(compressor, (text,), out) && text@ == content_text(before.content)
                && after == compressed_message(before, min_tokens, opt_view(out))
    } else {
        after == before
    }
}

/// Compacts the outputs of tools that are taken for at least
/// `min_message_tokens` tokens; every other message stays as it is.
pub fn compress_large_tool_context<F: Fn(&str) -> Option<String>>(
    request: ChatCompletionRequest,
    min_message_tokens: u32,
    compressor: F,
) -> (r: ChatCompletionRequest)
    requires
        forall|text: &str| call_requires(compressor, (text,)),
    ensures
        r.messages@.len() == request.messages@.len(),
        forall|i: int|
            0 <= i < r.messages@.len() ==> compressed_by(
                request.messages@[i]@,
                (#[trigger] r.messages@[i])@,
                min_message_tokens,
                compressor,
            ),
        r == (ChatCompletionRequest { messages: r.messages, ..request }),
{
    let mut request = request;
    let ghost given = request;
    let mut i: usize = 0;
    while i < request.messages.len()
        invariant
            i <= request.messages@.len(),
            request.messages@.len() == given.messages@.len(),
            request == (ChatCompletionRequest { messages: request.messages, ..given }),
            forall|text: &str| call_requires(compressor, (text,)),
            forall|j: int|
                0 <= j < i ==> compressed_by(
                    given.messages@[j]@,
                    (#[trigger] request.messages@[j])@,
                    min_message_tokens,
                    compressor,
                ),
            forall|j: int|
                i <= j < given.messages@.len() ==> #[trigger] request.messages@[j]
                    == given.messages@[j],
        decreases request.messages@.len() - i,
    {
        let ghost mid = request.messages@;
        assert(mid[i as int] == given.messages@[i as int]);
        if same(request.messages[i].role.as_str(), "tool") {
            let text = content_to_text(&request.messages[i].content);
            if estimate_text_tokens(text.as_str()) >= min_message_tokens {
                let slice = text.as_str();
                let out = compressor(slice);
                assert(call_ensures(compressor, (slice,), out));
                if let Some(compacted) = &out {
                    if !blank(compacted.as_str()) {
                        let content = Json::Text(
                            concat2("[Compressed tool output]\n", compacted.as_str()),
                        );
                        request.messages[i].content = content;
                        assert(request.messages@ == mid.update(
                            i as int,
                            request.messages@[i as int],
                        ));
                    }
                }
                assert(request.messages@[i as int]@ == compressed_message(
                    given.messages@[i as int]@,
                    min_message_tokens,
                    opt_view(out),
                ));
            }
        }
        i += 1;
    }
    request
}

// ---------------------------------------------------------------- useful output
/// Whether a tool call names a function.
pub open spec fn names_function(call: JsonView) -> bool {
    match get_in(call.get("function"@), "name"@) {
        Some(name) => name matches JsonView::Text(t) && !is_blank(t),
        None => false,
    }
}

/// Whether a choice says something or calls a tool.
pub open spec fn useful_choice(choice: JsonView) -> bool {
    match choice.get("message"@) {
        None => false,
        Some(message) => {
            ||| message.get("content"@) matches Some(c) && !is_blank(content_text(c))
            ||| message.get("tool_calls"@) matches Some(JsonView::Array(calls)) && exists|i: int|
                0 <= i < calls.len() && names_function(#[trigger] calls[i])
        },
    }
}

/// Whether a response holds a useful choice.
pub open spec fn useful_response(body: JsonView) -> bool {
    body.get("choices"@) matches Some(JsonView::Array(choices)) && exists|i: int|
        0 <= i < choices.len() && useful_choice(#[trigger] choices[i])
}

fn tool_call_is_useful(call: &Json) -> (r: bool)
    ensures
        r == names_function(call@),
{
    match call.get("function") {
        Some(function) => match function.get("name") {
            Some(name) => match name.as_str() {
                Some(t) => !blank(t),
                None => false,
            },
            None => false,
        },
        None => false,
    }
}

fn choice_is_useful(choice: &Json) -> (r: bool)
    ensures
        r == useful_choice(choice@),
{
    match choice.get("message") {
        None => false,
        Some(message) => {
            if let Some(content) = message.get("content") {
                if !blank(content_to_text(content).as_str()) {
                    return true;
                }
            }
            if let Some(value) = message.get("tool_calls") {
                if let Some(calls) = value.as_array() {
                    let mut i: usize = 0;
                    while i < calls.len()
                        invariant
                            i <= calls@.len(),
                            choice@.get("message"@) == Some(message@),
                            message@.get("tool_calls"@) == Some(
                                JsonView::Array(items_view(calls@)),
                            ),
                            forall|j: int|
                                0 <= j < i ==> !names_function(#[trigger] items_view(calls@)[j]),
                        decreases calls@.len() - i,
                    {
                        if tool_call_is_useful(&calls[i]) {
                            assert(message@.get("tool_calls"@)->0->Array_0[i as int] == calls@[i as int]@);
assert(names_function(items_view(calls@)[i as int]));
                            return true;
                        }
                        i += 1;
                    }
                }
            }
            false
        },
    }
}

/// Whether a response says something or calls a tool.
pub fn response_has_useful_output(body: &Json) -> (r: bool)
    ensures
        r == useful_response(body@),
{
    match body.get("choices") {
        Some(value) => match value.as_array() {
            Some(choices) => {
                let mut i: usize = 0;
                while i < choices.len()
                    invariant
                        i <= choices@.len(),
                        body@.get("choices"@) == Some(JsonView::Array(items_view(choices@))),
                        forall|j: int|
                            0 <= j < i ==> !useful_choice(#[trigger] items_view(choices@)[j]),
                    decreases choices@.len() - i,
                {
                    if choice_is_useful(&choices[i]) {
                        assert(body@.get("choices"@)->0->Array_0[i as int] == choices@[i as int]@);
assert(useful_choice(items_view(choices@)[i as int]));
                        return true;
                    }
                    i += 1;
                }
                false
            },
            None => false,
        },
        None => false,
    }
}

// ---------------------------------------------------------------- repair
/// Arguments as a string: strings stay, `null` is an empty object, any other
/// value is written as compact JSON.
pub open spec fn repaired_arguments(arguments: JsonView) -> JsonView {
    match arguments {
        JsonView::Text(t) => arguments,
        JsonView::Null => JsonView::Text("{}"@),
        other => JsonView::Text(text_of(other)),
    }
}

/// A function of a tool call with its arguments as a string.
pub open spec fn repaired_function(function: JsonView) -> JsonView {
    function.updated("arguments"@, |a: JsonView| repaired_arguments(a))
}

/// A tool call with its arguments as a string.
pub open spec fn repaired_call(call: JsonView) -> JsonView {
    call.updated("function"@, |f: JsonView| repaired_function(f))
}

/// A message whose tool calls have their arguments as strings.
pub open spec fn repaired_message(message: JsonView) -> JsonView {
    message.updated("tool_calls"@, |t: JsonView| t.each(|c: JsonView| repaired_call(c)))
}

/// A choice whose tool calls have their arguments as strings.
pub open spec fn repaired_choice(choice: JsonView) -> JsonView {
    choice.updated("message"@, |m: JsonView| repaired_message(m))
}

/// A response whose tool calls have their arguments as strings.
pub open spec fn repaired_response(body: JsonView) -> JsonView {
    body.updated("choices"@, |c: JsonView| c.each(|x: JsonView| repaired_choice(x)))
}

fn repair_arguments(arguments: Json) -> (r: Json)
    ensures
        r@ == repaired_arguments(arguments@),
{
    match arguments {
        Json::Text(t) => Json::Text(t),
        Json::Null => Json::Text("{}".to_owned()),
        other => Json::Text(json_text(&other)),
    }
}

fn repair_call(call: Json) -> (r: Json)
    ensures
        r@ == repaired_call(call@),
{
    let in_function = |f: Json| -> (y: Json)
        ensures
            y@ == repaired_function(f@),
        {
            let in_arguments = |a: Json| -> (z: Json)
                ensures
                    z@ == repaired_arguments(a@),
                { repair_arguments(a) };
            update_member(
                f,
                "arguments",
                in_arguments,
                Ghost(|a: JsonView| repaired_arguments(a)),
            )
        };
    update_member(call, "function", in_function, Ghost(|f: JsonView| repaired_function(f)))
}

fn repair_choice(choice: Json) -> (r: Json)
    ensures
        r@ == repaired_choice(choice@),
{
    let in_calls = |t: Json| -> (y: Json)
        ensures
            y@ == t@.each(|c: JsonView| repaired_call(c)),
        {
            let in_call = |c: Json| -> (z: Json)
                ensures
                    z@ == repaired_call(c@),
                { repair_call(c) };
            update_items(t, in_call, Ghost(|c: JsonView| repaired_call(c)))
        };
    let in_message = |m: Json| -> (y: Json)
        ensures
            y@ == repaired_message(m@),
        {
            update_member(
                m,
                "tool_calls",
                in_calls,
                Ghost(|t: JsonView| t.each(|c: JsonView| repaired_call(c))),
            )
        };
    update_member(choice, "message", in_message, Ghost(|m: JsonView| repaired_message(m)))
}

fn repair_response(body: Json) -> (r: Json)
    ensures
        r@ == repaired_response(body@),
{
    let in_choices = |c: Json| -> (y: Json)
        ensures
            y@ == c@.each(|x: JsonView| repaired_choice(x)),
        {
            let in_choice = |x: Json| -> (z: Json)
                ensures
                    z@ == repaired_choice(x@),
                { repair_choice(x) };
            update_items(c, in_choice, Ghost(|x: JsonView| repaired_choice(x)))
        };
    update_member(
        body,
        "choices",
        in_choices,
        Ghost(|c: JsonView| c.each(|x: JsonView| repaired_choice(x))),
    )
}

/// Turns the arguments of tool calls into strings where they are not.
pub fn repair_tool_call_arguments(body: &mut Json)
    ensures
        final(body)@ == repaired_response(old(body)@),
{
    let mut taken = Json::Null;
    std::mem::swap(&mut taken, body);
    *body = repair_response(taken);
}

// ---------------------------------------------------------------- laws
/// Repairing twice is repairing once.
pub proof fn repair_is_idempotent(body: JsonView)
    ensures
        repaired_response(repaired_response(body)) == repaired_response(body),
{
    let arguments = |a: JsonView| repaired_arguments(a);
    assert forall|a: JsonView| #[trigger] arguments(arguments(a)) == arguments(a) by {}
    let function = |f: JsonView| repaired_function(f);
    assert forall|f: JsonView| #[trigger] function(function(f)) == function(f) by {
        updated_is_idempotent(f, "arguments"@, arguments);
    }
    let call = |c: JsonView| repaired_call(c);
    assert forall|c: JsonView| #[trigger] call(call(c)) == call(c) by {
        updated_is_idempotent(c, "function"@, function);
    }
    let calls = |t: JsonView| t.each(|c: JsonView| repaired_call(c));
    assert forall|t: JsonView| #[trigger] calls(calls(t)) == calls(t) by {
        each_is_idempotent(t, call);
    }
    let message = |m: JsonView| repaired_message(m);
    assert forall|m: JsonView| #[trigger] message(message(m)) == message(m) by {
        updated_is_idempotent(m, "tool_calls"@, calls);
    }
    let choice = |x: JsonView| repaired_choice(x);
    assert forall|x: JsonView| #[trigger] choice(choice(x)) == choice(x) by {
        updated_is_idempotent(x, "message"@, message);
    }
    let choices = |c: JsonView| c.each(|x: JsonView| repaired_choice(x));
    assert forall|c: JsonView| #[trigger] choices(choices(c)) == choices(c) by {
        each_is_idempotent(c, choice);
    }
    updated_is_idempotent(body, "choices"@, choices);
}

/// Arguments are a string after the repair, whatever they were.
pub proof fn repaired_arguments_are_strings(arguments: JsonView)
    ensures
        repaired_arguments(arguments) is Text,
        arguments is Text ==> repaired_arguments(arguments) == arguments,
{
}

/// Only outputs of tools are compressed; what a user or an assistant said stays
/// as it is.
pub proof fn only_tool_outputs_are_compressed(
    m: MessageView,
    min_tokens: u32,
    compacted: Option<Seq<char>>,
)
    ensures
        m.role != "tool"@ ==> compressed_message(m, min_tokens, compacted) == m,
        compacted is None ==> compressed_message(m, min_tokens, compacted) == m,
        compressed_message(m, min_tokens, compacted).role == m.role,
        compressed_message(m, min_tokens, compacted).tool_call_id == m.tool_call_id,
{
}

/// A text is taken for at least a quarter of a token per character, and for
/// none exactly when it is empty.
pub proof fn estimates_follow_length(text: Seq<char>)
    requires
        text.len() <= u32::MAX,
    ensures
        token_estimate(text) * 4 >= text.len(),
        token_estimate(text) * 4 < text.len() + 4,
        token_estimate(text) == 0 <==> text.len() == 0,
{
}

} // verus!
