//! Trying a key out with a real request: which models are tried, what an answer
//! means for the key, and what is told of it.
use crate::api::models::DisabledModels;
use crate::clock::Moment;
use crate::config::Config;
use crate::error::{
    auth_failure, category_of, error_retry, GatewayError, GatewayResult, message_of, status_of,
};
use crate::json::{get_in, Json, JsonView};
use crate::keyhub::KeyHub;
use crate::keyhub::hub::HubView;
use crate::keyhub::pool::{id_index, key_index};
use crate::keystate::{fingerprint, key_fingerprint};
use crate::lists::{firsts, firsts_next, kept, kept_all, kept_next, lookup, named_in};
use crate::metadata::learner::text_in;
use crate::models::{
    ChatCompletionRequest, ChatMessage, get_text, MessageView, RequestView, str_member,
};
use crate::providers::traits::ChatResponse;
use crate::text::{
    blank, char_count, concat2, contains, is_blank, list_has, lowercase, lowercase_of, occurs,
    opt_view, str_view, trim, trimmed, views,
};
use vstd::string::StringSliceAdditionalSpecFns;
use vstd::utf8::*;
use vstd::prelude::*;

verus! {

// ---------------------------------------------------------------- candidates
/// Whether a model can be tried: it has a name and is not switched off.
pub open spec fn can_be_tried(disabled: Seq<Seq<char>>) -> spec_fn(Seq<char>) -> bool {
    |model: Seq<char>| !is_blank(model) && !disabled.contains(model)
}

/// The models that can be tried, each once, in order.
pub open spec fn tried_models(candidates: Seq<Seq<char>>, disabled: Seq<Seq<char>>) -> Seq<
    Seq<char>,
> {
    firsts(kept(candidates, can_be_tried(disabled)))
}

/// The models that can be tried, each once, in order.
pub fn dedupe_enabled_models(candidates: Vec<String>, disabled: &Vec<String>) -> (r: Vec<String>)
    ensures
        views(r@) == tried_models(views(candidates@), views(disabled@)),
{
    let ghost all = views(candidates@);
    let ghost p = can_be_tried(views(disabled@));
    let mut out: Vec<String> = Vec::new();
    let mut i: usize = 0;
    proof {
        kept_all(all, p);
        assert(views(out@) =~= firsts(kept(all.take(0), p)));
    }
    while i < candidates.len()
        invariant
            i <= candidates@.len(),
            all == views(candidates@),
            p == can_be_tried(views(disabled@)),
            views(out@) == firsts(kept(all.take(i as int), p)),
        decreases candidates@.len() - i,
    {
        let ghost before = kept(all.take(i as int), p);
        proof {
            kept_next(all, p, i as int);
            assert(all[i as int] == candidates@[i as int]@);
            let longer = before.push(all[i as int]);
            firsts_next(longer, before.len() as int);
            assert(longer.take(before.len() as int) =~= before);
            assert(longer.take(before.len() as int + 1) =~= longer);
        }
        if !blank(candidates[i].as_str()) && !list_has(disabled, candidates[i].as_str()) {
            if !list_has(&out, candidates[i].as_str()) {
                let ghost so_far = views(out@);
                out.push(candidates[i].clone());
                assert(views(out@) =~= so_far.push(candidates@[i as int]@));
            }
        }
        i += 1;
    }
    proof {
        kept_all(all, p);
    }
    out
}

/// The models that a key of a provider serves.
pub open spec fn models_of_key(hub: HubView, provider: Seq<char>, key: Seq<char>) -> Seq<Seq<char>> {
    if hub.pools.contains_key(provider) {
        match key_index(hub.pools[provider].keys, key, 0) {
            Some(i) => hub.pools[provider].keys[i].models,
            None => Seq::empty(),
        }
    } else {
        Seq::empty()
    }
}

/// The models that the key with an identifier serves.
pub open spec fn models_of_id(hub: HubView, provider: Seq<char>, id: Seq<char>) -> Seq<Seq<char>> {
    if hub.pools.contains_key(provider) {
        match id_index(hub.pools[provider].keys, id, 0) {
            Some(i) => hub.pools[provider].keys[i].models,
            None => Seq::empty(),
        }
    } else {
        Seq::empty()
    }
}

/// The model that the health of a provider is checked with, where it has one.
pub open spec fn health_check_of(config: Config, provider: Seq<char>) -> Seq<Seq<char>> {
    match named_in(config.providers@, provider) {
        Some(pc) => if trimmed(pc.health_check_model@).len() > 0 {
            seq![trimmed(pc.health_check_model@)]
        } else {
            Seq::empty()
        },
        None => Seq::empty(),
    }
}

/// The models of a provider that are switched off.
pub open spec fn disabled_of(disabled: Seq<(String, Vec<String>)>, provider: Seq<char>) -> Seq<
    Seq<char>,
> {
    match named_in(disabled, provider) {
        Some(list) => views(list@),
        None => Seq::empty(),
    }
}

/// The models that a key is tried with: those that the key serves, by its
/// identifier first, then the one for health checks.
pub open spec fn candidates_of(
    config: Config,
    disabled: Seq<(String, Vec<String>)>,
    hub: HubView,
    provider: Seq<char>,
    api_key: Option<Seq<char>>,
    key_id: Option<Seq<char>>,
) -> Seq<Seq<char>> {
    let by_id = match key_id {
        Some(id) => models_of_id(hub, provider, id),
        None => Seq::empty(),
    };
    let by_key = match api_key {
        Some(key) => models_of_key(hub, provider, key),
        None => Seq::empty(),
    };
    tried_models(
        by_id + by_key + health_check_of(config, provider),
        disabled_of(disabled, provider),
    )
}

pub(crate) fn append_strings(out: &mut Vec<String>, more: Vec<String>)
    ensures
        views(final(out)@) == views(old(out)@) + views(more@),
{
    let mut i: usize = 0;
    assert(views(out@) =~= views(old(out)@) + views(more@).take(0));
    while i < more.len()
        invariant
            i <= more@.len(),
            views(out@) == views(old(out)@) + views(more@).take(i as int),
        decreases more@.len() - i,
    {
        let ghost before = out@;
        out.push(more[i].clone());
        i += 1;
        assert(views(out@) =~= views(before).push(more@[i - 1]@));
        assert(views(more@).take(i as int) =~= views(more@).take(i - 1).push(more@[i - 1]@));
        assert(views(out@) =~= views(old(out)@) + views(more@).take(i as int));
    }
    assert(views(more@).take(more@.len() as int) =~= views(more@));
}

/// The models that a key is tried with.
pub fn admin_test_model_candidates(
    config: &Config,
    disabled: &DisabledModels,
    keyhub: &KeyHub,
    provider_name: &str,
    api_key: Option<&str>,
    key_id: Option<&str>,
) -> (r: Vec<String>)
    requires
        keyhub.wf(),
    ensures
        views(r@) == candidates_of(
            *config,
            disabled@,
            keyhub@,
            provider_name@,
            str_view(api_key),
            str_view(key_id),
        ),
{
    let ghost by_id = match str_view(key_id) {
        Some(id) => models_of_id(keyhub@, provider_name@, id),
        None => Seq::empty(),
    };
    let ghost by_key = match str_view(api_key) {
        Some(key) => models_of_key(keyhub@, provider_name@, key),
        None => Seq::empty(),
    };
    let mut candidates: Vec<String> = Vec::new();
    if let Some(id) = key_id {
        append_strings(&mut candidates, keyhub.models_for_key_id(provider_name, id));
    }
    assert(views(candidates@) =~= by_id);
    if let Some(key) = api_key {
        append_strings(&mut candidates, keyhub.models_for_key(provider_name, key));
    }
    assert(views(candidates@) =~= by_id + by_key);
    if let Some(pc) = lookup(&config.providers, provider_name) {
        let model = trim(pc.health_check_model.as_str());
        if char_count(model.as_str()) > 0 {
            candidates.push(model);
        }
    }
    assert(views(candidates@) =~= by_id + by_key + health_check_of(*config, provider_name@));
    match lookup(disabled, provider_name) {
        Some(list) => dedupe_enabled_models(candidates, list),
        None => {
            let none: Vec<String> = Vec::new();
            assert(views(none@) =~= Seq::<Seq<char>>::empty());
            dedupe_enabled_models(candidates, &none)
        },
    }
}

// ---------------------------------------------------------------- requests
/// A request with one message of the user and nothing else, not as a stream.
pub open spec fn plain_request(model: Seq<char>, content: Seq<char>) -> RequestView {
    RequestView {
        model,
        messages: seq![
            MessageView {
                role: "user"@,
                content: JsonView::Text(content),
                name: None,
                tool_calls: None,
                tool_call_id: None,
                extra: Seq::empty(),
            },
        ],
        temperature: None,
        top_p: None,
        n: None,
        stream: Some(false),
        stop: None,
        max_tokens: None,
        presence_penalty: None,
        frequency_penalty: None,
        user: None,
        request_id: None,
        agent_name: None,
        extra: Seq::empty(),
    }
}

/// A request with one message of the user and nothing else, not as a stream.
pub fn user_request(model: &str, content: &str) -> (r: ChatCompletionRequest)
    ensures
        r@ == plain_request(model@, content@),
{
    let message = ChatMessage {
        role: "user".to_owned(),
        content: Json::string(content),
        name: None,
        tool_calls: None,
        tool_call_id: None,
        extra: Vec::new(),
    };
    let mut messages: Vec<ChatMessage> = Vec::new();
    messages.push(message);
    let r = ChatCompletionRequest {
        model: model.to_owned(),
        messages,
        temperature: None,
        top_p: None,
        n: None,
        stream: Some(false),
        stop: None,
        max_tokens: None,
        presence_penalty: None,
        frequency_penalty: None,
        user: None,
        request_id: None,
        agent_name: None,
        extra: Vec::new(),
    };
    assert(message@.extra =~= plain_request(model@, content@).messages[0].extra);
    assert(r@.messages =~= plain_request(model@, content@).messages);
    assert(r@.extra =~= Seq::<(Seq<char>, JsonView)>::empty());
    r
}

/// The request that a model is tried with.
pub fn validation_test_request(model: &str) -> (r: ChatCompletionRequest)
    ensures
        r@ == (RequestView { max_tokens: Some(20u32), ..plain_request(model@, "Reply with OK"@) }),
{
    let mut r = user_request(model, "Reply with OK");
    r.max_tokens = Some(20);
    r
}

/// What a trial comes to: the answer and how many milliseconds it took, or a
/// timeout where none came in time.
pub fn probe_outcome(reply: Option<GatewayResult<ChatResponse>>, latency_ms: u64) -> (r:
    GatewayResult<(ChatResponse, u64)>)
    ensures
        match reply {
            Some(Ok(response)) => r matches Ok(o) && o == (response, latency_ms),
            Some(Err(e)) => r matches Err(why) && why == e,
            None => r matches Err(GatewayError::Timeout(m)) && m@ == "admin validation timed out"@,
        },
{
    match reply {
        Some(Ok(response)) => Ok((response, latency_ms)),
        Some(Err(e)) => Err(e),
        None => Err(GatewayError::Timeout("admin validation timed out".to_owned())),
    }
}

// ---------------------------------------------------------------- meaning of errors
/// Whether an error means that the model does not suit, and speaks neither for
/// nor against the key.
pub open spec fn model_mismatch(e: GatewayError) -> bool {
    let message = lowercase_of(message_of(e));
    ||| status_of(e) == 404
    ||| status_of(e) == 403 && (occurs(message, "not available in your region"@) || occurs(
        message,
        "model is not available"@,
    ) || occurs(message, "model not available"@) || occurs(message, "model_not_found"@))
}

/// Whether an error means that the model does not suit, where `message` is what
/// it says in lower case.
pub fn mismatch_said(status: u16, message: &str) -> (r: bool)
    ensures
        r == (status == 404 || status == 403 && (occurs(message@, "not available in your region"@)
            || occurs(message@, "model is not available"@) || occurs(
            message@,
            "model not available"@,
        ) || occurs(message@, "model_not_found"@))),
{
    status == 404 || (status == 403 && (contains(message, "not available in your region")
        || contains(message, "model is not available") || contains(message, "model not available")
        || contains(message, "model_not_found")))
}

/// Whether an error means that the model does not suit.
pub fn is_validation_model_mismatch(error: &GatewayError) -> (r: bool)
    ensures
        r == model_mismatch(*error),
{
    let message = lowercase(error.to_string().as_str());
    mismatch_said(error.http_status(), message.as_str())
}

/// Whether an error says something of the key: that it is limited or not
/// accepted.
pub open spec fn blames_key(e: GatewayError) -> bool {
    status_of(e) == 429 || auth_failure(e)
}

/// Whether an error says something of the key.
pub fn validation_error_should_update_key_state(error: &GatewayError) -> (r: bool)
    ensures
        r == blames_key(*error),
{
    error.http_status() == 429 || error.is_auth_failure()
}

/// What a failed trial says of the key.
pub open spec fn failure_status(e: GatewayError) -> Seq<char> {
    if blames_key(e) {
        "key_limited_or_invalid"@
    } else {
        "inconclusive"@
    }
}

/// What a failed trial says of the key.
pub fn validation_failure_status(error: &GatewayError) -> (r: &'static str)
    ensures
        r@ == failure_status(*error),
{
    if validation_error_should_update_key_state(error) {
        "key_limited_or_invalid"
    } else {
        "inconclusive"
    }
}

// ---------------------------------------------------------------- attempts
/// What is recorded of one attempt.
#[derive(Debug)]
pub struct ValidationAttempt {
    pub request_id: String,
    pub attempt_index: i64,
    pub provider: String,
    pub model: String,
    pub key_id: String,
    pub success: bool,
    pub category: String,
    pub http_status: Option<u16>,
    pub message: Option<String>,
    pub cooldown_seconds: Option<i64>,
    pub fallback: bool,
}

/// What a [`ValidationAttempt`] holds.
pub struct ValidationAttemptView {
    pub request_id: Seq<char>,
    pub attempt_index: i64,
    pub provider: Seq<char>,
    pub model: Seq<char>,
    pub key_id: Seq<char>,
    pub success: bool,
    pub category: Seq<char>,
    pub http_status: Option<u16>,
    pub message: Option<Seq<char>>,
    pub cooldown_seconds: Option<i64>,
    pub fallback: bool,
}

impl View for ValidationAttempt {
    type V = ValidationAttemptView;

    open spec fn view(&self) -> ValidationAttemptView {
        ValidationAttemptView {
            request_id: self.request_id@,
            attempt_index: self.attempt_index,
            provider: self.provider@,
            model: self.model@,
            key_id: self.key_id@,
            success: self.success,
            category: self.category@,
            http_status: self.http_status,
            message: opt_view(self.message),
            cooldown_seconds: self.cooldown_seconds,
            fallback: self.fallback,
        }
    }
}

/// A number of seconds as it is stored.
pub open spec fn stored_seconds(seconds: Option<u64>) -> Option<i64> {
    match seconds {
        Some(s) => Some(s as i64),
        None => None,
    }
}

/// The record of an attempt: of the key only its fingerprint.
pub open spec fn attempt_record(
    request_id: Seq<char>,
    attempt_index: i64,
    provider: Seq<char>,
    model: Seq<char>,
    api_key: Seq<char>,
    result: Result<u16, GatewayError>,
    fallback: bool,
    now: Moment,
) -> ValidationAttemptView {
    ValidationAttemptView {
        request_id,
        attempt_index,
        provider,
        model,
        key_id: fingerprint(api_key),
        success: result is Ok,
        category: match result {
            Ok(_) => "success"@,
            Err(e) => category_of(e),
        },
        http_status: match result {
            Ok(status) => Some(status),
            Err(e) => Some(status_of(e)),
        },
        message: match result {
            Ok(_) => None,
            Err(e) => Some(message_of(e)),
        },
        cooldown_seconds: match result {
            Ok(_) => None,
            Err(e) => stored_seconds(error_retry(e, now)),
        },
        fallback,
    }
}

/// A result with the error itself in place of a reference to it.
pub open spec fn owned_result(result: Result<u16, &GatewayError>) -> Result<u16, GatewayError> {
    match result {
        Ok(status) => Ok(status),
        Err(e) => Err(*e),
    }
}

/// The record of an attempt: of the key only its fingerprint.
pub fn record_admin_validation_attempt(
    request_id: &str,
    attempt_index: i64,
    provider_name: &str,
    model: &str,
    api_key: &str,
    result: Result<u16, &GatewayError>,
    fallback: bool,
) -> (r: ValidationAttempt)
    ensures
        exists|now: Moment|
            0 <= now.seconds && r@ == #[trigger] attempt_record(
                request_id@,
                attempt_index,
                provider_name@,
                model@,
                api_key@,
                owned_result(result),
                fallback,
                now,
            ),
{
    let ghost owned = owned_result(result);
    let ghost mut at: Moment = Moment { seconds: 0, nanos: 0 };
    let (success, category, http_status, message, cooldown_seconds) = match result {
        Ok(status) => (true, "success".to_owned(), Some(status), None, None),
        Err(error) => {
            let wait = error.retry_after_seconds();
            proof {
                at = choose|now: Moment| 0 <= now.seconds && wait == #[trigger] error_retry(
                    *error,
                    now,
                );
            }
            (
                false,
                error.category().to_owned(),
                Some(error.http_status()),
                Some(error.to_string()),
                match wait {
                    Some(seconds) => Some(seconds as i64),
                    None => None,
                },
            )
        },
    };
    let r = ValidationAttempt {
        request_id: request_id.to_owned(),
        attempt_index,
        provider: provider_name.to_owned(),
        model: model.to_owned(),
        key_id: key_fingerprint(api_key),
        success,
        category,
        http_status,
        message,
        cooldown_seconds,
        fallback,
    };
    assert(r@ == attempt_record(
        request_id@,
        attempt_index,
        provider_name@,
        model@,
        api_key@,
        owned,
        fallback,
        at,
    ));
    r
}

// ---------------------------------------------------------------- previews
/// The model that an answer names, else the one that was asked.
pub open spec fn answering_model(body: JsonView, asked: Seq<char>) -> Seq<char> {
    match get_text(body, "model"@) {
        Some(m) => m,
        None => asked,
    }
}

/// The text of the first choice of an answer.
pub open spec fn first_content(body: JsonView) -> Option<Seq<char>> {
    match body.get("choices"@) {
        Some(choices) => match choices.item(0) {
            Some(choice) => text_in(get_in(choice.get("message"@), "content"@)),
            None => None,
        },
        None => None,
    }
}

fn first_text(body: &Json) -> (r: Option<&str>)
    ensures
        str_view(r) == first_content(body@),
{
    match body.get("choices") {
        Some(choices) => match choices.item(0) {
            Some(choice) => match choice.get("message") {
                Some(message) => str_member(message, "content"),
                None => None,
            },
            None => None,
        },
        None => None,
    }
}

/// Whether the preview of an answer ends between two characters.
pub open spec fn answer_previewable(body: JsonView) -> bool {
    match first_content(body) {
        Some(text) => encode_utf8(text).len() > 100 ==> is_char_boundary(encode_utf8(text), 100),
        None => true,
    }
}

/// Whether the preview of an answer ends between two characters.
pub fn can_preview_answer(body: &Json) -> (r: bool)
    ensures
        r == answer_previewable(body@),
{
    match first_text(body) {
        Some(text) => text.as_bytes().len() <= 100 || text.is_char_boundary(100),
        None => true,
    }
}

/// A text, cut after 100 bytes.
pub open spec fn shortened(text: Seq<char>) -> Seq<char> {
    let b = encode_utf8(text);
    if b.len() > 100 {
        decode_utf8(b.subrange(0, 100)) + "..."@
    } else {
        text
    }
}

/// The beginning of the text of the first choice.
pub open spec fn content_preview(body: JsonView) -> Option<Seq<char>> {
    match first_content(body) {
        Some(text) => Some(shortened(text)),
        None => None,
    }
}

/// The model that answered, and the beginning of what it said.
pub fn response_model_and_preview(body: &Json, fallback_model: &str) -> (r: (
    String,
    Option<String>,
))
    requires
        answer_previewable(body@),
    ensures
        r.0@ == answering_model(body@, fallback_model@),
        opt_view(r.1) == content_preview(body@),
{
    let model = match str_member(body, "model") {
        Some(m) => m.to_owned(),
        None => fallback_model.to_owned(),
    };
    let preview = match first_text(body) {
        Some(text) => {
            if text.as_bytes().len() > 100 {
                let (head, _) = text.split_at(100);
                proof {
                    encode_utf8_decode_utf8(head@);
                }
                Some(concat2(head, "..."))
            } else {
                Some(text.to_owned())
            }
        },
        None => None,
    };
    (model, preview)
}

} // verus!
