//! Cloudflare Workers AI.
use crate::config::ProviderConfig;
use crate::error::{GatewayError, GatewayResult};
use crate::json::{group_json_views, items_view, Json, JsonView, member, members_view};
use crate::json_text::{json_text, text_of};
use crate::lists::{collected, collected_all, collected_next};
use crate::providers::github_models::{or_default, ProviderView, text_or};
use crate::providers::traits::{ChatResponse, is_http_error, is_success, str_at, succeeded, text_at};
use crate::sorting::{sort_and_dedup, sorted_set};
use crate::text::{
    concat2, copy_opt, lower, opt_view, same, same_ignoring_case, starts_with, strip_suffix,
    trim_end_char, views, without_trailing,
};
use vstd::prelude::*;

verus! {

#[derive(Debug)]
pub struct CloudflareProvider {
    pub name: String,
    /// The address of the account, without what follows it.
    pub account_base: String,
    pub proxy_url: Option<String>,
    pub health_check_model: String,
    pub timeout_seconds: u64,
    pub priority: u32,
}

impl View for CloudflareProvider {
    type V = ProviderView;

    open spec fn view(&self) -> ProviderView {
        ProviderView {
            name: self.name@,
            base_url: self.account_base@,
            proxy_url: opt_view(self.proxy_url),
            health_check_model: self.health_check_model@,
            timeout_seconds: self.timeout_seconds,
            priority: self.priority,
        }
    }
}

/// The address of an account: what stands before `/ai/v1` or `/ai`.
pub open spec fn account_of(base_url: Seq<char>) -> Seq<char> {
    let raw = without_trailing(base_url, '/');
    if "/ai/v1"@.is_suffix_of(raw) {
        raw.take(raw.len() - "/ai/v1"@.len())
    } else if "/ai"@.is_suffix_of(raw) {
        raw.take(raw.len() - "/ai"@.len())
    } else {
        raw
    }
}

/// The name of a model that can be called: the first of its names that is in
/// Cloudflare's own space.
pub open spec fn callable_name(model: JsonView) -> Option<Seq<char>> {
    if own_name(model, "name"@) is Some {
        own_name(model, "name"@)
    } else if own_name(model, "model"@) is Some {
        own_name(model, "model"@)
    } else {
        own_name(model, "id"@)
    }
}

/// The text under a name, where it is in Cloudflare's own space.
pub open spec fn own_name(model: JsonView, field: Seq<char>) -> Option<Seq<char>> {
    match model.get(field) {
        Some(v) => match v.text() {
            Some(t) => if "@cf/"@.is_prefix_of(t) {
                Some(t)
            } else {
                None
            },
            None => None,
        },
        None => None,
    }
}

/// Whether a model generates text, as far as its task is known.
pub open spec fn generates_text(model: JsonView) -> bool {
    match text_at(model, "task"@, "name"@) {
        Some(task) => lower(task) == lower("Text Generation"@),
        None => true,
    }
}

/// The name of a model that can be called and generates text.
pub open spec fn text_model(model: JsonView) -> Option<Seq<char>> {
    if generates_text(model) {
        callable_name(model)
    } else {
        None
    }
}

/// The models in a list: those that generate text, else all that can be called;
/// each once, in order.
pub open spec fn models_in(entries: Seq<JsonView>) -> Seq<Seq<char>> {
    let texts = collected(entries, |m: JsonView| text_model(m));
    sorted_set(
        if texts.len() == 0 {
            collected(entries, |m: JsonView| callable_name(m))
        } else {
            texts
        },
    )
}

fn name_under(model: &Json, field: &str) -> (r: Option<String>)
    ensures
        opt_view(r) == own_name(model@, field@),
{
    match model.get(field) {
        Some(v) => match v.as_str() {
            Some(t) => if starts_with(t, "@cf/") {
                Some(t.to_owned())
            } else {
                None
            },
            None => None,
        },
        None => None,
    }
}

/// The name of a model that can be called.
pub fn callable_model_name(model: &Json) -> (r: Option<String>)
    ensures
        opt_view(r) == callable_name(model@),
{
    match name_under(model, "name") {
        Some(n) => Some(n),
        None => match name_under(model, "model") {
            Some(n) => Some(n),
            None => name_under(model, "id"),
        },
    }
}

fn collect_names(entries: &Vec<Json>, texts_only: bool) -> (r: Vec<String>)
    ensures
        views(r@) == if texts_only {
            collected(items_view(entries@), |m: JsonView| text_model(m))
        } else {
            collected(items_view(entries@), |m: JsonView| callable_name(m))
        },
{
    let ghost all = items_view(entries@);
    let ghost f = if texts_only {
        |m: JsonView| text_model(m)
    } else {
        |m: JsonView| callable_name(m)
    };
    let mut r: Vec<String> = Vec::new();
    let mut i: usize = 0;
    proof {
        collected_all(all, f);
        assert(views(r@) =~= collected(all.take(0), f));
    }
    while i < entries.len()
        invariant
            i <= entries@.len(),
            all == items_view(entries@),
            f == (if texts_only {
                |m: JsonView| text_model(m)
            } else {
                |m: JsonView| callable_name(m)
            }),
            views(r@) == collected(all.take(i as int), f),
        decreases entries@.len() - i,
    {
        proof {
            collected_next(all, f, i as int);
            assert(all[i as int] == entries@[i as int]@);
        }
        let fits = !texts_only || match str_at(&entries[i], "task", "name") {
            Some(task) => same_ignoring_case(task, "Text Generation"),
            None => true,
        };
        if fits {
            if let Some(n) = callable_model_name(&entries[i]) {
                let ghost so_far = views(r@);
                let ghost v = n@;
                r.push(n);
                assert(views(r@) =~= so_far.push(v));
            }
        }
        i += 1;
    }
    r
}

/// The models in a list.
pub fn models_listed(entries: &Vec<Json>) -> (r: Vec<String>)
    ensures
        views(r@) == models_in(items_view(entries@)),
{
    let texts = collect_names(entries, true);
    assert(views(texts@).len() == texts@.len());
    if texts.len() == 0 {
        sort_and_dedup(collect_names(entries, false))
    } else {
        sort_and_dedup(texts)
    }
}

// ---------------------------------------------------------------- responses
/// Members with one of them set: in its place where there is one, else at the
/// end.
pub open spec fn with_member(
    members: Seq<(Seq<char>, JsonView)>,
    key: Seq<char>,
    value: JsonView,
) -> Seq<(Seq<char>, JsonView)>
    decreases members.len(),
{
    if members.len() == 0 {
        seq![(key, value)]
    } else if members[0].0 == key {
        seq![(key, value)] + members.subrange(1, members.len() as int)
    } else {
        seq![members[0]] + with_member(members.subrange(1, members.len() as int), key, value)
    }
}

/// An object with a member set.
pub open spec fn object_with(value: JsonView, key: Seq<char>, new: JsonView) -> JsonView {
    match value {
        JsonView::Object(members) => JsonView::Object(with_member(members, key, new)),
        other => other,
    }
}

/// The reasoning of a message that has no content but says how it reasoned.
pub open spec fn reasoning_of(message: JsonView) -> Option<Seq<char>> {
    if message is Object && (match message.get("content"@) {
        Some(c) => c is Null,
        None => true,
    }) {
        match message.get("reasoning"@) {
            Some(r) => match r.text() {
                Some(t) => if t.len() > 0 {
                    Some(t)
                } else {
                    None
                },
                None => None,
            },
            None => None,
        }
    } else {
        None
    }
}

/// The response itself, where it is wrapped.
pub open spec fn unwrapped(raw: JsonView) -> JsonView {
    match raw.get("result"@) {
        Some(v) => if v is Null {
            raw
        } else {
            v
        },
        None => raw,
    }
}

/// The message of the first choice.
pub open spec fn first_message(body: JsonView) -> Option<JsonView> {
    match body.get("choices"@) {
        Some(JsonView::Array(choices)) => if choices.len() > 0 {
            choices[0].get("message"@)
        } else {
            None
        },
        _ => None,
    }
}

/// A response whose first message has its reasoning for content, where it has
/// no other.
pub open spec fn with_reasoning(body: JsonView) -> JsonView {
    match first_message(body) {
        Some(message) => match reasoning_of(message) {
            Some(t) => {
                let choices = body.get("choices"@)->0->Array_0;
                object_with(
                    body,
                    "choices"@,
                    JsonView::Array(
                        choices.update(
                            0,
                            object_with(
                                choices[0],
                                "message"@,
                                object_with(message, "content"@, JsonView::Text(t)),
                            ),
                        ),
                    ),
                )
            },
            None => body,
        },
        None => body,
    }
}

/// A response as OpenAI gives it: unwrapped, with reasoning for content where
/// there is no other.
pub open spec fn normalized(raw: JsonView) -> JsonView {
    with_reasoning(unwrapped(raw))
}

fn copy_with(value: &Json, key: &str, new: Json) -> (r: Json)
    ensures
        r@ == object_with(value@, key@, new@),
{
    broadcast use group_json_views;

    match value {
        Json::Object(members) => {
            let ghost all = members_view(members@);
            let mut list: Vec<(String, Json)> = Vec::new();
            let mut i: usize = 0;
            assert(all.subrange(0, all.len() as int) =~= all);
            while i < members.len() && !same(members[i].0.as_str(), key)
                invariant
                    i <= members@.len(),
                    all == members_view(members@),
                    list@.len() == i,
                    members_view(list@) == all.subrange(0, i as int),
                    with_member(all, key@, new@) == all.subrange(0, i as int) + with_member(
                        all.subrange(i as int, all.len() as int),
                        key@,
                        new@,
                    ),
                ensures
                    i <= members@.len(),
                    i < members@.len() ==> members@[i as int].0@ == key@,
                    members_view(list@) == all.subrange(0, i as int),
                    with_member(all, key@, new@) == all.subrange(0, i as int) + with_member(
                        all.subrange(i as int, all.len() as int),
                        key@,
                        new@,
                    ),
                decreases members@.len() - i,
            {
                let ghost rest = all.subrange(i as int, all.len() as int);
                assert(rest[0] == (members@[i as int].0@, members@[i as int].1@));
                assert(rest.subrange(1, rest.len() as int) =~= all.subrange(
                    i + 1,
                    all.len() as int,
                ));
                let m = (members[i].0.clone(), members[i].1.copy());
                list.push(m);
                assert(members_view(list@) =~= all.subrange(0, i + 1));
                assert(all.subrange(0, i + 1) =~= all.subrange(0, i as int) + seq![all[i as int]]);
                assert(all.subrange(0, i as int) + (seq![rest[0]] + with_member(
                    rest.subrange(1, rest.len() as int),
                    key@,
                    new@,
                )) =~= all.subrange(0, i + 1) + with_member(
                    all.subrange(i + 1, all.len() as int),
                    key@,
                    new@,
                ));
                i += 1;
            }
            let ghost rest = all.subrange(i as int, all.len() as int);
            let ghost v = new@;
            list.push((key.to_owned(), new));
            let ghost head = all.subrange(0, i as int).push((key@, v));
            assert(members_view(list@) =~= head);
            if i == members.len() {
                assert(rest =~= Seq::empty());
                assert(head =~= all.subrange(0, i as int) + with_member(rest, key@, v));
            } else {
                assert(rest[0] == (members@[i as int].0@, members@[i as int].1@));
                let mut k: usize = i + 1;
                assert(head + all.subrange(i + 1, i + 1) =~= head);
                while k < members.len()
                    invariant
                        i < k <= members@.len(),
                        all == members_view(members@),
                        members_view(list@) == head + all.subrange(i + 1, k as int),
                    decreases members@.len() - k,
                {
                    let ghost so_far = members_view(list@);
                    let m = (members[k].0.clone(), members[k].1.copy());
                    list.push(m);
                    assert(members_view(list@) =~= so_far.push(all[k as int]));
                    k += 1;
                    assert(head + all.subrange(i + 1, k as int) =~= (head + all.subrange(
                        i + 1,
                        k - 1,
                    )).push(all[k - 1]));
                }
                assert(rest.subrange(1, rest.len() as int) =~= all.subrange(
                    i + 1,
                    all.len() as int,
                ));
                assert(head + all.subrange(i + 1, all.len() as int) =~= all.subrange(0, i as int)
                    + with_member(rest, key@, v));
            }
            Json::Object(list)
        },
        _ => value.copy(),
    }
}

fn find_reasoning(message: &Json) -> (r: Option<String>)
    ensures
        opt_view(r) == reasoning_of(message@),
{
    broadcast use group_json_views;

    match message {
        Json::Object(_) => {},
        _ => {
            return None;
        },
    }
    let empty = match message.get("content") {
        Some(c) => c.is_null(),
        None => true,
    };
    if !empty {
        return None;
    }
    match message.get("reasoning") {
        Some(v) => match v.as_str() {
            Some(t) => {
                proof {
                    reveal_strlit("");
                }
                if same(t, "") {
                    assert(t@.len() == 0);
                    None
                } else {
                    proof {
                        if t@.len() == 0 {
                            assert(t@ =~= ""@);
                        }
                    }
                    Some(t.to_owned())
                }
            },
            None => None,
        },
        None => None,
    }
}

fn promote_reasoning(body: &Json) -> (r: Json)
    ensures
        r@ == with_reasoning(body@),
{
    broadcast use group_json_views;

    let choices = match body.get("choices") {
        Some(Json::Array(list)) => list,
        _ => {
            return body.copy();
        },
    };
    let ghost all = items_view(choices@);
    assert(body@.get("choices"@) == Some(JsonView::Array(all)));
    if choices.len() == 0 {
        return body.copy();
    }
    assert(all[0] == choices@[0]@);
    let message = match choices[0].get("message") {
        Some(m) => m,
        None => {
            return body.copy();
        },
    };
    let text = match find_reasoning(message) {
        Some(t) => t,
        None => {
            return body.copy();
        },
    };
    let ghost t = text@;
    let new_message = copy_with(message, "content", Json::Text(text));
    let new_choice = copy_with(&choices[0], "message", new_message);
    let ghost c = new_choice@;
    let mut list: Vec<Json> = Vec::new();
    list.push(new_choice);
    let mut i: usize = 1;
    while i < choices.len()
        invariant
            1 <= i <= choices@.len(),
            all == items_view(choices@),
            list@.len() == i,
            list@[0]@ == c,
            forall|j: int| 1 <= j < i ==> (#[trigger] list@[j])@ == all[j],
        decreases choices@.len() - i,
    {
        list.push(choices[i].copy());
        i += 1;
    }
    assert(items_view(list@) =~= all.update(0, c));
    copy_with(body, "choices", Json::Array(list))
}

/// A response as OpenAI gives it.
pub fn normalize_response(raw_body: &Json) -> (r: Json)
    ensures
        r@ == normalized(raw_body@),
{
    broadcast use group_json_views;

    match raw_body.get("result") {
        Some(v) => {
            if v.is_null() {
                promote_reasoning(raw_body)
            } else {
                promote_reasoning(v)
            }
        },
        None => promote_reasoning(raw_body),
    }
}

/// What the body of a refusal says: the first of its errors, else its error,
/// else itself.
pub open spec fn refusal_message(body: JsonView) -> Seq<char> {
    let first = match body.get("errors"@) {
        Some(JsonView::Array(list)) => if list.len() > 0 {
            match list[0].get("message"@) {
                Some(m) => m.text(),
                None => None,
            }
        } else {
            None
        },
        _ => None,
    };
    match first {
        Some(m) => m,
        None => match text_at(body, "error"@, "message"@) {
            Some(m) => m,
            None => text_of(body),
        },
    }
}

fn message_of_refusal(body: &Json) -> (r: String)
    ensures
        r@ == refusal_message(body@),
{
    broadcast use group_json_views;

    if let Some(Json::Array(list)) = body.get("errors") {
        assert(body@.get("errors"@) == Some(JsonView::Array(items_view(list@))));
        if list.len() > 0 {
            assert(items_view(list@)[0] == list@[0]@);
            if let Some(m) = list[0].get("message") {
                if let Some(t) = m.as_str() {
                    return t.to_owned();
                }
            }
        }
    }
    match str_at(body, "error", "message") {
        Some(m) => m.to_owned(),
        None => json_text(body),
    }
}

/// What comes of a response to a chat.
pub fn chat_reply(status: u16, raw_body: &Json, retry_after: Option<u64>) -> (r: GatewayResult<
    ChatResponse,
>)
    ensures
        match r {
            Ok(reply) => succeeded(status) && reply.body@ == normalized(raw_body@) && reply.status
                == status && reply.rate_limits is None,
            Err(e) => !succeeded(status) && is_http_error(
                e,
                status,
                refusal_message(raw_body@),
                retry_after,
            ),
        },
{
    if !is_success(status) {
        let message = message_of_refusal(raw_body);
        return Err(GatewayError::http_error(status, message.as_str(), retry_after));
    }
    Ok(ChatResponse::new(normalize_response(raw_body), status, None))
}

impl CloudflareProvider {
    /// What a configuration comes to.
    pub open spec fn configured(name: Seq<char>, config: ProviderConfig) -> ProviderView {
        ProviderView {
            name,
            base_url: account_of(config.base_url@),
            proxy_url: opt_view(config.proxy_url),
            health_check_model: or_default(
                config.health_check_model@,
                "@cf/meta/llama-3.2-3b-instruct"@,
            ),
            timeout_seconds: config.timeout_seconds,
            priority: config.priority,
        }
    }

    pub fn new(name: &str, config: &ProviderConfig) -> (r: CloudflareProvider)
        ensures
            r@ == CloudflareProvider::configured(name@, *config),
    {
        let raw = trim_end_char(config.base_url.as_str(), '/');
        let account_base = match strip_suffix(raw.as_str(), "/ai/v1") {
            Some(base) => base,
            None => match strip_suffix(raw.as_str(), "/ai") {
                Some(base) => base,
                None => raw,
            },
        };
        CloudflareProvider {
            name: name.to_owned(),
            account_base,
            proxy_url: copy_opt(&config.proxy_url),
            health_check_model: text_or(
                config.health_check_model.as_str(),
                "@cf/meta/llama-3.2-3b-instruct",
            ),
            timeout_seconds: config.timeout_seconds,
            priority: config.priority,
        }
    }

    /// Where models are searched.
    pub fn models_search_url(&self) -> (r: String)
        ensures
            r@ == self@.base_url + "/ai/models/search"@,
    {
        concat2(self.account_base.as_str(), "/ai/models/search")
    }

    /// Where chats are completed.
    pub fn chat_completions_url(&self) -> (r: String)
        ensures
            r@ == self@.base_url + "/ai/v1/chat/completions"@,
    {
        concat2(self.account_base.as_str(), "/ai/v1/chat/completions")
    }

    /// The models that a search found.
    pub fn extract_model_ids(json: &Json) -> (r: Vec<String>)
        ensures
            views(r@) == match json@.get("result"@) {
                Some(v) => match v.items() {
                    Some(entries) => models_in(entries),
                    None => Seq::empty(),
                },
                None => Seq::empty(),
            },
    {
        let entries = match json.get("result") {
            Some(v) => v.as_array(),
            None => None,
        };
        match entries {
            Some(list) => models_listed(list),
            None => {
                let none: Vec<String> = Vec::new();
                assert(views(none@) =~= Seq::empty());
                none
            },
        }
    }
}

// ---------------------------------------------------------------- laws
proof fn with_member_found(
    members: Seq<(Seq<char>, JsonView)>,
    key: Seq<char>,
    value: JsonView,
    other: Seq<char>,
)
    ensures
        member(with_member(members, key, value), key) == Some(value),
        other != key ==> member(with_member(members, key, value), other) == member(members, other),
    decreases members.len(),
{
    let w = with_member(members, key, value);
    if members.len() == 0 {
        assert(w.subrange(1, w.len() as int) =~= Seq::empty());
        assert(member(w.subrange(1, w.len() as int), other) is None);
    } else {
        let rest = members.subrange(1, members.len() as int);
        if members[0].0 == key {
            assert(w.subrange(1, w.len() as int) =~= rest);
        } else {
            with_member_found(rest, key, value, other);
            assert(w.subrange(1, w.len() as int) =~= with_member(rest, key, value));
        }
    }
}

/// A response that was normalized once does not change when it is normalized
/// again, unless it holds a further wrapping.
pub proof fn normalizing_is_idempotent(raw: JsonView)
    requires
        match normalized(raw).get("result"@) {
            Some(v) => v is Null,
            None => true,
        },
    ensures
        normalized(normalized(raw)) == normalized(raw),
{
    reveal_strlit("result");
    reveal_strlit("choices");
    reveal_strlit("content");
    reveal_strlit("message");
    reveal_strlit("reasoning");
    let body = unwrapped(raw);
    let done = normalized(raw);
    assert(unwrapped(done) == done);
    if let Some(message) = first_message(body) {
        if let Some(t) = reasoning_of(message) {
            let choices = body.get("choices"@)->0->Array_0;
            let new_message = object_with(message, "content"@, JsonView::Text(t));
            let new_choice = object_with(choices[0], "message"@, new_message);
            let new_choices = choices.update(0, new_choice);
            with_member_found(
                body->Object_0,
                "choices"@,
                JsonView::Array(new_choices),
                "choices"@,
            );
            with_member_found(choices[0]->Object_0, "message"@, new_message, "message"@);
            with_member_found(message->Object_0, "content"@, JsonView::Text(t), "content"@);
            assert(first_message(done) == Some(new_message));
            assert(reasoning_of(new_message) is None);
        }
    }
}

/// A message that has content keeps it.
pub proof fn content_is_kept(body: JsonView)
    requires
        match first_message(body) {
            Some(m) => match m.get("content"@) {
                Some(c) => !(c is Null),
                None => false,
            },
            None => true,
        },
    ensures
        with_reasoning(body) == body,
{
}

} // verus!
