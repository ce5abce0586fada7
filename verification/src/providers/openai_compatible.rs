//! Services that speak the protocol of OpenAI.
use crate::config::ProviderConfig;
use crate::error::{GatewayError, GatewayResult};
use crate::json::{items_view, Json, JsonView, members_view, ObjectBuilder};
use crate::json_text::{read_json, reading};
use crate::lists::{kept, kept_all, kept_next, kept_satisfies};
use crate::models::{ChatCompletionRequest, RequestView};
use crate::providers::cloudflare::{models_in, models_listed};
use crate::providers::github_models::ProviderView;
use crate::providers::traits::{
    ChatResponse, is_http_error, is_success, nested_error_message, relayed_document,
    relayed_message, succeeded,
};
use crate::text::{
    blank, concat2, contains, copy_opt, decimal, is_blank, join, joined, occurs, opt_view,
    push_decimal, same, split_words, strip_suffix, views, words,
};
use vstd::string::StringSliceAdditionalSpecFns;
use vstd::utf8::*;
use vstd::prelude::*;

verus! {

#[derive(Debug)]
pub struct OpenAiCompatibleProvider {
    pub name: String,
    pub base_url: String,
    pub proxy_url: Option<String>,
    pub health_check_model: String,
    pub timeout_seconds: u64,
    pub priority: u32,
}

impl View for OpenAiCompatibleProvider {
    type V = ProviderView;

    open spec fn view(&self) -> ProviderView {
        ProviderView {
            name: self.name@,
            base_url: self.base_url@,
            proxy_url: opt_view(self.proxy_url),
            health_check_model: self.health_check_model@,
            timeout_seconds: self.timeout_seconds,
            priority: self.priority,
        }
    }
}

// ---------------------------------------------------------------- requests
/// Whether a field of a request is passed on: strict services refuse the name
/// of a provider.
pub open spec fn passed_on() -> spec_fn((Seq<char>, JsonView)) -> bool {
    |m: (Seq<char>, JsonView)| m.0 != "provider"@
}

/// Takes fields that strict services refuse out of a request.
pub fn strip_unsupported_extra_fields(request: &mut ChatCompletionRequest)
    ensures
        final(request)@ == (RequestView {
            extra: kept(old(request)@.extra, passed_on()),
            ..old(request)@
        }),
{
    let ghost all = request@.extra;
    let ghost p = passed_on();
    let mut list: Vec<(String, Json)> = Vec::new();
    let mut i: usize = 0;
    proof {
        kept_all(all, p);
        assert(members_view(list@) =~= kept(all.take(0), p));
    }
    while i < request.extra.len()
        invariant
            i <= request.extra@.len(),
            *request == *old(request),
            all == request@.extra,
            p == passed_on(),
            members_view(list@) == kept(all.take(i as int), p),
        decreases request.extra@.len() - i,
    {
        proof {
            kept_next(all, p, i as int);
            assert(all[i as int] == (request.extra@[i as int].0@, request.extra@[i as int].1@));
        }
        if !same(request.extra[i].0.as_str(), "provider") {
            let ghost so_far = members_view(list@);
            let m = (request.extra[i].0.clone(), request.extra[i].1.copy());
            list.push(m);
            assert(members_view(list@) =~= so_far.push(all[i as int]));
        }
        i += 1;
    }
    request.extra = list;
}

/// Makes a request for a stream.
pub fn ask_for_stream(request: &mut ChatCompletionRequest)
    ensures
        final(request)@ == (RequestView { stream: Some(true), ..old(request)@ }),
{
    request.stream = Some(true);
}

// ---------------------------------------------------------------- bodies
/// A text with single spaces between its words.
pub open spec fn compacted(text: Seq<char>) -> Seq<char> {
    joined(words(text), " "@)
}

/// Whether a preview of a text ends between two characters.
pub open spec fn previewable(text: Seq<char>) -> bool {
    let b = encode_utf8(compacted(text));
    b.len() > 240 ==> is_char_boundary(b, 240)
}

/// A text with single spaces between its words, cut after 240 bytes.
pub open spec fn preview(text: Seq<char>) -> Seq<char> {
    let b = encode_utf8(compacted(text));
    if b.len() > 240 {
        decode_utf8(b.subrange(0, 240)) + "..."@
    } else {
        compacted(text)
    }
}

/// Whether a preview of a text ends between two characters.
pub fn can_preview(body: &str) -> (r: bool)
    ensures
        r == previewable(body@),
{
    let parts = split_words(body);
    let compact = join(&parts, " ");
    compact.as_str().as_bytes().len() <= 240 || compact.as_str().is_char_boundary(240)
}

/// A text with single spaces between its words, cut after 240 bytes.
pub fn preview_body(body: &str) -> (r: String)
    requires
        previewable(body@),
    ensures
        r@ == preview(body@),
{
    let parts = split_words(body);
    let compact = join(&parts, " ");
    let s = compact.as_str();
    if s.as_bytes().len() > 240 {
        let (head, _) = s.split_at(240);
        proof {
            encode_utf8_decode_utf8(head@);
        }
        concat2(head, "...")
    } else {
        compact
    }
}

/// What is said of a body that is no JSON, although the status tells of
/// success.
pub open spec fn not_json_message(
    provider: Seq<char>,
    endpoint: Seq<char>,
    status: u16,
    error: Seq<char>,
    body: Seq<char>,
) -> Seq<char> {
    "non-JSON response from upstream provider="@ + provider + " endpoint="@ + endpoint
        + " status="@ + decimal(status as nat) + ": "@ + error + "; body_preview="@ + preview(body)
}

/// A body that stands for a text that is no JSON.
pub open spec fn message_body(message: Seq<char>) -> JsonView {
    JsonView::Object(
        seq![
            (
                "error"@,
                JsonView::Object(seq![("message"@, JsonView::Text(message))]),
            ),
        ],
    )
}

/// What a body comes to, where reading it as JSON gave `read`: the document, or
/// a preview as an error. A success that is no JSON is an error of the provider.
pub fn interpret_reading(
    read: Result<Json, String>,
    status: u16,
    body: &str,
    provider: &str,
    endpoint: &str,
) -> (r: GatewayResult<Json>)
    requires
        read is Err ==> previewable(body@),
    ensures
        match read {
            Ok(v) => r matches Ok(j) && j == v,
            Err(why) => if succeeded(status) {
                r matches Err(GatewayError::UpstreamError(m)) && m@ == not_json_message(
                    provider@,
                    endpoint@,
                    status,
                    why@,
                    body@,
                )
            } else {
                r matches Ok(j) && j@ == message_body(preview(body@))
            },
        },
{
    match read {
        Ok(v) => Ok(v),
        Err(why) => {
            let shown = preview_body(body);
            if is_success(status) {
                let mut m = "non-JSON response from upstream provider=".to_owned();
                m.push_str(provider);
                m.push_str(" endpoint=");
                m.push_str(endpoint);
                m.push_str(" status=");
                push_decimal(&mut m, status as u64);
                m.push_str(": ");
                m.push_str(why.as_str());
                m.push_str("; body_preview=");
                m.push_str(shown.as_str());
                Err(GatewayError::UpstreamError(m))
            } else {
                let mut inner = ObjectBuilder::new();
                inner.put_text("message", shown.as_str());
                assert(inner@ =~= message_body(preview(body@))->Object_0[0].1->Object_0);
                let mut o = ObjectBuilder::new();
                o.put("error", inner.done());
                assert(o@ =~= message_body(preview(body@))->Object_0);
                Ok(o.done())
            }
        },
    }
}

/// What a body says: the document that it is, else a preview of it.
pub open spec fn body_said(
    r: GatewayResult<Json>,
    status: u16,
    body: Seq<char>,
    provider: Seq<char>,
    endpoint: Seq<char>,
) -> bool {
    match reading(body) {
        Ok(v) => r matches Ok(j) && j@ == v,
        Err(why) => if succeeded(status) {
            r matches Err(GatewayError::UpstreamError(m)) && m@ == not_json_message(
                provider,
                endpoint,
                status,
                why,
                body,
            )
        } else {
            r matches Ok(j) && j@ == message_body(preview(body))
        },
    }
}

/// Reads the body of a response, which has a preview where it is no JSON.
pub fn parse_json_body(status: u16, body: &str, provider: &str, endpoint: &str) -> (r:
    GatewayResult<Json>)
    requires
        reading(body@) is Err ==> previewable(body@),
    ensures
        body_said(r, status, body@, provider@, endpoint@),
{
    interpret_reading(read_json(body), status, body, provider, endpoint)
}

/// Reads the body of a response; nothing where it is no JSON and has no preview
/// either.
pub fn try_parse_json_body(status: u16, body: &str, provider: &str, endpoint: &str) -> (r: Option<
    GatewayResult<Json>,
>)
    ensures
        match r {
            Some(said) => body_said(said, status, body@, provider@, endpoint@),
            None => reading(body@) is Err && !previewable(body@),
        },
{
    match read_json(body) {
        Ok(v) => Some(Ok(v)),
        Err(_) => {
            if can_preview(body) {
                Some(parse_json_body(status, body, provider, endpoint))
            } else {
                None
            }
        },
    }
}

/// What comes of a response: an error with its message, which may be that of a
/// relayed provider, or the response.
pub fn chat_reply(status: u16, body: Json, retry_after: Option<u64>) -> (r: GatewayResult<
    ChatResponse,
>)
    ensures
        match r {
            Ok(reply) => succeeded(status) && reply.body == body && reply.status == status
                && reply.rate_limits is None,
            Err(e) => !succeeded(status) && is_http_error(
                e,
                status,
                relayed_message(body@, relayed_document(body@)),
                retry_after,
            ),
        },
{
    if !is_success(status) {
        let message = nested_error_message(&body);
        return Err(GatewayError::http_error(status, message.as_str(), retry_after));
    }
    Ok(ChatResponse::new(body, status, None))
}

// ---------------------------------------------------------------- models
/// Where Cloudflare's models are searched, for an address of Cloudflare's.
pub open spec fn search_url(base_url: Seq<char>) -> Option<Seq<char>> {
    if occurs(base_url, "/client/v4/accounts/"@) && "/ai/v1"@.is_suffix_of(base_url) {
        Some(base_url.take(base_url.len() - "/ai/v1"@.len()) + "/ai/models/search"@)
    } else {
        None
    }
}

/// Where Cloudflare's models are searched, for an address of Cloudflare's.
pub fn cloudflare_models_search_url(base_url: &str) -> (r: Option<String>)
    ensures
        opt_view(r) == search_url(base_url@),
{
    if !contains(base_url, "/client/v4/accounts/") {
        return None;
    }
    match strip_suffix(base_url, "/ai/v1") {
        Some(prefix) => Some(concat2(prefix.as_str(), "/ai/models/search")),
        None => None,
    }
}

/// The entries in which a search lists what it found.
pub open spec fn search_entries(json: JsonView) -> Seq<JsonView> {
    let under = |name: Seq<char>|
        match json.get(name) {
            Some(v) => v.items(),
            None => None,
        };
    match under("result"@) {
        Some(list) => list,
        None => match under("data"@) {
            Some(list) => list,
            None => Seq::empty(),
        },
    }
}

/// The models that a search found.
pub fn extract_cloudflare_model_ids(json: &Json) -> (r: Vec<String>)
    ensures
        views(r@) == models_in(search_entries(json@)),
{
    let first = match json.get("result") {
        Some(v) => v.as_array(),
        None => None,
    };
    match first {
        Some(list) => models_listed(list),
        None => {
            let second = match json.get("data") {
                Some(v) => v.as_array(),
                None => None,
            };
            match second {
                Some(list) => models_listed(list),
                None => {
                    let none: Vec<Json> = Vec::new();
                    assert(items_view(none@) =~= Seq::empty());
                    models_listed(&none)
                },
            }
        },
    }
}

/// What follows when a service refuses to list its models.
#[derive(Debug)]
pub enum ListRefused {
    /// Look for them elsewhere.
    Search(String),
    /// Take it that there is one model.
    Assume(Vec<String>),
    /// Give up.
    Fail(GatewayError),
}

/// Whether a refusal only says that models cannot be listed this way.
pub open spec fn cannot_list(health_check_model: Seq<char>, status: u16, body: Seq<char>) -> bool {
    &&& status == 404 || status == 405
    &&& !is_blank(health_check_model)
    &&& occurs(body, "GET not supported"@)
}

impl OpenAiCompatibleProvider {
    /// What a configuration comes to.
    pub open spec fn configured(name: Seq<char>, config: ProviderConfig) -> ProviderView {
        ProviderView {
            name,
            base_url: config.base_url@,
            proxy_url: opt_view(config.proxy_url),
            health_check_model: config.health_check_model@,
            timeout_seconds: config.timeout_seconds,
            priority: config.priority,
        }
    }

    pub fn new(name: &str, config: &ProviderConfig) -> (r: OpenAiCompatibleProvider)
        ensures
            r@ == OpenAiCompatibleProvider::configured(name@, *config),
    {
        OpenAiCompatibleProvider {
            name: name.to_owned(),
            base_url: config.base_url.clone(),
            proxy_url: copy_opt(&config.proxy_url),
            health_check_model: config.health_check_model.clone(),
            timeout_seconds: config.timeout_seconds,
            priority: config.priority,
        }
    }

    /// Where the models are listed.
    pub fn models_url(&self) -> (r: String)
        ensures
            r@ == self@.base_url + "/models"@,
    {
        concat2(self.base_url.as_str(), "/models")
    }

    /// Where chats are completed.
    pub fn chat_completions_url(&self) -> (r: String)
        ensures
            r@ == self@.base_url + "/chat/completions"@,
    {
        concat2(self.base_url.as_str(), "/chat/completions")
    }

    /// The one model that is taken to be there.
    pub fn assumed_models(&self) -> (r: Vec<String>)
        ensures
            views(r@) == seq![self@.health_check_model],
    {
        let mut r: Vec<String> = Vec::new();
        r.push(self.health_check_model.clone());
        assert(views(r@) =~= seq![self@.health_check_model]);
        r
    }

    /// What follows when the service refuses to list its models.
    pub fn list_refused(&self, status: u16, body: &str, retry_after: Option<u64>) -> (r:
        ListRefused)
        ensures
            match r {
                ListRefused::Search(url) => cannot_list(
                    self@.health_check_model,
                    status,
                    body@,
                ) && search_url(self@.base_url) == Some(url@),
                ListRefused::Assume(list) => cannot_list(self@.health_check_model, status, body@)
                    && search_url(self@.base_url) is None && views(list@)
                    == seq![self@.health_check_model],
                ListRefused::Fail(e) => !cannot_list(self@.health_check_model, status, body@)
                    && is_http_error(e, status, body@, retry_after),
            },
    {
        if (status == 404 || status == 405) && !blank(self.health_check_model.as_str())
            && contains(body, "GET not supported") {
            match cloudflare_models_search_url(self.base_url.as_str()) {
                Some(url) => ListRefused::Search(url),
                None => ListRefused::Assume(self.assumed_models()),
            }
        } else {
            ListRefused::Fail(GatewayError::http_error(status, body, retry_after))
        }
    }

    /// The models after a search: what it found, else the one that is taken to
    /// be there. `None` is a search that failed.
    pub fn after_search(&self, found: Option<Vec<String>>) -> (r: Vec<String>)
        ensures
            views(r@) == match found {
                Some(list) => if list@.len() > 0 {
                    views(list@)
                } else {
                    seq![self@.health_check_model]
                },
                None => seq![self@.health_check_model],
            },
    {
        match found {
            Some(list) => if list.len() > 0 {
                list
            } else {
                self.assumed_models()
            },
            None => self.assumed_models(),
        }
    }
}

/// No request that was stripped names a provider, and stripping it again
/// changes nothing.
pub proof fn stripped_names_no_provider(extra: Seq<(Seq<char>, JsonView)>)
    ensures
        forall|i: int|
            0 <= i < kept(extra, passed_on()).len() ==> (#[trigger] kept(extra, passed_on())[i]).0
                != "provider"@,
        kept(kept(extra, passed_on()), passed_on()) == kept(extra, passed_on()),
{
    let once = kept(extra, passed_on());
    kept_satisfies(extra, passed_on());
    assert forall|i: int| 0 <= i < once.len() implies (#[trigger] once[i]).0 != "provider"@ by {
        assert(once.contains(once[i]));
        assert(passed_on()(once[i]));
    }
    kept_all_of_them(once, passed_on());
}

proof fn kept_all_of_them<T>(s: Seq<T>, p: spec_fn(T) -> bool)
    requires
        forall|i: int| 0 <= i < s.len() ==> p(#[trigger] s[i]),
    ensures
        kept(s, p) == s,
    decreases s.len(),
{
    if s.len() > 0 {
        assert forall|i: int| 0 <= i < s.drop_last().len() implies p(
            #[trigger] s.drop_last()[i],
        ) by {
            assert(s.drop_last()[i] == s[i]);
        }
        kept_all_of_them(s.drop_last(), p);
        assert(p(s[s.len() - 1]));
        assert(kept(s, p) =~= s);
    }
}

} // verus!
