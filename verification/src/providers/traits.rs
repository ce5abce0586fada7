//! What all providers have in common: how their answers are read.
use crate::clock::{Moment, now_moment};
use crate::error::{GatewayError, GatewayResult, parse_retry_after_value_at, value_retry};
use crate::json::{get_in, items_view, Json, JsonView};
use crate::json_text::{document, json_text, parse_json, text_of};
use crate::lists::{collected, collected_all, collected_next, lookup, named_in};
use crate::text::{
    concat3, opt_view, parse_u32, trim_end_char, trim_start_char, u32_of, views, without_leading,
    without_trailing,
};
use vstd::prelude::*;

verus! {

/// The headers of a response: names in lower case, with their values where
/// those are text.
pub type Headers = Vec<(String, Option<String>)>;

/// What the headers of a response say of limits.
#[derive(Debug, Clone, Copy, PartialEq, Eq, Structural)]
pub struct RateLimitInfo {
    /// Max requests per minute (None = unknown).
    pub rpm_limit: Option<u32>,
    /// Remaining requests in current minute window (None = unknown).
    pub rpm_remaining: Option<u32>,
    /// Max requests per day (None = unknown).
    pub rpd_limit: Option<u32>,
    /// Remaining requests in current day window (None = unknown).
    pub rpd_remaining: Option<u32>,
    /// Max prompt+completion tokens per minute (None = unknown).
    pub tpm_limit: Option<u32>,
    /// Remaining tokens in current minute window (None = unknown).
    pub tpm_remaining: Option<u32>,
    /// Max tokens per day (None = unknown).
    pub tpd_limit: Option<u32>,
    /// Remaining tokens in current day window (None = unknown).
    pub tpd_remaining: Option<u32>,
}

/// The text of a header.
pub open spec fn header_text(headers: Seq<(String, Option<String>)>, name: Seq<char>) -> Option<
    Seq<char>,
> {
    match named_in(headers, name) {
        Some(Some(v)) => Some(v@),
        _ => None,
    }
}

/// The number in a header.
pub open spec fn header_number(headers: Seq<(String, Option<String>)>, name: Seq<char>) -> Option<
    u32,
> {
    match header_text(headers, name) {
        Some(t) => u32_of(t),
        None => None,
    }
}

/// The number in the first of some headers that has one.
pub open spec fn first_number(
    headers: Seq<(String, Option<String>)>,
    names: Seq<Seq<char>>,
) -> Option<u32>
    decreases names.len(),
{
    if names.len() == 0 {
        None
    } else {
        match first_number(headers, names.drop_last()) {
            Some(n) => Some(n),
            None => header_number(headers, names.last()),
        }
    }
}

/// The headers in which providers say how many requests a minute may have.
pub open spec fn request_limit_headers() -> Seq<Seq<char>> {
    seq![
        "x-ratelimit-limit-requests"@,
        "x-ratelimit-requests-limit"@,
        "x-ratelimit-limit"@,
        "x-rate-limit-limit"@,
    ]
}

/// The headers in which providers say how many requests are left.
pub open spec fn request_remaining_headers() -> Seq<Seq<char>> {
    seq![
        "x-ratelimit-remaining-requests"@,
        "x-ratelimit-requests-remaining"@,
        "x-ratelimit-remaining"@,
        "x-rate-limit-remaining"@,
    ]
}

/// What the headers of a response say of limits.
pub open spec fn limits_in(headers: Seq<(String, Option<String>)>) -> RateLimitInfo {
    RateLimitInfo {
        rpm_limit: first_number(headers, request_limit_headers()),
        rpm_remaining: first_number(headers, request_remaining_headers()),
        rpd_limit: None,
        rpd_remaining: None,
        tpm_limit: header_number(headers, "x-ratelimit-tokens-limit"@),
        tpm_remaining: header_number(headers, "x-ratelimit-tokens-remaining"@),
        tpd_limit: None,
        tpd_remaining: None,
    }
}

/// The text of a header.
pub fn header_value(headers: &Headers, name: &str) -> (r: Option<String>)
    ensures
        opt_view(r) == header_text(headers@, name@),
{
    match lookup(headers, name) {
        Some(Some(v)) => Some(v.clone()),
        _ => None,
    }
}

fn number_in(headers: &Headers, name: &str) -> (r: Option<u32>)
    ensures
        r == header_number(headers@, name@),
{
    match lookup(headers, name) {
        Some(Some(v)) => parse_u32(v.as_str()),
        _ => None,
    }
}

fn first_number_in(headers: &Headers, names: &[&str]) -> (r: Option<u32>)
    ensures
        r == first_number(headers@, names@.map_values(|n: &str| n@)),
{
    let ghost all = names@.map_values(|n: &str| n@);
    let mut i: usize = 0;
    assert(all.take(0) =~= Seq::empty());
    while i < names.len()
        invariant
            i <= names@.len(),
            all == names@.map_values(|n: &str| n@),
            first_number(headers@, all.take(i as int)) is None,
        decreases names@.len() - i,
    {
        let ghost next = all.take(i + 1);
        proof {
            assert(next.drop_last() =~= all.take(i as int));
            assert(next.last() == names@[i as int]@);
        }
        if let Some(n) = number_in(headers, names[i]) {
            proof {
                first_number_stays(headers@, all, i + 1);
            }
            return Some(n);
        }
        i += 1;
    }
    assert(all.take(all.len() as int) =~= all);
    None
}

proof fn first_number_stays(
    headers: Seq<(String, Option<String>)>,
    names: Seq<Seq<char>>,
    i: int,
)
    requires
        0 <= i <= names.len(),
        first_number(headers, names.take(i)) is Some,
    ensures
        first_number(headers, names) == first_number(headers, names.take(i)),
    decreases names.len() - i,
{
    if i == names.len() {
        assert(names.take(i) =~= names);
    } else {
        assert(names.take(i + 1).drop_last() =~= names.take(i));
        first_number_stays(headers, names, i + 1);
    }
}

/// What the headers of a response say of limits, under any of the names that
/// providers use.
pub fn extract_rate_limit_headers(headers: &Headers) -> (r: RateLimitInfo)
    ensures
        r == limits_in(headers@),
{
    let limits = [
        "x-ratelimit-limit-requests",
        "x-ratelimit-requests-limit",
        "x-ratelimit-limit",
        "x-rate-limit-limit",
    ];
    assert(limits@.map_values(|n: &str| n@) =~= request_limit_headers());
    let remaining = [
        "x-ratelimit-remaining-requests",
        "x-ratelimit-requests-remaining",
        "x-ratelimit-remaining",
        "x-rate-limit-remaining",
    ];
    assert(remaining@.map_values(|n: &str| n@) =~= request_remaining_headers());
    RateLimitInfo {
        rpm_limit: first_number_in(headers, &limits),
        rpm_remaining: first_number_in(headers, &remaining),
        rpd_limit: None,
        rpd_remaining: None,
        tpm_limit: number_in(headers, "x-ratelimit-tokens-limit"),
        tpm_remaining: number_in(headers, "x-ratelimit-tokens-remaining"),
        tpd_limit: None,
        tpd_remaining: None,
    }
}

/// The wait that a response asks for.
pub open spec fn retry_in(headers: Seq<(String, Option<String>)>, now: Moment) -> Option<u64> {
    match header_text(headers, "retry-after"@) {
        Some(t) => value_retry(t, now),
        None => None,
    }
}

/// The wait that a response asks for, at a moment.
pub fn retry_after_seconds_at(headers: &Headers, now: Moment) -> (r: Option<u64>)
    requires
        0 <= now.seconds,
    ensures
        r == retry_in(headers@, now),
{
    match header_value(headers, "retry-after") {
        Some(t) => parse_retry_after_value_at(t.as_str(), now),
        None => None,
    }
}

/// The wait that a response asks for.
pub fn retry_after_seconds(headers: &Headers) -> (r: Option<u64>)
    ensures
        exists|now: Moment| 0 <= now.seconds && r == #[trigger] retry_in(headers@, now),
{
    let now = now_moment();
    retry_after_seconds_at(headers, now)
}

// ---------------------------------------------------------------- replies
/// What a provider answered.
#[derive(Debug)]
pub struct ChatResponse {
    pub body: Json,
    pub status: u16,
    /// What the headers said of limits; none where they were not looked at.
    pub rate_limits: Option<RateLimitInfo>,
}

impl ChatResponse {
    pub fn new(body: Json, status: u16, rate_limits: Option<RateLimitInfo>) -> (r: ChatResponse)
        ensures
            r.body == body,
            r.status == status,
            r.rate_limits == rate_limits,
    {
        ChatResponse { body, status, rate_limits }
    }
}

/// Whether a status tells of success.
pub open spec fn succeeded(status: u16) -> bool {
    200 <= status <= 299
}

/// Whether a status tells of success.
pub fn is_success(status: u16) -> (r: bool)
    ensures
        r == succeeded(status),
{
    200 <= status && status <= 299
}

/// Whether an error is that of a response.
pub open spec fn is_http_error(
    e: GatewayError,
    status: u16,
    message: Seq<char>,
    retry_after: Option<u64>,
) -> bool {
    e matches GatewayError::HttpError { status: s, message: m, retry_after_seconds: a } && s
        == status && m@ == message && a == retry_after
}

/// The text at a path of two names.
pub open spec fn text_at(value: JsonView, first: Seq<char>, second: Seq<char>) -> Option<
    Seq<char>,
> {
    match get_in(value.get(first), second) {
        Some(v) => v.text(),
        None => None,
    }
}

/// The text at a path of two names.
pub fn str_at<'a>(value: &'a Json, first: &str, second: &str) -> (r: Option<&'a str>)
    ensures
        (match r {
            Some(t) => Some(t@),
            None => None,
        }) == text_at(value@, first@, second@),
{
    match value.get(first) {
        Some(inner) => match inner.get(second) {
            Some(v) => v.as_str(),
            None => None,
        },
        None => None,
    }
}

/// What the body of a refusal says: its error's message, else itself.
pub open spec fn plain_message(body: JsonView) -> Seq<char> {
    match text_at(body, "error"@, "message"@) {
        Some(m) => m,
        None => text_of(body),
    }
}

/// The raw error that a relaying provider passed on.
pub open spec fn relayed_error(body: JsonView) -> Option<Seq<char>> {
    match get_in(get_in(body.get("error"@), "metadata"@), "raw"@) {
        Some(v) => v.text(),
        None => None,
    }
}

/// What the body of a refusal says, where the raw error of a relayed provider
/// was read as `relayed`: the message of that error, else that of its own, else
/// itself.
pub open spec fn relayed_message(body: JsonView, relayed: Option<JsonView>) -> Seq<char> {
    match relayed {
        Some(v) => match text_at(v, "error"@, "message"@) {
            Some(m) => m,
            None => plain_message(body),
        },
        None => plain_message(body),
    }
}

/// The raw error that a relaying provider passed on, read.
pub open spec fn relayed_document(body: JsonView) -> Option<JsonView> {
    match relayed_error(body) {
        Some(raw) => document(raw),
        None => None,
    }
}

/// What the body of a refusal says: its error's message, else itself.
pub fn error_message(body: &Json) -> (r: String)
    ensures
        r@ == plain_message(body@),
{
    match str_at(body, "error", "message") {
        Some(m) => m.to_owned(),
        None => json_text(body),
    }
}

/// What the body of a refusal says, where the raw error of a relayed provider
/// was read.
pub fn message_with_relayed(body: &Json, relayed: Option<&Json>) -> (r: String)
    ensures
        r@ == relayed_message(
            body@,
            match relayed {
                Some(v) => Some(v@),
                None => None,
            },
        ),
{
    match relayed {
        Some(v) => match str_at(v, "error", "message") {
            Some(m) => m.to_owned(),
            None => error_message(body),
        },
        None => error_message(body),
    }
}

/// What the body of a refusal says: what a relayed provider said, else its
/// error's message, else itself.
pub fn nested_error_message(body: &Json) -> (r: String)
    ensures
        r@ == relayed_message(body@, relayed_document(body@)),
{
    let raw = match body.get("error") {
        Some(e) => match e.get("metadata") {
            Some(m) => match m.get("raw") {
                Some(v) => v.as_str(),
                None => None,
            },
            None => None,
        },
        None => None,
    };
    match raw {
        Some(text) => match parse_json(text) {
            Some(v) => message_with_relayed(body, Some(&v)),
            None => message_with_relayed(body, None),
        },
        None => message_with_relayed(body, None),
    }
}

/// What comes of a response with a JSON body: an error with its message where
/// the status tells of none, else the response.
pub fn post_reply(
    status: u16,
    body: Json,
    retry_after: Option<u64>,
    rate_limits: Option<RateLimitInfo>,
) -> (r: GatewayResult<ChatResponse>)
    ensures
        match r {
            Ok(reply) => succeeded(status) && reply.body == body && reply.status == status
                && reply.rate_limits == rate_limits,
            Err(e) => !succeeded(status) && is_http_error(
                e,
                status,
                plain_message(body@),
                retry_after,
            ),
        },
{
    if !is_success(status) {
        let message = error_message(&body);
        return Err(GatewayError::http_error(status, message.as_str(), retry_after));
    }
    Ok(ChatResponse::new(body, status, rate_limits))
}

/// An address and a path below it, with one slash between them.
pub open spec fn below(base: Seq<char>, endpoint: Seq<char>) -> Seq<char> {
    without_trailing(base, '/') + "/"@ + without_leading(endpoint, '/')
}

/// An address and a path below it, with one slash between them.
pub fn endpoint_url(base_url: &str, endpoint: &str) -> (r: String)
    ensures
        r@ == below(base_url@, endpoint@),
{
    let base = trim_end_char(base_url, '/');
    let path = trim_start_char(endpoint, '/');
    concat3(base.as_str(), "/", path.as_str())
}

// ---------------------------------------------------------------- model lists
/// The text under a name in an entry.
pub open spec fn entry_name(name: Seq<char>) -> spec_fn(JsonView) -> Option<Seq<char>> {
    |entry: JsonView|
        match entry.get(name) {
            Some(v) => v.text(),
            None => None,
        }
}

/// The names of the entries in a list of a document; none where it has no such
/// list.
pub open spec fn names_listed(value: JsonView, list: Seq<char>, name: Seq<char>) -> Seq<Seq<char>> {
    match value.get(list) {
        Some(v) => match v.items() {
            Some(items) => collected(items, entry_name(name)),
            None => Seq::empty(),
        },
        None => Seq::empty(),
    }
}

/// The names of the entries in a list of a document.
pub fn listed_names(value: &Json, list: &str, name: &str) -> (r: Vec<String>)
    ensures
        views(r@) == names_listed(value@, list@, name@),
{
    let mut r: Vec<String> = Vec::new();
    let entries = match value.get(list) {
        Some(v) => v.as_array(),
        None => None,
    };
    match entries {
        Some(items) => {
            let ghost all = items_view(items@);
            let ghost f = entry_name(name@);
            let mut i: usize = 0;
            proof {
                collected_all(all, f);
                assert(views(r@) =~= collected(all.take(0), f));
            }
            while i < items.len()
                invariant
                    i <= items@.len(),
                    all == items_view(items@),
                    f == entry_name(name@),
                    views(r@) == collected(all.take(i as int), f),
                decreases items@.len() - i,
            {
                proof {
                    collected_next(all, f, i as int);
                    assert(all[i as int] == items@[i as int]@);
                }
                if let Some(v) = items[i].get(name) {
                    if let Some(t) = v.as_str() {
                        let ghost so_far = views(r@);
                        r.push(t.to_owned());
                        assert(views(r@) =~= so_far.push(t@));
                    }
                }
                i += 1;
            }
        },
        None => {
            assert(views(r@) =~= Seq::empty());
        },
    }
    r
}

/// What a check of a provider comes to: how long it took, or an error where the
/// provider has no models.
pub fn health_reply(models: usize, elapsed_ms: u64, refusal: &str) -> (r: GatewayResult<u64>)
    ensures
        match r {
            Ok(ms) => models > 0 && ms == elapsed_ms,
            Err(e) => models == 0 && (e matches GatewayError::UpstreamError(m) && m@ == refusal@),
        },
{
    if models == 0 {
        return Err(GatewayError::UpstreamError(refusal.to_owned()));
    }
    Ok(elapsed_ms)
}

} // verus!
