//! Laws of errors, delays, checks and texts.
use crate::clock::{Moment, whole_seconds_until};
use crate::config::{RoutingStrategy, strategy_named};
use crate::error::{
    answer_of, auth_failure, category_of, error_envelope, error_retry, GatewayError, json_retry,
    key_attributable, match_retry, status_of, tells_of_credentials, tells_of_model,
    tells_of_region, tells_of_waf, times, unit_seconds,
};
use crate::health::HealthView;
use crate::json::{get_in, JsonView, member_at, NumberView};
use crate::models::{
    completion_estimate, compressed_message, MessageView, names_function, repaired_arguments,
    token_estimate, usage_or_estimate, useful_choice, useful_response,
};
use crate::providers::traits::{
    first_number, header_number, limits_in, plain_message, relayed_message, request_limit_headers,
    request_remaining_headers, succeeded,
};
use crate::rate_rules::{cloudflare_limits_in, openrouter_rpd};
use crate::sanitize::redacted;
use crate::text::{before, is_blank, lower, lower_is_idempotent, occurs, occurs_at, u64_of};
use vstd::prelude::*;

verus! {

// ---------------------------------------------------------------- texts
/// Texts stand in the order of the first characters in which they differ; what
/// begins another stands before it.
pub proof fn texts_stand_by_their_first_difference(a: Seq<char>, b: Seq<char>, k: int)
    requires
        0 <= k <= a.len(),
        k < b.len(),
        forall|i: int| 0 <= i < k ==> #[trigger] a[i] == b[i],
        k == a.len() || a[k] < b[k],
    ensures
        before(a, b),
    decreases k,
{
    if k > 0 {
        let x = a.drop_first();
        let y = b.drop_first();
        assert(a[0] == b[0]);
        assert forall|i: int| 0 <= i < k - 1 implies #[trigger] x[i] == y[i] by {
            assert(x[i] == a[i + 1] && y[i] == b[i + 1]);
        }
        texts_stand_by_their_first_difference(x, y, k - 1);
    }
}

/// What has no marker in it stays as it is.
pub proof fn texts_without_marker_stay(s: Seq<char>, marker: Seq<char>)
    requires
        forall|i: int| 0 <= i < s.len() ==> !(#[trigger] occurs_at(s, marker, i)),
    ensures
        redacted(s, marker) == s,
    decreases s.len(),
{
    if s.len() > 0 && marker.len() > 0 {
        let rest = s.drop_first();
        assert(!occurs_at(s, marker, 0));
        assert forall|i: int| 0 <= i < rest.len() implies !(#[trigger] occurs_at(
            rest,
            marker,
            i,
        )) by {
            if occurs_at(rest, marker, i) {
                assert(rest.subrange(i, i + marker.len()) =~= s.subrange(
                    i + 1,
                    i + 1 + marker.len(),
                ));
                assert(!occurs_at(s, marker, i + 1));
            }
        }
        texts_without_marker_stay(rest, marker);
        assert(seq![s[0]] + rest =~= s);
    }
}

// ---------------------------------------------------------------- errors
/// What is held against a key: refused credentials, rate limits, failures of the
/// provider and what never arrived. A request that is wrong, and whatever the
/// gateway itself fails at, is not.
pub proof fn errors_are_held_against_keys_rightly(e: GatewayError, text: String)
    ensures
        e matches GatewayError::HttpError { status, .. } ==> (status == 401 || status == 429
            || status >= 500 ==> key_attributable(e)),
        e matches GatewayError::HttpError { status, .. } ==> (status < 500 && status != 401
            && status != 403 && status != 429 ==> !key_attributable(e)),
        key_attributable(GatewayError::AuthFailed),
        key_attributable(GatewayError::Timeout(text)),
        key_attributable(GatewayError::Reqwest(text)),
        key_attributable(GatewayError::UpstreamError(text)),
        !key_attributable(GatewayError::InvalidRequest(text)),
        !key_attributable(GatewayError::ModelNotFound(text)),
        !key_attributable(GatewayError::NoAvailableKeys(text)),
        !key_attributable(GatewayError::Config(text)),
{
}

/// A refusal with status 403 blames the credentials unless it tells of a
/// firewall, a region or a model; it is held against the key only where it says
/// so.
pub proof fn refusals_blame_what_they_tell_of(message: String, retry: Option<u64>)
    ensures
        ({
            let e = GatewayError::HttpError {
                status: 403,
                message,
                retry_after_seconds: retry,
            };
            &&& auth_failure(e) <==> !tells_of_waf(message@) && !tells_of_region(message@)
                && !tells_of_model(message@)
            &&& key_attributable(e) <==> auth_failure(e) && tells_of_credentials(message@)
        }),
        tells_of_waf(message@) <==> tells_of_waf(lower(message@)),
        occurs(lower(message@), "cloudflare"@) ==> tells_of_waf(message@),
        occurs(lower(message@), "access denied"@) ==> tells_of_waf(message@),
        occurs(lower(message@), "region restricted"@) ==> tells_of_region(message@),
        occurs(lower(message@), "not available in your region"@) ==> tells_of_region(message@),
        occurs(lower(message@), "model not available"@) ==> tells_of_model(message@),
        occurs(lower(message@), "model_not_found"@) ==> tells_of_model(message@),
        occurs(lower(message@), "invalid api key"@) ==> tells_of_credentials(message@),
        occurs(lower(message@), "unauthorized"@) ==> tells_of_credentials(message@),
        occurs(lower(message@), "quota"@) ==> tells_of_credentials(message@),
{
    lower_is_idempotent(message@);
}

/// The status of an error is what it stands for, and a client is answered with
/// it: what was not found with 404, a wrong request with 400, a lack of keys or
/// providers with 503, a failure of the provider with 502, a timeout with 504.
pub proof fn errors_are_answered_rightly(e: GatewayError)
    ensures
        e matches GatewayError::HttpError { status, .. } ==> status_of(e) == status && (100
            <= status <= 999 ==> answer_of(e).0 == status),
        e is RateLimited ==> status_of(e) == 429 && answer_of(e).0 == 429,
        e is AuthFailed ==> status_of(e) == 401 && answer_of(e).0 == 401,
        e is Timeout ==> status_of(e) == 504 && answer_of(e).0 == 504,
        e is ProviderNotFound || e is ModelNotFound ==> answer_of(e).0 == 404,
        e is InvalidRequest ==> answer_of(e).0 == 400,
        e is NoAvailableKeys || e is AllProvidersFailed ==> answer_of(e).0 == 503,
        e is UpstreamError ==> answer_of(e).0 == 502,
        e is ProviderDisabled ==> answer_of(e).0 == 403,
        e matches GatewayError::InvalidRequest(m) ==> answer_of(e).2 == m@,
        e matches GatewayError::ModelNotFound(m) ==> answer_of(e).2 == m@,
{
}

/// What went wrong with a provider is not told to clients beyond that it did.
pub proof fn upstream_failures_are_not_told(a: String, b: String)
    ensures
        answer_of(GatewayError::UpstreamError(a)) == answer_of(GatewayError::UpstreamError(b)),
{
}

/// The envelope of an error tells its kind and its message.
pub proof fn envelopes_tell_kind_and_message(kind: Seq<char>, message: Seq<char>)
    ensures
        ({
            let error = error_envelope(kind, message).get("error"@);
            &&& get_in(error, "type"@) == Some(JsonView::Text(kind))
            &&& get_in(error, "message"@) == Some(JsonView::Text(message))
            &&& get_in(error, "code"@) == Some(JsonView::Text(kind))
        }),
{
    reveal_strlit("type");
    reveal_strlit("message");
    reveal_strlit("param");
    reveal_strlit("code");
    assert("type"@.len() == 4);
    assert("message"@.len() == 7);
    assert("param"@.len() == 5);
    assert("code"@.len() == 4);
    assert("type"@[0] != "code"@[0]);
    let o = error_envelope(kind, message)->Object_0;
    member_at(o, 0);
    let i = o[0].1->Object_0;
    member_at(i, 0);
    member_at(i, 1);
    member_at(i, 3);
}

/// Errors are counted as what they are: a rate limit however it was told, a
/// timeout as a timeout.
pub proof fn errors_are_counted_as_what_they_are(e: GatewayError)
    ensures
        e matches GatewayError::HttpError { status, .. } ==> (status == 429 ==> category_of(e)
            == "rate_limited"@),
        e is RateLimited ==> category_of(e) == "rate_limited"@,
        e is Timeout ==> category_of(e) == "timeout"@,
        e is NoAvailableKeys ==> category_of(e) == "no_keys"@,
        e is InvalidRequest ==> category_of(e) == "invalid_request"@,
        e matches GatewayError::HttpError { status, message, .. } ==> (status == 403
            && tells_of_waf(message@) ==> category_of(e) == "waf_blocked"@),
        e matches GatewayError::HttpError { status, message, .. } ==> (status == 403
            && !tells_of_waf(message@) && tells_of_region(message@) ==> category_of(e)
            == "region_forbidden"@),
        e matches GatewayError::HttpError { status, message, .. } ==> (status == 403
            && !tells_of_waf(message@) && !tells_of_region(message@) && tells_of_model(message@)
            ==> category_of(e) == "model_forbidden"@),
{
}

// ---------------------------------------------------------------- delays
/// The delay that a response gives in its headers counts before what its text
/// says.
pub proof fn given_delays_count(e: GatewayError, now: Moment)
    requires
        e matches GatewayError::HttpError { retry_after_seconds, .. } && retry_after_seconds
            is Some,
    ensures
        error_retry(e, now) == (match e {
            GatewayError::HttpError { retry_after_seconds, .. } => retry_after_seconds,
            _ => None,
        }),
{
}

/// A document that gives a delay under one of the known names asks for it; the
/// first of the names counts.
pub proof fn documents_give_delays(value: JsonView, seconds: u64, now: Moment)
    requires
        value is Object,
    ensures
        ({
            let n = Some(JsonView::Number(NumberView::Unsigned(seconds)));
            &&& value.get("retry_after"@) == n ==> json_retry(value, now) == Some(seconds)
            &&& value.get("retry_after"@) is None && value.get("retry_after_seconds"@) == n
                ==> json_retry(value, now) == Some(seconds)
            &&& value.get("retry_after"@) is None && value.get("retry_after_seconds"@) is None
                && value.get("cooldown_seconds"@) == n ==> json_retry(value, now) == Some(seconds)
            &&& value.get("retry_after"@) is None && value.get("retry_after_seconds"@) is None
                && value.get("cooldown_seconds"@) is None && value.get("reset_after"@) == n
                ==> json_retry(value, now) == Some(seconds)
            &&& value.get("retry_after"@) is None && value.get("retry_after_seconds"@) is None
                && value.get("cooldown_seconds"@) is None && value.get("reset_after"@) is None
                && value.get("reset_after_seconds"@) == n ==> json_retry(value, now) == Some(
                seconds,
            )
        }),
{
}

/// A sentence asks for as many seconds as its number and its unit come to.
pub proof fn sentences_give_delays(digits: Seq<char>, n: u64)
    requires
        u64_of(digits) == Some(n),
        n < 1_000_000_000,
    ensures
        match_retry(Some((Some(digits), Some("seconds"@)))) == Some(Some(n)),
        match_retry(Some((Some(digits), Some("s"@)))) == Some(Some(n)),
        match_retry(Some((Some(digits), Some("minutes"@)))) == Some(Some((60 * n) as u64)),
        match_retry(Some((Some(digits), Some("m"@)))) == Some(Some((60 * n) as u64)),
        match_retry(Some((Some(digits), Some("hours"@)))) == Some(Some((3600 * n) as u64)),
        match_retry(Some((Some(digits), Some("h"@)))) == Some(Some((3600 * n) as u64)),
        match_retry(Some((Some(digits), Some("days"@)))) == Some(Some((86400 * n) as u64)),
        match_retry(Some((Some(digits), Some("d"@)))) == Some(Some((86400 * n) as u64)),
{
    reveal_strlit("seconds");
    reveal_strlit("second");
    reveal_strlit("sec");
    reveal_strlit("s");
    reveal_strlit("minutes");
    reveal_strlit("minute");
    reveal_strlit("min");
    reveal_strlit("m");
    reveal_strlit("hours");
    reveal_strlit("hour");
    reveal_strlit("hr");
    reveal_strlit("h");
    reveal_strlit("days");
    reveal_strlit("day");
    reveal_strlit("d");
    assert("seconds"@.len() == 7);
    assert("second"@.len() == 6);
    assert("sec"@.len() == 3);
    assert("s"@.len() == 1);
    assert("minutes"@.len() == 7);
    assert("minute"@.len() == 6);
    assert("min"@.len() == 3);
    assert("m"@.len() == 1);
    assert("hours"@.len() == 5);
    assert("hour"@.len() == 4);
    assert("hr"@.len() == 2);
    assert("h"@.len() == 1);
    assert("days"@.len() == 4);
    assert("day"@.len() == 3);
    assert("d"@.len() == 1);
    assert("seconds"@[0] != "minutes"@[0]);
    assert("second"@[0] != "minute"@[0]);
    assert("sec"@[0] != "min"@[0]);
    assert("sec"@[0] != "day"@[0]);
    assert("s"@[0] != "m"@[0]);
    assert("s"@[0] != "h"@[0]);
    assert("s"@[0] != "d"@[0]);
    assert("min"@[0] != "day"@[0]);
    assert("m"@[0] != "h"@[0]);
    assert("m"@[0] != "d"@[0]);
    assert("hour"@[0] != "days"@[0]);
    assert("h"@[0] != "d"@[0]);
    assert(lower("seconds"@) =~= "seconds"@);
    assert(unit_seconds("seconds"@) == Some(1u64));
    assert(lower("s"@) =~= "s"@);
    assert(unit_seconds("s"@) == Some(1u64));
    assert(lower("minutes"@) =~= "minutes"@);
    assert(unit_seconds("minutes"@) == Some(60u64));
    assert(lower("m"@) =~= "m"@);
    assert(unit_seconds("m"@) == Some(60u64));
    assert(lower("hours"@) =~= "hours"@);
    assert(unit_seconds("hours"@) == Some(3600u64));
    assert(lower("h"@) =~= "h"@);
    assert(unit_seconds("h"@) == Some(3600u64));
    assert(lower("days"@) =~= "days"@);
    assert(unit_seconds("days"@) == Some(86400u64));
    assert(lower("d"@) =~= "d"@);
    assert(unit_seconds("d"@) == Some(86400u64));
    assert(times(n, 1) == n);
    assert(times(n, 60) == 60 * n);
    assert(times(n, 3600) == 3600 * n);
    assert(times(n, 86400) == 86400 * n);
}

/// Until a date it is as many seconds as lie between, and none once it has
/// passed.
pub proof fn dates_give_delays(date: Moment, now: Moment)
    requires
        date.nanos == 0,
        now.nanos == 0,
    ensures
        date.seconds >= now.seconds ==> whole_seconds_until(date, now) == date.seconds
            - now.seconds,
        date.seconds <= now.seconds ==> whole_seconds_until(date, now) == 0,
{
}

// ---------------------------------------------------------------- headers
/// What the headers of a response say of limits is read as what it is: of
/// requests from the first header that says it, of tokens from its own.
pub proof fn headers_say_limits(headers: Seq<(String, Option<String>)>, n: u32)
    ensures
        header_number(headers, "x-ratelimit-limit-requests"@) == Some(n) ==> limits_in(
            headers,
        ).rpm_limit == Some(n),
        header_number(headers, "x-ratelimit-remaining-requests"@) == Some(n) ==> limits_in(
            headers,
        ).rpm_remaining == Some(n),
        header_number(headers, "x-ratelimit-tokens-limit"@) == Some(n) ==> limits_in(
            headers,
        ).tpm_limit == Some(n),
        header_number(headers, "x-ratelimit-tokens-remaining"@) == Some(n) ==> limits_in(
            headers,
        ).tpm_remaining == Some(n),
        limits_in(headers).rpd_limit is None,
        limits_in(headers).tpd_limit is None,
{
    reveal_with_fuel(first_number, 5);
    let a = request_limit_headers();
    assert(a.drop_last().drop_last().drop_last().drop_last() =~= Seq::empty());
    assert(a.drop_last().drop_last().drop_last().last() == "x-ratelimit-limit-requests"@);
    let b = request_remaining_headers();
    assert(b.drop_last().drop_last().drop_last().drop_last() =~= Seq::empty());
    assert(b.drop_last().drop_last().drop_last().last() == "x-ratelimit-remaining-requests"@);
}

/// A status tells of success from 200 up to 299.
pub proof fn successes_have_their_statuses(status: u16)
    ensures
        succeeded(status) <==> 200 <= status < 300,
{
}

/// What a refusal says is the message of its error; where it relays an error of
/// another, the message of that.
pub proof fn refusals_say_their_message(body: JsonView, relayed: JsonView, m: Seq<char>, n: Seq<char>)
    requires
        get_in(body.get("error"@), "message"@) == Some(JsonView::Text(m)),
        get_in(relayed.get("error"@), "message"@) == Some(JsonView::Text(n)),
    ensures
        plain_message(body) == m,
        relayed_message(body, None) == m,
        relayed_message(body, Some(relayed)) == n,
{
}

// ---------------------------------------------------------------- tokens
/// The tokens that a response reports count; only where it reports none are
/// they estimated, those of the prompt as they were estimated before.
pub proof fn reported_tokens_count(body: JsonView, p: u32, c: u32, estimate: u32)
    ensures
        get_in(body.get("usage"@), "prompt_tokens"@) == Some(
            JsonView::Number(NumberView::Unsigned(p as u64)),
        ) && get_in(body.get("usage"@), "completion_tokens"@) == Some(
            JsonView::Number(NumberView::Unsigned(c as u64)),
        ) ==> usage_or_estimate(body, estimate) == (Some(p), Some(c), true),
        body.get("usage"@) is None ==> usage_or_estimate(body, estimate) == (
            Some(estimate),
            Some(completion_estimate(body)),
            false,
        ),
{
}

/// A longer text is taken for no fewer tokens.
pub proof fn longer_texts_have_no_fewer_tokens(a: Seq<char>, b: Seq<char>)
    requires
        a.len() <= b.len() <= u32::MAX,
    ensures
        token_estimate(a) <= token_estimate(b),
        b.len() >= a.len() + 4 ==> token_estimate(a) < token_estimate(b),
{
}

/// An output of a tool that is long enough is replaced by what was made of it,
/// under a note that says so; a blank one, or a short output, is not.
pub proof fn long_outputs_are_replaced(m: MessageView, text: Seq<char>, made: Seq<char>, min: u32)
    requires
        m.role == "tool"@,
        m.content == JsonView::Text(text),
    ensures
        token_estimate(text) >= min && !is_blank(made) ==> compressed_message(
            m,
            min,
            Some(made),
        ).content == JsonView::Text("[Compressed tool output]\n"@ + made),
        token_estimate(text) < min ==> compressed_message(m, min, Some(made)) == m,
        is_blank(made) ==> compressed_message(m, min, Some(made)) == m,
{
}

/// A response that says something is useful; one that has no choices is not.
pub proof fn answers_that_say_something_are_useful(
    body: JsonView,
    choices: Seq<JsonView>,
    message: JsonView,
    text: Seq<char>,
    i: int,
)
    ensures
        body.get("choices"@) == Some(JsonView::Array(choices)) && 0 <= i < choices.len()
            && choices[i].get("message"@) == Some(message) && message.get("content"@) == Some(
            JsonView::Text(text),
        ) && !is_blank(text) ==> useful_response(body),
        body.get("choices"@) is None ==> !useful_response(body),
        body.get("choices"@) == Some(JsonView::Array(Seq::empty())) ==> !useful_response(body),
        body.get("choices"@) == Some(JsonView::Array(choices)) && choices.len() == 1
            && choices[0].get("message"@) == Some(message) && message.get("content"@) == Some(
            JsonView::Text(text),
        ) && is_blank(text) && message.get("tool_calls"@) is None ==> !useful_response(body),
{
    if body.get("choices"@) == Some(JsonView::Array(choices)) && 0 <= i < choices.len()
        && choices[i].get("message"@) == Some(message) && message.get("content"@) == Some(
        JsonView::Text(text),
    ) && !is_blank(text) {
        assert(useful_choice(choices[i]));
    }
}

/// A call of a tool by its name is useful too, without words.
pub proof fn calls_of_tools_are_useful(
    body: JsonView,
    choices: Seq<JsonView>,
    message: JsonView,
    calls: Seq<JsonView>,
    name: Seq<char>,
    i: int,
    k: int,
)
    requires
        body.get("choices"@) == Some(JsonView::Array(choices)),
        0 <= i < choices.len(),
        choices[i].get("message"@) == Some(message),
        message.get("tool_calls"@) == Some(JsonView::Array(calls)),
        0 <= k < calls.len(),
        get_in(calls[k].get("function"@), "name"@) == Some(JsonView::Text(name)),
        !is_blank(name),
    ensures
        useful_response(body),
{
    assert(names_function(calls[k]));
    let given = message.get("tool_calls"@)->0->Array_0;
    assert(names_function(given[k]));
    assert(useful_choice(choices[i]));
    let all = body.get("choices"@)->0->Array_0;
    assert(useful_choice(all[i]));
}

/// Arguments that are missing become an empty object, and texts stay as they
/// are.
pub proof fn missing_arguments_become_an_object(text: Seq<char>)
    ensures
        repaired_arguments(JsonView::Null) == JsonView::Text("{}"@),
        repaired_arguments(JsonView::Text(text)) == JsonView::Text(text),
{
}

// ---------------------------------------------------------------- checks
/// A check that finds a provider healthy counts a success and forgets the last
/// error; any other counts a failure. Either notes what was found.
pub proof fn checks_note_what_they_find(
    h: HealthView,
    status: Seq<char>,
    latency: u64,
    models: usize,
    available: usize,
    total: usize,
    error: Seq<char>,
)
    requires
        h.success_count < u64::MAX,
        h.fail_count < u64::MAX,
    ensures
        ({
            let after = h.checked(status, latency, models, available, total);
            &&& after.status == status
            &&& after.latency_ms == latency
            &&& after.models_count == models
            &&& after.available_keys == available
            &&& after.total_keys == total
            &&& after.provider == h.provider
            &&& status == "healthy"@ ==> after.success_count == h.success_count + 1
                && after.fail_count == h.fail_count && after.last_error.len() == 0
            &&& status != "healthy"@ ==> after.fail_count == h.fail_count + 1
                && after.success_count == h.success_count
        }),
        h.failed(error).status == "unhealthy"@,
        h.failed(error).last_error == error,
        h.failed(error).fail_count == h.fail_count + 1,
        h.failed(error).success_count == h.success_count,
        h.failed_with_counts(error, available, total).available_keys == available,
        h.failed_with_counts(error, available, total).total_keys == total,
        h.failed_with_counts(error, available, total).last_error == error,
{
}

// ---------------------------------------------------------------- rules
/// A key of the free tier may make fewer requests a day than another; a key of
/// which nothing is said is taken for one.
pub proof fn free_keys_may_ask_less(body: JsonView, data: JsonView)
    requires
        body.get("data"@) == Some(data),
    ensures
        data.get("is_free_tier"@) == Some(JsonView::Bool(true)) ==> openrouter_rpd(body) == 50,
        data.get("is_free_tier"@) == Some(JsonView::Bool(false)) ==> openrouter_rpd(body) == 1000,
        data.get("is_free_tier"@) is None ==> openrouter_rpd(body) == 50,
{
}

/// What an account of Cloudflare's has left is shared among thirty days, rounded
/// down; its requests of a minute are read as they are.
pub proof fn what_is_left_is_shared(body: JsonView, result: JsonView, left: u64, rpm: u64)
    requires
        body.get("result"@) == Some(result),
        result.get("monthly_remaining"@) == Some(JsonView::Number(NumberView::Unsigned(left))),
        result.get("requests_per_minute"@) == Some(JsonView::Number(NumberView::Unsigned(rpm))),
        left < 100_000_000_000,
        rpm <= u32::MAX,
    ensures
        cloudflare_limits_in(body) matches Some(l) && {
            &&& l.rpm == Some(rpm as u32)
            &&& l.per_day() matches Some(d) && 30 * d <= left < 30 * (d + 1)
        },
{
}

/// The names of strategies are all different, and each means its own.
pub proof fn strategies_are_named()
    ensures
        strategy_named("round_robin"@) == Some(RoutingStrategy::RoundRobin),
        strategy_named("random"@) == Some(RoutingStrategy::Random),
        strategy_named("least_failed"@) == Some(RoutingStrategy::LeastFailed),
        strategy_named("least_rate"@) == Some(RoutingStrategy::LeastRate),
        strategy_named("priority"@) == Some(RoutingStrategy::Priority),
        strategy_named(""@) is None,
{
    reveal_strlit("round_robin");
    reveal_strlit("random");
    reveal_strlit("least_failed");
    reveal_strlit("least_rate");
    reveal_strlit("priority");
    reveal_strlit("");
    assert("round_robin"@.len() == 11);
    assert("random"@.len() == 6);
    assert("least_failed"@.len() == 12);
    assert("least_rate"@.len() == 10);
    assert("priority"@.len() == 8);
    assert(""@.len() == 0);
}

} // verus!
