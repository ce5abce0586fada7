//! Laws of where services are asked, what is passed on, and what is hidden.
use crate::config::{KeyTier, ProviderConfig, tier_name};
use crate::cors::{header_named, is_token, is_token_char, method_named};
use crate::error::GatewayResult;
use crate::json::{Json, JsonView, member_at, NumberView};
use crate::json_text::reading;
use crate::keystate::mask;
use crate::lists::{collected_from, collected_has, kept, kept_satisfies};
use crate::models::{choice_tokens, completion_estimate};
use crate::providers::clamped;
use crate::providers::cloudflare::{
    account_of, CloudflareProvider, generates_text, reasoning_of, refusal_message,
};
use crate::providers::ollama::{OllamaProvider, reported_count};
use crate::providers::openai_compatible::{
    body_said, cannot_list, compacted, message_body, OpenAiCompatibleProvider, passed_on, preview,
    search_entries, search_url,
};
use crate::providers::traits::{below, entry_name, names_listed};
use crate::sanitize::{ends_value, redacted, value_len};
use crate::text::{is_blank, lower, occurs, occurs_at, without_leading, without_trailing};
use vstd::utf8::encode_utf8;
use vstd::prelude::*;

verus! {

// ---------------------------------------------------------------- addresses
/// The account of a service is its address without what names the interface,
/// whether that is there or not, and without slashes at the end.
pub proof fn accounts_are_what_precedes_the_interface(base: Seq<char>)
    requires
        base.len() > 0,
        base.last() != '/',
        !"/ai/v1"@.is_suffix_of(base),
        !"/ai"@.is_suffix_of(base),
    ensures
        account_of(base) == base,
        account_of(base + "/"@) == base,
        account_of(base + "/ai"@) == base,
        account_of(base + "/ai/v1"@) == base,
{
    reveal_strlit("/");
    reveal_strlit("/ai");
    reveal_strlit("/ai/v1");
    assert("/"@.len() == 1);
    assert("/ai"@.len() == 3);
    assert("/ai/v1"@.len() == 6);
    let a = base + "/"@;
    let b = base + "/ai"@;
    let c = base + "/ai/v1"@;
    assert(a.drop_last() =~= base);
    assert(a.last() == '/');
    reveal_with_fuel(without_trailing, 2);
    assert(b.last() == 'i');
    assert(c.last() == '1');
    assert(b.subrange(b.len() - 3, b.len() as int) =~= "/ai"@);
    assert(c.subrange(c.len() - 6, c.len() as int) =~= "/ai/v1"@);
    assert(b.take(b.len() - 3) =~= base);
    assert(c.take(c.len() - 6) =~= base);
    if "/ai/v1"@.is_suffix_of(b) {
        assert(b.subrange(b.len() - 6, b.len() as int)[5] == "/ai/v1"@[5]);
    }
}

/// The models of an account are searched beside its interface; an address of
/// any other form has no such search.
pub proof fn searches_stand_beside_the_interface(base: Seq<char>)
    ensures
        occurs(base + "/ai/v1"@, "/client/v4/accounts/"@) ==> search_url(base + "/ai/v1"@) == Some(
            base + "/ai/models/search"@,
        ),
        !occurs(base, "/client/v4/accounts/"@) ==> search_url(base) is None,
        !"/ai/v1"@.is_suffix_of(base) ==> search_url(base) is None,
{
    reveal_strlit("/ai/v1");
    assert("/ai/v1"@.len() == 6);
    let c = base + "/ai/v1"@;
    assert(c.subrange(c.len() - 6, c.len() as int) =~= "/ai/v1"@);
    assert(c.take(c.len() - 6) =~= base);
}

/// An address and what stands below it are joined by one slash, however many
/// they end or begin with.
pub proof fn addresses_are_joined_by_one_slash(base: Seq<char>, endpoint: Seq<char>)
    requires
        base.len() == 0 || base.last() != '/',
        endpoint.len() == 0 || endpoint[0] != '/',
    ensures
        below(base, endpoint) == base + "/"@ + endpoint,
        below(base + "/"@, endpoint) == base + "/"@ + endpoint,
        below(base, "/"@ + endpoint) == base + "/"@ + endpoint,
        below(base + "/"@, "/"@ + endpoint) == base + "/"@ + endpoint,
{
    reveal_strlit("/");
    assert("/"@.len() == 1);
    reveal_with_fuel(without_trailing, 2);
    reveal_with_fuel(without_leading, 2);
    assert((base + "/"@).drop_last() =~= base);
    assert((base + "/"@).last() == '/');
    assert(("/"@ + endpoint).drop_first() =~= endpoint);
    assert(("/"@ + endpoint)[0] == '/');
}

/// A provider is as it is configured.
pub proof fn providers_are_as_configured(name: Seq<char>, config: ProviderConfig)
    ensures
        ({
            let p = OpenAiCompatibleProvider::configured(name, config);
            let c = CloudflareProvider::configured(name, config);
            &&& p.name == name && c.name == name
            &&& p.base_url == config.base_url@
            &&& p.timeout_seconds == config.timeout_seconds && c.timeout_seconds
                == config.timeout_seconds
            &&& p.priority == config.priority && c.priority == config.priority
            &&& p.health_check_model == config.health_check_model@
            &&& config.health_check_model@.len() > 0 ==> c.health_check_model
                == config.health_check_model@
            &&& config.health_check_model@.len() == 0 ==> c.health_check_model
                == "@cf/meta/llama-3.2-3b-instruct"@
        }),
{
}

/// A time is kept between its bounds, and stays where it is between them.
pub proof fn times_are_kept_between_bounds(n: u64, low: u64, high: u64)
    requires
        low <= high,
    ensures
        low <= clamped(n, low, high) <= high,
        low <= n <= high ==> clamped(n, low, high) == n,
        n < low ==> clamped(n, low, high) == low,
        n > high ==> clamped(n, low, high) == high,
{
}

// ---------------------------------------------------------------- requests
/// Every field of a request is passed on but the name of a provider.
pub proof fn other_fields_are_passed_on(extra: Seq<(Seq<char>, JsonView)>, i: int)
    requires
        0 <= i < extra.len(),
    ensures
        extra[i].0 != "provider"@ ==> kept(extra, passed_on()).contains(extra[i]),
        extra[i].0 == "provider"@ ==> !kept(extra, passed_on()).contains(extra[i]),
{
    let p = passed_on();
    kept_satisfies(extra, p);
    assert(extra.contains(extra[i]));
    if extra[i].0 != "provider"@ {
        assert(p(extra[i]));
        assert(kept(extra, p).contains(extra[i]));
    } else if kept(extra, p).contains(extra[i]) {
        let w = choose|w: int| 0 <= w < kept(extra, p).len() && kept(extra, p)[w] == extra[i];
        assert(p(kept(extra, p)[w]));
    }
}

/// The names that are read are those that the entries of the list give.
pub proof fn listed_names_are_read(
    value: JsonView,
    items: Seq<JsonView>,
    list: Seq<char>,
    field: Seq<char>,
    name: Seq<char>,
)
    requires
        value.get(list) == Some(JsonView::Array(items)),
    ensures
        names_listed(value, list, field).contains(name) <==> exists|i: int|
            0 <= i < items.len() && (#[trigger] items[i]).get(field) == Some(JsonView::Text(name)),
{
    let f = entry_name(field);
    if exists|i: int|
        0 <= i < items.len() && (#[trigger] items[i]).get(field) == Some(JsonView::Text(name)) {
        let i = choose|i: int|
            0 <= i < items.len() && (#[trigger] items[i]).get(field) == Some(JsonView::Text(name));
        assert(f(items[i]) == Some(name));
        collected_has(items, f, i);
    }
    if names_listed(value, list, field).contains(name) {
        collected_from(items, f, name);
        let i = choose|i: int| 0 <= i < items.len() && f(#[trigger] items[i]) == Some(name);
        assert(items[i].get(field) == Some(JsonView::Text(name)));
    }
}

/// A service is taken not to list its models only where it says so, and only
/// where a model is known to try.
pub proof fn services_say_that_they_cannot_list(
    model: Seq<char>,
    status: u16,
    body: Seq<char>,
)
    ensures
        cannot_list(model, status, body) ==> (status == 404 || status == 405) && !is_blank(model)
            && occurs(body, "GET not supported"@),
        (status == 404 || status == 405) && !is_blank(model) && occurs(body, "GET not supported"@)
            ==> cannot_list(model, status, body),
{
}

/// What is short is previewed whole.
pub proof fn short_answers_are_previewed_whole(text: Seq<char>)
    requires
        encode_utf8(compacted(text)).len() <= 240,
    ensures
        preview(text) == compacted(text),
{
}

/// A refusal of the service is told as its first error says it; else as its
/// plain error does.
pub proof fn first_errors_are_told(
    body: JsonView,
    errors: Seq<JsonView>,
    message: Seq<char>,
    plain: JsonView,
)
    ensures
        body.get("errors"@) == Some(JsonView::Array(errors)) && errors.len() > 0 && errors[0].get(
            "message"@,
        ) == Some(JsonView::Text(message)) ==> refusal_message(body) == message,
        body.get("errors"@) is None && body.get("error"@) == Some(plain) && plain.get("message"@)
            == Some(JsonView::Text(message)) ==> refusal_message(body) == message,
{
}

/// The entries of a search are those under its result; where there are none,
/// those under its data.
pub proof fn searches_list_their_result(json: JsonView, list: Seq<JsonView>)
    ensures
        json.get("result"@) == Some(JsonView::Array(list)) ==> search_entries(json) == list,
        json.get("result"@) is None && json.get("data"@) == Some(JsonView::Array(list))
            ==> search_entries(json) == list,
        json.get("result"@) is None && json.get("data"@) is None ==> search_entries(json).len()
            == 0,
{
}

/// A body that reads as JSON is what it says. One that does not is an error of
/// the service where it was to be an answer, and else a message.
pub proof fn bodies_are_read(
    r: GatewayResult<Json>,
    status: u16,
    body: Seq<char>,
    provider: Seq<char>,
    endpoint: Seq<char>,
)
    requires
        body_said(r, status, body, provider, endpoint),
    ensures
        reading(body) matches Ok(v) ==> (r matches Ok(j) && j@ == v),
        reading(body) is Err && 200 <= status <= 299 ==> (r matches Err(e) && e is UpstreamError),
        reading(body) is Err && (status < 200 || status > 299) ==> (r matches Ok(j) && j@.get(
            "error"@,
        ) is Some && j@.get("error"@)->0.get("message"@) == Some(JsonView::Text(preview(body)))),
{
    if reading(body) is Err && (status < 200 || status > 299) {
        let m = message_body(preview(body))->Object_0;
        member_at(m, 0);
        let inner = m[0].1->Object_0;
        member_at(inner, 0);
    }
}

/// A name of a method or of a header is taken where it is a token, that of a
/// header in lower case; anything else is left out.
pub proof fn names_are_tokens(text: Seq<char>)
    ensures
        method_named(text) is Some <==> is_token(text),
        method_named(text) matches Some(m) ==> m == text,
        header_named(text) matches Some(h) ==> h == lower(text) && is_token(text),
        is_token(text) && text.len() <= 65535 ==> header_named(text) is Some,
        text.len() == 0 ==> method_named(text) is None && header_named(text) is None,
        text.contains(' ') ==> method_named(text) is None && header_named(text) is None,
        text.contains(',') ==> method_named(text) is None && header_named(text) is None,
{
    if text.contains(' ') {
        let w = choose|w: int| 0 <= w < text.len() && text[w] == ' ';
        assert(!is_token_char(text[w]));
    }
    if text.contains(',') {
        let w = choose|w: int| 0 <= w < text.len() && text[w] == ',';
        assert(!is_token_char(text[w]));
    }
}

// ---------------------------------------------------------------- secrets
/// A credential that follows a marker is replaced; what stands before the
/// marker, and what follows the credential, is kept.
pub proof fn credentials_are_replaced(
    before: Seq<char>,
    marker: Seq<char>,
    secret: Seq<char>,
    after: Seq<char>,
)
    requires
        marker.len() > 0,
        forall|i: int|
            0 <= i < before.len() ==> !(#[trigger] occurs_at(
                before + marker + secret + after,
                marker,
                i,
            )),
        forall|i: int| 0 <= i < secret.len() ==> !ends_value(#[trigger] secret[i]),
        after.len() == 0 || ends_value(after[0]),
    ensures
        redacted(before + marker + secret + after, marker) == before + marker + "[REDACTED]"@
            + redacted(after, marker),
    decreases before.len(),
{
    let s = before + marker + secret + after;
    if before.len() == 0 {
        assert(s.subrange(0, marker.len() as int) =~= marker);
        assert(occurs_at(s, marker, 0));
        let value = s.skip(marker.len() as int);
        assert(value =~= secret + after);
        values_end(secret, after);
        assert(value.skip(value_len(value) as int) =~= after);
        assert(before + marker =~= marker);
    } else {
        let rest = before.drop_first();
        let t = rest + marker + secret + after;
        assert(s.drop_first() =~= t);
        assert(!occurs_at(s, marker, 0));
        assert forall|i: int| 0 <= i < rest.len() implies !(#[trigger] occurs_at(t, marker, i)) by {
            if occurs_at(t, marker, i) {
                assert(t.subrange(i, i + marker.len()) =~= s.subrange(
                    i + 1,
                    i + 1 + marker.len(),
                ));
                assert(occurs_at(s, marker, i + 1));
            }
        }
        credentials_are_replaced(rest, marker, secret, after);
        assert(seq![s[0]] + (rest + marker + "[REDACTED]"@ + redacted(after, marker)) =~= before
            + marker + "[REDACTED]"@ + redacted(after, marker));
    }
}

proof fn values_end(secret: Seq<char>, after: Seq<char>)
    requires
        forall|i: int| 0 <= i < secret.len() ==> !ends_value(#[trigger] secret[i]),
        after.len() == 0 || ends_value(after[0]),
    ensures
        value_len(secret + after) == secret.len(),
    decreases secret.len(),
{
    let s = secret + after;
    if secret.len() == 0 {
        assert(s =~= after);
    } else {
        assert(s[0] == secret[0]);
        assert(s.drop_first() =~= secret.drop_first() + after);
        assert forall|i: int| 0 <= i < secret.drop_first().len() implies !ends_value(
            #[trigger] secret.drop_first()[i],
        ) by {
            assert(secret.drop_first()[i] == secret[i + 1]);
        }
        values_end(secret.drop_first(), after);
    }
}

/// A short key is hidden whole. Of a long one only the four bytes at either end
/// are shown: keys that agree in these are shown alike.
pub proof fn masks_hide_the_middle(a: Seq<char>, b: Seq<char>)
    ensures
        encode_utf8(a).len() <= 8 ==> mask(a) == "****"@,
        encode_utf8(a).len() > 8 && encode_utf8(b).len() > 8 && encode_utf8(a).subrange(0, 4)
            == encode_utf8(b).subrange(0, 4) && encode_utf8(a).subrange(
            encode_utf8(a).len() - 4,
            encode_utf8(a).len() as int,
        ) == encode_utf8(b).subrange(encode_utf8(b).len() - 4, encode_utf8(b).len() as int)
            ==> mask(a) == mask(b),
{
}

/// Tiers have names of their own.
pub proof fn tiers_are_named_apart(a: KeyTier, b: KeyTier)
    ensures
        tier_name(a) == tier_name(b) <==> a == b,
        tier_name(KeyTier::Free) == "free"@,
        tier_name(KeyTier::Paid) == "paid"@,
{
    reveal_strlit("free");
    reveal_strlit("paid");
    reveal_strlit("unknown");
    assert("free"@.len() == 4);
    assert("paid"@.len() == 4);
    assert("unknown"@.len() == 7);
    assert("free"@[0] != "paid"@[0]);
}

// ---------------------------------------------------------------- services
/// A local service is as it is configured, its address without slashes at the
/// end; without a priority of its own it comes last.
pub proof fn local_services_are_as_configured(name: Seq<char>, config: ProviderConfig)
    ensures
        ({
            let p = OllamaProvider::configured(name, config);
            &&& p.name == name
            &&& p.timeout_seconds == config.timeout_seconds
            &&& config.priority > 0 ==> p.priority == config.priority
            &&& config.priority == 0 ==> p.priority == 100
            &&& config.health_check_model@.len() > 0 ==> p.health_check_model
                == config.health_check_model@
            &&& config.base_url@.len() > 0 && config.base_url@.last() != '/' ==> p.base_url
                == config.base_url@
        }),
{
}

/// A count that a local service does not report is none.
pub proof fn unreported_counts_are_none(value: JsonView, name: Seq<char>, n: u32)
    ensures
        value.get(name) is None ==> reported_count(value, name) == 0,
        value.get(name) == Some(JsonView::Number(NumberView::Unsigned(n as u64)))
            ==> reported_count(value, name) == n,
{
}

/// A model whose task is told generates text where its task is to, whatever the
/// case of its letters; one whose task is not told is taken to.
pub proof fn tasks_tell_what_generates_text(model: JsonView, task: JsonView, said: Seq<char>)
    ensures
        model.get("task"@) is None ==> generates_text(model),
        model.get("task"@) == Some(task) && task.get("name"@) == Some(JsonView::Text(said))
            ==> generates_text(model) == (lower(said) == lower("Text Generation"@)),
{
}

/// Empty reasoning stands for nothing: the message stays as it is.
pub proof fn empty_reasoning_stands_for_nothing(message: JsonView)
    requires
        message.get("reasoning"@) == Some(JsonView::Text(Seq::empty())),
    ensures
        reasoning_of(message) is None,
{
}

/// An answer without choices is taken for no token, and a choice without a
/// message too.
pub proof fn nothing_said_is_no_token(body: JsonView, choice: JsonView, message: JsonView)
    ensures
        body.get("choices"@) is None ==> completion_estimate(body) == 0,
        choice.get("message"@) is None ==> choice_tokens(choice) == 0,
        choice.get("message"@) == Some(message) && message.get("content"@) is None && message.get(
            "tool_calls"@,
        ) is None ==> choice_tokens(choice) == 0,
{
}

} // verus!
