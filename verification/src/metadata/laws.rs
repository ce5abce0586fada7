//! Laws of what is learned of models.
use crate::json::{get_in, JsonView, NumberView};
use crate::lists::{collected, collected_has};
use crate::metadata::learner::{
    entry_update, error_class, first_capture, limit_kind, limits_found, limits_sought, lists_text,
    positive_limit, update_from_entry, updates_from_list, wait_in_text, wait_of,
};
use crate::text::{i64_of, lower, lowercase_of, occurs};
use vstd::prelude::*;

verus! {

// ---------------------------------------------------------------- limits
/// The numbers that a response with status 429 writes, by the words around
/// them: a limit with what was requested, requests of a minute, requests of a
/// day, a quota of a day, tokens of a minute, tokens of a day, tokens of a day
/// after the word.
pub open spec fn captured(n: int, body: Seq<char>) -> Option<i64> {
    if n == 0 {
        first_capture(r"(?i)limit\s+(\d+)\s*,?\s*requested\s+\d+"@, body)
    } else if n == 1 {
        first_capture(r"(?i)(\d+)\s*(?:rpm|req/min|requests per minute|requests/minute)"@, body)
    } else if n == 2 {
        first_capture(r"(?i)(\d+)\s*(?:rpd|req/day|requests per day|requests/day)"@, body)
    } else if n == 3 {
        first_capture(r"(?i)(?:daily|per day|day).{0,30}?(?:limit|quota).{0,20}?(\d+)"@, body)
    } else if n == 4 {
        first_capture(r"(?i)(\d+)\s*(?:tpm|tok/min|tokens per minute|tokens/minute)"@, body)
    } else if n == 5 {
        first_capture(r"(?i)(\d+)\s*(?:tpd|tok/day|tokens per day|tokens/day)"@, body)
    } else {
        first_capture(r"(?i)(?:daily|per day|day).{0,30}?(?:token|tokens).{0,30}?(\d+)"@, body)
    }
}

/// Whether a text speaks of tokens.
pub open spec fn speaks_of_tokens(lowered: Seq<char>) -> bool {
    occurs(lowered, "token"@) || occurs(lowered, "tpm"@)
}

/// Whether a text speaks of days.
pub open spec fn speaks_of_days(lowered: Seq<char>) -> bool {
    occurs(lowered, "day"@) || occurs(lowered, "daily"@) || occurs(lowered, "rpd"@)
}

/// Whether a limit of a kind is learned from a body.
pub open spec fn is_learned(kind: Seq<char>, n: i64, body: Seq<char>) -> bool {
    limits_found(limits_sought(body)).contains((kind, n))
}

proof fn sought_is_found(found: Seq<(Seq<char>, Option<i64>)>, i: int)
    requires
        0 <= i < found.len(),
        found[i].1 matches Some(n) && n > 0,
    ensures
        limits_found(found).contains((found[i].0, found[i].1->0)),
    decreases found.len(),
{
    let f = |c: (Seq<char>, Option<i64>)| positive_limit(c);
    let r = collected(found, f);
    let u = (found[i].0, found[i].1->0);
    if i == found.len() - 1 {
        assert(r[r.len() - 1] == u);
    } else {
        assert(found.drop_last()[i] == found[i]);
        sought_is_found(found.drop_last(), i);
        let e = collected(found.drop_last(), f);
        let w = choose|w: int| 0 <= w < e.len() && e[w] == u;
        assert(r[w] == u);
    }
}

proof fn found_was_sought(found: Seq<(Seq<char>, Option<i64>)>, kind: Seq<char>, n: i64)
    requires
        limits_found(found).contains((kind, n)),
    ensures
        n > 0,
        exists|i: int| 0 <= i < found.len() && #[trigger] found[i] == (kind, Some(n)),
    decreases found.len(),
{
    let f = |c: (Seq<char>, Option<i64>)| positive_limit(c);
    let r = collected(found, f);
    let w = choose|w: int| 0 <= w < r.len() && r[w] == (kind, n);
    if found.len() > 0 {
        let e = collected(found.drop_last(), f);
        if w < e.len() {
            assert(e[w] == (kind, n));
            assert(e.contains((kind, n)));
            found_was_sought(found.drop_last(), kind, n);
            let i = choose|i: int|
                0 <= i < found.drop_last().len() && #[trigger] found.drop_last()[i] == (
                    kind,
                    Some(n),
                );
            assert(found[i] == (kind, Some(n)));
        } else {
            assert(found[found.len() - 1] == (kind, Some(n)));
        }
    }
}

proof fn kinds_differ()
    ensures
        "rpm"@ != "rpd"@,
        "rpm"@ != "tpm"@,
        "rpm"@ != "tpd"@,
        "rpd"@ != "tpm"@,
        "rpd"@ != "tpd"@,
        "tpm"@ != "tpd"@,
        "cooldown_seconds"@ != "rpm"@,
        "cooldown_seconds"@ != "rpd"@,
        "cooldown_seconds"@ != "tpm"@,
        "cooldown_seconds"@ != "tpd"@,
{
    reveal_strlit("rpm");
    reveal_strlit("rpd");
    reveal_strlit("tpm");
    reveal_strlit("tpd");
    reveal_strlit("cooldown_seconds");
    assert("rpm"@.len() == 3);
    assert("rpd"@.len() == 3);
    assert("tpm"@.len() == 3);
    assert("tpd"@.len() == 3);
    assert("cooldown_seconds"@.len() == 16);
    assert("rpm"@[2] != "rpd"@[2]);
    assert("rpm"@[0] != "tpm"@[0]);
    assert("rpm"@[0] != "tpd"@[0]);
    assert("rpd"@[0] != "tpm"@[0]);
    assert("rpd"@[0] != "tpd"@[0]);
    assert("tpm"@[2] != "tpd"@[2]);
}

/// Each number that the words of a response give a meaning is learned as what
/// the words say: requests of a minute or of a day, tokens of a minute or of a
/// day, where the number is positive.
pub proof fn disclosed_limits_are_learned(body: Seq<char>, n: i64)
    requires
        n > 0,
    ensures
        captured(1, body) == Some(n) ==> is_learned("rpm"@, n, body),
        captured(2, body) == Some(n) ==> is_learned("rpd"@, n, body),
        captured(3, body) == Some(n) ==> is_learned("rpd"@, n, body),
        captured(4, body) == Some(n) ==> is_learned("tpm"@, n, body),
        captured(5, body) == Some(n) ==> is_learned("tpd"@, n, body),
        captured(6, body) == Some(n) ==> is_learned("tpd"@, n, body),
{
    let found = limits_sought(body);
    if captured(1, body) == Some(n) {
        assert(found[1] == ("rpm"@, Some(n)));
        sought_is_found(found, 1);
    }
    if captured(2, body) == Some(n) {
        assert(found[2] == ("rpd"@, Some(n)));
        sought_is_found(found, 2);
    }
    if captured(3, body) == Some(n) {
        assert(found[3] == ("rpd"@, Some(n)));
        sought_is_found(found, 3);
    }
    if captured(4, body) == Some(n) {
        assert(found[4] == ("tpm"@, Some(n)));
        sought_is_found(found, 4);
    }
    if captured(5, body) == Some(n) {
        assert(found[5] == ("tpd"@, Some(n)));
        sought_is_found(found, 5);
    }
    if captured(6, body) == Some(n) {
        assert(found[6] == ("tpd"@, Some(n)));
        sought_is_found(found, 6);
    }
}

/// A limit whose kind is not named is learned by what the text speaks of:
/// tokens of a minute where it speaks of tokens, else requests of a day where it
/// speaks of days, else requests of a minute.
pub proof fn unnamed_limits_are_learned(body: Seq<char>, n: i64)
    requires
        captured(0, body) == Some(n),
        n > 0,
    ensures
        speaks_of_tokens(lowercase_of(body)) ==> is_learned("tpm"@, n, body),
        !speaks_of_tokens(lowercase_of(body)) && speaks_of_days(lowercase_of(body)) ==> is_learned(
            "rpd"@,
            n,
            body,
        ),
        !speaks_of_tokens(lowercase_of(body)) && !speaks_of_days(lowercase_of(body))
            ==> is_learned("rpm"@, n, body),
{
    let found = limits_sought(body);
    assert(found[0] == (limit_kind(lowercase_of(body)), Some(n)));
    sought_is_found(found, 0);
}

/// No limit is learned of a kind that the response does not speak of: requests
/// of a minute are what its words say so, or an unnamed limit in a text that
/// speaks neither of tokens nor of days; and so for each other kind. Nothing
/// else is learned but a wait.
pub proof fn learned_limits_were_disclosed(body: Seq<char>, kind: Seq<char>, n: i64)
    requires
        is_learned(kind, n, body),
    ensures
        n > 0,
        kind == "rpm"@ ==> captured(1, body) == Some(n) || (captured(0, body) == Some(n)
            && !speaks_of_tokens(lowercase_of(body)) && !speaks_of_days(lowercase_of(body))),
        kind == "rpd"@ ==> captured(2, body) == Some(n) || captured(3, body) == Some(n) || (
        captured(0, body) == Some(n) && !speaks_of_tokens(lowercase_of(body)) && speaks_of_days(
            lowercase_of(body),
        )),
        kind == "tpm"@ ==> captured(4, body) == Some(n) || (captured(0, body) == Some(n)
            && speaks_of_tokens(lowercase_of(body))),
        kind == "tpd"@ ==> captured(5, body) == Some(n) || captured(6, body) == Some(n),
        kind == "cooldown_seconds"@ ==> wait_in_text(body) == Some(n),
        kind == "rpm"@ || kind == "rpd"@ || kind == "tpm"@ || kind == "tpd"@ || kind
            == "cooldown_seconds"@,
{
    kinds_differ();
    let found = limits_sought(body);
    found_was_sought(found, kind, n);
    let i = choose|i: int| 0 <= i < found.len() && #[trigger] found[i] == (kind, Some(n));
    assert(found.len() == 8);
}

/// A wait that a response asks for is learned, in seconds.
pub proof fn waits_are_learned(body: Seq<char>, n: i64)
    requires
        wait_in_text(body) == Some(n),
        n > 0,
    ensures
        is_learned("cooldown_seconds"@, n, body),
{
    let found = limits_sought(body);
    assert(found[7] == ("cooldown_seconds"@, Some(n)));
    sought_is_found(found, 7);
}

/// A minute has sixty seconds, an hour sixty minutes, a day twenty-four hours:
/// the units by which a wait is written stand to each other so.
pub proof fn waits_are_counted_in_seconds(digits: Seq<char>, n: i64)
    requires
        i64_of(digits) == Some(n),
        0 <= n < 1_000_000_000,
    ensures
        wait_of(digits, "seconds"@) == Some(n),
        wait_of(digits, "second"@) == Some(n),
        wait_of(digits, "sec"@) == Some(n),
        wait_of(digits, "s"@) == Some(n),
        wait_of(digits, "minutes"@) == Some((60 * n) as i64),
        wait_of(digits, "minute"@) == wait_of(digits, "minutes"@),
        wait_of(digits, "min"@) == wait_of(digits, "minutes"@),
        wait_of(digits, "m"@) == wait_of(digits, "minutes"@),
        wait_of(digits, "hours"@) == Some((3600 * n) as i64),
        wait_of(digits, "hour"@) == wait_of(digits, "hours"@),
        wait_of(digits, "hr"@) == wait_of(digits, "hours"@),
        wait_of(digits, "h"@) == wait_of(digits, "hours"@),
        wait_of(digits, "days"@) == Some((86400 * n) as i64),
        wait_of(digits, "day"@) == wait_of(digits, "days"@),
        wait_of(digits, "d"@) == wait_of(digits, "days"@),
{
    reveal_strlit("seconds");
    reveal_strlit("second");
    reveal_strlit("sec");
    reveal_strlit("s");
    reveal_strlit("minutes");
    reveal_strlit("minute");
    reveal_strlit("min");
    reveal_strlit("m");
    reveal_strlit("hours");
    reveal_strlit("hour");
    reveal_strlit("hr");
    reveal_strlit("h");
    reveal_strlit("days");
    reveal_strlit("day");
    reveal_strlit("d");
    assert("seconds"@.len() == 7);
    assert("second"@.len() == 6);
    assert("sec"@.len() == 3);
    assert("s"@.len() == 1);
    assert("minutes"@.len() == 7);
    assert("minute"@.len() == 6);
    assert("min"@.len() == 3);
    assert("m"@.len() == 1);
    assert("hours"@.len() == 5);
    assert("hour"@.len() == 4);
    assert("hr"@.len() == 2);
    assert("h"@.len() == 1);
    assert("days"@.len() == 4);
    assert("day"@.len() == 3);
    assert("d"@.len() == 1);
    assert("seconds"@[0] != "minutes"@[0]);
    assert("second"@[0] != "minute"@[0]);
    assert("sec"@[0] != "min"@[0]);
    assert("sec"@[0] != "day"@[0]);
    assert("s"@[0] != "m"@[0]);
    assert("s"@[0] != "h"@[0]);
    assert("s"@[0] != "d"@[0]);
    assert("min"@[0] != "day"@[0]);
    assert("m"@[0] != "h"@[0]);
    assert("m"@[0] != "d"@[0]);
    assert("hour"@[0] != "days"@[0]);
    assert("h"@[0] != "d"@[0]);
}

// ---------------------------------------------------------------- model lists
/// What an entry of a model list says of a model is learned as what it is: its
/// identifier, its name, the length of its context and of its answers, and its
/// prices.
pub proof fn entries_are_read_as_what_they_say(
    provider: Seq<char>,
    item: JsonView,
    id: Seq<char>,
)
    requires
        item.get("id"@) == Some(JsonView::Text(id)),
    ensures
        update_from_entry(provider, item) matches Some(u) && {
            &&& u.provider == provider
            &&& u.model_id == id
            &&& item.get("name"@) matches Some(JsonView::Text(t)) ==> u.display_name == Some(t)
            &&& item.get("name"@) is None ==> (item.get("display_name"@) matches Some(
                JsonView::Text(t),
            ) ==> u.display_name == Some(t))
            &&& item.get("context_length"@) matches Some(JsonView::Number(NumberView::Unsigned(n)))
                ==> (n <= i64::MAX ==> u.context_window == Some(n as i64))
            &&& item.get("context_length"@) is None ==> (item.get("max_context"@) matches Some(
                JsonView::Number(NumberView::Unsigned(n)),
            ) ==> (n <= i64::MAX ==> u.context_window == Some(n as i64)))
            &&& item.get("context_length"@) is None && item.get("max_context"@) is None ==> (get_in(
                item.get("top_provider"@),
                "context_length"@,
            ) matches Some(JsonView::Number(NumberView::Unsigned(n))) ==> (n <= i64::MAX
                ==> u.context_window == Some(n as i64)))
            &&& item.get("max_completion_tokens"@) matches Some(
                JsonView::Number(NumberView::Unsigned(n)),
            ) ==> (n <= i64::MAX ==> u.max_completion_tokens == Some(n as i64))
            &&& item.get("max_completion_tokens"@) is None ==> (get_in(
                item.get("top_provider"@),
                "max_completion_tokens"@,
            ) matches Some(JsonView::Number(NumberView::Unsigned(n))) ==> (n <= i64::MAX
                ==> u.max_completion_tokens == Some(n as i64)))
            &&& get_in(item.get("pricing"@), "prompt"@) matches Some(JsonView::Text(t))
                ==> u.pricing_prompt == Some(t)
            &&& get_in(item.get("pricing"@), "completion"@) matches Some(JsonView::Text(t))
                ==> u.pricing_completion == Some(t)
            &&& get_in(item.get("architecture"@), "modality"@) matches Some(JsonView::Text(t))
                ==> u.architecture_modality == Some(t)
            &&& u.tpm_limit is None && u.tpd_limit is None
            &&& item.get("per_request_limits"@) is None ==> u.rpm_limit is None && u.rpd_limit
                is None
            &&& u.source == "model_list"@
        },
{
}

/// An entry without an identifier says nothing.
pub proof fn entries_without_identifier_say_nothing(provider: Seq<char>, item: JsonView)
    requires
        item.get("id"@) is None,
    ensures
        update_from_entry(provider, item) is None,
{
}

/// What a model can do is what its entry lists: tools where tools or a choice of
/// tools are among its parameters, reasoning where that is, images where they
/// are among what it takes. Where nothing is listed, nothing is learned.
pub proof fn capabilities_are_what_is_listed(
    provider: Seq<char>,
    item: JsonView,
    id: Seq<char>,
    parameters: Seq<JsonView>,
    inputs: Seq<JsonView>,
)
    requires
        item.get("id"@) == Some(JsonView::Text(id)),
    ensures
        update_from_entry(provider, item) matches Some(u) && {
            &&& item.get("supported_parameters"@) == Some(JsonView::Array(parameters)) ==> {
                &&& u.supports_tools == Some(
                    parameters.contains(JsonView::Text("tools"@)) || parameters.contains(
                        JsonView::Text("tool_choice"@),
                    ),
                )
                &&& u.supports_reasoning == Some(parameters.contains(JsonView::Text("reasoning"@)))
            }
            &&& item.get("supported_parameters"@) is None ==> u.supports_tools is None
                && u.supports_reasoning is None
            &&& get_in(item.get("architecture"@), "input_modalities"@) == Some(
                JsonView::Array(inputs),
            ) ==> u.supports_vision == Some(inputs.contains(JsonView::Text("image"@)))
            &&& item.get("architecture"@) is None ==> u.supports_vision is None
        },
{
    listed_is_contained(parameters, "tools"@);
    listed_is_contained(parameters, "tool_choice"@);
    listed_is_contained(parameters, "reasoning"@);
    listed_is_contained(inputs, "image"@);
}

proof fn listed_is_contained(items: Seq<JsonView>, text: Seq<char>)
    ensures
        lists_text(items, text) == items.contains(JsonView::Text(text)),
{
    if items.contains(JsonView::Text(text)) {
        let i = choose|i: int| 0 <= i < items.len() && items[i] == JsonView::Text(text);
        assert(items[i].text() == Some(text));
    }
}

/// Every entry of a list that has an identifier is learned, for the provider
/// whose list it is; lists stand under `data` or by themselves.
pub proof fn every_entry_is_learned(
    provider: Seq<char>,
    value: JsonView,
    entries: Seq<JsonView>,
    i: int,
    id: Seq<char>,
)
    requires
        value.get("data"@) == Some(JsonView::Array(entries)) || value == JsonView::Array(entries),
        0 <= i < entries.len(),
        entries[i].get("id"@) == Some(JsonView::Text(id)),
    ensures
        exists|k: int|
            0 <= k < updates_from_list(provider, value).len() && {
                let u = #[trigger] updates_from_list(provider, value)[k];
                u.provider == provider && u.model_id == id && update_from_entry(
                    provider,
                    entries[i],
                ) == Some(u)
            },
{
    let f = entry_update(provider);
    let r = updates_from_list(provider, value);
    collected_has(entries, f, i);
    let u = f(entries[i])->0;
    let k = choose|k: int| 0 <= k < r.len() && r[k] == u;
    assert(r[k] == u);
}

// ---------------------------------------------------------------- categories
/// Failures are counted by what they are: a model that is not there, a provider
/// that took too long, a provider that failed, or another.
pub proof fn failures_are_counted_by_what_they_are(message: Seq<char>, status: u16)
    requires
        status != 429 && status != 401 && status != 403,
    ensures
        status == 404 ==> error_class(message, status) == "not_found"@,
        occurs(lower(message), "model_not_found"@) || occurs(lower(message), "unknown model"@)
            || occurs(lower(message), "no such model"@) || occurs(
            lower(message),
            "invalid model id"@,
        ) || occurs(lower(message), "not a valid model id"@) ==> error_class(message, status)
            == "not_found"@,
        error_class(message, status) != "not_found"@ && (status == 504 || occurs(
            lower(message),
            "timeout"@,
        ) || occurs(lower(message), "time out"@)) ==> error_class(message, status) == "timeout"@,
        error_class(message, status) == "timeout"@ ==> status == 504 || occurs(
            lower(message),
            "timeout"@,
        ) || occurs(lower(message), "time out"@),
        error_class(message, status) == "upstream"@ ==> status >= 500,
        error_class(message, status) == "other"@ ==> status < 500,
{
    reveal_strlit("not_found");
    reveal_strlit("timeout");
    reveal_strlit("upstream");
    reveal_strlit("other");
    reveal_strlit("rate_limit");
    reveal_strlit("auth");
    assert("not_found"@.len() == 9);
    assert("timeout"@.len() == 7);
    assert("upstream"@.len() == 8);
    assert("other"@.len() == 5);
    assert("rate_limit"@.len() == 10);
    assert("auth"@.len() == 4);
}

} // verus!
