//! What provider responses teach of models and their limits.
use crate::json::{get_in, group_json_views, items_view, Json, JsonView};
use crate::json_text::{document, parse_json};
use crate::lists::{collected, collected_all, collected_next};
use crate::metadata::usage::{usage_of, usage_record, UsageRecord};
use crate::patterns::{capture_groups, first_match};
use crate::text::{
    contains, i64_of, lower, lowercase, lowercase_of, occurs, opt_view, parse_i64, same, to_lower,
};
use vstd::prelude::*;

verus! {

/// What is learned of a model. Prices are kept as they were written.
#[derive(Debug)]
pub struct ModelUpdate {
    pub provider: String,
    pub model_id: String,
    pub display_name: Option<String>,
    pub context_window: Option<i64>,
    pub max_completion_tokens: Option<i64>,
    pub supports_vision: Option<bool>,
    pub supports_tools: Option<bool>,
    pub supports_reasoning: Option<bool>,
    pub pricing_prompt: Option<String>,
    pub pricing_completion: Option<String>,
    pub architecture_modality: Option<String>,
    pub rpm_limit: Option<i64>,
    pub rpd_limit: Option<i64>,
    pub tpm_limit: Option<i64>,
    pub tpd_limit: Option<i64>,
    pub source: String,
}

/// What a [`ModelUpdate`] holds.
pub struct ModelUpdateView {
    pub provider: Seq<char>,
    pub model_id: Seq<char>,
    pub display_name: Option<Seq<char>>,
    pub context_window: Option<i64>,
    pub max_completion_tokens: Option<i64>,
    pub supports_vision: Option<bool>,
    pub supports_tools: Option<bool>,
    pub supports_reasoning: Option<bool>,
    pub pricing_prompt: Option<Seq<char>>,
    pub pricing_completion: Option<Seq<char>>,
    pub architecture_modality: Option<Seq<char>>,
    pub rpm_limit: Option<i64>,
    pub rpd_limit: Option<i64>,
    pub tpm_limit: Option<i64>,
    pub tpd_limit: Option<i64>,
    pub source: Seq<char>,
}

impl View for ModelUpdate {
    type V = ModelUpdateView;

    open spec fn view(&self) -> ModelUpdateView {
        ModelUpdateView {
            provider: self.provider@,
            model_id: self.model_id@,
            display_name: opt_view(self.display_name),
            context_window: self.context_window,
            max_completion_tokens: self.max_completion_tokens,
            supports_vision: self.supports_vision,
            supports_tools: self.supports_tools,
            supports_reasoning: self.supports_reasoning,
            pricing_prompt: opt_view(self.pricing_prompt),
            pricing_completion: opt_view(self.pricing_completion),
            architecture_modality: opt_view(self.architecture_modality),
            rpm_limit: self.rpm_limit,
            rpd_limit: self.rpd_limit,
            tpm_limit: self.tpm_limit,
            tpd_limit: self.tpd_limit,
            source: self.source@,
        }
    }
}

/// The views of some updates.
pub open spec fn update_views(list: Seq<ModelUpdate>) -> Seq<ModelUpdateView> {
    list.map_values(|u: ModelUpdate| u@)
}

// ---------------------------------------------------------------- model lists
/// The first of two values that is there.
pub open spec fn either<T>(a: Option<T>, b: Option<T>) -> Option<T> {
    if a is Some {
        a
    } else {
        b
    }
}

/// The integer that a value is.
pub open spec fn integer_in(value: Option<JsonView>) -> Option<i64> {
    match value {
        Some(v) => v.signed(),
        None => None,
    }
}

/// The text that a value is.
pub open spec fn text_in(value: Option<JsonView>) -> Option<Seq<char>> {
    match value {
        Some(v) => v.text(),
        None => None,
    }
}

/// The items of a value that is an array.
pub open spec fn items_in(value: Option<JsonView>) -> Option<Seq<JsonView>> {
    match value {
        Some(v) => v.items(),
        None => None,
    }
}

/// Whether a text is among some values.
pub open spec fn lists_text(items: Seq<JsonView>, text: Seq<char>) -> bool {
    exists|i: int| 0 <= i < items.len() && (#[trigger] items[i]).text() == Some(text)
}

/// Whether a model takes images: by its input modalities, or by what its
/// modality is called.
pub open spec fn takes_images(item: JsonView) -> Option<bool> {
    let architecture = item.get("architecture"@);
    match items_in(get_in(architecture, "input_modalities"@)) {
        Some(list) => Some(lists_text(list, "image"@)),
        None => match text_in(get_in(architecture, "modality"@)) {
            Some(m) => Some(occurs(m, "image"@)),
            None => None,
        },
    }
}

/// What an entry of a provider's model list says of a model; nothing where it
/// has no identifier.
pub open spec fn update_from_entry(provider: Seq<char>, item: JsonView) -> Option<ModelUpdateView> {
    let top = item.get("top_provider"@);
    let parameters = items_in(item.get("supported_parameters"@));
    let limits = item.get("per_request_limits"@);
    match text_in(item.get("id"@)) {
        Some(id) => Some(
            ModelUpdateView {
                provider,
                model_id: id,
                display_name: text_in(either(item.get("name"@), item.get("display_name"@))),
                context_window: integer_in(
                    either(
                        either(item.get("context_length"@), item.get("max_context"@)),
                        get_in(top, "context_length"@),
                    ),
                ),
                max_completion_tokens: integer_in(
                    either(
                        item.get("max_completion_tokens"@),
                        get_in(top, "max_completion_tokens"@),
                    ),
                ),
                supports_vision: takes_images(item),
                supports_tools: match parameters {
                    Some(list) => Some(
                        lists_text(list, "tools"@) || lists_text(list, "tool_choice"@),
                    ),
                    None => None,
                },
                supports_reasoning: match parameters {
                    Some(list) => Some(lists_text(list, "reasoning"@)),
                    None => None,
                },
                pricing_prompt: text_in(get_in(item.get("pricing"@), "prompt"@)),
                pricing_completion: text_in(get_in(item.get("pricing"@), "completion"@)),
                architecture_modality: text_in(get_in(item.get("architecture"@), "modality"@)),
                rpm_limit: integer_in(limits),
                rpd_limit: match limits {
                    Some(v) => if v is Null {
                        None
                    } else {
                        Some(20)
                    },
                    None => None,
                },
                tpm_limit: None,
                tpd_limit: None,
                source: "model_list"@,
            },
        ),
        None => None,
    }
}

/// What each entry of a model list says, for a provider.
pub open spec fn entry_update(provider: Seq<char>) -> spec_fn(JsonView) -> Option<ModelUpdateView> {
    |item: JsonView| update_from_entry(provider, item)
}

/// The entries of a model list: under `data`, or the document itself.
pub open spec fn listed_entries(value: JsonView) -> Seq<JsonView> {
    match items_in(value.get("data"@)) {
        Some(list) => list,
        None => match value.items() {
            Some(list) => list,
            None => Seq::empty(),
        },
    }
}

/// What a model list says of the models in it.
pub open spec fn updates_from_list(provider: Seq<char>, value: JsonView) -> Seq<ModelUpdateView> {
    collected(listed_entries(value), entry_update(provider))
}

fn get_in_opt<'a>(value: Option<&'a Json>, key: &str) -> (r: Option<&'a Json>)
    ensures
        match r {
            Some(v) => get_in(
                match value {
                    Some(x) => Some(x@),
                    None => None,
                },
                key@,
            ) == Some(v@),
            None => get_in(
                match value {
                    Some(x) => Some(x@),
                    None => None,
                },
                key@,
            ) is None,
        },
{
    match value {
        Some(v) => v.get(key),
        None => None,
    }
}

/// The view of an optional reference.
pub open spec fn ref_view(value: Option<&Json>) -> Option<JsonView> {
    match value {
        Some(v) => Some(v@),
        None => None,
    }
}

fn first_of<'a>(a: Option<&'a Json>, b: Option<&'a Json>) -> (r: Option<&'a Json>)
    ensures
        ref_view(r) == either(ref_view(a), ref_view(b)),
{
    match a {
        Some(v) => Some(v),
        None => b,
    }
}

fn integer_of(value: Option<&Json>) -> (r: Option<i64>)
    ensures
        r == integer_in(ref_view(value)),
{
    match value {
        Some(v) => v.as_i64(),
        None => None,
    }
}

fn text_of_value(value: Option<&Json>) -> (r: Option<String>)
    ensures
        opt_view(r) == text_in(ref_view(value)),
{
    match value {
        Some(v) => match v.as_str() {
            Some(s) => Some(s.to_owned()),
            None => None,
        },
        None => None,
    }
}

fn items_of<'a>(value: Option<&'a Json>) -> (r: Option<&'a Vec<Json>>)
    ensures
        match r {
            Some(list) => items_in(ref_view(value)) == Some(items_view(list@)),
            None => items_in(ref_view(value)) is None,
        },
{
    match value {
        Some(v) => v.as_array(),
        None => None,
    }
}

fn has_text(items: &Vec<Json>, text: &str) -> (r: bool)
    ensures
        r == lists_text(items_view(items@), text@),
{
    let ghost all = items_view(items@);
    let mut i: usize = 0;
    while i < items.len()
        invariant
            i <= items@.len(),
            all == items_view(items@),
            forall|j: int| 0 <= j < i ==> (#[trigger] all[j]).text() != Some(text@),
        decreases items@.len() - i,
    {
        assert(all[i as int] == items@[i as int]@);
        if let Some(s) = items[i].as_str() {
            if same(s, text) {
                return true;
            }
        }
        i += 1;
    }
    false
}

fn images(item: &Json) -> (r: Option<bool>)
    ensures
        r == takes_images(item@),
{
    let architecture = item.get("architecture");
    match items_of(get_in_opt(architecture, "input_modalities")) {
        Some(list) => Some(has_text(list, "image")),
        None => match text_of_value(get_in_opt(architecture, "modality")) {
            Some(m) => Some(contains(m.as_str(), "image")),
            None => None,
        },
    }
}

/// What an entry of a provider's model list says of a model.
pub fn learn_from_entry(provider: &str, item: &Json) -> (r: Option<ModelUpdate>)
    ensures
        match r {
            Some(u) => update_from_entry(provider@, item@) == Some(u@),
            None => update_from_entry(provider@, item@) is None,
        },
{
    let model_id = match text_of_value(item.get("id")) {
        Some(id) => id,
        None => {
            return None;
        },
    };
    let top = item.get("top_provider");
    let limits = item.get("per_request_limits");
    let parameters = items_of(item.get("supported_parameters"));
    let pricing = item.get("pricing");
    let supports_tools = match parameters {
        Some(list) => Some(has_text(list, "tools") || has_text(list, "tool_choice")),
        None => None,
    };
    let supports_reasoning = match parameters {
        Some(list) => Some(has_text(list, "reasoning")),
        None => None,
    };
    let rpd_limit: Option<i64> = match limits {
        Some(v) => if v.is_null() {
            None
        } else {
            Some(20)
        },
        None => None,
    };
    Some(
        ModelUpdate {
            provider: provider.to_owned(),
            model_id,
            display_name: text_of_value(first_of(item.get("name"), item.get("display_name"))),
            context_window: integer_of(
                first_of(
                    first_of(item.get("context_length"), item.get("max_context")),
                    get_in_opt(top, "context_length"),
                ),
            ),
            max_completion_tokens: integer_of(
                first_of(
                    item.get("max_completion_tokens"),
                    get_in_opt(top, "max_completion_tokens"),
                ),
            ),
            supports_vision: images(item),
            supports_tools,
            supports_reasoning,
            pricing_prompt: text_of_value(get_in_opt(pricing, "prompt")),
            pricing_completion: text_of_value(get_in_opt(pricing, "completion")),
            architecture_modality: text_of_value(
                get_in_opt(item.get("architecture"), "modality"),
            ),
            rpm_limit: integer_of(limits),
            rpd_limit,
            tpm_limit: None,
            tpd_limit: None,
            source: "model_list".to_owned(),
        },
    )
}

/// What a parsed model list says of the models in it.
pub fn learn_from_list(provider: &str, value: &Json) -> (r: Vec<ModelUpdate>)
    ensures
        update_views(r@) == updates_from_list(provider@, value@),
{
    broadcast use group_json_views;

    let entries = match items_of(value.get("data")) {
        Some(list) => list,
        None => match value.as_array() {
            Some(list) => list,
            None => {
                let none: Vec<ModelUpdate> = Vec::new();
                assert(update_views(none@) =~= updates_from_list(provider@, value@));
                return none;
            },
        },
    };
    let ghost all = items_view(entries@);
    let ghost f = entry_update(provider@);
    let mut r: Vec<ModelUpdate> = Vec::new();
    let mut i: usize = 0;
    proof {
        collected_all(all, f);
        assert(update_views(r@) =~= collected(all.take(0), f));
    }
    while i < entries.len()
        invariant
            i <= entries@.len(),
            all == items_view(entries@),
            f == entry_update(provider@),
            update_views(r@) == collected(all.take(i as int), f),
        decreases entries@.len() - i,
    {
        proof {
            collected_next(all, f, i as int);
            assert(all[i as int] == entries@[i as int]@);
        }
        if let Some(u) = learn_from_entry(provider, &entries[i]) {
            let ghost so_far = update_views(r@);
            r.push(u);
            assert(update_views(r@) =~= so_far.push(u@));
        }
        i += 1;
    }
    r
}

/// What the body of a provider's `/v1/models` response says of its models;
/// nothing where it is no JSON document.
pub fn learn_from_models_response(provider: &str, body: &str) -> (r: Vec<ModelUpdate>)
    ensures
        update_views(r@) == match document(body@) {
            Some(v) => updates_from_list(provider@, v),
            None => Seq::empty(),
        },
{
    match parse_json(body) {
        Some(value) => learn_from_list(provider, &value),
        None => {
            let none: Vec<ModelUpdate> = Vec::new();
            assert(update_views(none@) =~= Seq::empty());
            none
        },
    }
}

// ---------------------------------------------------------------- limits
/// A limit that a provider disclosed.
#[derive(Debug)]
pub struct LearnedLimit {
    pub limit_type: String,
    pub limit: i64,
}

/// The views of some limits.
pub open spec fn limit_views(list: Seq<LearnedLimit>) -> Seq<(Seq<char>, i64)> {
    list.map_values(|l: LearnedLimit| (l.limit_type@, l.limit))
}

/// The number in the first group of a pattern's first match.
pub open spec fn first_capture(pattern: Seq<char>, text: Seq<char>) -> Option<i64> {
    match first_match(pattern, text) {
        Some((Some(digits), _)) => i64_of(digits),
        _ => None,
    }
}

/// What a limit of unnamed kind counts, by the words around it.
pub open spec fn limit_kind(lowered: Seq<char>) -> Seq<char> {
    if occurs(lowered, "token"@) || occurs(lowered, "tpm"@) {
        "tpm"@
    } else if occurs(lowered, "day"@) || occurs(lowered, "daily"@) || occurs(lowered, "rpd"@) {
        "rpd"@
    } else {
        "rpm"@
    }
}

/// The seconds in a unit of time; `None` for an unknown unit.
pub open spec fn unit_seconds(unit: Seq<char>) -> Option<i64> {
    if unit == "second"@ || unit == "seconds"@ || unit == "sec"@ || unit == "s"@ {
        Some(1)
    } else if unit == "minute"@ || unit == "minutes"@ || unit == "min"@ || unit == "m"@ {
        Some(60)
    } else if unit == "hour"@ || unit == "hours"@ || unit == "hr"@ || unit == "h"@ {
        Some(3600)
    } else if unit == "day"@ || unit == "days"@ || unit == "d"@ {
        Some(86400)
    } else {
        None
    }
}

/// A product that stops at the ends of the type.
pub open spec fn capped_product(a: i64, b: i64) -> i64 {
    if a * b > i64::MAX {
        i64::MAX
    } else if a * b < i64::MIN {
        i64::MIN
    } else {
        (a * b) as i64
    }
}

/// The wait in seconds that a number and a unit, in lower case, write.
pub open spec fn wait_of(digits: Seq<char>, unit: Seq<char>) -> Option<i64> {
    match (i64_of(digits), unit_seconds(unit)) {
        (Some(v), Some(m)) => Some(capped_product(v, m)),
        _ => None,
    }
}

/// The pattern of a hint when to try again.
pub open spec fn retry_pattern() -> Seq<char> {
    r"(?i)(?:retry|try again|reset|available).{0,40}?(\d+)\s*(second|seconds|sec|s|minute|minutes|min|m|hour|hours|hr|h|day|days|d)\b"@
}

/// The wait in seconds that a text asks for.
pub open spec fn wait_in_text(text: Seq<char>) -> Option<i64> {
    match first_match(retry_pattern(), text) {
        Some((Some(digits), Some(unit))) => wait_of(digits, lowercase_of(unit)),
        _ => None,
    }
}

/// The limit of a kind, where it was found and says something.
pub open spec fn positive_limit(candidate: (Seq<char>, Option<i64>)) -> Option<(Seq<char>, i64)> {
    match candidate.1 {
        Some(v) => if v > 0 {
            Some((candidate.0, v))
        } else {
            None
        },
        None => None,
    }
}

/// The limits found in a response, in the order in which they are recorded.
pub open spec fn limits_found(found: Seq<(Seq<char>, Option<i64>)>) -> Seq<(Seq<char>, i64)> {
    collected(found, |c: (Seq<char>, Option<i64>)| positive_limit(c))
}

/// What a response may disclose: a limit of unnamed kind, limits of named
/// kinds, and a wait.
pub open spec fn limits_sought(body: Seq<char>) -> Seq<(Seq<char>, Option<i64>)> {
    seq![
        (
            limit_kind(lowercase_of(body)),
            first_capture(r"(?i)limit\s+(\d+)\s*,?\s*requested\s+\d+"@, body),
        ),
        (
            "rpm"@,
            first_capture(
                r"(?i)(\d+)\s*(?:rpm|req/min|requests per minute|requests/minute)"@,
                body,
            ),
        ),
        (
            "rpd"@,
            first_capture(
                r"(?i)(\d+)\s*(?:rpd|req/day|requests per day|requests/day)"@,
                body,
            ),
        ),
        (
            "rpd"@,
            first_capture(
                r"(?i)(?:daily|per day|day).{0,30}?(?:limit|quota).{0,20}?(\d+)"@,
                body,
            ),
        ),
        (
            "tpm"@,
            first_capture(
                r"(?i)(\d+)\s*(?:tpm|tok/min|tokens per minute|tokens/minute)"@,
                body,
            ),
        ),
        (
            "tpd"@,
            first_capture(
                r"(?i)(\d+)\s*(?:tpd|tok/day|tokens per day|tokens/day)"@,
                body,
            ),
        ),
        (
            "tpd"@,
            first_capture(
                r"(?i)(?:daily|per day|day).{0,30}?(?:token|tokens).{0,30}?(\d+)"@,
                body,
            ),
        ),
        ("cooldown_seconds"@, wait_in_text(body)),
    ]
}

fn first_capture_i64(pattern: &str, text: &str) -> (r: Option<i64>)
    ensures
        r == first_capture(pattern@, text@),
{
    match capture_groups(pattern, text) {
        Some((Some(digits), _)) => parse_i64(digits.as_str()),
        _ => None,
    }
}

/// What a limit of unnamed kind counts, by the words of the lowered text.
pub fn unnamed_limit_kind(lowered: &str) -> (r: &'static str)
    ensures
        r@ == limit_kind(lowered@),
{
    if contains(lowered, "token") || contains(lowered, "tpm") {
        "tpm"
    } else if contains(lowered, "day") || contains(lowered, "daily") || contains(lowered, "rpd") {
        "rpd"
    } else {
        "rpm"
    }
}

/// The wait in seconds that a number and a unit, in lower case, write.
pub fn wait_seconds(digits: &str, unit: &str) -> (r: Option<i64>)
    ensures
        r == wait_of(digits@, unit@),
{
    let value = match parse_i64(digits) {
        Some(v) => v,
        None => {
            return None;
        },
    };
    let multiplier: i64 = if same(unit, "second") || same(unit, "seconds") || same(unit, "sec")
        || same(unit, "s") {
        1
    } else if same(unit, "minute") || same(unit, "minutes") || same(unit, "min") || same(
        unit,
        "m",
    ) {
        60
    } else if same(unit, "hour") || same(unit, "hours") || same(unit, "hr") || same(unit, "h") {
        3600
    } else if same(unit, "day") || same(unit, "days") || same(unit, "d") {
        86400
    } else {
        return None;
    };
    match value.checked_mul(multiplier) {
        Some(v) => Some(v),
        None => if value > 0 {
            proof {
                assert(value * multiplier >= 0) by (nonlinear_arith)
                    requires
                        value > 0,
                        multiplier > 0,
                ;
            }
            Some(i64::MAX)
        } else {
            proof {
                assert(value * multiplier <= 0) by (nonlinear_arith)
                    requires
                        value <= 0,
                        multiplier > 0,
                ;
            }
            Some(i64::MIN)
        },
    }
}

fn parse_retry_after_seconds(text: &str) -> (r: Option<i64>)
    ensures
        r == wait_in_text(text@),
{
    match capture_groups(
        r"(?i)(?:retry|try again|reset|available).{0,40}?(\d+)\s*(second|seconds|sec|s|minute|minutes|min|m|hour|hours|hr|h|day|days|d)\b",
        text,
    ) {
        Some((Some(digits), Some(unit))) => wait_seconds(
            digits.as_str(),
            lowercase(unit.as_str()).as_str(),
        ),
        _ => None,
    }
}

fn keep_limit(list: &mut Vec<LearnedLimit>, limit_type: &str, limit: Option<i64>)
    ensures
        limit_views(final(list)@) == match positive_limit((limit_type@, limit)) {
            Some(l) => limit_views(old(list)@).push(l),
            None => limit_views(old(list)@),
        },
{
    if let Some(v) = limit {
        if v > 0 {
            let ghost so_far = limit_views(list@);
            list.push(LearnedLimit { limit_type: limit_type.to_owned(), limit: v });
            assert(limit_views(list@) =~= so_far.push((limit_type@, v)));
        }
    }
}

proof fn limits_found_next(found: Seq<(Seq<char>, Option<i64>)>, c: (Seq<char>, Option<i64>))
    ensures
        limits_found(found.push(c)) == match positive_limit(c) {
            Some(l) => limits_found(found).push(l),
            None => limits_found(found),
        },
{
    assert(found.push(c).drop_last() =~= found);
}

/// The limits that the body of a response with status 429 discloses, in the
/// order in which they are to be recorded. A limit that is not positive is none.
pub fn learn_from_rate_limit(response_body: &str) -> (r: Vec<LearnedLimit>)
    ensures
        limit_views(r@) == limits_found(limits_sought(response_body@)),
{
    let text = lowercase(response_body);
    let mut r: Vec<LearnedLimit> = Vec::new();
    let ghost sought = limits_sought(response_body@);
    let ghost done: Seq<(Seq<char>, Option<i64>)> = Seq::empty();
    assert(limit_views(r@) =~= limits_found(done));
    keep_limit(
        &mut r,
        unnamed_limit_kind(text.as_str()),
        first_capture_i64(r"(?i)limit\s+(\d+)\s*,?\s*requested\s+\d+", response_body),
    );
    keep_limit(
        &mut r,
        "rpm",
        first_capture_i64(
            r"(?i)(\d+)\s*(?:rpm|req/min|requests per minute|requests/minute)",
            response_body,
        ),
    );
    keep_limit(
        &mut r,
        "rpd",
        first_capture_i64(
            r"(?i)(\d+)\s*(?:rpd|req/day|requests per day|requests/day)",
            response_body,
        ),
    );
    keep_limit(
        &mut r,
        "rpd",
        first_capture_i64(
            r"(?i)(?:daily|per day|day).{0,30}?(?:limit|quota).{0,20}?(\d+)",
            response_body,
        ),
    );
    keep_limit(
        &mut r,
        "tpm",
        first_capture_i64(
            r"(?i)(\d+)\s*(?:tpm|tok/min|tokens per minute|tokens/minute)",
            response_body,
        ),
    );
    keep_limit(
        &mut r,
        "tpd",
        first_capture_i64(
            r"(?i)(\d+)\s*(?:tpd|tok/day|tokens per day|tokens/day)",
            response_body,
        ),
    );
    keep_limit(
        &mut r,
        "tpd",
        first_capture_i64(
            r"(?i)(?:daily|per day|day).{0,30}?(?:token|tokens).{0,30}?(\d+)",
            response_body,
        ),
    );
    keep_limit(&mut r, "cooldown_seconds", parse_retry_after_seconds(response_body));
    proof {
        let d1 = done.push(sought[0]);
        let d2 = d1.push(sought[1]);
        let d3 = d2.push(sought[2]);
        let d4 = d3.push(sought[3]);
        let d5 = d4.push(sought[4]);
        let d6 = d5.push(sought[5]);
        let d7 = d6.push(sought[6]);
        let d8 = d7.push(sought[7]);
        limits_found_next(done, sought[0]);
        limits_found_next(d1, sought[1]);
        limits_found_next(d2, sought[2]);
        limits_found_next(d3, sought[3]);
        limits_found_next(d4, sought[4]);
        limits_found_next(d5, sought[5]);
        limits_found_next(d6, sought[6]);
        limits_found_next(d7, sought[7]);
        assert(d8 =~= sought);
    }
    r
}

// ---------------------------------------------------------------- requests
/// The category under which a failure is counted.
pub open spec fn error_class(error_msg: Seq<char>, http_status: u16) -> Seq<char> {
    let l = lower(error_msg);
    if http_status == 429 {
        "rate_limit"@
    } else if http_status == 401 || http_status == 403 {
        "auth"@
    } else if http_status == 404 || occurs(l, "not a valid model id"@) || occurs(
        l,
        "invalid model id"@,
    ) || occurs(l, "unknown model"@) || occurs(l, "no such model"@) || occurs(
        l,
        "model_not_found"@,
    ) {
        "not_found"@
    } else if occurs(l, "timeout"@) || occurs(l, "time out"@) || http_status == 504 {
        "timeout"@
    } else if http_status >= 500 {
        "upstream"@
    } else {
        "other"@
    }
}

/// Sorts a failure into the category under which it is counted.
pub fn classify_error(error_msg: &str, http_status: u16) -> (r: &'static str)
    ensures
        r@ == error_class(error_msg@, http_status),
{
    let lowered = to_lower(error_msg);
    let l = lowered.as_str();
    if http_status == 429 {
        "rate_limit"
    } else if http_status == 401 || http_status == 403 {
        "auth"
    } else if http_status == 404 || contains(l, "not a valid model id") || contains(
        l,
        "invalid model id",
    ) || contains(l, "unknown model") || contains(l, "no such model") || contains(
        l,
        "model_not_found",
    ) {
        "not_found"
    } else if contains(l, "timeout") || contains(l, "time out") || http_status == 504 {
        "timeout"
    } else if http_status >= 500 {
        "upstream"
    } else {
        "other"
    }
}

/// What is recorded of a request: its outcome, and its tokens, which count as
/// reported where either count is there.
pub fn learn_from_request(
    success: bool,
    prompt_tokens: Option<i64>,
    completion_tokens: Option<i64>,
) -> (r: UsageRecord)
    ensures
        r@ == usage_of(
            success,
            prompt_tokens,
            completion_tokens,
            prompt_tokens is Some || completion_tokens is Some,
        ),
{
    usage_record(
        success,
        prompt_tokens,
        completion_tokens,
        prompt_tokens.is_some() || completion_tokens.is_some(),
    )
}

/// What is recorded of a failed request.
#[derive(Debug)]
pub struct LearnedFailure {
    pub category: String,
    pub limits: Vec<LearnedLimit>,
    pub usage: UsageRecord,
}

/// What is recorded of a failed request: its category, the limits that a
/// response with status 429 disclosed, and a failure without tokens.
pub fn learn_from_failure(error_msg: &str, http_status: u16) -> (r: LearnedFailure)
    ensures
        r.category@ == error_class(error_msg@, http_status),
        limit_views(r.limits@) == if http_status == 429 {
            limits_found(limits_sought(error_msg@))
        } else {
            Seq::empty()
        },
        r.usage@ == usage_of(false, None, None, false),
{
    let limits = if http_status == 429 {
        learn_from_rate_limit(error_msg)
    } else {
        let none: Vec<LearnedLimit> = Vec::new();
        assert(limit_views(none@) =~= Seq::empty());
        none
    };
    LearnedFailure {
        category: classify_error(error_msg, http_status).to_owned(),
        limits,
        usage: learn_from_request(false, None, None),
    }
}

// ---------------------------------------------------------------- laws
/// Every limit that is recorded is positive.
pub proof fn recorded_limits_are_positive(found: Seq<(Seq<char>, Option<i64>)>)
    ensures
        forall|i: int| 0 <= i < limits_found(found).len() ==> (#[trigger] limits_found(found)[i]).1
            > 0,
    decreases found.len(),
{
    if found.len() > 0 {
        let earlier = found.drop_last();
        recorded_limits_are_positive(earlier);
        limits_found_next(earlier, found.last());
        assert(earlier.push(found.last()) =~= found);
        assert forall|i: int| 0 <= i < limits_found(found).len() implies (
        #[trigger] limits_found(found)[i]).1 > 0 by {
            if i < limits_found(earlier).len() {
                assert(limits_found(found)[i] == limits_found(earlier)[i]);
            }
        }
    }
}

/// A response with status 429 always counts as a rate limit, one with status
/// 401 or 403 always as an authentication failure, whatever they say.
pub proof fn status_decides_first(error_msg: Seq<char>, http_status: u16)
    ensures
        error_class(error_msg, http_status) == "rate_limit"@ <==> http_status == 429,
        error_class(error_msg, http_status) == "auth"@ <==> http_status == 401 || http_status
            == 403,
{
    reveal_strlit("rate_limit");
    reveal_strlit("auth");
    reveal_strlit("not_found");
    reveal_strlit("timeout");
    reveal_strlit("upstream");
    reveal_strlit("other");
    assert("rate_limit"@.len() == 10);
    assert("auth"@.len() == 4);
    assert("not_found"@.len() == 9);
    assert("timeout"@.len() == 7);
    assert("upstream"@.len() == 8);
    assert("other"@.len() == 5);
}

} // verus!
