//! Reports of what was learned: usage, tasks, capabilities, errors and models.
use crate::api::admin::keys::opt_number_json;
use crate::api::admin::metadata::{capped_total, total_by};
use crate::json::{
    group_json_views, int_json, items_view, Json, json_list, JsonView, num, Number, NumberView,
    ObjectBuilder, opt_bool_json, opt_int_json, opt_text_json,
};
use crate::lists::{lookup, named_in};
use crate::metadata::rows::{
    CapabilityObservationRow, ErrorSummaryRow, ModelMetaRow, SyncStatusRow, TaskStatsRow,
    UsageSummaryRow,
};
use crate::metadata::store::{add_capped, capped_add};
use crate::models::opt_number;
use crate::text::{i64_of, opt_view, parse_i64, str_of};
use vstd::prelude::*;

verus! {

// ---------------------------------------------------------------- queries
/// The number that a query gives under a name, else another.
pub open spec fn asked(query: Seq<(String, String)>, name: Seq<char>, default: i64) -> i64 {
    match named_in(query, name) {
        Some(v) => match i64_of(v@) {
            Some(n) => n,
            None => default,
        },
        None => default,
    }
}

/// The number that a query gives under a name, else another.
pub fn number_asked(query: &Vec<(String, String)>, name: &str, default: i64) -> (r: i64)
    ensures
        r == asked(query@, name@, default),
{
    match lookup(query, name) {
        Some(v) => match parse_i64(v.as_str()) {
            Some(n) => n,
            None => default,
        },
        None => default,
    }
}

/// A number kept between two others.
pub open spec fn between(n: i64, low: i64, high: i64) -> i64 {
    if n < low {
        low
    } else if n > high {
        high
    } else {
        n
    }
}

fn keep_between(n: i64, low: i64, high: i64) -> (r: i64)
    ensures
        r == between(n, low, high),
{
    if n < low {
        low
    } else if n > high {
        high
    } else {
        n
    }
}

/// How many days of usage are summed up: all of them by default.
pub fn usage_days(query: &Vec<(String, String)>) -> (r: i64)
    ensures
        r == asked(query@, "days"@, 0),
{
    number_asked(query, "days", 0)
}

/// How many days are shown one by one: a week by default, a year at most.
pub fn daily_days(query: &Vec<(String, String)>) -> (r: i64)
    ensures
        r == between(asked(query@, "days"@, 7), 1, 366),
{
    keep_between(number_asked(query, "days", 7), 1, 366)
}

/// How many hours are shown one by one: a day by default, a year at most.
pub fn hourly_hours(query: &Vec<(String, String)>) -> (r: i64)
    ensures
        r == between(asked(query@, "hours"@, 24), 1, 8784),
{
    keep_between(number_asked(query, "hours", 24), 1, 8784)
}

/// How many days of tasks are summed up.
pub fn task_days(query: &Vec<(String, String)>, learning_window_days: i64) -> (r: i64)
    ensures
        r == asked(query@, "days"@, learning_window_days),
{
    number_asked(query, "days", learning_window_days)
}

/// How many attempts are shown: 100 by default, 1000 at most.
pub fn attempts_limit(limit: Option<i64>) -> (r: i64)
    ensures
        r == between(
            match limit {
                Some(n) => n,
                None => 100,
            },
            1,
            1000,
        ),
{
    match limit {
        Some(n) => keep_between(n, 1, 1000),
        None => 100,
    }
}

/// How many attempts are analyzed: 100 by default, 200 at most.
pub fn analysis_limit(limit: Option<i64>) -> (r: i64)
    ensures
        r == between(
            match limit {
                Some(n) => n,
                None => 100,
            },
            1,
            200,
        ),
{
    match limit {
        Some(n) => keep_between(n, 1, 200),
        None => 100,
    }
}

// ---------------------------------------------------------------- usage
/// The sums of some usage.
#[derive(Debug, Clone, Copy, PartialEq, Eq, Structural)]
pub struct UsageTotals {
    pub total_requests: i64,
    pub total_prompt_tokens: i64,
    pub total_completion_tokens: i64,
    pub reported_prompt_tokens: i64,
    pub reported_completion_tokens: i64,
    pub estimated_prompt_tokens: i64,
    pub estimated_completion_tokens: i64,
    pub total_success: i64,
    pub total_errors: i64,
    pub token_reported_requests: i64,
}

/// The sums of some usage.
pub open spec fn usage_totals(rows: Seq<UsageSummaryRow>) -> UsageTotals {
    UsageTotals {
        total_requests: capped_total(rows.map_values(|u: UsageSummaryRow| u.total_requests)),
        total_prompt_tokens: capped_total(rows.map_values(|u: UsageSummaryRow| u.total_prompt_tokens)),
        total_completion_tokens: capped_total(rows.map_values(|u: UsageSummaryRow| u.total_completion_tokens)),
        reported_prompt_tokens: capped_total(rows.map_values(|u: UsageSummaryRow| u.reported_prompt_tokens)),
        reported_completion_tokens: capped_total(rows.map_values(|u: UsageSummaryRow| u.reported_completion_tokens)),
        estimated_prompt_tokens: capped_total(rows.map_values(|u: UsageSummaryRow| u.estimated_prompt_tokens)),
        estimated_completion_tokens: capped_total(rows.map_values(|u: UsageSummaryRow| u.estimated_completion_tokens)),
        total_success: capped_total(rows.map_values(|u: UsageSummaryRow| u.total_success)),
        total_errors: capped_total(rows.map_values(|u: UsageSummaryRow| u.total_errors)),
        token_reported_requests: capped_total(rows.map_values(|u: UsageSummaryRow| u.token_reported_requests)),
    }
}

/// The sums of some usage.
pub fn sum_usage(rows: &Vec<UsageSummaryRow>) -> (r: UsageTotals)
    ensures
        r == usage_totals(rows@),
{
    let get_total_requests = |u: &UsageSummaryRow| -> (n: i64)
        ensures
            n == u.total_requests,
        { u.total_requests };
    let total_requests = total_by(rows, get_total_requests, Ghost(|u: UsageSummaryRow| u.total_requests));
    assert(total_requests == usage_totals(rows@).total_requests);
    let get_total_prompt_tokens = |u: &UsageSummaryRow| -> (n: i64)
        ensures
            n == u.total_prompt_tokens,
        { u.total_prompt_tokens };
    let total_prompt_tokens = total_by(rows, get_total_prompt_tokens, Ghost(|u: UsageSummaryRow| u.total_prompt_tokens));
    assert(total_prompt_tokens == usage_totals(rows@).total_prompt_tokens);
    let get_total_completion_tokens = |u: &UsageSummaryRow| -> (n: i64)
        ensures
            n == u.total_completion_tokens,
        { u.total_completion_tokens };
    let total_completion_tokens = total_by(rows, get_total_completion_tokens, Ghost(|u: UsageSummaryRow| u.total_completion_tokens));
    assert(total_completion_tokens == usage_totals(rows@).total_completion_tokens);
    let get_reported_prompt_tokens = |u: &UsageSummaryRow| -> (n: i64)
        ensures
            n == u.reported_prompt_tokens,
        { u.reported_prompt_tokens };
    let reported_prompt_tokens = total_by(rows, get_reported_prompt_tokens, Ghost(|u: UsageSummaryRow| u.reported_prompt_tokens));
    assert(reported_prompt_tokens == usage_totals(rows@).reported_prompt_tokens);
    let get_reported_completion_tokens = |u: &UsageSummaryRow| -> (n: i64)
        ensures
            n == u.reported_completion_tokens,
        { u.reported_completion_tokens };
    let reported_completion_tokens = total_by(rows, get_reported_completion_tokens, Ghost(|u: UsageSummaryRow| u.reported_completion_tokens));
    assert(reported_completion_tokens == usage_totals(rows@).reported_completion_tokens);
    let get_estimated_prompt_tokens = |u: &UsageSummaryRow| -> (n: i64)
        ensures
            n == u.estimated_prompt_tokens,
        { u.estimated_prompt_tokens };
    let estimated_prompt_tokens = total_by(rows, get_estimated_prompt_tokens, Ghost(|u: UsageSummaryRow| u.estimated_prompt_tokens));
    assert(estimated_prompt_tokens == usage_totals(rows@).estimated_prompt_tokens);
    let get_estimated_completion_tokens = |u: &UsageSummaryRow| -> (n: i64)
        ensures
            n == u.estimated_completion_tokens,
        { u.estimated_completion_tokens };
    let estimated_completion_tokens = total_by(rows, get_estimated_completion_tokens, Ghost(|u: UsageSummaryRow| u.estimated_completion_tokens));
    assert(estimated_completion_tokens == usage_totals(rows@).estimated_completion_tokens);
    let get_total_success = |u: &UsageSummaryRow| -> (n: i64)
        ensures
            n == u.total_success,
        { u.total_success };
    let total_success = total_by(rows, get_total_success, Ghost(|u: UsageSummaryRow| u.total_success));
    assert(total_success == usage_totals(rows@).total_success);
    let get_total_errors = |u: &UsageSummaryRow| -> (n: i64)
        ensures
            n == u.total_errors,
        { u.total_errors };
    let total_errors = total_by(rows, get_total_errors, Ghost(|u: UsageSummaryRow| u.total_errors));
    assert(total_errors == usage_totals(rows@).total_errors);
    let get_token_reported_requests = |u: &UsageSummaryRow| -> (n: i64)
        ensures
            n == u.token_reported_requests,
        { u.token_reported_requests };
    let token_reported_requests = total_by(rows, get_token_reported_requests, Ghost(|u: UsageSummaryRow| u.token_reported_requests));
    assert(token_reported_requests == usage_totals(rows@).token_reported_requests);
    UsageTotals {
        total_requests,
        total_prompt_tokens,
        total_completion_tokens,
        reported_prompt_tokens,
        reported_completion_tokens,
        estimated_prompt_tokens,
        estimated_completion_tokens,
        total_success,
        total_errors,
        token_reported_requests,
    }
}

/// A difference that stops at the ends of the type.
pub open spec fn less(a: i64, b: i64) -> i64 {
    capped_add(a, -(b as int))
}

fn subtract(a: i64, b: i64) -> (r: i64)
    ensures
        r == less(a, b),
{
    match a.checked_sub(b) {
        Some(n) => n,
        None => if b > 0 {
            i64::MIN
        } else {
            i64::MAX
        },
    }
}

/// The usage of a model as JSON.
pub open spec fn usage_row(u: UsageSummaryRow, coverage: Option<NumberView>) -> JsonView {
    JsonView::Object(
        seq![
            ("provider"@, JsonView::Text(u.provider@)),
            ("model_id"@, JsonView::Text(u.model_id@)),
            ("total_requests"@, int_json(u.total_requests as int)),
            ("total_prompt_tokens"@, int_json(u.total_prompt_tokens as int)),
            ("total_completion_tokens"@, int_json(u.total_completion_tokens as int)),
            ("reported_prompt_tokens"@, int_json(u.reported_prompt_tokens as int)),
            ("reported_completion_tokens"@, int_json(u.reported_completion_tokens as int)),
            (
                "reported_tokens"@,
                int_json(
                    capped_add(
                        u.reported_prompt_tokens,
                        u.reported_completion_tokens as int,
                    ) as int,
                ),
            ),
            ("estimated_prompt_tokens"@, int_json(u.estimated_prompt_tokens as int)),
            ("estimated_completion_tokens"@, int_json(u.estimated_completion_tokens as int)),
            (
                "estimated_tokens"@,
                int_json(
                    capped_add(
                        u.estimated_prompt_tokens,
                        u.estimated_completion_tokens as int,
                    ) as int,
                ),
            ),
            ("token_reported_requests"@, int_json(u.token_reported_requests as int)),
            (
                "token_estimated_requests"@,
                int_json(less(u.total_requests, u.token_reported_requests) as int),
            ),
            ("token_reporting_coverage"@, opt_number_json(coverage)),
            ("total_success"@, int_json(u.total_success as int)),
            ("total_errors"@, int_json(u.total_errors as int)),
            ("last_used_at"@, opt_int_json(u.last_used_at)),
        ],
    )
}

fn usage_row_to_json(u: &UsageSummaryRow, coverage: &Option<Number>) -> (r: Json)
    ensures
        r@ == usage_row(*u, opt_number(*coverage)),
{
    let mut o = ObjectBuilder::new();
    o.put_text("provider", u.provider.as_str());
    o.put_text("model_id", u.model_id.as_str());
    o.put_int("total_requests", u.total_requests);
    o.put_int("total_prompt_tokens", u.total_prompt_tokens);
    o.put_int("total_completion_tokens", u.total_completion_tokens);
    o.put_int("reported_prompt_tokens", u.reported_prompt_tokens);
    o.put_int("reported_completion_tokens", u.reported_completion_tokens);
    o.put_int(
        "reported_tokens",
        add_capped(u.reported_prompt_tokens, u.reported_completion_tokens),
    );
    o.put_int("estimated_prompt_tokens", u.estimated_prompt_tokens);
    o.put_int("estimated_completion_tokens", u.estimated_completion_tokens);
    o.put_int(
        "estimated_tokens",
        add_capped(u.estimated_prompt_tokens, u.estimated_completion_tokens),
    );
    o.put_int("token_reported_requests", u.token_reported_requests);
    o.put_int(
        "token_estimated_requests",
        subtract(u.total_requests, u.token_reported_requests),
    );
    o.put_opt_number("token_reporting_coverage", coverage);
    o.put_int("total_success", u.total_success);
    o.put_int("total_errors", u.total_errors);
    o.put_opt_int("last_used_at", u.last_used_at);
    assert(o@ =~= usage_row(*u, opt_number(*coverage))->Object_0);
    o.done()
}

/// The note on where the counts of tokens come from.
pub open spec fn token_note() -> Seq<char> {
    "reported_tokens come from upstream usage fields; estimated_tokens are local approximations"@
}

/// The sums of usage as JSON.
pub open spec fn totals_summary(
    t: UsageTotals,
    days: i64,
    coverage: Option<NumberView>,
) -> JsonView {
    JsonView::Object(
        seq![
            (
                "window_days"@,
                if days > 0 {
                    int_json(days as int)
                } else {
                    JsonView::Null
                },
            ),
            ("total_requests"@, int_json(t.total_requests as int)),
            ("total_prompt_tokens"@, int_json(t.total_prompt_tokens as int)),
            ("total_completion_tokens"@, int_json(t.total_completion_tokens as int)),
            (
                "total_tokens"@,
                int_json(
                    capped_add(t.total_prompt_tokens, t.total_completion_tokens as int) as int,
                ),
            ),
            ("reported_prompt_tokens"@, int_json(t.reported_prompt_tokens as int)),
            ("reported_completion_tokens"@, int_json(t.reported_completion_tokens as int)),
            (
                "reported_tokens"@,
                int_json(
                    capped_add(
                        t.reported_prompt_tokens,
                        t.reported_completion_tokens as int,
                    ) as int,
                ),
            ),
            ("estimated_prompt_tokens"@, int_json(t.estimated_prompt_tokens as int)),
            ("estimated_completion_tokens"@, int_json(t.estimated_completion_tokens as int)),
            (
                "estimated_tokens"@,
                int_json(
                    capped_add(
                        t.estimated_prompt_tokens,
                        t.estimated_completion_tokens as int,
                    ) as int,
                ),
            ),
            ("total_success"@, int_json(t.total_success as int)),
            ("total_errors"@, int_json(t.total_errors as int)),
            ("token_reported_requests"@, int_json(t.token_reported_requests as int)),
            (
                "token_estimated_requests"@,
                int_json(less(t.total_requests, t.token_reported_requests) as int),
            ),
            ("token_reporting_coverage"@, opt_number_json(coverage)),
            ("token_source_note"@, JsonView::Text(token_note())),
        ],
    )
}

fn totals_to_summary(t: &UsageTotals, days: i64, coverage: &Option<Number>) -> (r: Json)
    ensures
        r@ == totals_summary(*t, days, opt_number(*coverage)),
{
    let mut o = ObjectBuilder::new();
    if days > 0 {
        o.put_int("window_days", days);
    } else {
        o.put("window_days", Json::Null);
    }
    o.put_int("total_requests", t.total_requests);
    o.put_int("total_prompt_tokens", t.total_prompt_tokens);
    o.put_int("total_completion_tokens", t.total_completion_tokens);
    o.put_int("total_tokens", add_capped(t.total_prompt_tokens, t.total_completion_tokens));
    o.put_int("reported_prompt_tokens", t.reported_prompt_tokens);
    o.put_int("reported_completion_tokens", t.reported_completion_tokens);
    o.put_int(
        "reported_tokens",
        add_capped(t.reported_prompt_tokens, t.reported_completion_tokens),
    );
    o.put_int("estimated_prompt_tokens", t.estimated_prompt_tokens);
    o.put_int("estimated_completion_tokens", t.estimated_completion_tokens);
    o.put_int(
        "estimated_tokens",
        add_capped(t.estimated_prompt_tokens, t.estimated_completion_tokens),
    );
    o.put_int("total_success", t.total_success);
    o.put_int("total_errors", t.total_errors);
    o.put_int("token_reported_requests", t.token_reported_requests);
    o.put_int(
        "token_estimated_requests",
        subtract(t.total_requests, t.token_reported_requests),
    );
    o.put_opt_number("token_reporting_coverage", coverage);
    o.put_text(
        "token_source_note",
        "reported_tokens come from upstream usage fields; estimated_tokens are local approximations",
    );
    assert(o@ =~= totals_summary(*t, days, opt_number(*coverage))->Object_0);
    o.done()
}

/// The usage of all models, with sums.
pub open spec fn usage_answer(
    rows: Seq<UsageSummaryRow>,
    shares: Seq<Option<Number>>,
    lifetime: JsonView,
    days: i64,
    coverage: Option<NumberView>,
) -> JsonView {
    JsonView::Object(
        seq![
            (
                "usage"@,
                JsonView::Array(
                    Seq::new(rows.len(), |i: int| usage_row(rows[i], opt_number(shares[i]))),
                ),
            ),
            ("total"@, num(rows.len() as u64)),
            ("lifetime"@, lifetime),
            ("summary"@, totals_summary(usage_totals(rows), days, coverage)),
        ],
    )
}

/// The usage of all models, with sums. The shares of requests with reported
/// tokens are given: of each row, and of all.
pub fn admin_metadata_usage(
    rows: &Vec<UsageSummaryRow>,
    shares: &Vec<Option<Number>>,
    lifetime: Json,
    days: i64,
    coverage: &Option<Number>,
) -> (r: Json)
    requires
        shares@.len() == rows@.len(),
    ensures
        r@ == usage_answer(rows@, shares@, lifetime@, days, opt_number(*coverage)),
{
    broadcast use group_json_views;

    let ghost goal = usage_answer(rows@, shares@, lifetime@, days, opt_number(*coverage));
    let mut list: Vec<Json> = Vec::new();
    let mut i: usize = 0;
    while i < rows.len()
        invariant
            i <= rows@.len(),
            shares@.len() == rows@.len(),
            list@.len() == i,
            forall|k: int|
                0 <= k < i ==> (#[trigger] list@[k])@ == usage_row(rows@[k], opt_number(shares@[k])),
        decreases rows@.len() - i,
    {
        let row = usage_row_to_json(&rows[i], &shares[i]);
        list.push(row);
        i += 1;
    }
    assert(items_view(list@) =~= goal->Object_0[0].1->Array_0);
    let totals = sum_usage(rows);
    let mut o = ObjectBuilder::new();
    o.put("usage", Json::Array(list));
    o.put_num("total", rows.len() as u64);
    o.put("lifetime", lifetime);
    o.put("summary", totals_to_summary(&totals, days, coverage));
    assert(o@ =~= goal->Object_0);
    o.done()
}

// ---------------------------------------------------------------- tasks
/// A quotient without its fraction, by a divisor that is positive.
pub open spec fn whole_quotient(a: i64, b: i64) -> int {
    if a >= 0 {
        a as int / b as int
    } else {
        -((-(a as int)) / b as int)
    }
}

/// The mean time of some requests; none of no requests.
pub open spec fn mean_latency(total: i64, requests: i64) -> Option<i64> {
    if requests > 0 {
        Some(whole_quotient(total, requests) as i64)
    } else {
        None
    }
}

/// The mean time of some requests; none of no requests.
pub fn average_latency(total: i64, requests: i64) -> (r: Option<i64>)
    ensures
        r == mean_latency(total, requests),
{
    if requests <= 0 {
        return None;
    }
    if total >= 0 {
        return Some(total / requests);
    }
    let size: u64 = (-(total + 1)) as u64 + 1;
    let parts: u64 = requests as u64;
    let q: u64 = size / parts;
    proof {
        assert(size == -(total as int));
        vstd::arithmetic::div_mod::lemma_div_is_ordered_by_denominator(size as int, 1, parts as int);
        assert(size as int / 1 == size) by (nonlinear_arith);
        assert(q <= size);
    }
    if q == 0x8000_0000_0000_0000 {
        Some(i64::MIN)
    } else {
        Some(-(q as i64))
    }
}

/// How a task went, as JSON.
pub open spec fn task_row(t: TaskStatsRow, success_rate: Option<NumberView>) -> JsonView {
    JsonView::Object(
        seq![
            ("provider"@, JsonView::Text(t.provider@)),
            ("model_id"@, JsonView::Text(t.model_id@)),
            ("agent"@, opt_text_json(opt_view(t.agent))),
            ("task_kind"@, JsonView::Text(t.task_kind@)),
            ("request_count"@, int_json(t.request_count as int)),
            ("success_count"@, int_json(t.success_count as int)),
            ("error_count"@, int_json(t.error_count as int)),
            ("success_rate"@, opt_number_json(success_rate)),
            ("avg_latency_ms"@, opt_int_json(mean_latency(t.total_latency_ms, t.request_count))),
            ("prompt_tokens"@, int_json(t.prompt_tokens as int)),
            ("completion_tokens"@, int_json(t.completion_tokens as int)),
            ("last_used_at"@, opt_int_json(t.last_used_at)),
        ],
    )
}

fn task_row_to_json(t: &TaskStatsRow, success_rate: &Option<Number>) -> (r: Json)
    ensures
        r@ == task_row(*t, opt_number(*success_rate)),
{
    let mut o = ObjectBuilder::new();
    o.put_text("provider", t.provider.as_str());
    o.put_text("model_id", t.model_id.as_str());
    o.put_opt_text("agent", str_of(&t.agent));
    o.put_text("task_kind", t.task_kind.as_str());
    o.put_int("request_count", t.request_count);
    o.put_int("success_count", t.success_count);
    o.put_int("error_count", t.error_count);
    o.put_opt_number("success_rate", success_rate);
    o.put_opt_int("avg_latency_ms", average_latency(t.total_latency_ms, t.request_count));
    o.put_int("prompt_tokens", t.prompt_tokens);
    o.put_int("completion_tokens", t.completion_tokens);
    o.put_opt_int("last_used_at", t.last_used_at);
    assert(o@ =~= task_row(*t, opt_number(*success_rate))->Object_0);
    o.done()
}

/// How the tasks went.
pub open spec fn tasks_answer(rows: Seq<TaskStatsRow>, rates: Seq<Option<Number>>, days: i64) -> JsonView {
    JsonView::Object(
        seq![
            (
                "tasks"@,
                JsonView::Array(
                    Seq::new(rows.len(), |i: int| task_row(rows[i], opt_number(rates[i]))),
                ),
            ),
            ("total"@, num(rows.len() as u64)),
            ("window_days"@, int_json(days as int)),
        ],
    )
}

/// How the tasks went. The shares of successes are given.
pub fn admin_metadata_tasks(
    rows: &Vec<TaskStatsRow>,
    rates: &Vec<Option<Number>>,
    days: i64,
) -> (r: Json)
    requires
        rates@.len() == rows@.len(),
    ensures
        r@ == tasks_answer(rows@, rates@, days),
{
    broadcast use group_json_views;

    let ghost goal = tasks_answer(rows@, rates@, days);
    let mut list: Vec<Json> = Vec::new();
    let mut i: usize = 0;
    while i < rows.len()
        invariant
            i <= rows@.len(),
            rates@.len() == rows@.len(),
            list@.len() == i,
            forall|k: int|
                0 <= k < i ==> (#[trigger] list@[k])@ == task_row(rows@[k], opt_number(rates@[k])),
        decreases rows@.len() - i,
    {
        let row = task_row_to_json(&rows[i], &rates[i]);
        list.push(row);
        i += 1;
    }
    assert(items_view(list@) =~= goal->Object_0[0].1->Array_0);
    let mut o = ObjectBuilder::new();
    o.put("tasks", Json::Array(list));
    o.put_num("total", rows.len() as u64);
    o.put_int("window_days", days);
    assert(o@ =~= goal->Object_0);
    o.done()
}

// ---------------------------------------------------------------- lists
/// A list under a name, with its length.
pub open spec fn counted(name: Seq<char>, items: Seq<JsonView>) -> JsonView {
    JsonView::Object(
        seq![(name, JsonView::Array(items)), ("total"@, num(items.len() as u64))],
    )
}

fn count_list(name: &str, list: Json, n: usize) -> (r: Json)
    requires
        list@ is Array,
        list@->Array_0.len() == n,
    ensures
        r@ == counted(name@, list@->Array_0),
{
    let ghost items = list@->Array_0;
    let mut o = ObjectBuilder::new();
    o.put(name, list);
    o.put_num("total", n as u64);
    assert(o@ =~= counted(name@, items)->Object_0);
    o.done()
}

/// What is known of a model, as JSON.
pub open spec fn model_row(r: ModelMetaRow) -> JsonView {
    JsonView::Object(
        seq![
            ("provider"@, JsonView::Text(r.provider@)),
            ("model_id"@, JsonView::Text(r.model_id@)),
            ("display_name"@, opt_text_json(opt_view(r.display_name))),
            ("context_window"@, opt_int_json(r.context_window)),
            ("max_completion_tokens"@, opt_int_json(r.max_completion_tokens)),
            ("supports_vision"@, opt_bool_json(r.supports_vision)),
            ("supports_tools"@, opt_bool_json(r.supports_tools)),
            ("supports_reasoning"@, opt_bool_json(r.supports_reasoning)),
            ("pricing_prompt"@, opt_number_json(opt_number(r.pricing_prompt))),
            ("pricing_completion"@, opt_number_json(opt_number(r.pricing_completion))),
            ("architecture_modality"@, opt_text_json(opt_view(r.architecture_modality))),
            ("rpm_limit"@, opt_int_json(r.rpm_limit)),
            ("rpd_limit"@, opt_int_json(r.rpd_limit)),
            ("tpm_limit"@, opt_int_json(r.tpm_limit)),
            ("tpd_limit"@, opt_int_json(r.tpd_limit)),
            ("source"@, JsonView::Text(r.source@)),
            ("first_seen_at"@, int_json(r.first_seen_at as int)),
            ("last_updated_at"@, int_json(r.last_updated_at as int)),
            ("update_count"@, int_json(r.update_count as int)),
        ],
    )
}

fn model_row_to_json(r: &ModelMetaRow) -> (j: Json)
    ensures
        j@ == model_row(*r),
{
    let mut o = ObjectBuilder::new();
    o.put_text("provider", r.provider.as_str());
    o.put_text("model_id", r.model_id.as_str());
    o.put_opt_text("display_name", str_of(&r.display_name));
    o.put_opt_int("context_window", r.context_window);
    o.put_opt_int("max_completion_tokens", r.max_completion_tokens);
    o.put_opt_bool("supports_vision", r.supports_vision);
    o.put_opt_bool("supports_tools", r.supports_tools);
    o.put_opt_bool("supports_reasoning", r.supports_reasoning);
    o.put_opt_number("pricing_prompt", &r.pricing_prompt);
    o.put_opt_number("pricing_completion", &r.pricing_completion);
    o.put_opt_text("architecture_modality", str_of(&r.architecture_modality));
    o.put_opt_int("rpm_limit", r.rpm_limit);
    o.put_opt_int("rpd_limit", r.rpd_limit);
    o.put_opt_int("tpm_limit", r.tpm_limit);
    o.put_opt_int("tpd_limit", r.tpd_limit);
    o.put_text("source", r.source.as_str());
    o.put_int("first_seen_at", r.first_seen_at);
    o.put_int("last_updated_at", r.last_updated_at);
    o.put_int("update_count", r.update_count);
    assert(o@ =~= model_row(*r)->Object_0);
    o.done()
}

/// What is known of all models.
pub fn admin_metadata_models(rows: &Vec<ModelMetaRow>) -> (r: Json)
    ensures
        r@ == counted("models"@, rows@.map_values(|r: ModelMetaRow| model_row(r))),
{
    let describe = |r: &ModelMetaRow| -> (j: Json)
        ensures
            j@ == model_row(*r),
        { model_row_to_json(r) };
    let list = json_list(rows, describe, Ghost(|r: ModelMetaRow| model_row(r)));
    assert(list@->Array_0 =~= rows@.map_values(|r: ModelMetaRow| model_row(r)));
    count_list("models", list, rows.len())
}

/// What was observed of a capability, as JSON.
pub open spec fn capability_row(r: CapabilityObservationRow) -> JsonView {
    JsonView::Object(
        seq![
            ("provider"@, JsonView::Text(r.provider@)),
            ("model_id"@, JsonView::Text(r.model_id@)),
            ("capability"@, JsonView::Text(r.capability@)),
            ("outcome"@, JsonView::Text(r.outcome@)),
            ("count"@, int_json(r.count as int)),
            ("last_observed_at"@, opt_int_json(r.last_observed_at)),
        ],
    )
}

fn capability_row_to_json(r: &CapabilityObservationRow) -> (j: Json)
    ensures
        j@ == capability_row(*r),
{
    let mut o = ObjectBuilder::new();
    o.put_text("provider", r.provider.as_str());
    o.put_text("model_id", r.model_id.as_str());
    o.put_text("capability", r.capability.as_str());
    o.put_text("outcome", r.outcome.as_str());
    o.put_int("count", r.count);
    o.put_opt_int("last_observed_at", r.last_observed_at);
    assert(o@ =~= capability_row(*r)->Object_0);
    o.done()
}

/// What was observed of capabilities.
pub fn admin_metadata_capabilities(rows: &Vec<CapabilityObservationRow>) -> (r: Json)
    ensures
        r@ == counted("capabilities"@, rows@.map_values(|r: CapabilityObservationRow| capability_row(r))),
{
    let describe = |r: &CapabilityObservationRow| -> (j: Json)
        ensures
            j@ == capability_row(*r),
        { capability_row_to_json(r) };
    let list = json_list(rows, describe, Ghost(|r: CapabilityObservationRow| capability_row(r)));
    assert(list@->Array_0 =~= rows@.map_values(|r: CapabilityObservationRow| capability_row(r)));
    count_list("capabilities", list, rows.len())
}

/// How often an error came, as JSON.
pub open spec fn error_row(r: ErrorSummaryRow) -> JsonView {
    JsonView::Object(
        seq![
            ("provider"@, JsonView::Text(r.provider@)),
            ("model_id"@, JsonView::Text(r.model_id@)),
            ("category"@, JsonView::Text(r.category@)),
            ("total"@, int_json(r.total as int)),
        ],
    )
}

fn error_row_to_json(r: &ErrorSummaryRow) -> (j: Json)
    ensures
        j@ == error_row(*r),
{
    let mut o = ObjectBuilder::new();
    o.put_text("provider", r.provider.as_str());
    o.put_text("model_id", r.model_id.as_str());
    o.put_text("category", r.category.as_str());
    o.put_int("total", r.total);
    assert(o@ =~= error_row(*r)->Object_0);
    o.done()
}

/// How often which errors came.
pub fn admin_metadata_errors(rows: &Vec<ErrorSummaryRow>) -> (r: Json)
    ensures
        r@ == counted("errors"@, rows@.map_values(|r: ErrorSummaryRow| error_row(r))),
{
    let describe = |r: &ErrorSummaryRow| -> (j: Json)
        ensures
            j@ == error_row(*r),
        { error_row_to_json(r) };
    let list = json_list(rows, describe, Ghost(|r: ErrorSummaryRow| error_row(r)));
    assert(list@->Array_0 =~= rows@.map_values(|r: ErrorSummaryRow| error_row(r)));
    count_list("errors", list, rows.len())
}

/// How a source was last read, as JSON.
pub open spec fn sync_row(r: SyncStatusRow) -> JsonView {
    JsonView::Object(
        seq![
            ("source_name"@, JsonView::Text(r.source_name@)),
            ("last_sync_at"@, int_json(r.last_sync_at as int)),
            ("items_found"@, int_json(r.items_found as int)),
            ("items_updated"@, int_json(r.items_updated as int)),
            ("error_message"@, opt_text_json(opt_view(r.error_message))),
        ],
    )
}

fn sync_row_to_json(r: &SyncStatusRow) -> (j: Json)
    ensures
        j@ == sync_row(*r),
{
    let mut o = ObjectBuilder::new();
    o.put_text("source_name", r.source_name.as_str());
    o.put_int("last_sync_at", r.last_sync_at);
    o.put_int("items_found", r.items_found);
    o.put_int("items_updated", r.items_updated);
    o.put_opt_text("error_message", str_of(&r.error_message));
    assert(o@ =~= sync_row(*r)->Object_0);
    o.done()
}

/// How the sources were last read.
pub fn admin_metadata_sync_status(rows: &Vec<SyncStatusRow>) -> (r: Json)
    ensures
        r@ == counted("sources"@, rows@.map_values(|r: SyncStatusRow| sync_row(r))),
{
    let describe = |r: &SyncStatusRow| -> (j: Json)
        ensures
            j@ == sync_row(*r),
        { sync_row_to_json(r) };
    let list = json_list(rows, describe, Ghost(|r: SyncStatusRow| sync_row(r)));
    assert(list@->Array_0 =~= rows@.map_values(|r: SyncStatusRow| sync_row(r)));
    count_list("sources", list, rows.len())
}

} // verus!
