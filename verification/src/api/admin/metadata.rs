//! What was learned of the models, as the administrative interface tells it.
use crate::api::attempts::at_most;
use crate::json::{int_json, Json, json_list, JsonView, ObjectBuilder};
use crate::lists::{distinct_strings, firsts, kept, kept_all, kept_next};
use crate::metadata::rows::{ErrorSummaryRow, MetaStats};
use crate::metadata::store::{add_capped, capped_add};
use crate::sorting::{sort_and_dedup, sort_stably, sorted, sorted_maps, sorted_set};
use crate::text::{concat3, same, views};
use vstd::prelude::*;

verus! {

// ---------------------------------------------------------------- sums
/// The sum of some numbers, which stops at the ends of the type.
pub open spec fn capped_total(s: Seq<i64>) -> i64
    decreases s.len(),
{
    if s.len() == 0 {
        0
    } else {
        capped_add(capped_total(s.drop_last()), s.last() as int)
    }
}

/// The sum of some numbers.
pub open spec fn plain_total(s: Seq<i64>) -> int
    decreases s.len(),
{
    if s.len() == 0 {
        0
    } else {
        plain_total(s.drop_last()) + s.last()
    }
}

/// Where no sum on the way leaves the type, the sum is the sum.
pub proof fn totals_that_fit_are_sums(s: Seq<i64>)
    requires
        forall|k: int|
            0 <= k <= s.len() ==> i64::MIN <= #[trigger] plain_total(s.take(k)) <= i64::MAX,
    ensures
        capped_total(s) == plain_total(s),
    decreases s.len(),
{
    assert(s.take(s.len() as int) =~= s);
    if s.len() > 0 {
        let t = s.drop_last();
        assert forall|k: int| 0 <= k <= t.len() implies i64::MIN <= #[trigger] plain_total(
            t.take(k),
        ) <= i64::MAX by {
            assert(t.take(k) =~= s.take(k));
        }
        totals_that_fit_are_sums(t);
    }
}

/// The sum of what a function makes of each row.
pub(crate) fn total_by<T, F: Fn(&T) -> i64>(
    rows: &Vec<T>,
    f: F,
    Ghost(g): Ghost<spec_fn(T) -> i64>,
) -> (r: i64)
    requires
        forall|t: &T| call_requires(f, (t,)),
        forall|t: &T, n: i64| #[trigger] call_ensures(f, (t,), n) ==> n == g(*t),
    ensures
        r == capped_total(rows@.map_values(g)),
{
    let ghost all = rows@.map_values(g);
    let mut sum: i64 = 0;
    let mut i: usize = 0;
    assert(all.take(0) =~= Seq::<i64>::empty());
    while i < rows.len()
        invariant
            i <= rows@.len(),
            all == rows@.map_values(g),
            forall|t: &T| call_requires(f, (t,)),
            forall|t: &T, n: i64| #[trigger] call_ensures(f, (t,), n) ==> n == g(*t),
            sum == capped_total(all.take(i as int)),
        decreases rows@.len() - i,
    {
        let n = f(&rows[i]);
        sum = add_capped(sum, n);
        i += 1;
        assert(all.take(i as int).drop_last() =~= all.take(i - 1));
        assert(all.take(i as int).last() == all[i - 1]);
    }
    assert(all.take(all.len() as int) =~= all);
    sum
}

/// What some entries say, under which names.
pub open spec fn entry_views(list: Seq<(String, i64)>) -> Seq<(Seq<char>, i64)> {
    list.map_values(|e: (String, i64)| (e.0@, e.1))
}

/// Whether an entry stands under a name.
pub open spec fn under(name: Seq<char>) -> spec_fn((Seq<char>, i64)) -> bool {
    |e: (Seq<char>, i64)| e.0 == name
}

/// The names of some entries.
pub open spec fn entry_names(entries: Seq<(Seq<char>, i64)>) -> Seq<Seq<char>> {
    entries.map_values(|e: (Seq<char>, i64)| e.0)
}

/// The sum of the entries under a name.
pub open spec fn amount_of(entries: Seq<(Seq<char>, i64)>, name: Seq<char>) -> i64 {
    capped_total(kept(entries, under(name)).map_values(|e: (Seq<char>, i64)| e.1))
}

/// The sums of the entries under some names.
pub open spec fn amounts(entries: Seq<(Seq<char>, i64)>, names: Seq<Seq<char>>) -> Seq<
    (Seq<char>, i64),
> {
    names.map_values(|n: Seq<char>| (n, amount_of(entries, n)))
}

fn sum_under(entries: &Vec<(String, i64)>, name: &str) -> (r: i64)
    ensures
        r == amount_of(entry_views(entries@), name@),
{
    let ghost all = entry_views(entries@);
    let ghost p = under(name@);
    let ghost pick = |e: (Seq<char>, i64)| e.1;
    let mut sum: i64 = 0;
    let mut i: usize = 0;
    proof {
        kept_all(all, p);
        assert(kept(all.take(0), p).map_values(pick) =~= Seq::<i64>::empty());
    }
    while i < entries.len()
        invariant
            i <= entries@.len(),
            all == entry_views(entries@),
            p == under(name@),
            pick == (|e: (Seq<char>, i64)| e.1),
            sum == capped_total(kept(all.take(i as int), p).map_values(pick)),
        decreases entries@.len() - i,
    {
        let ghost before = kept(all.take(i as int), p).map_values(pick);
        proof {
            kept_next(all, p, i as int);
            assert(all[i as int] == (entries@[i as int].0@, entries@[i as int].1));
        }
        if same(entries[i].0.as_str(), name) {
            sum = add_capped(sum, entries[i].1);
            proof {
                let longer = kept(all.take(i + 1), p).map_values(pick);
                assert(longer =~= before.push(entries@[i as int].1));
                assert(longer.drop_last() =~= before);
            }
        }
        i += 1;
    }
    proof {
        kept_all(all, p);
    }
    sum
}

fn sums_under(entries: &Vec<(String, i64)>, names: &Vec<String>) -> (r: Vec<(String, i64)>)
    ensures
        entry_views(r@) == amounts(entry_views(entries@), views(names@)),
{
    let ghost all = entry_views(entries@);
    let mut out: Vec<(String, i64)> = Vec::new();
    let mut i: usize = 0;
    while i < names.len()
        invariant
            i <= names@.len(),
            all == entry_views(entries@),
            out@.len() == i,
            forall|k: int|
                0 <= k < i ==> (#[trigger] out@[k]).0@ == names@[k]@ && out@[k].1 == amount_of(
                    all,
                    names@[k]@,
                ),
        decreases names@.len() - i,
    {
        let sum = sum_under(entries, names[i].as_str());
        out.push((names[i].clone(), sum));
        i += 1;
    }
    assert(entry_views(out@) =~= amounts(all, views(names@)));
    out
}

fn names_of(entries: &Vec<(String, i64)>) -> (r: Vec<String>)
    ensures
        views(r@) == entry_names(entry_views(entries@)),
{
    let mut out: Vec<String> = Vec::new();
    let mut i: usize = 0;
    while i < entries.len()
        invariant
            i <= entries@.len(),
            out@.len() == i,
            forall|k: int| 0 <= k < i ==> (#[trigger] out@[k])@ == entries@[k].0@,
        decreases entries@.len() - i,
    {
        out.push(entries[i].0.clone());
        i += 1;
    }
    assert(views(out@) =~= entry_names(entry_views(entries@)));
    out
}

// ---------------------------------------------------------------- statistics
/// How often which kind of error came.
pub open spec fn by_category(rows: Seq<ErrorSummaryRow>) -> Seq<(Seq<char>, i64)> {
    rows.map_values(|r: ErrorSummaryRow| (r.category@, r.total))
}

/// How often a model of a provider failed.
pub open spec fn by_model(rows: Seq<ErrorSummaryRow>) -> Seq<(Seq<char>, i64)> {
    rows.map_values(|r: ErrorSummaryRow| (r.provider@ + "/"@ + r.model_id@, r.total))
}

/// The order in which the larger sum comes first.
pub open spec fn larger_first() -> spec_fn((Seq<char>, i64), (Seq<char>, i64)) -> bool {
    |a: (Seq<char>, i64), b: (Seq<char>, i64)| a.1 > b.1
}

/// The kinds of errors with their sums, in alphabetical order.
pub open spec fn category_totals(rows: Seq<ErrorSummaryRow>) -> Seq<(Seq<char>, i64)> {
    amounts(by_category(rows), sorted_set(entry_names(by_category(rows))))
}

/// The ten models that failed most often; of two that failed as often the one
/// that was seen first.
pub open spec fn top_failing(rows: Seq<ErrorSummaryRow>) -> Seq<(Seq<char>, i64)> {
    at_most(
        sorted(amounts(by_model(rows), firsts(entry_names(by_model(rows)))), larger_first()),
        10,
    )
}

/// Sums under their names.
pub open spec fn totals_json(totals: Seq<(Seq<char>, i64)>) -> JsonView {
    JsonView::Object(totals.map_values(|t: (Seq<char>, i64)| (t.0, int_json(t.1 as int))))
}

/// A model that failed, with how often.
pub open spec fn failing_json(t: (Seq<char>, i64)) -> JsonView {
    JsonView::Object(seq![("model"@, JsonView::Text(t.0)), ("errors"@, int_json(t.1 as int))])
}

/// What is known in all.
pub open spec fn stats_answer(stats: MetaStats, errors: Seq<ErrorSummaryRow>) -> JsonView {
    JsonView::Object(
        seq![
            ("enabled"@, JsonView::Bool(true)),
            ("total_models"@, int_json(stats.total_models as int)),
            ("with_context_window"@, int_json(stats.with_context_window as int)),
            ("with_vision"@, int_json(stats.with_vision as int)),
            ("with_pricing"@, int_json(stats.with_pricing as int)),
            ("synced_sources"@, int_json(stats.synced_sources as int)),
            ("usage_records"@, int_json(stats.usage_records as int)),
            ("learned_rate_limits"@, int_json(stats.learned_rate_limits as int)),
            (
                "error_total"@,
                int_json(capped_total(errors.map_values(|r: ErrorSummaryRow| r.total)) as int),
            ),
            ("error_categories"@, totals_json(category_totals(errors))),
            (
                "top_failing_models"@,
                JsonView::Array(
                    top_failing(errors).map_values(|t: (Seq<char>, i64)| failing_json(t)),
                ),
            ),
        ],
    )
}

fn category_entries(rows: &Vec<ErrorSummaryRow>) -> (r: Vec<(String, i64)>)
    ensures
        entry_views(r@) == by_category(rows@),
{
    let mut out: Vec<(String, i64)> = Vec::new();
    let mut i: usize = 0;
    while i < rows.len()
        invariant
            i <= rows@.len(),
            out@.len() == i,
            forall|k: int|
                0 <= k < i ==> (#[trigger] out@[k]).0@ == rows@[k].category@ && out@[k].1
                    == rows@[k].total,
        decreases rows@.len() - i,
    {
        out.push((rows[i].category.clone(), rows[i].total));
        i += 1;
    }
    assert(entry_views(out@) =~= by_category(rows@));
    out
}

fn model_entries(rows: &Vec<ErrorSummaryRow>) -> (r: Vec<(String, i64)>)
    ensures
        entry_views(r@) == by_model(rows@),
{
    let mut out: Vec<(String, i64)> = Vec::new();
    let mut i: usize = 0;
    while i < rows.len()
        invariant
            i <= rows@.len(),
            out@.len() == i,
            forall|k: int|
                0 <= k < i ==> (#[trigger] out@[k]).0@ == rows@[k].provider@ + "/"@
                    + rows@[k].model_id@ && out@[k].1 == rows@[k].total,
        decreases rows@.len() - i,
    {
        let name = concat3(rows[i].provider.as_str(), "/", rows[i].model_id.as_str());
        out.push((name, rows[i].total));
        i += 1;
    }
    assert(entry_views(out@) =~= by_model(rows@));
    out
}

fn totals_to_json(totals: &Vec<(String, i64)>) -> (r: Json)
    ensures
        r@ == totals_json(entry_views(totals@)),
{
    let ghost goal = totals_json(entry_views(totals@))->Object_0;
    let mut o = ObjectBuilder::new();
    let mut i: usize = 0;
    assert(o@ =~= goal.take(0));
    while i < totals.len()
        invariant
            i <= totals@.len(),
            goal == totals_json(entry_views(totals@))->Object_0,
            o@ == goal.take(i as int),
        decreases totals@.len() - i,
    {
        o.put_int(totals[i].0.as_str(), totals[i].1);
        i += 1;
        assert(goal.take(i as int) =~= goal.take(i - 1).push(goal[i - 1]));
    }
    assert(goal.take(goal.len() as int) =~= goal);
    o.done()
}

fn failing_to_json(t: &(String, i64)) -> (r: Json)
    ensures
        r@ == failing_json((t.0@, t.1)),
{
    let mut o = ObjectBuilder::new();
    o.put_text("model", t.0.as_str());
    o.put_int("errors", t.1);
    assert(o@ =~= failing_json((t.0@, t.1))->Object_0);
    o.done()
}

fn top_failing_models(rows: &Vec<ErrorSummaryRow>) -> (r: Vec<(String, i64)>)
    ensures
        entry_views(r@) == top_failing(rows@),
{
    let entries = model_entries(rows);
    let all_names = names_of(&entries);
    let names = distinct_strings(&all_names);
    let totals = sums_under(&entries, &names);
    let ghost given = totals@;
    let ghost precedes = |a: (String, i64), b: (String, i64)| a.1 > b.1;
    let comes = |a: &(String, i64), b: &(String, i64)| -> (c: bool)
        ensures
            c == (a.1 > b.1),
        { a.1 > b.1 };
    let ordered = sort_stably(totals, comes, Ghost(precedes));
    proof {
        sorted_maps(given, precedes, |e: (String, i64)| (e.0@, e.1), larger_first());
    }
    let ghost all = entry_views(ordered@);
    let mut top: Vec<(String, i64)> = Vec::new();
    let mut i: usize = 0;
    while i < ordered.len() && i < 10
        invariant
            i <= ordered@.len(),
            i <= 10,
            top@.len() == i,
            forall|k: int|
                0 <= k < i ==> (#[trigger] top@[k]).0@ == ordered@[k].0@ && top@[k].1
                    == ordered@[k].1,
        decreases ordered@.len() - i,
    {
        top.push((ordered[i].0.clone(), ordered[i].1));
        i += 1;
    }
    assert(entry_views(top@) =~= at_most(all, 10));
    top
}

/// What is known in all.
pub fn admin_metadata_stats(stats: &MetaStats, errors: &Vec<ErrorSummaryRow>) -> (r: Json)
    ensures
        r@ == stats_answer(*stats, errors@),
{
    let ghost goal = stats_answer(*stats, errors@);
    let get = |r: &ErrorSummaryRow| -> (n: i64)
        ensures
            n == r.total,
        { r.total };
    let total = total_by(errors, get, Ghost(|r: ErrorSummaryRow| r.total));
    let entries = category_entries(errors);
    let names = sort_and_dedup(names_of(&entries));
    let categories = sums_under(&entries, &names);
    let top = top_failing_models(errors);
    let describe = |t: &(String, i64)| -> (j: Json)
        ensures
            j@ == failing_json((t.0@, t.1)),
        { failing_to_json(t) };
    let list = json_list(&top, describe, Ghost(|t: (String, i64)| failing_json((t.0@, t.1))));
    assert(list@->Array_0 =~= goal->Object_0[10].1->Array_0);
    let mut o = ObjectBuilder::new();
    o.put_bool("enabled", true);
    o.put_int("total_models", stats.total_models);
    o.put_int("with_context_window", stats.with_context_window);
    o.put_int("with_vision", stats.with_vision);
    o.put_int("with_pricing", stats.with_pricing);
    o.put_int("synced_sources", stats.synced_sources);
    o.put_int("usage_records", stats.usage_records);
    o.put_int("learned_rate_limits", stats.learned_rate_limits);
    o.put_int("error_total", total);
    o.put("error_categories", totals_to_json(&categories));
    o.put("top_failing_models", list);
    assert(o@ =~= goal->Object_0);
    o.done()
}

} // verus!
