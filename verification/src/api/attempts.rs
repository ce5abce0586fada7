//! What recent attempts say of routing.
use crate::lists::{
    collected, collected_all, collected_next, kept, kept_all, kept_next, kept_satisfies,
};
use crate::metadata::rows::{attempt_views, AttemptView, RequestAttemptRow};
use crate::sorting::{
    deduped, pair_order, sort_and_dedup, sort_and_dedup_pairs, sort_stably, sorted, sorted_maps,
    sorted_set, sorted_set_is_increasing, text_pairs,
};
use crate::text::{
    copy_opt, decimal, decimal_int, decimal_lacks, i64_text, join, joined, joined_comes_apart,
    lacks, lacks_together, opt_view, parts_between, push_decimal, same, views,
};
use vstd::prelude::*;

verus! {

#[derive(Debug, Clone, Copy, PartialEq, Eq, Structural)]
pub struct AttemptsQuery {
    pub limit: Option<i64>,
}

#[derive(Debug)]
pub struct AttemptCategorySummary {
    pub category: String,
    pub count: usize,
}

#[derive(Debug)]
pub struct AttemptDeploymentSummary {
    pub deployment: String,
    pub provider: String,
    pub model_id: String,
    pub key_id: String,
    pub attempts: usize,
    pub failures: usize,
    pub last_error_category: Option<String>,
    pub last_http_status: Option<i64>,
}

#[derive(Debug)]
pub struct AttemptRoutingAnalysis {
    pub total_attempts: usize,
    pub successful_attempts: usize,
    pub failed_attempts: usize,
    pub fallback_attempts: usize,
    pub top_error_categories: Vec<AttemptCategorySummary>,
    pub hot_deployments: Vec<AttemptDeploymentSummary>,
    pub recommendations: Vec<String>,
}

#[derive(Debug)]
pub struct AttemptAnalysisQuery {
    pub limit: Option<i64>,
    pub use_model: bool,
    pub model: Option<String>,
}

/// What an [`AttemptDeploymentSummary`] holds.
pub struct DeploymentView {
    pub deployment: Seq<char>,
    pub provider: Seq<char>,
    pub model_id: Seq<char>,
    pub key_id: Seq<char>,
    pub attempts: usize,
    pub failures: usize,
    pub last_error_category: Option<Seq<char>>,
    pub last_http_status: Option<i64>,
}

impl View for AttemptDeploymentSummary {
    type V = DeploymentView;

    open spec fn view(&self) -> DeploymentView {
        DeploymentView {
            deployment: self.deployment@,
            provider: self.provider@,
            model_id: self.model_id@,
            key_id: self.key_id@,
            attempts: self.attempts,
            failures: self.failures,
            last_error_category: opt_view(self.last_error_category),
            last_http_status: self.last_http_status,
        }
    }
}

/// The views of some summaries.
pub open spec fn deployment_views(list: Seq<AttemptDeploymentSummary>) -> Seq<DeploymentView> {
    list.map_values(|d: AttemptDeploymentSummary| d@)
}

/// The views of some categories.
pub open spec fn category_views(list: Seq<AttemptCategorySummary>) -> Seq<(Seq<char>, usize)> {
    list.map_values(|c: AttemptCategorySummary| (c.category@, c.count))
}

// ---------------------------------------------------------------- categories
/// The category of a failed attempt, where it has one.
pub open spec fn failure_category(a: AttemptView) -> Option<Seq<char>> {
    if a.success {
        None
    } else {
        a.error_category
    }
}

/// Whether an attempt failed with a category.
pub open spec fn failed_with(category: Seq<char>) -> spec_fn(AttemptView) -> bool {
    |a: AttemptView| failure_category(a) == Some(category)
}

/// How often attempts failed with a category.
pub open spec fn category_count(attempts: Seq<AttemptView>, category: Seq<char>) -> nat {
    kept(attempts, failed_with(category)).len()
}

/// The categories of failed attempts, each once, in alphabetical order.
pub open spec fn failure_categories(attempts: Seq<AttemptView>) -> Seq<Seq<char>> {
    sorted_set(collected(attempts, |a: AttemptView| failure_category(a)))
}

/// Larger counts first.
pub open spec fn larger_count_first() -> spec_fn((Seq<char>, usize), (Seq<char>, usize)) -> bool {
    |a: (Seq<char>, usize), b: (Seq<char>, usize)| a.1 > b.1
}

/// The categories of failed attempts with their counts: the more frequent
/// first, those as frequent in alphabetical order.
pub open spec fn top_categories(attempts: Seq<AttemptView>) -> Seq<(Seq<char>, usize)> {
    sorted(
        failure_categories(attempts).map_values(
            |c: Seq<char>| (c, category_count(attempts, c) as usize),
        ),
        larger_count_first(),
    )
}

fn has_category(a: &RequestAttemptRow, category: &str) -> (r: bool)
    ensures
        r == failed_with(category@)(a@),
{
    if a.success {
        return false;
    }
    match &a.error_category {
        Some(c) => same(c.as_str(), category),
        None => false,
    }
}

fn count_category(attempts: &[RequestAttemptRow], category: &str) -> (r: usize)
    ensures
        r == category_count(attempt_views(attempts@), category@),
{
    let ghost all = attempt_views(attempts@);
    let ghost p = failed_with(category@);
    let mut n: usize = 0;
    let mut i: usize = 0;
    proof {
        kept_all(all, p);
    }
    while i < attempts.len()
        invariant
            i <= attempts@.len(),
            n <= i,
            all == attempt_views(attempts@),
            p == failed_with(category@),
            n == kept(all.take(i as int), p).len(),
        decreases attempts@.len() - i,
    {
        proof {
            kept_next(all, p, i as int);
            assert(all[i as int] == attempts@[i as int]@);
        }
        if has_category(&attempts[i], category) {
            n += 1;
        }
        i += 1;
    }
    n
}

fn distinct_categories(attempts: &[RequestAttemptRow]) -> (r: Vec<String>)
    ensures
        views(r@) == failure_categories(attempt_views(attempts@)),
{
    let ghost all = attempt_views(attempts@);
    let ghost f = |a: AttemptView| failure_category(a);
    let mut list: Vec<String> = Vec::new();
    let mut i: usize = 0;
    proof {
        collected_all(all, f);
        assert(views(list@) =~= collected(all.take(0), f));
    }
    while i < attempts.len()
        invariant
            i <= attempts@.len(),
            all == attempt_views(attempts@),
            f == (|a: AttemptView| failure_category(a)),
            views(list@) == collected(all.take(i as int), f),
        decreases attempts@.len() - i,
    {
        proof {
            collected_next(all, f, i as int);
            assert(all[i as int] == attempts@[i as int]@);
        }
        if !attempts[i].success {
            if let Some(c) = &attempts[i].error_category {
                let ghost so_far = views(list@);
                list.push(c.clone());
                assert(views(list@) =~= so_far.push(c@));
            }
        }
        i += 1;
    }
    sort_and_dedup(list)
}

fn summarize_categories(attempts: &[RequestAttemptRow]) -> (r: Vec<AttemptCategorySummary>)
    ensures
        category_views(r@) == top_categories(attempt_views(attempts@)),
{
    let ghost all = attempt_views(attempts@);
    let names = distinct_categories(attempts);
    let mut list: Vec<AttemptCategorySummary> = Vec::new();
    let mut i: usize = 0;
    while i < names.len()
        invariant
            i <= names@.len(),
            all == attempt_views(attempts@),
            list@.len() == i,
            forall|j: int|
                0 <= j < i ==> (#[trigger] list@[j]).category@ == names@[j]@ && list@[j].count
                    == category_count(all, names@[j]@),
        decreases names@.len() - i,
    {
        let count = count_category(attempts, names[i].as_str());
        list.push(AttemptCategorySummary { category: names[i].clone(), count });
        i += 1;
    }
    assert(category_views(list@) =~= failure_categories(all).map_values(
        |c: Seq<char>| (c, category_count(all, c) as usize),
    ));
    let ghost precedes = |a: AttemptCategorySummary, b: AttemptCategorySummary| a.count > b.count;
    let comes = |a: &AttemptCategorySummary, b: &AttemptCategorySummary| -> (c: bool)
        ensures
            c == (a.count > b.count),
        { a.count > b.count };
    let ghost given = list@;
    let r = sort_stably(list, comes, Ghost(precedes));
    proof {
        sorted_maps(
            given,
            precedes,
            |c: AttemptCategorySummary| (c.category@, c.count),
            larger_count_first(),
        );
    }
    r
}

// ---------------------------------------------------------------- deployments
/// The name of the deployment that an attempt went to.
pub open spec fn deployment_of(a: AttemptView) -> Seq<char> {
    a.provider + "/"@ + a.model_id + "/"@ + a.key_id
}

/// Whether an attempt went to a deployment.
pub open spec fn went_to(name: Seq<char>) -> spec_fn(AttemptView) -> bool {
    |a: AttemptView| deployment_of(a) == name
}

/// Whether an attempt went to a deployment and failed.
pub open spec fn failed_at(name: Seq<char>) -> spec_fn(AttemptView) -> bool {
    |a: AttemptView| deployment_of(a) == name && !a.success
}

/// The deployments of some attempts, each once, in alphabetical order.
pub open spec fn deployment_names(attempts: Seq<AttemptView>) -> Seq<Seq<char>> {
    sorted_set(attempts.map_values(|a: AttemptView| deployment_of(a)))
}

/// What attempts say of a deployment: the parts of its name by its first
/// attempt, its counts, and what its last failure was.
pub open spec fn deployment_summary(attempts: Seq<AttemptView>, name: Seq<char>) -> DeploymentView {
    let all = kept(attempts, went_to(name));
    let failures = kept(attempts, failed_at(name));
    DeploymentView {
        deployment: name,
        provider: all[0].provider,
        model_id: all[0].model_id,
        key_id: all[0].key_id,
        attempts: all.len() as usize,
        failures: failures.len() as usize,
        last_error_category: if failures.len() > 0 {
            failures.last().error_category
        } else {
            None
        },
        last_http_status: if failures.len() > 0 {
            failures.last().http_status
        } else {
            None
        },
    }
}

/// More failures first, then more attempts.
pub open spec fn hotter() -> spec_fn(DeploymentView, DeploymentView) -> bool {
    |a: DeploymentView, b: DeploymentView|
        a.failures > b.failures || (a.failures == b.failures && a.attempts > b.attempts)
}

/// The deployments that failed, the hottest first, those alike in alphabetical
/// order.
pub open spec fn failing_deployments(attempts: Seq<AttemptView>) -> Seq<DeploymentView> {
    sorted(
        kept(
            deployment_names(attempts).map_values(
                |n: Seq<char>| deployment_summary(attempts, n),
            ),
            |d: DeploymentView| d.failures > 0,
        ),
        hotter(),
    )
}

/// The first items of a sequence.
pub open spec fn at_most<T>(s: Seq<T>, n: int) -> Seq<T> {
    if s.len() <= n {
        s
    } else {
        s.take(n)
    }
}

fn deployment_name(a: &RequestAttemptRow) -> (r: String)
    ensures
        r@ == deployment_of(a@),
{
    let mut out = a.provider.clone();
    out.push_str("/");
    out.push_str(a.model_id.as_str());
    out.push_str("/");
    out.push_str(a.key_id.as_str());
    out
}

fn summarize_deployment(attempts: &[RequestAttemptRow], name: &str) -> (r: AttemptDeploymentSummary)
    requires
        kept(attempt_views(attempts@), went_to(name@)).len() > 0,
    ensures
        r@ == deployment_summary(attempt_views(attempts@), name@),
{
    let ghost all = attempt_views(attempts@);
    let mut r = AttemptDeploymentSummary {
        deployment: name.to_owned(),
        provider: String::new(),
        model_id: String::new(),
        key_id: String::new(),
        attempts: 0,
        failures: 0,
        last_error_category: None,
        last_http_status: None,
    };
    let mut i: usize = 0;
    proof {
        kept_all(all, went_to(name@));
        kept_all(all, failed_at(name@));
    }
    while i < attempts.len()
        invariant
            i <= attempts@.len(),
            all == attempt_views(attempts@),
            r.deployment@ == name@,
            r.attempts <= i,
            r.failures <= i,
            r.attempts == kept(all.take(i as int), went_to(name@)).len(),
            r.failures == kept(all.take(i as int), failed_at(name@)).len(),
            r.attempts > 0 ==> r@ == deployment_summary(all.take(i as int), name@),
            r.attempts == 0 ==> r.failures == 0 && r.last_error_category is None
                && r.last_http_status is None,
        decreases attempts@.len() - i,
    {
        let a = &attempts[i];
        let here = deployment_name(a);
        let ghost before = kept(all.take(i as int), went_to(name@));
        proof {
            kept_next(all, went_to(name@), i as int);
            kept_next(all, failed_at(name@), i as int);
            assert(all[i as int] == a@);
        }
        if same(here.as_str(), name) {
            if r.attempts == 0 {
                r.provider = a.provider.clone();
                r.model_id = a.model_id.clone();
                r.key_id = a.key_id.clone();
            }
            r.attempts += 1;
            if !a.success {
                r.failures += 1;
                r.last_error_category = copy_opt(&a.error_category);
                r.last_http_status = a.http_status;
            }
            proof {
                let after = kept(all.take(i + 1), went_to(name@));
                assert(after == before.push(a@));
                if before.len() > 0 {
                    assert(after[0] == before[0]);
                } else {
                    assert(after[0] == a@);
                }
            }
        }
        i += 1;
    }
    r
}

proof fn names_have_attempts(attempts: Seq<AttemptView>, name: Seq<char>)
    requires
        deployment_names(attempts).contains(name),
    ensures
        kept(attempts, went_to(name)).len() > 0,
{
    let names = attempts.map_values(|a: AttemptView| deployment_of(a));
    sorted_set_is_increasing(names);
    assert(names.contains(name));
    let k = choose|k: int| 0 <= k < names.len() && names[k] == name;
    kept_satisfies(attempts, went_to(name));
    assert(attempts.contains(attempts[k]));
    assert(kept(attempts, went_to(name)).contains(attempts[k]));
}

fn hot_list(attempts: &[RequestAttemptRow]) -> (r: Vec<AttemptDeploymentSummary>)
    ensures
        deployment_views(r@) == at_most(failing_deployments(attempt_views(attempts@)), 10),
{
    let ghost all = attempt_views(attempts@);
    let mut names: Vec<String> = Vec::new();
    let mut i: usize = 0;
    while i < attempts.len()
        invariant
            i <= attempts@.len(),
            names@.len() == i,
            forall|j: int| 0 <= j < i ==> (#[trigger] names@[j])@ == deployment_of(attempts@[j]@),
        decreases attempts@.len() - i,
    {
        names.push(deployment_name(&attempts[i]));
        i += 1;
    }
    assert(views(names@) =~= all.map_values(|a: AttemptView| deployment_of(a)));
    let distinct = sort_and_dedup(names);
    let ghost summaries = deployment_names(all).map_values(
        |n: Seq<char>| deployment_summary(all, n),
    );
    let ghost p = |d: DeploymentView| d.failures > 0;
    let mut failing: Vec<AttemptDeploymentSummary> = Vec::new();
    let mut j: usize = 0;
    proof {
        kept_all(summaries, p);
        assert(deployment_views(failing@) =~= kept(summaries.take(0), p));
    }
    while j < distinct.len()
        invariant
            j <= distinct@.len(),
            all == attempt_views(attempts@),
            views(distinct@) == deployment_names(all),
            summaries == deployment_names(all).map_values(
                |n: Seq<char>| deployment_summary(all, n),
            ),
            p == (|d: DeploymentView| d.failures > 0),
            deployment_views(failing@) == kept(summaries.take(j as int), p),
        decreases distinct@.len() - j,
    {
        proof {
            assert(views(distinct@)[j as int] == distinct@[j as int]@);
            assert(deployment_names(all).contains(distinct@[j as int]@));
            names_have_attempts(all, distinct@[j as int]@);
            kept_next(summaries, p, j as int);
        }
        let d = summarize_deployment(attempts, distinct[j].as_str());
        assert(d@ == summaries[j as int]);
        if d.failures > 0 {
            let ghost so_far = deployment_views(failing@);
            failing.push(d);
            assert(deployment_views(failing@) =~= so_far.push(d@));
        }
        j += 1;
    }
    let ghost precedes = |a: AttemptDeploymentSummary, b: AttemptDeploymentSummary|
        a.failures > b.failures || (a.failures == b.failures && a.attempts > b.attempts);
    let comes = |a: &AttemptDeploymentSummary, b: &AttemptDeploymentSummary| -> (c: bool)
        ensures
            c == (a.failures > b.failures || (a.failures == b.failures && a.attempts
                > b.attempts)),
        { a.failures > b.failures || (a.failures == b.failures && a.attempts > b.attempts) };
    let ghost given = failing@;
    let mut r = sort_stably(failing, comes, Ghost(precedes));
    proof {
        sorted_maps(given, precedes, |d: AttemptDeploymentSummary| d@, hotter());
    }
    let ghost full = r@;
    r.truncate(10);
    assert(deployment_views(r@) =~= at_most(deployment_views(full), 10));
    r
}

// ---------------------------------------------------------------- saturation
/// Provider and model of an attempt that was rate limited.
pub open spec fn limited_pair(a: AttemptView) -> Option<(Seq<char>, Seq<char>)> {
    if failure_category(a) == Some("rate_limited"@) {
        Some((a.provider, a.model_id))
    } else {
        None
    }
}

/// The key of an attempt that was rate limited at a provider and a model.
pub open spec fn limited_key(pair: (Seq<char>, Seq<char>)) -> spec_fn(AttemptView) -> Option<
    Seq<char>,
> {
    |a: AttemptView|
        if limited_pair(a) == Some(pair) {
            Some(a.key_id)
        } else {
            None
        }
}

/// The pairs of provider and model at which attempts were rate limited, each
/// once, in order.
pub open spec fn limited_pairs(attempts: Seq<AttemptView>) -> Seq<(Seq<char>, Seq<char>)> {
    deduped(sorted(collected(attempts, |a: AttemptView| limited_pair(a)), pair_order()))
}

/// How many different keys were rate limited at a provider and a model.
pub open spec fn limited_keys(attempts: Seq<AttemptView>, pair: (Seq<char>, Seq<char>)) -> nat {
    sorted_set(collected(attempts, limited_key(pair))).len()
}

/// A provider and a model with the number of keys that were rate limited.
pub struct SaturatedView {
    pub provider: Seq<char>,
    pub model_id: Seq<char>,
    pub keys: usize,
}

pub struct Saturated {
    pub provider: String,
    pub model_id: String,
    pub keys: usize,
}

impl View for Saturated {
    type V = SaturatedView;

    open spec fn view(&self) -> SaturatedView {
        SaturatedView { provider: self.provider@, model_id: self.model_id@, keys: self.keys }
    }
}

/// More keys first.
pub open spec fn more_keys_first() -> spec_fn(SaturatedView, SaturatedView) -> bool {
    |a: SaturatedView, b: SaturatedView| a.keys > b.keys
}

/// The providers and models at which at least two keys were rate limited: more
/// keys first, those alike in order of provider and model.
pub open spec fn saturated_pairs(attempts: Seq<AttemptView>) -> Seq<SaturatedView> {
    sorted(
        kept(
            limited_pairs(attempts).map_values(
                |p: (Seq<char>, Seq<char>)|
                    SaturatedView {
                        provider: p.0,
                        model_id: p.1,
                        keys: limited_keys(attempts, p) as usize,
                    },
            ),
            |s: SaturatedView| s.keys >= 2,
        ),
        more_keys_first(),
    )
}

fn count_limited_keys(attempts: &[RequestAttemptRow], provider: &str, model_id: &str) -> (r: usize)
    ensures
        r == limited_keys(attempt_views(attempts@), (provider@, model_id@)),
{
    let ghost all = attempt_views(attempts@);
    let ghost f = limited_key((provider@, model_id@));
    let mut keys: Vec<String> = Vec::new();
    let mut i: usize = 0;
    proof {
        collected_all(all, f);
        assert(views(keys@) =~= collected(all.take(0), f));
    }
    while i < attempts.len()
        invariant
            i <= attempts@.len(),
            all == attempt_views(attempts@),
            f == limited_key((provider@, model_id@)),
            views(keys@) == collected(all.take(i as int), f),
        decreases attempts@.len() - i,
    {
        let a = &attempts[i];
        proof {
            collected_next(all, f, i as int);
            assert(all[i as int] == a@);
        }
        if has_category(a, "rate_limited") && same(a.provider.as_str(), provider) && same(
            a.model_id.as_str(),
            model_id,
        ) {
            let ghost so_far = views(keys@);
            keys.push(a.key_id.clone());
            assert(views(keys@) =~= so_far.push(a.key_id@));
        }
        i += 1;
    }
    let distinct = sort_and_dedup(keys);
    distinct.len()
}

fn saturated_list(attempts: &[RequestAttemptRow]) -> (r: Vec<Saturated>)
    ensures
        r@.map_values(|s: Saturated| s@) == at_most(
            saturated_pairs(attempt_views(attempts@)),
            5,
        ),
{
    let ghost all = attempt_views(attempts@);
    let ghost f = |a: AttemptView| limited_pair(a);
    let mut pairs: Vec<(String, String)> = Vec::new();
    let mut i: usize = 0;
    proof {
        collected_all(all, f);
        assert(text_pairs(pairs@) =~= collected(all.take(0), f));
    }
    while i < attempts.len()
        invariant
            i <= attempts@.len(),
            all == attempt_views(attempts@),
            f == (|a: AttemptView| limited_pair(a)),
            text_pairs(pairs@) == collected(all.take(i as int), f),
        decreases attempts@.len() - i,
    {
        let a = &attempts[i];
        proof {
            collected_next(all, f, i as int);
            assert(all[i as int] == a@);
        }
        if has_category(a, "rate_limited") {
            let ghost so_far = text_pairs(pairs@);
            pairs.push((a.provider.clone(), a.model_id.clone()));
            assert(text_pairs(pairs@) =~= so_far.push((a.provider@, a.model_id@)));
        }
        i += 1;
    }
    let distinct = sort_and_dedup_pairs(pairs);
    let ghost counted = limited_pairs(all).map_values(
        |p: (Seq<char>, Seq<char>)|
            SaturatedView {
                provider: p.0,
                model_id: p.1,
                keys: limited_keys(all, p) as usize,
            },
    );
    let ghost p = |s: SaturatedView| s.keys >= 2;
    let ghost v = |s: Saturated| s@;
    let mut list: Vec<Saturated> = Vec::new();
    let mut j: usize = 0;
    proof {
        kept_all(counted, p);
        assert(list@.map_values(v) =~= kept(counted.take(0), p));
    }
    while j < distinct.len()
        invariant
            j <= distinct@.len(),
            all == attempt_views(attempts@),
            text_pairs(distinct@) == limited_pairs(all),
            counted == limited_pairs(all).map_values(
                |p: (Seq<char>, Seq<char>)|
                    SaturatedView {
                        provider: p.0,
                        model_id: p.1,
                        keys: limited_keys(all, p) as usize,
                    },
            ),
            p == (|s: SaturatedView| s.keys >= 2),
            v == (|s: Saturated| s@),
            list@.map_values(v) == kept(counted.take(j as int), p),
        decreases distinct@.len() - j,
    {
        proof {
            kept_next(counted, p, j as int);
            assert(text_pairs(distinct@)[j as int] == (
                distinct@[j as int].0@,
                distinct@[j as int].1@,
            ));
        }
        let keys = count_limited_keys(
            attempts,
            distinct[j].0.as_str(),
            distinct[j].1.as_str(),
        );
        if keys >= 2 {
            let ghost so_far = list@.map_values(v);
            let s = Saturated {
                provider: distinct[j].0.clone(),
                model_id: distinct[j].1.clone(),
                keys,
            };
            list.push(s);
            assert(list@.map_values(v) =~= so_far.push(s@));
        }
        j += 1;
    }
    let ghost precedes = |a: Saturated, b: Saturated| a.keys > b.keys;
    let comes = |a: &Saturated, b: &Saturated| -> (c: bool)
        ensures
            c == (a.keys > b.keys),
        { a.keys > b.keys };
    let ghost given = list@;
    let mut r = sort_stably(list, comes, Ghost(precedes));
    proof {
        sorted_maps(given, precedes, v, more_keys_first());
    }
    let ghost full = r@;
    r.truncate(5);
    assert(r@.map_values(v) =~= at_most(full.map_values(v), 5));
    r
}

// ---------------------------------------------------------------- recommendations
/// What is recommended of a provider and a model whose keys are saturated.
pub open spec fn saturation_advice(s: SaturatedView) -> Seq<char> {
    s.provider + "/"@ + s.model_id + " has "@ + decimal(s.keys as nat)
        + " independent account keys rate-limited in the sample; switch provider/model family first, then add more independent accounts if this model must stay primary"@
}

/// What is recommended of a deployment that failed.
pub open spec fn deployment_advice(d: DeploymentView) -> Seq<char> {
    d.deployment + (match d.last_error_category {
        Some(c) => if c == "rate_limited"@ {
            " should stay in cooldown/probing until a successful half-open request proves recovery"@
        } else if c == "upstream_error"@ || c == "malformed_stream"@ || c == "empty_response"@ {
            " should be deprioritized and retried only after healthier deployments"@
        } else if c == "region_forbidden"@ || c == "model_forbidden"@ {
            " should be treated as model/provider access restricted, not generic key exhaustion"@
        } else if c == "auth_failed"@ {
            " should be disabled until credentials are manually fixed"@
        } else {
            " needs more evidence before changing global routing"@
        },
        None => " needs more evidence before changing global routing"@,
    })
}

/// The recommendations that some attempts give rise to.
pub open spec fn advice(attempts: Seq<AttemptView>) -> Seq<Seq<char>> {
    let list = at_most(saturated_pairs(attempts), 5).map_values(
        |s: SaturatedView| saturation_advice(s),
    ) + at_most(failing_deployments(attempts), 10).map_values(
        |d: DeploymentView| deployment_advice(d),
    );
    if list.len() == 0 {
        seq![
            "No failing deployments in the sampled attempts; keep routing by quota headroom and latency"@,
        ]
    } else {
        list
    }
}

fn advise_saturation(s: &Saturated) -> (r: String)
    ensures
        r@ == saturation_advice(s@),
{
    let mut out = s.provider.clone();
    out.push_str("/");
    out.push_str(s.model_id.as_str());
    out.push_str(" has ");
    push_decimal(&mut out, s.keys as u64);
    out.push_str(
        " independent account keys rate-limited in the sample; switch provider/model family first, then add more independent accounts if this model must stay primary",
    );
    out
}

fn advise_deployment(d: &AttemptDeploymentSummary) -> (r: String)
    ensures
        r@ == deployment_advice(d@),
{
    let mut out = d.deployment.clone();
    let tail = match &d.last_error_category {
        Some(category) => {
            let c = category.as_str();
            if same(c, "rate_limited") {
                " should stay in cooldown/probing until a successful half-open request proves recovery"
            } else if same(c, "upstream_error") || same(c, "malformed_stream") || same(
                c,
                "empty_response",
            ) {
                " should be deprioritized and retried only after healthier deployments"
            } else if same(c, "region_forbidden") || same(c, "model_forbidden") {
                " should be treated as model/provider access restricted, not generic key exhaustion"
            } else if same(c, "auth_failed") {
                " should be disabled until credentials are manually fixed"
            } else {
                " needs more evidence before changing global routing"
            }
        },
        None => " needs more evidence before changing global routing",
    };
    out.push_str(tail);
    out
}

/// Whether an attempt succeeded.
pub open spec fn is_success() -> spec_fn(AttemptView) -> bool {
    |a: AttemptView| a.success
}

/// Whether an attempt was a fallback.
pub open spec fn is_fallback() -> spec_fn(AttemptView) -> bool {
    |a: AttemptView| a.fallback
}

/// Counts attempts, errors and failing deployments, and recommends what to do.
pub fn summarize_attempts_for_routing(attempts: &[RequestAttemptRow]) -> (r:
    AttemptRoutingAnalysis)
    ensures
        ({
            let all = attempt_views(attempts@);
            &&& r.total_attempts == all.len()
            &&& r.successful_attempts == kept(all, is_success()).len()
            &&& r.failed_attempts == all.len() - kept(all, is_success()).len()
            &&& r.fallback_attempts == kept(all, is_fallback()).len()
            &&& category_views(r.top_error_categories@) == top_categories(all)
            &&& deployment_views(r.hot_deployments@) == at_most(failing_deployments(all), 10)
            &&& views(r.recommendations@) == advice(all)
        }),
{
    let ghost all = attempt_views(attempts@);
    let mut successful: usize = 0;
    let mut fallback: usize = 0;
    let mut i: usize = 0;
    proof {
        kept_all(all, is_success());
        kept_all(all, is_fallback());
    }
    while i < attempts.len()
        invariant
            i <= attempts@.len(),
            successful <= i,
            fallback <= i,
            all == attempt_views(attempts@),
            successful == kept(all.take(i as int), is_success()).len(),
            fallback == kept(all.take(i as int), is_fallback()).len(),
        decreases attempts@.len() - i,
    {
        proof {
            kept_next(all, is_success(), i as int);
            kept_next(all, is_fallback(), i as int);
            assert(all[i as int] == attempts@[i as int]@);
        }
        if attempts[i].success {
            successful += 1;
        }
        if attempts[i].fallback {
            fallback += 1;
        }
        i += 1;
    }
    let top_error_categories = summarize_categories(attempts);
    let hot_deployments = hot_list(attempts);
    let saturated = saturated_list(attempts);
    let mut recommendations: Vec<String> = Vec::new();
    let mut j: usize = 0;
    let ghost sat = saturated@.map_values(|s: Saturated| s@);
    let ghost first = sat.map_values(|s: SaturatedView| saturation_advice(s));
    while j < saturated.len()
        invariant
            j <= saturated@.len(),
            recommendations@.len() == j,
            forall|k: int|
                0 <= k < j ==> (#[trigger] recommendations@[k])@ == saturation_advice(
                    saturated@[k]@,
                ),
        decreases saturated@.len() - j,
    {
        recommendations.push(advise_saturation(&saturated[j]));
        j += 1;
    }
    assert(views(recommendations@) =~= first);
    let ghost hot = deployment_views(hot_deployments@);
    let ghost second = hot.map_values(|d: DeploymentView| deployment_advice(d));
    let mut k: usize = 0;
    assert(first + second.take(0) =~= first);
    while k < hot_deployments.len()
        invariant
            k <= hot_deployments@.len(),
            hot == deployment_views(hot_deployments@),
            second == hot.map_values(|d: DeploymentView| deployment_advice(d)),
            views(recommendations@) == first + second.take(k as int),
        decreases hot_deployments@.len() - k,
    {
        let ghost so_far = views(recommendations@);
        let text = advise_deployment(&hot_deployments[k]);
        recommendations.push(text);
        assert(views(recommendations@) =~= so_far.push(text@));
        k += 1;
        assert(first + second.take(k as int) =~= (first + second.take(k - 1)).push(second[k - 1]));
    }
    assert(second.take(second.len() as int) =~= second);
    if recommendations.len() == 0 {
        recommendations.push(
            "No failing deployments in the sampled attempts; keep routing by quota headroom and latency".to_owned(),
        );
        assert(views(recommendations@) =~= advice(all));
    }
    AttemptRoutingAnalysis {
        total_attempts: attempts.len(),
        successful_attempts: successful,
        failed_attempts: attempts.len() - successful,
        fallback_attempts: fallback,
        top_error_categories,
        hot_deployments,
        recommendations,
    }
}

// ---------------------------------------------------------------- prompt
/// A truth value in words.
pub open spec fn truth_text(b: bool) -> Seq<char> {
    if b {
        "true"@
    } else {
        "false"@
    }
}

/// An optional number in words.
pub open spec fn number_or_none(n: Option<i64>) -> Seq<char> {
    match n {
        Some(v) => decimal_int(v as int),
        None => "none"@,
    }
}

/// An attempt as a line of the prompt. Its key is named by its fingerprint, and
/// the message of its error is left out.
pub open spec fn attempt_line(a: AttemptView) -> Seq<char> {
    "request_id="@ + a.request_id + " attempt="@ + decimal_int(a.attempt_index as int)
        + " provider="@ + a.provider + " model="@ + a.model_id + " key_id="@ + a.key_id
        + " success="@ + truth_text(a.success) + " category="@ + (match a.error_category {
        Some(c) => c,
        None => "success"@,
    }) + " status="@ + number_or_none(a.http_status) + " fallback="@ + truth_text(a.fallback)
        + " cooldown_s="@ + number_or_none(a.cooldown_seconds)
}

/// The attempts that a prompt shows: the newest, as many as are asked for; a
/// negative number sets no limit.
pub open spec fn shown_attempts(attempts: Seq<AttemptView>, limit: i64) -> Seq<AttemptView> {
    if limit < 0 {
        attempts
    } else {
        at_most(attempts, limit as int)
    }
}

/// The lines of a prompt before those of its attempts.
pub open spec fn prompt_head(limit: i64) -> Seq<Seq<char>> {
    seq![
        "You are analyzing free LLM gateway routing logs."@,
        "This diagnostic model call is a real upstream request and consumes the same key/provider quota budget as user traffic."@,
        "Keys below are stable fingerprints, not raw secrets."@,
        "Analyze the newest "@ + decimal_int(limit as int)
            + " routing attempts and recommend cooldown, probing, provider preference, and model fallback changes."@,
        "Return concise JSON with: findings, likely_root_causes, routing_actions, confidence."@,
        Seq::empty(),
    ]
}

/// The prompt that asks a model to analyze attempts.
pub open spec fn analysis_prompt(attempts: Seq<AttemptView>, limit: i64) -> Seq<char> {
    joined(
        prompt_head(limit) + shown_attempts(attempts, limit).map_values(
            |a: AttemptView| attempt_line(a),
        ),
        "\n"@,
    )
}

fn push_truth(out: &mut String, b: bool)
    ensures
        final(out)@ == old(out)@ + truth_text(b),
{
    if b {
        out.push_str("true");
    } else {
        out.push_str("false");
    }
}

fn push_number_or_none(out: &mut String, n: Option<i64>)
    ensures
        final(out)@ == old(out)@ + number_or_none(n),
{
    match n {
        Some(v) => out.push_str(i64_text(v).as_str()),
        None => out.push_str("none"),
    }
}

fn line_of_attempt(a: &RequestAttemptRow) -> (r: String)
    ensures
        r@ == attempt_line(a@),
{
    let mut out = "request_id=".to_owned();
    out.push_str(a.request_id.as_str());
    out.push_str(" attempt=");
    out.push_str(i64_text(a.attempt_index).as_str());
    out.push_str(" provider=");
    out.push_str(a.provider.as_str());
    out.push_str(" model=");
    out.push_str(a.model_id.as_str());
    out.push_str(" key_id=");
    out.push_str(a.key_id.as_str());
    out.push_str(" success=");
    push_truth(&mut out, a.success);
    out.push_str(" category=");
    match &a.error_category {
        Some(c) => out.push_str(c.as_str()),
        None => out.push_str("success"),
    }
    out.push_str(" status=");
    push_number_or_none(&mut out, a.http_status);
    out.push_str(" fallback=");
    push_truth(&mut out, a.fallback);
    out.push_str(" cooldown_s=");
    push_number_or_none(&mut out, a.cooldown_seconds);
    out
}

/// The prompt that asks a model to analyze the newest attempts.
pub fn build_attempt_analysis_prompt(attempts: &[RequestAttemptRow], limit: i64) -> (r: String)
    ensures
        r@ == analysis_prompt(attempt_views(attempts@), limit),
{
    let mut lines: Vec<String> = Vec::new();
    lines.push("You are analyzing free LLM gateway routing logs.".to_owned());
    lines.push(
        "This diagnostic model call is a real upstream request and consumes the same key/provider quota budget as user traffic.".to_owned(),
    );
    lines.push("Keys below are stable fingerprints, not raw secrets.".to_owned());
    let mut ask = "Analyze the newest ".to_owned();
    ask.push_str(i64_text(limit).as_str());
    ask.push_str(
        " routing attempts and recommend cooldown, probing, provider preference, and model fallback changes.",
    );
    lines.push(ask);
    lines.push(
        "Return concise JSON with: findings, likely_root_causes, routing_actions, confidence.".to_owned(),
    );
    lines.push(String::new());
    let ghost head = views(lines@);
    let ghost all = attempt_views(attempts@);
    let ghost tail = shown_attempts(all, limit).map_values(|a: AttemptView| attempt_line(a));
    let mut i: usize = 0;
    assert(head + tail.take(0) =~= head);
    while i < attempts.len() && (limit < 0 || (i as i128) < (limit as i128))
        invariant
            i <= attempts@.len(),
            limit < 0 || i <= limit,
            all == attempt_views(attempts@),
            tail == shown_attempts(all, limit).map_values(|a: AttemptView| attempt_line(a)),
            views(lines@) == head + tail.take(i as int),
        decreases attempts@.len() - i,
    {
        let ghost so_far = views(lines@);
        let line = line_of_attempt(&attempts[i]);
        lines.push(line);
        assert(views(lines@) =~= so_far.push(line@));
        i += 1;
        assert(tail[i - 1] == attempt_line(all[i - 1]));
        assert(head + tail.take(i as int) =~= (head + tail.take(i - 1)).push(tail[i - 1]));
    }
    assert(tail.take(tail.len() as int) =~= tail);
    assert(head =~= seq![
        "You are analyzing free LLM gateway routing logs."@,
        "This diagnostic model call is a real upstream request and consumes the same key/provider quota budget as user traffic."@,
        "Keys below are stable fingerprints, not raw secrets."@,
        "Analyze the newest "@ + decimal_int(limit as int)
            + " routing attempts and recommend cooldown, probing, provider preference, and model fallback changes."@,
        "Return concise JSON with: findings, likely_root_causes, routing_actions, confidence."@,
        Seq::empty(),
    ]);
    join(&lines, "\n")
}

// ---------------------------------------------------------------- laws
/// The prompt says nothing of what an error's message said: attempts that
/// differ in it alone make the same prompt.
pub proof fn prompt_leaves_error_messages_out(
    attempts: Seq<AttemptView>,
    others: Seq<AttemptView>,
    limit: i64,
)
    requires
        attempts.len() == others.len(),
        forall|i: int|
            0 <= i < attempts.len() ==> (#[trigger] others[i]) == (AttemptView {
                error_message: others[i].error_message,
                ..attempts[i]
            }),
    ensures
        analysis_prompt(attempts, limit) == analysis_prompt(others, limit),
{
    let f = |a: AttemptView| attempt_line(a);
    let a = shown_attempts(attempts, limit);
    let b = shown_attempts(others, limit);
    assert forall|i: int| 0 <= i < a.len() implies f(a[i]) == f(b[i]) by {
        assert(b[i] == others[i]);
    }
    assert(a.map_values(f) =~= b.map_values(f));
}

/// Whether what a prompt shows of an attempt has no line break in it.
pub open spec fn fits_a_line(a: AttemptView) -> bool {
    &&& lacks(a.request_id, '\n')
    &&& lacks(a.provider, '\n')
    &&& lacks(a.model_id, '\n')
    &&& lacks(a.key_id, '\n')
    &&& a.error_category matches Some(c) ==> lacks(c, '\n')
}

proof fn attempt_line_is_one_line(a: AttemptView)
    requires
        fits_a_line(a),
    ensures
        lacks(attempt_line(a), '\n'),
{
    broadcast use lacks_together;

    assert(lacks("request_id="@, '\n')) by {
        reveal(lacks);
        reveal_strlit("request_id=");
    }
    assert(lacks(" attempt="@, '\n')) by {
        reveal(lacks);
        reveal_strlit(" attempt=");
    }
    assert(lacks(" provider="@, '\n')) by {
        reveal(lacks);
        reveal_strlit(" provider=");
    }
    assert(lacks(" model="@, '\n')) by {
        reveal(lacks);
        reveal_strlit(" model=");
    }
    assert(lacks(" key_id="@, '\n')) by {
        reveal(lacks);
        reveal_strlit(" key_id=");
    }
    assert(lacks(" success="@, '\n')) by {
        reveal(lacks);
        reveal_strlit(" success=");
    }
    assert(lacks(" category="@, '\n')) by {
        reveal(lacks);
        reveal_strlit(" category=");
    }
    assert(lacks(" status="@, '\n')) by {
        reveal(lacks);
        reveal_strlit(" status=");
    }
    assert(lacks(" fallback="@, '\n')) by {
        reveal(lacks);
        reveal_strlit(" fallback=");
    }
    assert(lacks(" cooldown_s="@, '\n')) by {
        reveal(lacks);
        reveal_strlit(" cooldown_s=");
    }
    assert(lacks("true"@, '\n')) by {
        reveal(lacks);
        reveal_strlit("true");
    }
    assert(lacks("false"@, '\n')) by {
        reveal(lacks);
        reveal_strlit("false");
    }
    assert(lacks("none"@, '\n')) by {
        reveal(lacks);
        reveal_strlit("none");
    }
    assert(lacks("success"@, '\n')) by {
        reveal(lacks);
        reveal_strlit("success");
    }
    decimal_lacks(a.attempt_index as int, '\n');
    if let Some(v) = a.http_status {
        decimal_lacks(v as int, '\n');
    }
    if let Some(v) = a.cooldown_seconds {
        decimal_lacks(v as int, '\n');
    }
}

proof fn prompt_head_is_lines(limit: i64)
    ensures
        forall|i: int| 0 <= i < 6 ==> lacks(#[trigger] prompt_head(limit)[i], '\n'),
{
    broadcast use lacks_together;

    assert(lacks(
        "You are analyzing free LLM gateway routing logs."@,
        '\n',
    )) by {
        reveal(lacks);
        reveal_strlit(
            "You are analyzing free LLM gateway routing logs.",
        );
    }
    assert(lacks(
        "This diagnostic model call is a real upstream request and consumes the same key/provider quota budget as user traffic."@,
        '\n',
    )) by {
        reveal(lacks);
        reveal_strlit(
            "This diagnostic model call is a real upstream request and consumes the same key/provider quota budget as user traffic.",
        );
    }
    assert(lacks(
        "Keys below are stable fingerprints, not raw secrets."@,
        '\n',
    )) by {
        reveal(lacks);
        reveal_strlit(
            "Keys below are stable fingerprints, not raw secrets.",
        );
    }
    assert(lacks("Analyze the newest "@, '\n')) by {
        reveal(lacks);
        reveal_strlit("Analyze the newest ");
    }
    assert(lacks(
        " routing attempts and recommend cooldown, probing, provider preference, and model fallback changes."@,
        '\n',
    )) by {
        reveal(lacks);
        reveal_strlit(
            " routing attempts and recommend cooldown, probing, provider preference, and model fallback changes.",
        );
    }
    assert(lacks(
        "Return concise JSON with: findings, likely_root_causes, routing_actions, confidence."@,
        '\n',
    )) by {
        reveal(lacks);
        reveal_strlit(
            "Return concise JSON with: findings, likely_root_causes, routing_actions, confidence.",
        );
    }
    assert(lacks(Seq::<char>::empty(), '\n')) by {
        reveal(lacks);
    }
    decimal_lacks(limit as int, '\n');
}

/// A prompt has six lines and then one for each attempt that it shows, in their
/// order, where no text of them has a line break. It shows the first attempts,
/// as many as the limit says where that is not negative, else all.
pub proof fn prompt_has_a_line_for_each_attempt(attempts: Seq<AttemptView>, limit: i64)
    requires
        forall|i: int|
            0 <= i < attempts.len() && (limit < 0 || i < limit) ==> fits_a_line(
                #[trigger] attempts[i],
            ),
    ensures
        ({
            let n = if 0 <= limit < attempts.len() {
                limit as int
            } else {
                attempts.len() as int
            };
            let lines = parts_between(analysis_prompt(attempts, limit), '\n');
            &&& lines.len() == 6 + n
            &&& lines.take(6) == prompt_head(limit)
            &&& forall|i: int|
                0 <= i < n ==> lines[6 + i] == attempt_line(#[trigger] attempts[i])
        }),
{
    let f = |a: AttemptView| attempt_line(a);
    let shown = shown_attempts(attempts, limit);
    let lines = prompt_head(limit) + shown.map_values(f);
    reveal_strlit("\n");
    assert("\n"@ =~= seq!['\n']);
    prompt_head_is_lines(limit);
    assert forall|i: int| 0 <= i < lines.len() implies lacks(#[trigger] lines[i], '\n') by {
        if i < 6 {
            assert(lines[i] == prompt_head(limit)[i]);
        } else {
            assert(shown[i - 6] == attempts[i - 6]);
            attempt_line_is_one_line(attempts[i - 6]);
        }
    }
    joined_comes_apart(lines, '\n');
    assert(lines.take(6) =~= prompt_head(limit));
}

/// A prompt with a limit depends on no attempt beyond it.
pub proof fn prompt_depends_on_the_first_attempts(attempts: Seq<AttemptView>, limit: i64)
    requires
        0 <= limit < attempts.len(),
    ensures
        analysis_prompt(attempts, limit) == analysis_prompt(attempts.take(limit as int), limit),
{
    assert(shown_attempts(attempts.take(limit as int), limit) =~= shown_attempts(attempts, limit));
}

/// Every category of a failed attempt is counted, and nothing else is.
pub proof fn categories_are_complete(attempts: Seq<AttemptView>, category: Seq<char>)
    ensures
        failure_categories(attempts).contains(category) <==> category_count(attempts, category) > 0,
{
    let f = |a: AttemptView| failure_category(a);
    sorted_set_is_increasing(collected(attempts, f));
    collected_holds(attempts, category);
}

proof fn collected_holds(attempts: Seq<AttemptView>, category: Seq<char>)
    ensures
        collected(attempts, |a: AttemptView| failure_category(a)).contains(category)
            <==> category_count(attempts, category) > 0,
    decreases attempts.len(),
{
    let f = |a: AttemptView| failure_category(a);
    if attempts.len() == 0 {
        assert(!collected(attempts, f).contains(category));
    } else {
        let t = attempts.drop_last();
        collected_holds(t, category);
        let a = attempts.last();
        let c = collected(t, f);
        match failure_category(a) {
            Some(x) => {
                let all = c.push(x);
                assert(collected(attempts, f) == all);
                if c.contains(category) {
                    let k = choose|k: int| 0 <= k < c.len() && c[k] == category;
                    assert(all[k] == category);
                }
                if x == category {
                    assert(all[all.len() - 1] == category);
                }
                if all.contains(category) && x != category {
                    let k = choose|k: int| 0 <= k < all.len() && all[k] == category;
                    assert(c[k] == category);
                }
            },
            None => {},
        }
    }
}

} // verus!
