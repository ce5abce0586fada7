//! What is counted of requests.
use crate::metadata::rows::{DeploymentStateRow, Ratio, UsageDailyRow, UsageHourlyRow};
use crate::text::{opt_view, same, views};
use vstd::prelude::*;

verus! {

/// What one request adds to the counts of a model.
#[derive(Debug, Clone, Copy, PartialEq, Eq, Structural)]
pub struct UsageRecord {
    pub prompt_tokens: i64,
    pub completion_tokens: i64,
    pub reported_prompt_tokens: i64,
    pub reported_completion_tokens: i64,
    pub estimated_prompt_tokens: i64,
    pub estimated_completion_tokens: i64,
    pub token_reported: i64,
    pub success_inc: i64,
    pub error_inc: i64,
}

/// What a [`UsageRecord`] holds.
pub struct UsageView {
    pub prompt_tokens: int,
    pub completion_tokens: int,
    pub reported_prompt_tokens: int,
    pub reported_completion_tokens: int,
    pub estimated_prompt_tokens: int,
    pub estimated_completion_tokens: int,
    pub token_reported: int,
    pub success_inc: int,
    pub error_inc: int,
}

impl View for UsageRecord {
    type V = UsageView;

    open spec fn view(&self) -> UsageView {
        UsageView {
            prompt_tokens: self.prompt_tokens as int,
            completion_tokens: self.completion_tokens as int,
            reported_prompt_tokens: self.reported_prompt_tokens as int,
            reported_completion_tokens: self.reported_completion_tokens as int,
            estimated_prompt_tokens: self.estimated_prompt_tokens as int,
            estimated_completion_tokens: self.estimated_completion_tokens as int,
            token_reported: self.token_reported as int,
            success_inc: self.success_inc as int,
            error_inc: self.error_inc as int,
        }
    }
}

/// A count of tokens: none where it is absent or negative.
pub open spec fn token_count(n: Option<i64>) -> int {
    match n {
        Some(v) => if v > 0 {
            v as int
        } else {
            0
        },
        None => 0,
    }
}

/// One where a condition holds, else none.
pub open spec fn one_if(b: bool) -> int {
    if b {
        1
    } else {
        0
    }
}

/// What a request adds: its tokens count as reported or as estimated.
pub open spec fn usage_of(
    success: bool,
    prompt_tokens: Option<i64>,
    completion_tokens: Option<i64>,
    tokens_reported: bool,
) -> UsageView {
    let p = token_count(prompt_tokens);
    let c = token_count(completion_tokens);
    UsageView {
        prompt_tokens: p,
        completion_tokens: c,
        reported_prompt_tokens: if tokens_reported {
            p
        } else {
            0
        },
        reported_completion_tokens: if tokens_reported {
            c
        } else {
            0
        },
        estimated_prompt_tokens: if tokens_reported {
            0
        } else {
            p
        },
        estimated_completion_tokens: if tokens_reported {
            0
        } else {
            c
        },
        token_reported: one_if(tokens_reported),
        success_inc: one_if(success),
        error_inc: one_if(!success),
    }
}

fn tokens_or_none(n: Option<i64>) -> (r: i64)
    ensures
        r == token_count(n),
{
    match n {
        Some(v) => if v > 0 {
            v
        } else {
            0
        },
        None => 0,
    }
}

/// What a request adds to the counts of its model.
pub fn usage_record(
    success: bool,
    prompt_tokens: Option<i64>,
    completion_tokens: Option<i64>,
    tokens_reported: bool,
) -> (r: UsageRecord)
    ensures
        r@ == usage_of(success, prompt_tokens, completion_tokens, tokens_reported),
{
    let p = tokens_or_none(prompt_tokens);
    let c = tokens_or_none(completion_tokens);
    UsageRecord {
        prompt_tokens: p,
        completion_tokens: c,
        reported_prompt_tokens: if tokens_reported {
            p
        } else {
            0
        },
        reported_completion_tokens: if tokens_reported {
            c
        } else {
            0
        },
        estimated_prompt_tokens: if tokens_reported {
            0
        } else {
            p
        },
        estimated_completion_tokens: if tokens_reported {
            0
        } else {
            c
        },
        token_reported: if tokens_reported {
            1
        } else {
            0
        },
        success_inc: if success {
            1
        } else {
            0
        },
        error_inc: if success {
            0
        } else {
            1
        },
    }
}

/// Every token of a request counts once, as reported or as estimated; the
/// request itself counts once, as a success or as an error.
pub proof fn each_token_counts_once(
    success: bool,
    prompt_tokens: Option<i64>,
    completion_tokens: Option<i64>,
    tokens_reported: bool,
)
    ensures
        ({
            let u = usage_of(success, prompt_tokens, completion_tokens, tokens_reported);
            &&& u.reported_prompt_tokens + u.estimated_prompt_tokens == u.prompt_tokens
            &&& u.reported_completion_tokens + u.estimated_completion_tokens == u.completion_tokens
            &&& u.success_inc + u.error_inc == 1
            &&& u.prompt_tokens >= 0
            &&& u.completion_tokens >= 0
        }),
{
}

// ---------------------------------------------------------------- buckets
/// What a bucket of usage holds: its label, and its counts.
pub struct BucketView {
    pub label: Seq<char>,
    pub total_requests: i64,
    pub total_prompt_tokens: i64,
    pub total_completion_tokens: i64,
    pub reported_prompt_tokens: i64,
    pub reported_completion_tokens: i64,
    pub estimated_prompt_tokens: i64,
    pub estimated_completion_tokens: i64,
    pub total_success: i64,
    pub total_errors: i64,
    pub token_reported_requests: i64,
    pub token_reporting_coverage: Option<Ratio>,
}

impl View for UsageDailyRow {
    type V = BucketView;

    open spec fn view(&self) -> BucketView {
        BucketView {
            label: self.date@,
            total_requests: self.total_requests,
            total_prompt_tokens: self.total_prompt_tokens,
            total_completion_tokens: self.total_completion_tokens,
            reported_prompt_tokens: self.reported_prompt_tokens,
            reported_completion_tokens: self.reported_completion_tokens,
            estimated_prompt_tokens: self.estimated_prompt_tokens,
            estimated_completion_tokens: self.estimated_completion_tokens,
            total_success: self.total_success,
            total_errors: self.total_errors,
            token_reported_requests: self.token_reported_requests,
            token_reporting_coverage: self.token_reporting_coverage,
        }
    }
}

impl View for UsageHourlyRow {
    type V = BucketView;

    open spec fn view(&self) -> BucketView {
        BucketView {
            label: self.hour@,
            total_requests: self.total_requests,
            total_prompt_tokens: self.total_prompt_tokens,
            total_completion_tokens: self.total_completion_tokens,
            reported_prompt_tokens: self.reported_prompt_tokens,
            reported_completion_tokens: self.reported_completion_tokens,
            estimated_prompt_tokens: self.estimated_prompt_tokens,
            estimated_completion_tokens: self.estimated_completion_tokens,
            total_success: self.total_success,
            total_errors: self.total_errors,
            token_reported_requests: self.token_reported_requests,
            token_reporting_coverage: self.token_reporting_coverage,
        }
    }
}

/// A bucket in which nothing was counted.
pub open spec fn empty_bucket(label: Seq<char>) -> BucketView {
    BucketView {
        label,
        total_requests: 0,
        total_prompt_tokens: 0,
        total_completion_tokens: 0,
        reported_prompt_tokens: 0,
        reported_completion_tokens: 0,
        estimated_prompt_tokens: 0,
        estimated_completion_tokens: 0,
        total_success: 0,
        total_errors: 0,
        token_reported_requests: 0,
        token_reporting_coverage: None,
    }
}

/// Where the last of some labels that equals one is.
pub open spec fn last_with(labels: Seq<Seq<char>>, label: Seq<char>) -> Option<int>
    decreases labels.len(),
{
    if labels.len() == 0 {
        None
    } else if labels.last() == label {
        Some(labels.len() - 1)
    } else {
        last_with(labels.drop_last(), label)
    }
}

pub(crate) proof fn last_with_is_there(labels: Seq<Seq<char>>, label: Seq<char>)
    ensures
        match last_with(labels, label) {
            Some(i) => 0 <= i < labels.len() && labels[i] == label,
            None => !labels.contains(label),
        },
    decreases labels.len(),
{
    if labels.len() > 0 && labels.last() != label {
        last_with_is_there(labels.drop_last(), label);
        if labels.contains(label) {
            let i = choose|i: int| 0 <= i < labels.len() && labels[i] == label;
            assert(labels.drop_last()[i] == label);
        }
    }
}

/// The row that fills the bucket at `i` of a dense run: the last that has its
/// label, unless an earlier bucket of the run took it.
pub open spec fn source_row(
    labels: Seq<Seq<char>>,
    row_labels: Seq<Seq<char>>,
    i: int,
) -> Option<int> {
    if labels.take(i).contains(labels[i]) {
        None
    } else {
        last_with(row_labels, labels[i])
    }
}

/// A dense run of buckets: one for each label, filled where there is a row.
pub open spec fn dense(labels: Seq<Seq<char>>, rows: Seq<BucketView>) -> Seq<BucketView> {
    Seq::new(
        labels.len(),
        |i: int|
            match source_row(labels, rows.map_values(|r: BucketView| r.label), i) {
                Some(k) => rows[k],
                None => empty_bucket(labels[i]),
            },
    )
}

fn find_source(labels: &Vec<String>, row_labels: &Vec<String>, i: usize) -> (r: Option<usize>)
    requires
        i < labels@.len(),
    ensures
        match r {
            Some(k) => k < row_labels@.len() && source_row(
                views(labels@),
                views(row_labels@),
                i as int,
            ) == Some(k as int),
            None => source_row(views(labels@), views(row_labels@), i as int) is None,
        },
{
    let ghost all = views(labels@);
    let ghost rows = views(row_labels@);
    let ghost taken = all.take(i as int);
    let mut j: usize = 0;
    while j < i
        invariant
            j <= i < labels@.len(),
            all == views(labels@),
            taken == all.take(i as int),
            forall|k: int| 0 <= k < j ==> #[trigger] taken[k] != all[i as int],
        decreases i - j,
    {
        assert(taken[j as int] == labels@[j as int]@);
        assert(all[i as int] == labels@[i as int]@);
        if same(labels[j].as_str(), labels[i].as_str()) {
            assert(taken.contains(all[i as int]));
            return None;
        }
        j += 1;
    }
    let mut n: usize = row_labels.len();
    assert(rows.take(n as int) =~= rows);
    while n > 0
        invariant
            n <= row_labels@.len(),
            i < labels@.len(),
            all == views(labels@),
            rows == views(row_labels@),
            !all.take(i as int).contains(all[i as int]),
            last_with(rows, all[i as int]) == last_with(rows.take(n as int), all[i as int]),
        decreases n,
    {
        let ghost here = rows.take(n as int);
        assert(here.drop_last() =~= rows.take(n - 1));
        assert(here.last() == row_labels@[n - 1]@);
        if same(row_labels[n - 1].as_str(), labels[i].as_str()) {
            return Some(n - 1);
        }
        n -= 1;
    }
    None
}

fn copy_daily(row: &UsageDailyRow) -> (r: UsageDailyRow)
    ensures
        r@ == row@,
{
    UsageDailyRow {
        date: row.date.clone(),
        total_requests: row.total_requests,
        total_prompt_tokens: row.total_prompt_tokens,
        total_completion_tokens: row.total_completion_tokens,
        reported_prompt_tokens: row.reported_prompt_tokens,
        reported_completion_tokens: row.reported_completion_tokens,
        estimated_prompt_tokens: row.estimated_prompt_tokens,
        estimated_completion_tokens: row.estimated_completion_tokens,
        total_success: row.total_success,
        total_errors: row.total_errors,
        token_reported_requests: row.token_reported_requests,
        token_reporting_coverage: row.token_reporting_coverage,
    }
}

fn copy_hourly(row: &UsageHourlyRow) -> (r: UsageHourlyRow)
    ensures
        r@ == row@,
{
    UsageHourlyRow {
        hour: row.hour.clone(),
        total_requests: row.total_requests,
        total_prompt_tokens: row.total_prompt_tokens,
        total_completion_tokens: row.total_completion_tokens,
        reported_prompt_tokens: row.reported_prompt_tokens,
        reported_completion_tokens: row.reported_completion_tokens,
        estimated_prompt_tokens: row.estimated_prompt_tokens,
        estimated_completion_tokens: row.estimated_completion_tokens,
        total_success: row.total_success,
        total_errors: row.total_errors,
        token_reported_requests: row.token_reported_requests,
        token_reporting_coverage: row.token_reporting_coverage,
    }
}

/// The usage of each day of a run, from the days that have any.
pub fn fill_days(days: &Vec<String>, rows: &Vec<UsageDailyRow>) -> (r: Vec<UsageDailyRow>)
    ensures
        r@.map_values(|d: UsageDailyRow| d@) == dense(
            views(days@),
            rows@.map_values(|d: UsageDailyRow| d@),
        ),
{
    let ghost all = rows@.map_values(|d: UsageDailyRow| d@);
    let mut labels: Vec<String> = Vec::new();
    let mut i: usize = 0;
    while i < rows.len()
        invariant
            i <= rows@.len(),
            labels@.len() == i,
            forall|j: int| 0 <= j < i ==> (#[trigger] labels@[j])@ == rows@[j].date@,
        decreases rows@.len() - i,
    {
        labels.push(rows[i].date.clone());
        i += 1;
    }
    assert(views(labels@) =~= all.map_values(|r: BucketView| r.label));
    let ghost goal = dense(views(days@), all);
    let mut r: Vec<UsageDailyRow> = Vec::new();
    let mut k: usize = 0;
    while k < days.len()
        invariant
            k <= days@.len(),
            r@.len() == k,
            labels@.len() == rows@.len(),
            all == rows@.map_values(|d: UsageDailyRow| d@),
            views(labels@) == all.map_values(|r: BucketView| r.label),
            goal == dense(views(days@), all),
            forall|j: int| 0 <= j < k ==> (#[trigger] r@[j])@ == goal[j],
        decreases days@.len() - k,
    {
        let row = match find_source(days, &labels, k) {
            Some(n) => copy_daily(&rows[n]),
            None => UsageDailyRow {
                date: days[k].clone(),
                total_requests: 0,
                total_prompt_tokens: 0,
                total_completion_tokens: 0,
                reported_prompt_tokens: 0,
                reported_completion_tokens: 0,
                estimated_prompt_tokens: 0,
                estimated_completion_tokens: 0,
                total_success: 0,
                total_errors: 0,
                token_reported_requests: 0,
                token_reporting_coverage: None,
            },
        };
        assert(row@ == goal[k as int]);
        r.push(row);
        k += 1;
    }
    assert(r@.map_values(|d: UsageDailyRow| d@) =~= goal);
    r
}

/// The usage of each hour of a run, from the hours that have any.
pub fn fill_hours(hours: &Vec<String>, rows: &Vec<UsageHourlyRow>) -> (r: Vec<UsageHourlyRow>)
    ensures
        r@.map_values(|d: UsageHourlyRow| d@) == dense(
            views(hours@),
            rows@.map_values(|d: UsageHourlyRow| d@),
        ),
{
    let ghost all = rows@.map_values(|d: UsageHourlyRow| d@);
    let mut labels: Vec<String> = Vec::new();
    let mut i: usize = 0;
    while i < rows.len()
        invariant
            i <= rows@.len(),
            labels@.len() == i,
            forall|j: int| 0 <= j < i ==> (#[trigger] labels@[j])@ == rows@[j].hour@,
        decreases rows@.len() - i,
    {
        labels.push(rows[i].hour.clone());
        i += 1;
    }
    assert(views(labels@) =~= all.map_values(|r: BucketView| r.label));
    let ghost goal = dense(views(hours@), all);
    let mut r: Vec<UsageHourlyRow> = Vec::new();
    let mut k: usize = 0;
    while k < hours.len()
        invariant
            k <= hours@.len(),
            r@.len() == k,
            labels@.len() == rows@.len(),
            all == rows@.map_values(|d: UsageHourlyRow| d@),
            views(labels@) == all.map_values(|r: BucketView| r.label),
            goal == dense(views(hours@), all),
            forall|j: int| 0 <= j < k ==> (#[trigger] r@[j])@ == goal[j],
        decreases hours@.len() - k,
    {
        let row = match find_source(hours, &labels, k) {
            Some(n) => copy_hourly(&rows[n]),
            None => UsageHourlyRow {
                hour: hours[k].clone(),
                total_requests: 0,
                total_prompt_tokens: 0,
                total_completion_tokens: 0,
                reported_prompt_tokens: 0,
                reported_completion_tokens: 0,
                estimated_prompt_tokens: 0,
                estimated_completion_tokens: 0,
                total_success: 0,
                total_errors: 0,
                token_reported_requests: 0,
                token_reporting_coverage: None,
            },
        };
        assert(row@ == goal[k as int]);
        r.push(row);
        k += 1;
    }
    assert(r@.map_values(|d: UsageHourlyRow| d@) =~= goal);
    r
}

/// A dense run has one bucket for each label, in order, and under its label.
pub proof fn dense_covers_every_label(labels: Seq<Seq<char>>, rows: Seq<BucketView>)
    ensures
        dense(labels, rows).len() == labels.len(),
        forall|i: int|
            0 <= i < labels.len() ==> (#[trigger] dense(labels, rows)[i]).label == labels[i],
{
    let row_labels = rows.map_values(|r: BucketView| r.label);
    assert forall|i: int| 0 <= i < labels.len() implies (#[trigger] dense(labels, rows)[i]).label
        == labels[i] by {
        last_with_is_there(row_labels, labels[i]);
        if let Some(k) = source_row(labels, row_labels, i) {
            assert(row_labels[k] == rows[k].label);
        }
    }
}

/// How many days a run covers.
pub fn days_covered(days: i64) -> (r: i64)
    ensures
        r == if days < 1 {
            1
        } else if days > 366 {
            366
        } else {
            days as int
        },
{
    if days < 1 {
        1
    } else if days > 366 {
        366
    } else {
        days
    }
}

/// How many hours a run covers.
pub fn hours_covered(hours: i64) -> (r: i64)
    ensures
        r == if hours < 1 {
            1
        } else if hours > 8784 {
            8784
        } else {
            hours as int
        },
{
    if hours < 1 {
        1
    } else if hours > 8784 {
        8784
    } else {
        hours
    }
}

/// How many attempts are read at once.
pub fn attempts_read(limit: i64) -> (r: i64)
    ensures
        r == if limit < 1 {
            1
        } else if limit > 1000 {
            1000
        } else {
            limit as int
        },
{
    if limit < 1 {
        1
    } else if limit > 1000 {
        1000
    } else {
        limit
    }
}

// ---------------------------------------------------------------- deployments
/// What a [`DeploymentStateRow`] holds beside its name.
pub struct DeploymentStateView {
    pub provider: Seq<char>,
    pub model_id: Seq<char>,
    pub key_id: Seq<char>,
    pub success_count: i64,
    pub error_count: i64,
    pub consecutive_failures: i64,
    pub last_success_at: Option<i64>,
    pub last_error_at: Option<i64>,
    pub last_error_category: Option<Seq<char>>,
    pub last_http_status: Option<i64>,
    pub cooldown_until: Option<i64>,
    pub updated_at: i64,
}

impl View for DeploymentStateRow {
    type V = DeploymentStateView;

    open spec fn view(&self) -> DeploymentStateView {
        DeploymentStateView {
            provider: self.provider@,
            model_id: self.model_id@,
            key_id: self.key_id@,
            success_count: self.success_count,
            error_count: self.error_count,
            consecutive_failures: self.consecutive_failures,
            last_success_at: self.last_success_at,
            last_error_at: self.last_error_at,
            last_error_category: opt_view(self.last_error_category),
            last_http_status: self.last_http_status,
            cooldown_until: self.cooldown_until,
            updated_at: self.updated_at,
        }
    }
}

/// A count with one more, which stops at the end of the type.
pub open spec fn one_more(n: i64) -> i64 {
    if n < i64::MAX {
        (n + 1) as i64
    } else {
        n
    }
}

fn plus_one(n: i64) -> (r: i64)
    ensures
        r == one_more(n),
{
    if n < i64::MAX {
        n + 1
    } else {
        n
    }
}

/// When a wait that begins now ends; none where there is no wait.
pub open spec fn wait_ends(now: i64, seconds: Option<i64>) -> Option<i64> {
    match seconds {
        Some(s) => if s > 0 {
            Some(
                if now + s > i64::MAX {
                    i64::MAX
                } else {
                    (now + s) as i64
                },
            )
        } else {
            None
        },
        None => None,
    }
}

/// When a wait that begins now ends.
pub fn cooldown_end(now: i64, seconds: Option<i64>) -> (r: Option<i64>)
    ensures
        r == wait_ends(now, seconds),
{
    match seconds {
        Some(s) => if s > 0 {
            match now.checked_add(s) {
                Some(end) => Some(end),
                None => Some(i64::MAX),
            }
        } else {
            None
        },
        None => None,
    }
}

impl DeploymentStateView {
    /// A deployment of which nothing is known yet.
    pub open spec fn unknown(
        provider: Seq<char>,
        model_id: Seq<char>,
        key_id: Seq<char>,
    ) -> DeploymentStateView {
        DeploymentStateView {
            provider,
            model_id,
            key_id,
            success_count: 0,
            error_count: 0,
            consecutive_failures: 0,
            last_success_at: None,
            last_error_at: None,
            last_error_category: None,
            last_http_status: None,
            cooldown_until: None,
            updated_at: 0,
        }
    }

    /// After an attempt that succeeded.
    pub open spec fn succeeded(self, now: i64) -> DeploymentStateView {
        DeploymentStateView {
            success_count: one_more(self.success_count),
            consecutive_failures: 0,
            last_success_at: Some(now),
            cooldown_until: None,
            updated_at: now,
            ..self
        }
    }

    /// After an attempt that failed.
    pub open spec fn failed(
        self,
        now: i64,
        category: Seq<char>,
        http_status: Option<i64>,
        cooldown_until: Option<i64>,
    ) -> DeploymentStateView {
        DeploymentStateView {
            error_count: one_more(self.error_count),
            consecutive_failures: one_more(self.consecutive_failures),
            last_error_at: Some(now),
            last_error_category: Some(category),
            last_http_status: http_status,
            cooldown_until: if cooldown_until is Some {
                cooldown_until
            } else {
                self.cooldown_until
            },
            updated_at: now,
            ..self
        }
    }
}

impl DeploymentStateRow {
    /// A deployment of which nothing is known yet.
    pub fn unknown(provider: &str, model_id: &str, key_id: &str) -> (r: DeploymentStateRow)
        ensures
            r@ == DeploymentStateView::unknown(provider@, model_id@, key_id@),
    {
        DeploymentStateRow {
            provider: provider.to_owned(),
            model_id: model_id.to_owned(),
            key_id: key_id.to_owned(),
            success_count: 0,
            error_count: 0,
            consecutive_failures: 0,
            last_success_at: None,
            last_error_at: None,
            last_error_category: None,
            last_http_status: None,
            cooldown_until: None,
            updated_at: 0,
        }
    }

    /// Takes an attempt that succeeded into account.
    pub fn record_success(&mut self, now: i64)
        ensures
            final(self)@ == old(self)@.succeeded(now),
    {
        self.success_count = plus_one(self.success_count);
        self.consecutive_failures = 0;
        self.last_success_at = Some(now);
        self.cooldown_until = None;
        self.updated_at = now;
    }

    /// Takes an attempt that failed into account.
    pub fn record_failure(
        &mut self,
        now: i64,
        category: &str,
        http_status: Option<i64>,
        cooldown_seconds: Option<i64>,
    )
        ensures
            final(self)@ == old(self)@.failed(
                now,
                category@,
                http_status,
                wait_ends(now, cooldown_seconds),
            ),
    {
        self.error_count = plus_one(self.error_count);
        self.consecutive_failures = plus_one(self.consecutive_failures);
        self.last_error_at = Some(now);
        self.last_error_category = Some(category.to_owned());
        self.last_http_status = http_status;
        let until = cooldown_end(now, cooldown_seconds);
        if until.is_some() {
            self.cooldown_until = until;
        }
        self.updated_at = now;
    }
}

/// The category that is stored of an attempt: none of one that succeeded.
pub fn stored_category(success: bool, error_category: &str) -> (r: Option<String>)
    ensures
        opt_view(r) == if success {
            None
        } else {
            Some(error_category@)
        },
{
    if success {
        None
    } else {
        Some(error_category.to_owned())
    }
}

/// A success ends a run of failures and any wait, whatever came before.
pub proof fn success_clears_failures(state: DeploymentStateView, now: i64)
    ensures
        state.succeeded(now).consecutive_failures == 0,
        state.succeeded(now).cooldown_until is None,
        state.succeeded(now).error_count == state.error_count,
{
}

/// A failure without a wait of its own leaves a wait that is running.
pub proof fn failure_keeps_a_wait(
    state: DeploymentStateView,
    now: i64,
    category: Seq<char>,
    http_status: Option<i64>,
)
    ensures
        state.failed(now, category, http_status, None).cooldown_until == state.cooldown_until,
        state.failed(now, category, http_status, None).success_count == state.success_count,
{
}

} // verus!
