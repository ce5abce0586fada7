//! How stored metadata changes with what is learned.
use crate::json::{Number, NumberView};
use crate::metadata::learner::{either, ModelUpdate, ModelUpdateView};
use crate::metadata::rows::ModelMetaRow;
use crate::metadata::usage::{one_more, token_count, usage_of, UsageRecord, UsageView};
use crate::models::opt_number;
use crate::text::{copy_opt, opt_view, same};
use vstd::prelude::*;

verus! {

// ---------------------------------------------------------------- models
/// What a [`ModelMetaRow`] holds.
pub struct ModelRowView {
    pub id: i64,
    pub provider: Seq<char>,
    pub model_id: Seq<char>,
    pub display_name: Option<Seq<char>>,
    pub context_window: Option<i64>,
    pub max_completion_tokens: Option<i64>,
    pub supports_vision: Option<bool>,
    pub supports_tools: Option<bool>,
    pub supports_reasoning: Option<bool>,
    pub pricing_prompt: Option<NumberView>,
    pub pricing_completion: Option<NumberView>,
    pub architecture_modality: Option<Seq<char>>,
    pub rpm_limit: Option<i64>,
    pub rpd_limit: Option<i64>,
    pub tpm_limit: Option<i64>,
    pub tpd_limit: Option<i64>,
    pub first_seen_at: i64,
    pub last_updated_at: i64,
    pub update_count: i64,
    pub source: Seq<char>,
}

impl View for ModelMetaRow {
    type V = ModelRowView;

    open spec fn view(&self) -> ModelRowView {
        ModelRowView {
            id: self.id,
            provider: self.provider@,
            model_id: self.model_id@,
            display_name: opt_view(self.display_name),
            context_window: self.context_window,
            max_completion_tokens: self.max_completion_tokens,
            supports_vision: self.supports_vision,
            supports_tools: self.supports_tools,
            supports_reasoning: self.supports_reasoning,
            pricing_prompt: opt_number(self.pricing_prompt),
            pricing_completion: opt_number(self.pricing_completion),
            architecture_modality: opt_view(self.architecture_modality),
            rpm_limit: self.rpm_limit,
            rpd_limit: self.rpd_limit,
            tpm_limit: self.tpm_limit,
            tpd_limit: self.tpd_limit,
            first_seen_at: self.first_seen_at,
            last_updated_at: self.last_updated_at,
            update_count: self.update_count,
            source: self.source@,
        }
    }
}

impl ModelRowView {
    /// A model that was never heard of.
    pub open spec fn unheard(
        provider: Seq<char>,
        model_id: Seq<char>,
        now: i64,
    ) -> ModelRowView {
        ModelRowView {
            id: 0,
            provider,
            model_id,
            display_name: None,
            context_window: None,
            max_completion_tokens: None,
            supports_vision: None,
            supports_tools: None,
            supports_reasoning: None,
            pricing_prompt: None,
            pricing_completion: None,
            architecture_modality: None,
            rpm_limit: None,
            rpd_limit: None,
            tpm_limit: None,
            tpd_limit: None,
            first_seen_at: now,
            last_updated_at: now,
            update_count: 0,
            source: Seq::empty(),
        }
    }

    /// After something was learned, with its prices read as numbers: what is
    /// new replaces what was known, what is not said stays.
    pub open spec fn updated(
        self,
        u: ModelUpdateView,
        prompt: Option<NumberView>,
        completion: Option<NumberView>,
        now: i64,
    ) -> ModelRowView {
        ModelRowView {
            display_name: either(u.display_name, self.display_name),
            context_window: either(u.context_window, self.context_window),
            max_completion_tokens: either(u.max_completion_tokens, self.max_completion_tokens),
            supports_vision: either(u.supports_vision, self.supports_vision),
            supports_tools: either(u.supports_tools, self.supports_tools),
            supports_reasoning: either(u.supports_reasoning, self.supports_reasoning),
            pricing_prompt: either(prompt, self.pricing_prompt),
            pricing_completion: either(completion, self.pricing_completion),
            architecture_modality: either(u.architecture_modality, self.architecture_modality),
            rpm_limit: either(u.rpm_limit, self.rpm_limit),
            rpd_limit: either(u.rpd_limit, self.rpd_limit),
            tpm_limit: either(u.tpm_limit, self.tpm_limit),
            tpd_limit: either(u.tpd_limit, self.tpd_limit),
            last_updated_at: now,
            update_count: one_more(self.update_count),
            source: u.source,
            ..self
        }
    }

    /// After a limit was learned: it is kept where it is tighter than what was
    /// known. A wait is no limit of a model.
    pub open spec fn limited(self, limit_type: Seq<char>, value: i64, now: i64) -> ModelRowView {
        if limit_type == "rpm"@ && tightens(self.rpm_limit, value) {
            ModelRowView { rpm_limit: Some(value), last_updated_at: now, ..self }
        } else if limit_type == "rpd"@ && tightens(self.rpd_limit, value) {
            ModelRowView { rpd_limit: Some(value), last_updated_at: now, ..self }
        } else if limit_type == "tpm"@ && tightens(self.tpm_limit, value) {
            ModelRowView { tpm_limit: Some(value), last_updated_at: now, ..self }
        } else if limit_type == "tpd"@ && tightens(self.tpd_limit, value) {
            ModelRowView { tpd_limit: Some(value), last_updated_at: now, ..self }
        } else {
            self
        }
    }
}

/// Whether a limit is tighter than what is known.
pub open spec fn tightens(known: Option<i64>, value: i64) -> bool {
    match known {
        Some(old_value) => old_value > value,
        None => true,
    }
}

fn is_tighter(known: Option<i64>, value: i64) -> (r: bool)
    ensures
        r == tightens(known, value),
{
    match known {
        Some(old_value) => old_value > value,
        None => true,
    }
}

fn newer<T: Copy>(new_value: Option<T>, known: Option<T>) -> (r: Option<T>)
    ensures
        r == either(new_value, known),
{
    match new_value {
        Some(v) => Some(v),
        None => known,
    }
}

impl ModelMetaRow {
    /// A model that was never heard of.
    pub fn unheard(provider: &str, model_id: &str, now: i64) -> (r: ModelMetaRow)
        ensures
            r@ == ModelRowView::unheard(provider@, model_id@, now),
    {
        let r = ModelMetaRow {
            id: 0,
            provider: provider.to_owned(),
            model_id: model_id.to_owned(),
            display_name: None,
            context_window: None,
            max_completion_tokens: None,
            supports_vision: None,
            supports_tools: None,
            supports_reasoning: None,
            pricing_prompt: None,
            pricing_completion: None,
            architecture_modality: None,
            rpm_limit: None,
            rpd_limit: None,
            tpm_limit: None,
            tpd_limit: None,
            first_seen_at: now,
            last_updated_at: now,
            update_count: 0,
            source: String::new(),
        };
        assert(r.source@ =~= Seq::empty());
        r
    }

    /// Takes in what was learned, with its prices read as numbers.
    pub fn learn(
        &mut self,
        update: &ModelUpdate,
        prompt: Option<Number>,
        completion: Option<Number>,
        now: i64,
    )
        ensures
            final(self)@ == old(self)@.updated(
                update@,
                opt_number(prompt),
                opt_number(completion),
                now,
            ),
    {
        if update.display_name.is_some() {
            self.display_name = copy_opt(&update.display_name);
        }
        self.context_window = newer(update.context_window, self.context_window);
        self.max_completion_tokens = newer(
            update.max_completion_tokens,
            self.max_completion_tokens,
        );
        self.supports_vision = newer(update.supports_vision, self.supports_vision);
        self.supports_tools = newer(update.supports_tools, self.supports_tools);
        self.supports_reasoning = newer(update.supports_reasoning, self.supports_reasoning);
        if prompt.is_some() {
            self.pricing_prompt = prompt;
        }
        if completion.is_some() {
            self.pricing_completion = completion;
        }
        if update.architecture_modality.is_some() {
            self.architecture_modality = copy_opt(&update.architecture_modality);
        }
        self.rpm_limit = newer(update.rpm_limit, self.rpm_limit);
        self.rpd_limit = newer(update.rpd_limit, self.rpd_limit);
        self.tpm_limit = newer(update.tpm_limit, self.tpm_limit);
        self.tpd_limit = newer(update.tpd_limit, self.tpd_limit);
        self.last_updated_at = now;
        if self.update_count < i64::MAX {
            self.update_count = self.update_count + 1;
        }
        self.source = update.source.clone();
    }

    /// Takes in a limit that was learned.
    pub fn learn_limit(&mut self, limit_type: &str, value: i64, now: i64)
        ensures
            final(self)@ == old(self)@.limited(limit_type@, value, now),
    {
        proof {
            reveal_strlit("rpm");
            reveal_strlit("rpd");
            reveal_strlit("tpm");
            reveal_strlit("tpd");
            assert("rpm"@[0] == 'r' && "rpm"@[2] == 'm');
            assert("rpd"@[0] == 'r' && "rpd"@[2] == 'd');
            assert("tpm"@[0] == 't' && "tpm"@[2] == 'm');
            assert("tpd"@[0] == 't' && "tpd"@[2] == 'd');
        }
        if same(limit_type, "rpm") {
            if is_tighter(self.rpm_limit, value) {
                self.rpm_limit = Some(value);
                self.last_updated_at = now;
            }
        } else if same(limit_type, "rpd") {
            if is_tighter(self.rpd_limit, value) {
                self.rpd_limit = Some(value);
                self.last_updated_at = now;
            }
        } else if same(limit_type, "tpm") {
            if is_tighter(self.tpm_limit, value) {
                self.tpm_limit = Some(value);
                self.last_updated_at = now;
            }
        } else if same(limit_type, "tpd") {
            if is_tighter(self.tpd_limit, value) {
                self.tpd_limit = Some(value);
                self.last_updated_at = now;
            }
        }
    }
}

// ---------------------------------------------------------------- usage
/// A sum that stops at the ends of the type.
pub open spec fn capped_add(a: i64, b: int) -> i64 {
    if a + b > i64::MAX {
        i64::MAX
    } else if a + b < i64::MIN {
        i64::MIN
    } else {
        (a + b) as i64
    }
}

/// What is counted under one label: of a model on a day or in an hour, or of
/// all requests.
#[derive(Debug, Clone, Copy, PartialEq, Eq, Structural)]
pub struct UsageCounts {
    pub request_count: i64,
    pub prompt_tokens: i64,
    pub completion_tokens: i64,
    pub reported_prompt_tokens: i64,
    pub reported_completion_tokens: i64,
    pub estimated_prompt_tokens: i64,
    pub estimated_completion_tokens: i64,
    pub token_reported_requests: i64,
    pub success_count: i64,
    pub error_count: i64,
    pub first_used_at: Option<i64>,
    pub last_used_at: Option<i64>,
}

impl UsageCounts {
    /// Nothing counted.
    pub open spec fn none() -> UsageCounts {
        UsageCounts {
            request_count: 0,
            prompt_tokens: 0,
            completion_tokens: 0,
            reported_prompt_tokens: 0,
            reported_completion_tokens: 0,
            estimated_prompt_tokens: 0,
            estimated_completion_tokens: 0,
            token_reported_requests: 0,
            success_count: 0,
            error_count: 0,
            first_used_at: None,
            last_used_at: None,
        }
    }

    /// With one more request.
    pub open spec fn with(self, u: UsageView, now: i64) -> UsageCounts {
        UsageCounts {
            request_count: capped_add(self.request_count, 1),
            prompt_tokens: capped_add(self.prompt_tokens, u.prompt_tokens),
            completion_tokens: capped_add(self.completion_tokens, u.completion_tokens),
            reported_prompt_tokens: capped_add(
                self.reported_prompt_tokens,
                u.reported_prompt_tokens,
            ),
            reported_completion_tokens: capped_add(
                self.reported_completion_tokens,
                u.reported_completion_tokens,
            ),
            estimated_prompt_tokens: capped_add(
                self.estimated_prompt_tokens,
                u.estimated_prompt_tokens,
            ),
            estimated_completion_tokens: capped_add(
                self.estimated_completion_tokens,
                u.estimated_completion_tokens,
            ),
            token_reported_requests: capped_add(self.token_reported_requests, u.token_reported),
            success_count: capped_add(self.success_count, u.success_inc),
            error_count: capped_add(self.error_count, u.error_inc),
            first_used_at: either(self.first_used_at, Some(now)),
            last_used_at: Some(now),
        }
    }

    /// Nothing counted.
    pub fn empty() -> (r: UsageCounts)
        ensures
            r == UsageCounts::none(),
    {
        UsageCounts {
            request_count: 0,
            prompt_tokens: 0,
            completion_tokens: 0,
            reported_prompt_tokens: 0,
            reported_completion_tokens: 0,
            estimated_prompt_tokens: 0,
            estimated_completion_tokens: 0,
            token_reported_requests: 0,
            success_count: 0,
            error_count: 0,
            first_used_at: None,
            last_used_at: None,
        }
    }

    /// Counts one more request.
    pub fn add_request(&mut self, record: &UsageRecord, now: i64)
        ensures
            *final(self) == old(self).with(record@, now),
    {
        self.request_count = add_capped(self.request_count, 1);
        self.prompt_tokens = add_capped(self.prompt_tokens, record.prompt_tokens);
        self.completion_tokens = add_capped(self.completion_tokens, record.completion_tokens);
        self.reported_prompt_tokens = add_capped(
            self.reported_prompt_tokens,
            record.reported_prompt_tokens,
        );
        self.reported_completion_tokens = add_capped(
            self.reported_completion_tokens,
            record.reported_completion_tokens,
        );
        self.estimated_prompt_tokens = add_capped(
            self.estimated_prompt_tokens,
            record.estimated_prompt_tokens,
        );
        self.estimated_completion_tokens = add_capped(
            self.estimated_completion_tokens,
            record.estimated_completion_tokens,
        );
        self.token_reported_requests = add_capped(
            self.token_reported_requests,
            record.token_reported,
        );
        self.success_count = add_capped(self.success_count, record.success_inc);
        self.error_count = add_capped(self.error_count, record.error_inc);
        self.first_used_at = newer(self.first_used_at, Some(now));
        self.last_used_at = Some(now);
    }
}

pub fn add_capped(a: i64, b: i64) -> (r: i64)
    ensures
        r == capped_add(a, b as int),
{
    match a.checked_add(b) {
        Some(n) => n,
        None => if b > 0 {
            i64::MAX
        } else {
            i64::MIN
        },
    }
}

// ---------------------------------------------------------------- laws
/// A limit that is learned never loosens what is known.
pub proof fn limits_only_tighten(row: ModelRowView, limit_type: Seq<char>, value: i64, now: i64)
    ensures
        row.rpm_limit matches Some(old_value) ==> row.limited(limit_type, value, now).rpm_limit->0
            <= old_value,
        row.rpd_limit matches Some(old_value) ==> row.limited(limit_type, value, now).rpd_limit->0
            <= old_value,
        row.tpm_limit matches Some(old_value) ==> row.limited(limit_type, value, now).tpm_limit->0
            <= old_value,
        row.tpd_limit matches Some(old_value) ==> row.limited(limit_type, value, now).tpd_limit->0
            <= old_value,
{
}

/// What is known of a model is never forgotten: an update that does not speak of
/// it leaves it.
pub proof fn updates_forget_nothing(
    row: ModelRowView,
    u: ModelUpdateView,
    prompt: Option<NumberView>,
    completion: Option<NumberView>,
    now: i64,
)
    ensures
        row.context_window is Some ==> row.updated(u, prompt, completion, now).context_window
            is Some,
        row.supports_vision is Some ==> row.updated(u, prompt, completion, now).supports_vision
            is Some,
        row.supports_tools is Some ==> row.updated(u, prompt, completion, now).supports_tools
            is Some,
        row.supports_reasoning is Some ==> row.updated(
            u,
            prompt,
            completion,
            now,
        ).supports_reasoning is Some,
        row.updated(u, prompt, completion, now).first_seen_at == row.first_seen_at,
        row.updated(u, prompt, completion, now).provider == row.provider,
        row.updated(u, prompt, completion, now).model_id == row.model_id,
{
}

/// Learning the same thing twice changes nothing but how often it was learned.
pub proof fn learning_twice_is_learning_once(
    row: ModelRowView,
    u: ModelUpdateView,
    prompt: Option<NumberView>,
    completion: Option<NumberView>,
    now: i64,
)
    ensures
        ({
            let once = row.updated(u, prompt, completion, now);
            let twice = once.updated(u, prompt, completion, now);
            twice == ModelRowView { update_count: twice.update_count, ..once }
        }),
{
}

/// Counted requests are successes or errors, and counted tokens are reported or
/// estimated: this holds of nothing, and of what one more request makes of it,
/// as long as no count is full.
pub proof fn counts_stay_consistent(
    counts: UsageCounts,
    success: bool,
    prompt: Option<i64>,
    completion: Option<i64>,
    reported: bool,
    now: i64,
)
    requires
        counts.request_count == counts.success_count + counts.error_count,
        counts.prompt_tokens == counts.reported_prompt_tokens + counts.estimated_prompt_tokens,
        counts.completion_tokens == counts.reported_completion_tokens
            + counts.estimated_completion_tokens,
        0 <= counts.success_count,
        0 <= counts.error_count,
        0 <= counts.reported_prompt_tokens,
        0 <= counts.estimated_prompt_tokens,
        0 <= counts.reported_completion_tokens,
        0 <= counts.estimated_completion_tokens,
        counts.request_count < i64::MAX,
        counts.prompt_tokens + token_count(prompt) <= i64::MAX,
        counts.completion_tokens + token_count(completion) <= i64::MAX,
    ensures
        ({
            let after = counts.with(
                usage_of(success, prompt, completion, reported),
                now,
            );
            &&& after.request_count == after.success_count + after.error_count
            &&& after.prompt_tokens == after.reported_prompt_tokens + after.estimated_prompt_tokens
            &&& after.completion_tokens == after.reported_completion_tokens
                + after.estimated_completion_tokens
        }),
{
}

} // verus!
