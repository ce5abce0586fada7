//! How well candidates meet what a request needs.
use crate::adaptive::profile::{ProfileView, TaskProfile};
use crate::lists::{kept, kept_all, kept_next, kept_satisfies};
use crate::sorting::{
    is_order, sort_stably, sorted, sorted_holds_the_same, sorted_is_in_order, sorted_maps,
};
use crate::text::{
    before, before_asymmetric, before_irreflexive, before_total, before_transitive, comes_before,
    contains, copy_opt, list_has, lowercase, lowercase_of, occurs, opt_view, same, views,
};
use vstd::prelude::*;

verus! {

#[derive(Debug, Clone, Copy, PartialEq, Eq, Structural)]
pub enum CandidateTier {
    Free,
    Paid,
    Unknown,
}

/// A key and a model that may serve a request. Of the prompt's price only
/// matters whether there is one to pay, where it is known.
#[derive(Debug)]
pub struct AdaptiveCandidate {
    pub provider: String,
    pub model: String,
    pub api_key: Option<String>,
    pub tier: CandidateTier,
    pub supports_vision: Option<bool>,
    pub supports_tools: Option<bool>,
    pub supports_reasoning: Option<bool>,
    pub context_window: Option<i64>,
    pub recent_successes: i64,
    pub recent_errors: i64,
    pub recent_429s: i64,
    pub recent_timeouts: i64,
    pub quota_headroom: u32,
    pub provider_priority: i32,
    pub prompt_is_free: Option<bool>,
}

/// What an [`AdaptiveCandidate`] holds.
pub struct CandidateView {
    pub provider: Seq<char>,
    pub model: Seq<char>,
    pub api_key: Option<Seq<char>>,
    pub tier: CandidateTier,
    pub supports_vision: Option<bool>,
    pub supports_tools: Option<bool>,
    pub supports_reasoning: Option<bool>,
    pub context_window: Option<i64>,
    pub recent_successes: i64,
    pub recent_errors: i64,
    pub recent_429s: i64,
    pub recent_timeouts: i64,
    pub quota_headroom: u32,
    pub provider_priority: i32,
    pub prompt_is_free: Option<bool>,
}

impl View for AdaptiveCandidate {
    type V = CandidateView;

    open spec fn view(&self) -> CandidateView {
        CandidateView {
            provider: self.provider@,
            model: self.model@,
            api_key: opt_view(self.api_key),
            tier: self.tier,
            supports_vision: self.supports_vision,
            supports_tools: self.supports_tools,
            supports_reasoning: self.supports_reasoning,
            context_window: self.context_window,
            recent_successes: self.recent_successes,
            recent_errors: self.recent_errors,
            recent_429s: self.recent_429s,
            recent_timeouts: self.recent_timeouts,
            quota_headroom: self.quota_headroom,
            provider_priority: self.provider_priority,
            prompt_is_free: self.prompt_is_free,
        }
    }
}

impl AdaptiveCandidate {
    /// The same candidate.
    pub fn copy(&self) -> (r: AdaptiveCandidate)
        ensures
            r@ == self@,
    {
        AdaptiveCandidate {
            provider: self.provider.clone(),
            model: self.model.clone(),
            api_key: copy_opt(&self.api_key),
            tier: self.tier,
            supports_vision: self.supports_vision,
            supports_tools: self.supports_tools,
            supports_reasoning: self.supports_reasoning,
            context_window: self.context_window,
            recent_successes: self.recent_successes,
            recent_errors: self.recent_errors,
            recent_429s: self.recent_429s,
            recent_timeouts: self.recent_timeouts,
            quota_headroom: self.quota_headroom,
            provider_priority: self.provider_priority,
            prompt_is_free: self.prompt_is_free,
        }
    }
}

/// The views of some candidates.
pub open spec fn candidate_views(list: Seq<AdaptiveCandidate>) -> Seq<CandidateView> {
    list.map_values(|c: AdaptiveCandidate| c@)
}

#[derive(Debug)]
pub struct RouteConstraints {
    pub provider: Option<String>,
    pub provider_group: Option<Vec<String>>,
    pub allow_paid: bool,
}

impl Default for RouteConstraints {
    fn default() -> (r: RouteConstraints)
        ensures
            r.provider is None,
            r.provider_group is None,
            !r.allow_paid,
    {
        RouteConstraints { provider: None, provider_group: None, allow_paid: false }
    }
}

/// What [`RouteConstraints`] hold.
pub struct ConstraintsView {
    pub provider: Option<Seq<char>>,
    pub provider_group: Option<Seq<Seq<char>>>,
    pub allow_paid: bool,
}

impl View for RouteConstraints {
    type V = ConstraintsView;

    open spec fn view(&self) -> ConstraintsView {
        ConstraintsView {
            provider: opt_view(self.provider),
            provider_group: match self.provider_group {
                Some(list) => Some(views(list@)),
                None => None,
            },
            allow_paid: self.allow_paid,
        }
    }
}

impl ConstraintsView {
    /// Whether a provider may serve: it is the one asked for, and in the group.
    pub open spec fn allow(self, provider: Seq<char>) -> bool {
        &&& self.provider matches Some(only) ==> only == provider
        &&& self.provider_group matches Some(group) ==> group.contains(provider)
    }
}

#[derive(Debug, Clone, Copy, PartialEq, Eq, Structural)]
pub struct ScoreBreakdown {
    pub capability_match: i32,
    pub reliability: i32,
    pub quota: i32,
    pub provider_priority: i32,
    pub cost: i32,
    pub penalty: i32,
}

/// A number that stops at the ends of `i32`.
pub open spec fn clamp_i32(n: int) -> i32 {
    if n > i32::MAX {
        i32::MAX
    } else if n < i32::MIN {
        i32::MIN
    } else {
        n as i32
    }
}

/// The low 32 bits of a number, read as a signed number.
pub open spec fn wrapped32(n: int) -> i32 {
    let m = n % 0x1_0000_0000;
    if m >= 0x8000_0000 {
        (m - 0x1_0000_0000) as i32
    } else {
        m as i32
    }
}

/// A quotient without its fraction, by a divisor that is positive.
pub open spec fn toward_zero(a: int, b: int) -> int {
    if a >= 0 {
        a / b
    } else {
        -((-a) / b)
    }
}

fn wrap32(n: i128) -> (r: i32)
    requires
        i128::MIN < n,
    ensures
        r == wrapped32(n as int),
{
    let m: i128 = if n >= 0 {
        n % 0x1_0000_0000
    } else {
        0xffff_ffff - (-(n + 1)) % 0x1_0000_0000
    };
    if m >= 0x8000_0000 {
        (m - 0x1_0000_0000) as i32
    } else {
        m as i32
    }
}

fn divide(a: i128, b: i128) -> (r: i128)
    requires
        i128::MIN < a,
        0 < b,
    ensures
        r == toward_zero(a as int, b as int),
        i128::MIN < r,
{
    let size: i128 = if a >= 0 {
        a
    } else {
        -a
    };
    proof {
        assert(0 <= (size as int) / (b as int) <= size) by (nonlinear_arith)
            requires
                0 <= size,
                0 < b,
        ;
    }
    if a >= 0 {
        size / b
    } else {
        -(size / b)
    }
}

impl ScoreBreakdown {
    /// What a score adds up to: its parts, less the penalty.
    pub open spec fn sum(self) -> i32 {
        clamp_i32(
            self.capability_match + self.reliability + self.quota + self.provider_priority
                + self.cost - self.penalty,
        )
    }

    /// What a score adds up to: its parts, less the penalty.
    pub fn total(&self) -> (r: i32)
        ensures
            r == self.sum(),
    {
        let n: i64 = self.capability_match as i64 + self.reliability as i64 + self.quota as i64
            + self.provider_priority as i64 + self.cost as i64 - self.penalty as i64;
        if n > i32::MAX as i64 {
            i32::MAX
        } else if n < i32::MIN as i64 {
            i32::MIN
        } else {
            n as i32
        }
    }
}

#[derive(Debug)]
pub struct ScoredCandidate {
    pub candidate: AdaptiveCandidate,
    pub score: i32,
    pub breakdown: ScoreBreakdown,
    pub rejection_reasons: Vec<String>,
}

/// What a [`ScoredCandidate`] holds.
pub struct ScoredView {
    pub candidate: CandidateView,
    pub score: i32,
    pub breakdown: ScoreBreakdown,
    pub rejection_reasons: Seq<Seq<char>>,
}

impl View for ScoredCandidate {
    type V = ScoredView;

    open spec fn view(&self) -> ScoredView {
        ScoredView {
            candidate: self.candidate@,
            score: self.score,
            breakdown: self.breakdown,
            rejection_reasons: views(self.rejection_reasons@),
        }
    }
}

/// The views of some scored candidates.
pub open spec fn scored_views(list: Seq<ScoredCandidate>) -> Seq<ScoredView> {
    list.map_values(|s: ScoredCandidate| s@)
}

// ---------------------------------------------------------------- rules
/// Whether a candidate can meet what a request cannot do without.
pub open spec fn meets_needs(profile: ProfileView, c: CandidateView) -> bool {
    &&& !(profile.needs_vision && c.supports_vision == Some(false))
    &&& !(profile.needs_tools && c.supports_tools == Some(false))
    &&& profile.needs_long_context ==> (c.context_window matches Some(w) ==> w
        >= profile.estimated_prompt_tokens)
}

/// Whether a candidate may serve a request.
pub open spec fn may_serve(profile: ProfileView, constraints: ConstraintsView) -> spec_fn(
    CandidateView,
) -> bool {
    |c: CandidateView|
        constraints.allow(c.provider) && (constraints.allow_paid || c.tier == CandidateTier::Free)
            && meets_needs(profile, c)
}

/// What a capability adds to a score.
pub open spec fn capability_points(required: bool, support: Option<bool>) -> int {
    if !required {
        0
    } else {
        match support {
            Some(true) => 20,
            Some(false) => -100,
            None => 2,
        }
    }
}

/// Whether the name of a model, in lower case, suggests that it is for code.
pub open spec fn suggests_code(lowered: Seq<char>) -> bool {
    occurs(lowered, "coder"@) || occurs(lowered, "code"@) || occurs(lowered, "qwen3"@)
}

/// How a candidate scores, where its model's name in lower case is given.
pub open spec fn breakdown_of(
    profile: ProfileView,
    c: CandidateView,
    lowered: Seq<char>,
) -> ScoreBreakdown {
    let total = c.recent_successes + c.recent_errors;
    ScoreBreakdown {
        capability_match: (20 + capability_points(profile.needs_vision, c.supports_vision)
            + capability_points(profile.needs_tools, c.supports_tools) + capability_points(
            profile.needs_reasoning,
            c.supports_reasoning,
        ) + (if profile.needs_coding && suggests_code(lowered) {
            12int
        } else {
            0
        }) + (if profile.needs_long_context && (c.context_window matches Some(w) && w
            >= profile.estimated_prompt_tokens) {
            10int
        } else {
            0
        })) as i32,
        reliability: if total > 0 {
            wrapped32(toward_zero(c.recent_successes * 15, total))
        } else {
            8
        },
        quota: if c.quota_headroom > 100 {
            10
        } else {
            (c.quota_headroom / 10) as i32
        },
        provider_priority: if c.provider_priority <= 0 {
            5
        } else if c.provider_priority >= 5 {
            0
        } else {
            (5 - c.provider_priority) as i32
        },
        cost: match c.prompt_is_free {
            Some(true) => 5,
            Some(false) => 1,
            None => 3,
        },
        penalty: clamp_i32(
            wrapped32(c.recent_errors as int) * 2 + wrapped32(c.recent_429s as int) * 5 + wrapped32(
                c.recent_timeouts as int,
            ) * 5,
        ),
    }
}

/// A candidate with its score.
pub open spec fn scored(profile: ProfileView) -> spec_fn(CandidateView) -> ScoredView {
    |c: CandidateView|
        {
            let breakdown = breakdown_of(profile, c, lowercase_of(c.model));
            ScoredView {
                candidate: c,
                score: breakdown.sum(),
                breakdown,
                rejection_reasons: Seq::empty(),
            }
        }
}

/// The better score first, then by provider and by model.
pub open spec fn ranks_before() -> spec_fn(ScoredView, ScoredView) -> bool {
    |a: ScoredView, b: ScoredView|
        a.score > b.score || (a.score == b.score && (before(
            a.candidate.provider,
            b.candidate.provider,
        ) || (a.candidate.provider == b.candidate.provider && before(
            a.candidate.model,
            b.candidate.model,
        ))))
}

/// The candidates that may serve a request, the best first.
pub open spec fn ranking(
    profile: ProfileView,
    candidates: Seq<CandidateView>,
    constraints: ConstraintsView,
) -> Seq<ScoredView> {
    sorted(
        kept(candidates, may_serve(profile, constraints)).map_values(scored(profile)),
        ranks_before(),
    )
}

// ---------------------------------------------------------------- scoring
/// Whether a provider may serve under these constraints.
pub fn provider_allowed(provider: &str, constraints: &RouteConstraints) -> (r: bool)
    ensures
        r == constraints@.allow(provider@),
{
    if let Some(only) = &constraints.provider {
        if !same(only.as_str(), provider) {
            return false;
        }
    }
    if let Some(group) = &constraints.provider_group {
        if !list_has(group, provider) {
            return false;
        }
    }
    true
}

fn hard_capabilities_allow(profile: &TaskProfile, candidate: &AdaptiveCandidate) -> (r: bool)
    ensures
        r == meets_needs(profile@, candidate@),
{
    if profile.needs_vision {
        if let Some(false) = candidate.supports_vision {
            return false;
        }
    }
    if profile.needs_tools {
        if let Some(false) = candidate.supports_tools {
            return false;
        }
    }
    if profile.needs_long_context {
        if let Some(window) = candidate.context_window {
            if window < profile.estimated_prompt_tokens as i64 {
                return false;
            }
        }
    }
    true
}

fn capability_score(required: bool, support: Option<bool>) -> (r: i32)
    ensures
        r == capability_points(required, support),
{
    if !required {
        return 0;
    }
    match support {
        Some(true) => 20,
        Some(false) => -100,
        None => 2,
    }
}

/// Whether the name of a model, in lower case, suggests that it is for code.
pub fn name_suggests_coding(lowered: &str) -> (r: bool)
    ensures
        r == suggests_code(lowered@),
{
    contains(lowered, "coder") || contains(lowered, "code") || contains(lowered, "qwen3")
}

/// How a candidate scores, where its model's name in lower case is given.
pub fn score_breakdown(profile: &TaskProfile, candidate: &AdaptiveCandidate, lowered: &str) -> (r:
    ScoreBreakdown)
    ensures
        r == breakdown_of(profile@, candidate@, lowered@),
{
    let mut capability_match: i32 = 20;
    capability_match = capability_match + capability_score(
        profile.needs_vision,
        candidate.supports_vision,
    );
    capability_match = capability_match + capability_score(
        profile.needs_tools,
        candidate.supports_tools,
    );
    capability_match = capability_match + capability_score(
        profile.needs_reasoning,
        candidate.supports_reasoning,
    );
    if profile.needs_coding && name_suggests_coding(lowered) {
        capability_match = capability_match + 12;
    }
    if profile.needs_long_context {
        if let Some(window) = candidate.context_window {
            if window >= profile.estimated_prompt_tokens as i64 {
                capability_match = capability_match + 10;
            }
        }
    }
    let successes = candidate.recent_successes as i128;
    let total: i128 = successes + candidate.recent_errors as i128;
    let reliability: i32 = if total > 0 {
        wrap32(divide(successes * 15, total))
    } else {
        8
    };
    let quota: i32 = if candidate.quota_headroom > 100 {
        10
    } else {
        (candidate.quota_headroom / 10) as i32
    };
    let provider_priority: i32 = if candidate.provider_priority <= 0 {
        5
    } else if candidate.provider_priority >= 5 {
        0
    } else {
        5 - candidate.provider_priority
    };
    let cost: i32 = match candidate.prompt_is_free {
        Some(true) => 5,
        Some(false) => 1,
        None => 3,
    };
    let errors = wrap32(candidate.recent_errors as i128) as i64;
    let refusals = wrap32(candidate.recent_429s as i128) as i64;
    let timeouts = wrap32(candidate.recent_timeouts as i128) as i64;
    let weight: i64 = errors * 2 + refusals * 5 + timeouts * 5;
    let penalty: i32 = if weight > 0x7fff_ffff {
        i32::MAX
    } else if weight < -0x8000_0000 {
        i32::MIN
    } else {
        weight as i32
    };
    ScoreBreakdown { capability_match, reliability, quota, provider_priority, cost, penalty }
}

fn allowed(
    profile: &TaskProfile,
    candidate: &AdaptiveCandidate,
    constraints: &RouteConstraints,
) -> (r: bool)
    ensures
        r == may_serve(profile@, constraints@)(candidate@),
{
    provider_allowed(candidate.provider.as_str(), constraints) && (constraints.allow_paid
        || candidate.tier == CandidateTier::Free) && hard_capabilities_allow(profile, candidate)
}

fn score(profile: &TaskProfile, candidate: &AdaptiveCandidate) -> (r: ScoredCandidate)
    ensures
        r@ == scored(profile@)(candidate@),
{
    let lowered = lowercase(candidate.model.as_str());
    let breakdown = score_breakdown(profile, candidate, lowered.as_str());
    let r = ScoredCandidate {
        candidate: candidate.copy(),
        score: breakdown.total(),
        breakdown,
        rejection_reasons: Vec::new(),
    };
    assert(views(r.rejection_reasons@) =~= Seq::empty());
    r
}

/// The candidates that may serve a request, the best first; those that score
/// alike by provider and model, and then as they came.
pub fn score_candidates(
    profile: &TaskProfile,
    candidates: &Vec<AdaptiveCandidate>,
    constraints: &RouteConstraints,
) -> (r: Vec<ScoredCandidate>)
    ensures
        scored_views(r@) == ranking(profile@, candidate_views(candidates@), constraints@),
{
    let ghost all = candidate_views(candidates@);
    let ghost p = may_serve(profile@, constraints@);
    let ghost f = scored(profile@);
    let mut list: Vec<ScoredCandidate> = Vec::new();
    let mut i: usize = 0;
    proof {
        kept_all(all, p);
        assert(scored_views(list@) =~= kept(all.take(0), p).map_values(f));
    }
    while i < candidates.len()
        invariant
            i <= candidates@.len(),
            all == candidate_views(candidates@),
            p == may_serve(profile@, constraints@),
            f == scored(profile@),
            scored_views(list@) == kept(all.take(i as int), p).map_values(f),
        decreases candidates@.len() - i,
    {
        let ghost so_far = kept(all.take(i as int), p);
        proof {
            kept_next(all, p, i as int);
            assert(all[i as int] == candidates@[i as int]@);
        }
        if allowed(profile, &candidates[i], constraints) {
            let s = score(profile, &candidates[i]);
            let ghost v = s@;
            let ghost listed = scored_views(list@);
            list.push(s);
            assert(scored_views(list@) =~= listed.push(v));
            assert(so_far.push(all[i as int]).map_values(f) =~= so_far.map_values(f).push(
                f(all[i as int]),
            ));
        }
        i += 1;
    }
    let ghost precedes = |a: ScoredCandidate, b: ScoredCandidate| ranks_before()(a@, b@);
    let comes = |a: &ScoredCandidate, b: &ScoredCandidate| -> (c: bool)
        ensures
            c == ranks_before()(a@, b@),
        {
            a.score > b.score || (a.score == b.score && (comes_before(
                a.candidate.provider.as_str(),
                b.candidate.provider.as_str(),
            ) || (same(a.candidate.provider.as_str(), b.candidate.provider.as_str())
                && comes_before(a.candidate.model.as_str(), b.candidate.model.as_str()))))
        };
    let ghost given = list@;
    let r = sort_stably(list, comes, Ghost(precedes));
    proof {
        sorted_maps(given, precedes, |s: ScoredCandidate| s@, ranks_before());
    }
    r
}

// ---------------------------------------------------------------- laws
pub(crate) proof fn ranks_before_is_order()
    ensures
        is_order(ranks_before()),
{
    let p = ranks_before();
    assert forall|a: ScoredView, b: ScoredView, c: ScoredView|
        !(#[trigger] p(b, a)) && !(#[trigger] p(c, b)) implies !p(c, a) by {
        before_total(a.candidate.provider, b.candidate.provider);
        before_total(b.candidate.provider, c.candidate.provider);
        before_total(a.candidate.provider, c.candidate.provider);
        before_total(a.candidate.model, b.candidate.model);
        before_total(b.candidate.model, c.candidate.model);
        before_total(a.candidate.model, c.candidate.model);
        if before(c.candidate.provider, a.candidate.provider) {
            if before(a.candidate.provider, b.candidate.provider) {
                before_transitive(
                    c.candidate.provider,
                    a.candidate.provider,
                    b.candidate.provider,
                );
            }
        }
        if before(c.candidate.model, a.candidate.model) {
            if before(a.candidate.model, b.candidate.model) {
                before_transitive(
                    c.candidate.model,
                    a.candidate.model,
                    b.candidate.model,
                );
            }
        }
        before_irreflexive(a.candidate.provider);
        before_irreflexive(a.candidate.model);
    }
    assert forall|a: ScoredView, b: ScoredView| #[trigger] p(a, b) implies !p(b, a) by {
        if before(a.candidate.provider, b.candidate.provider) {
            before_asymmetric(a.candidate.provider, b.candidate.provider);
            before_irreflexive(a.candidate.provider);
        }
        if before(a.candidate.model, b.candidate.model) {
            before_asymmetric(a.candidate.model, b.candidate.model);
            before_irreflexive(a.candidate.model);
        }
        before_irreflexive(a.candidate.provider);
    }
}

/// The first of a ranking has the best score.
pub proof fn first_scores_best(
    profile: ProfileView,
    candidates: Seq<CandidateView>,
    constraints: ConstraintsView,
)
    ensures
        forall|i: int|
            0 <= i < ranking(profile, candidates, constraints).len() ==> ranking(
                profile,
                candidates,
                constraints,
            )[0].score >= (#[trigger] ranking(profile, candidates, constraints)[i]).score,
{
    ranks_before_is_order();
    let scores = kept(candidates, may_serve(profile, constraints)).map_values(scored(profile));
    sorted_is_in_order(scores, ranks_before());
    let r = ranking(profile, candidates, constraints);
    assert forall|i: int| 0 <= i < r.len() implies r[0].score >= (#[trigger] r[i]).score by {
        if i > 0 {
            assert(!ranks_before()(r[i], r[0]));
        }
    }
}

/// Whoever is ranked is one of the candidates, is allowed, and meets what the
/// request cannot do without. Without leave to pay, it is free.
pub proof fn ranked_are_allowed(
    profile: ProfileView,
    candidates: Seq<CandidateView>,
    constraints: ConstraintsView,
)
    ensures
        forall|i: int|
            0 <= i < ranking(profile, candidates, constraints).len() ==> {
                let c = (#[trigger] ranking(profile, candidates, constraints)[i]).candidate;
                &&& candidates.contains(c)
                &&& constraints.allow(c.provider)
                &&& meets_needs(profile, c)
                &&& !constraints.allow_paid ==> c.tier == CandidateTier::Free
            },
{
    let p = may_serve(profile, constraints);
    let fit = kept(candidates, p);
    let scores = fit.map_values(scored(profile));
    let r = ranking(profile, candidates, constraints);
    kept_satisfies(candidates, p);
    assert forall|i: int| 0 <= i < r.len() implies candidates.contains(
        (#[trigger] r[i]).candidate,
    ) && p(r[i].candidate) by {
        sorted_holds_the_same(scores, ranks_before(), r[i]);
        assert(r.contains(r[i]));
        assert(scores.contains(r[i]));
        let k = choose|k: int| 0 <= k < scores.len() && scores[k] == r[i];
        assert(scores[k] == scored(profile)(fit[k]));
        assert(fit.contains(fit[k]));
    }
}

} // verus!
