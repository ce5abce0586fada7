//! Laws of the scores: what makes a candidate preferable, and by how much.
use crate::adaptive::profile::ProfileView;
use crate::adaptive::scoring::{
    breakdown_of, CandidateTier, CandidateView, ConstraintsView, may_serve, ranking, ranks_before,
    ranks_before_is_order, scored, toward_zero, wrapped32,
};
use crate::lists::{kept, kept_satisfies};
use crate::sorting::{sorted_holds_the_same, sorted_is_in_order, sorted_is_permutation};
use crate::text::{before, lowercase_of, occurs};
use vstd::prelude::*;

verus! {

/// What a candidate scores, where its model's name in lower case is given.
pub open spec fn points(profile: ProfileView, c: CandidateView, lowered: Seq<char>) -> int {
    breakdown_of(profile, c, lowered).sum() as int
}

/// Whether the counts of a candidate are those of a record that a gateway can
/// have gathered: none is negative, none reaches a hundred million.
pub open spec fn has_record(c: CandidateView) -> bool {
    &&& 0 <= c.recent_successes < 100_000_000
    &&& 0 <= c.recent_errors < 100_000_000
    &&& 0 <= c.recent_429s < 100_000_000
    &&& 0 <= c.recent_timeouts < 100_000_000
}

/// Whether a request needs nothing in particular.
pub open spec fn needs_nothing(profile: ProfileView) -> bool {
    !profile.needs_vision && !profile.needs_tools && !profile.needs_reasoning
        && !profile.needs_coding && !profile.needs_long_context
}

// ---------------------------------------------------------------- arithmetic
/// The share of `s` in `s + e`, of fifteen, rounded down.
proof fn share_of(s: int, e: int, q: int)
    requires
        0 <= s,
        0 <= e,
        0 < s + e,
        q == (s * 15) / (s + e),
    ensures
        0 <= q <= 15,
        q * (s + e) <= s * 15 < (q + 1) * (s + e),
{
    vstd::arithmetic::div_mod::lemma_fundamental_div_mod(s * 15, s + e);
    vstd::arithmetic::div_mod::lemma_mod_bound(s * 15, s + e);
    let r = (s * 15) % (s + e);
    assert(s * 15 == q * (s + e) + r) by (nonlinear_arith)
        requires
            s * 15 == (s + e) * q + r,
    ;
    assert((q + 1) * (s + e) == q * (s + e) + (s + e)) by (nonlinear_arith);
    assert(q <= 15) by (nonlinear_arith)
        requires
            q * (s + e) <= s * 15,
            0 <= e,
            0 <= s,
            0 < s + e,
    ;
    assert(0 <= q) by (nonlinear_arith)
        requires
            0 <= s * 15 < (q + 1) * (s + e),
            0 < s + e,
    ;
}

/// A share grows with its part and falls with the rest.
proof fn share_is_monotone(s: int, e: int, s2: int, e2: int, q: int, q2: int)
    requires
        0 <= s <= s2,
        0 <= e2 <= e,
        0 < s + e,
        0 < s2 + e2,
        q == (s * 15) / (s + e),
        q2 == (s2 * 15) / (s2 + e2),
    ensures
        q <= q2,
{
    share_of(s, e, q);
    share_of(s2, e2, q2);
    assert(s * (s2 + e2) <= s2 * (s + e)) by (nonlinear_arith)
        requires
            0 <= s <= s2,
            0 <= e2 <= e,
    ;
    if q > q2 {
        assert(false) by (nonlinear_arith)
            requires
                q >= q2 + 1,
                q * (s + e) <= s * 15,
                s2 * 15 < (q2 + 1) * (s2 + e2),
                s * (s2 + e2) <= s2 * (s + e),
                0 < s + e,
                0 < s2 + e2,
                0 <= q,
        {
            assert(q * (s + e) * (s2 + e2) <= s * 15 * (s2 + e2));
            assert(s * 15 * (s2 + e2) <= s2 * 15 * (s + e));
            assert(s2 * 15 * (s + e) < (q2 + 1) * (s2 + e2) * (s + e));
            assert((q2 + 1) * (s2 + e2) * (s + e) <= q * (s2 + e2) * (s + e));
            assert(q * (s2 + e2) * (s + e) == q * (s + e) * (s2 + e2));
        }
    }
}

/// A number that fits is its own low part.
proof fn small_numbers_stay(n: int)
    requires
        0 <= n < 0x8000_0000,
    ensures
        wrapped32(n) == n,
{
}

proof fn reliability_of(profile: ProfileView, c: CandidateView, lowered: Seq<char>)
    requires
        has_record(c),
    ensures
        ({
            let q = breakdown_of(profile, c, lowered).reliability as int;
            let total = c.recent_successes + c.recent_errors;
            &&& 0 <= q <= 15
            &&& total == 0 ==> q == 8
            &&& total > 0 ==> q == (c.recent_successes * 15) / total
        }),
{
    let s = c.recent_successes as int;
    let e = c.recent_errors as int;
    if s + e > 0 {
        let q = (s * 15) / (s + e);
        share_of(s, e, q);
        small_numbers_stay(q);
        assert(toward_zero(s * 15, s + e) == q);
    }
}

proof fn penalty_of(profile: ProfileView, c: CandidateView, lowered: Seq<char>)
    requires
        has_record(c),
    ensures
        breakdown_of(profile, c, lowered).penalty == c.recent_errors * 2 + c.recent_429s * 5
            + c.recent_timeouts * 5,
{
    small_numbers_stay(c.recent_errors as int);
    small_numbers_stay(c.recent_429s as int);
    small_numbers_stay(c.recent_timeouts as int);
}

/// What a candidate with a record scores is what its parts add up to.
pub(crate) proof fn record_scores(profile: ProfileView, c: CandidateView, lowered: Seq<char>)
    requires
        has_record(c),
    ensures
        ({
            let b = breakdown_of(profile, c, lowered);
            let total = c.recent_successes + c.recent_errors;
            &&& points(profile, c, lowered) == b.capability_match + b.reliability + b.quota
                + b.provider_priority + b.cost - b.penalty
            &&& 0 <= b.reliability <= 15
            &&& b.penalty == c.recent_errors * 2 + c.recent_429s * 5 + c.recent_timeouts * 5
            &&& total == 0 ==> b.reliability == 8
            &&& total > 0 ==> b.reliability == (c.recent_successes * 15) / total
        }),
{
    reliability_of(profile, c, lowered);
    penalty_of(profile, c, lowered);
    let b = breakdown_of(profile, c, lowered);
    assert(-300 <= b.capability_match <= 200);
    assert(0 <= b.quota <= 10);
    assert(0 <= b.provider_priority <= 5);
    assert(0 <= b.cost <= 5);
}

// ---------------------------------------------------------------- monotonicity
/// The lower the number of its provider's priority, the more a candidate
/// scores: a point for each step between 0 and 5, and none beyond.
pub proof fn lower_priority_numbers_score_more(
    profile: ProfileView,
    c: CandidateView,
    lowered: Seq<char>,
    p: i32,
    q: i32,
)
    requires
        p <= q,
    ensures
        ({
            let first = CandidateView { provider_priority: p, ..c };
            let second = CandidateView { provider_priority: q, ..c };
            &&& points(profile, first, lowered) >= points(profile, second, lowered)
            &&& has_record(c) && 0 <= p && q <= 5 ==> points(profile, first, lowered) == points(
                profile,
                second,
                lowered,
            ) + (q - p)
            &&& q <= 0 || 5 <= p ==> points(profile, first, lowered) == points(
                profile,
                second,
                lowered,
            )
        }),
{
    let first = CandidateView { provider_priority: p, ..c };
    let second = CandidateView { provider_priority: q, ..c };
    if has_record(c) {
        record_scores(profile, first, lowered);
        record_scores(profile, second, lowered);
    }
}

/// The more of its quota a key has left, the more its candidate scores: a point
/// for each full tenth, and none beyond the whole.
pub proof fn headroom_scores(
    profile: ProfileView,
    c: CandidateView,
    lowered: Seq<char>,
    less: u32,
    more: u32,
)
    requires
        less <= more,
    ensures
        ({
            let tight = CandidateView { quota_headroom: less, ..c };
            let roomy = CandidateView { quota_headroom: more, ..c };
            &&& points(profile, tight, lowered) <= points(profile, roomy, lowered)
            &&& has_record(c) && less + 10 <= more <= 100 ==> points(profile, tight, lowered)
                < points(profile, roomy, lowered)
            &&& has_record(c) && more == less + 10 && more <= 100 ==> points(profile, tight, lowered)
                + 1 == points(profile, roomy, lowered)
            &&& 100 <= less ==> points(profile, tight, lowered) == points(profile, roomy, lowered)
        }),
{
    let tight = CandidateView { quota_headroom: less, ..c };
    let roomy = CandidateView { quota_headroom: more, ..c };
    if has_record(c) {
        record_scores(profile, tight, lowered);
        record_scores(profile, roomy, lowered);
    }
}

/// A prompt that costs nothing scores more than one whose price is unknown, and
/// that more than one that is to be paid; two points each.
pub proof fn cheap_prompts_score(profile: ProfileView, c: CandidateView, lowered: Seq<char>)
    requires
        has_record(c),
    ensures
        ({
            let free = points(profile, CandidateView { prompt_is_free: Some(true), ..c }, lowered);
            let unknown = points(profile, CandidateView { prompt_is_free: None, ..c }, lowered);
            let paid = points(profile, CandidateView { prompt_is_free: Some(false), ..c }, lowered);
            free == unknown + 2 && unknown == paid + 2
        }),
{
    record_scores(profile, CandidateView { prompt_is_free: Some(true), ..c }, lowered);
    record_scores(profile, CandidateView { prompt_is_free: None, ..c }, lowered);
    record_scores(profile, CandidateView { prompt_is_free: Some(false), ..c }, lowered);
}

/// Successes never lower a score, with any failures beside them.
pub proof fn successes_score(
    profile: ProfileView,
    c: CandidateView,
    lowered: Seq<char>,
    fewer: i64,
    more: i64,
)
    requires
        has_record(c),
        0 <= fewer <= more < 100_000_000,
    ensures
        points(profile, CandidateView { recent_successes: fewer, ..c }, lowered) <= points(
            profile,
            CandidateView { recent_successes: more, ..c },
            lowered,
        ),
{
    let a = CandidateView { recent_successes: fewer, ..c };
    let b = CandidateView { recent_successes: more, ..c };
    record_scores(profile, a, lowered);
    record_scores(profile, b, lowered);
    let e = c.recent_errors as int;
    if fewer + e > 0 {
        share_is_monotone(
            fewer as int,
            e,
            more as int,
            e,
            (fewer * 15) / (fewer + e),
            (more * 15) / (more + e),
        );
    } else if more > 0 {
        assert((more * 15) / (more as int) == 15) by (nonlinear_arith)
            requires
                more > 0,
        ;
    }
}

/// Each failure lowers a score by two points at least, each rate limit and each
/// timeout by five.
pub proof fn failures_cost(
    profile: ProfileView,
    c: CandidateView,
    lowered: Seq<char>,
    fewer: i64,
    more: i64,
)
    requires
        has_record(c),
        0 <= fewer <= more < 100_000_000,
    ensures
        points(profile, CandidateView { recent_errors: more, ..c }, lowered) <= points(
            profile,
            CandidateView { recent_errors: fewer, ..c },
            lowered,
        ) - 2 * (more - fewer),
        points(profile, CandidateView { recent_429s: more, ..c }, lowered) == points(
            profile,
            CandidateView { recent_429s: fewer, ..c },
            lowered,
        ) - 5 * (more - fewer),
        points(profile, CandidateView { recent_timeouts: more, ..c }, lowered) == points(
            profile,
            CandidateView { recent_timeouts: fewer, ..c },
            lowered,
        ) - 5 * (more - fewer),
{
    let a = CandidateView { recent_errors: fewer, ..c };
    let b = CandidateView { recent_errors: more, ..c };
    record_scores(profile, a, lowered);
    record_scores(profile, b, lowered);
    let s = c.recent_successes as int;
    if s + fewer > 0 {
        share_is_monotone(
            s,
            more as int,
            s,
            fewer as int,
            (s * 15) / (s + more),
            (s * 15) / (s + fewer),
        );
    } else if more > 0 {
        share_of(0, more as int, (s * 15) / (s + more));
        assert((s * 15) / (s + more) == 0) by (nonlinear_arith)
            requires
                s == 0,
                more > 0,
        ;
    }
    record_scores(profile, CandidateView { recent_429s: more, ..c }, lowered);
    record_scores(profile, CandidateView { recent_429s: fewer, ..c }, lowered);
    record_scores(profile, CandidateView { recent_timeouts: more, ..c }, lowered);
    record_scores(profile, CandidateView { recent_timeouts: fewer, ..c }, lowered);
}

/// A candidate that always served scores fifteen points more than one that
/// never did, beside the points that its failures cost; one that was never used
/// stands between them, with eight.
pub proof fn records_score(
    profile: ProfileView,
    c: CandidateView,
    lowered: Seq<char>,
    served: i64,
    failed: i64,
)
    requires
        has_record(c),
        0 < served < 100_000_000,
        0 < failed < 100_000_000,
    ensures
        ({
            let always = CandidateView { recent_successes: served, recent_errors: 0, ..c };
            let never = CandidateView { recent_successes: 0, recent_errors: failed, ..c };
            let unused = CandidateView { recent_successes: 0, recent_errors: 0, ..c };
            &&& points(profile, always, lowered) == points(profile, unused, lowered) + 7
            &&& points(profile, never, lowered) == points(profile, unused, lowered) - 8 - 2 * failed
        }),
{
    let always = CandidateView { recent_successes: served, recent_errors: 0, ..c };
    let never = CandidateView { recent_successes: 0, recent_errors: failed, ..c };
    let unused = CandidateView { recent_successes: 0, recent_errors: 0, ..c };
    record_scores(profile, always, lowered);
    record_scores(profile, never, lowered);
    record_scores(profile, unused, lowered);
    assert((served * 15) / (served as int) == 15) by (nonlinear_arith)
        requires
            served > 0,
    ;
    assert(0int / (failed as int) == 0) by (nonlinear_arith)
        requires
            failed > 0,
    ;
}

/// What the score says of a record is the share of its successes, of fifteen:
/// no more, and less than one point less.
pub proof fn reliability_is_the_share_of_successes(
    profile: ProfileView,
    c: CandidateView,
    lowered: Seq<char>,
)
    requires
        has_record(c),
        c.recent_successes + c.recent_errors > 0,
    ensures
        ({
            let q = breakdown_of(profile, c, lowered).reliability as int;
            let total = c.recent_successes + c.recent_errors;
            q * total <= c.recent_successes * 15 < (q + 1) * total
        }),
{
    record_scores(profile, c, lowered);
    share_of(
        c.recent_successes as int,
        c.recent_errors as int,
        (c.recent_successes * 15) / (c.recent_successes + c.recent_errors),
    );
}

// ---------------------------------------------------------------- capabilities
/// What one capability is worth, by what is known of it.
pub open spec fn worth_of(needed: bool, yes: int, maybe: int, no: int) -> bool {
    if needed {
        yes == maybe + 18 && yes == no + 120
    } else {
        yes == maybe && maybe == no
    }
}

/// To see images scores where a request brings some: 18 points more than not to
/// be known for it, and 120 more than to lack it. Else it does not matter.
pub proof fn vision_scores_where_needed(
    profile: ProfileView,
    c: CandidateView,
    lowered: Seq<char>,
)
    requires
        has_record(c),
    ensures
        worth_of(
            profile.needs_vision,
            points(profile, CandidateView { supports_vision: Some(true), ..c }, lowered),
            points(profile, CandidateView { supports_vision: None, ..c }, lowered),
            points(profile, CandidateView { supports_vision: Some(false), ..c }, lowered),
        ),
{
    record_scores(profile, CandidateView { supports_vision: Some(true), ..c }, lowered);
    record_scores(profile, CandidateView { supports_vision: None, ..c }, lowered);
    record_scores(profile, CandidateView { supports_vision: Some(false), ..c }, lowered);
}

/// To call tools scores in the same way where a request needs tools.
pub proof fn tools_scores_where_needed(
    profile: ProfileView,
    c: CandidateView,
    lowered: Seq<char>,
)
    requires
        has_record(c),
    ensures
        worth_of(
            profile.needs_tools,
            points(profile, CandidateView { supports_tools: Some(true), ..c }, lowered),
            points(profile, CandidateView { supports_tools: None, ..c }, lowered),
            points(profile, CandidateView { supports_tools: Some(false), ..c }, lowered),
        ),
{
    record_scores(profile, CandidateView { supports_tools: Some(true), ..c }, lowered);
    record_scores(profile, CandidateView { supports_tools: None, ..c }, lowered);
    record_scores(profile, CandidateView { supports_tools: Some(false), ..c }, lowered);
}

/// To reason scores in the same way where a request needs reasoning.
pub proof fn reasoning_scores_where_needed(
    profile: ProfileView,
    c: CandidateView,
    lowered: Seq<char>,
)
    requires
        has_record(c),
    ensures
        worth_of(
            profile.needs_reasoning,
            points(profile, CandidateView { supports_reasoning: Some(true), ..c }, lowered),
            points(profile, CandidateView { supports_reasoning: None, ..c }, lowered),
            points(profile, CandidateView { supports_reasoning: Some(false), ..c }, lowered),
        ),
{
    record_scores(profile, CandidateView { supports_reasoning: Some(true), ..c }, lowered);
    record_scores(profile, CandidateView { supports_reasoning: None, ..c }, lowered);
    record_scores(profile, CandidateView { supports_reasoning: Some(false), ..c }, lowered);
}

/// Where a request is about code, the name of a model that is made for code
/// scores twelve points; where it is not, names do not matter.
pub proof fn names_for_code_score(
    profile: ProfileView,
    c: CandidateView,
    coder: Seq<char>,
    other: Seq<char>,
)
    requires
        has_record(c),
        occurs(coder, "coder"@) || occurs(coder, "code"@) || occurs(coder, "qwen3"@),
        !occurs(other, "coder"@),
        !occurs(other, "code"@),
        !occurs(other, "qwen3"@),
    ensures
        points(profile, c, coder) == points(profile, c, other) + (if profile.needs_coding {
            12int
        } else {
            0
        }),
{
    record_scores(profile, c, coder);
    record_scores(profile, c, other);
}

/// Where a request needs a long context, a window that holds its prompt scores
/// ten points; where it does not, the window does not matter.
pub proof fn long_windows_score(
    profile: ProfileView,
    c: CandidateView,
    lowered: Seq<char>,
    large: i64,
    small: i64,
)
    requires
        has_record(c),
        small < profile.estimated_prompt_tokens <= large,
    ensures
        ({
            let held = points(profile, CandidateView { context_window: Some(large), ..c }, lowered);
            let cut = points(profile, CandidateView { context_window: Some(small), ..c }, lowered);
            let unknown = points(profile, CandidateView { context_window: None, ..c }, lowered);
            &&& cut == unknown
            &&& held == unknown + (if profile.needs_long_context {
                10int
            } else {
                0
            })
        }),
{
    record_scores(profile, CandidateView { context_window: Some(large), ..c }, lowered);
    record_scores(profile, CandidateView { context_window: Some(small), ..c }, lowered);
    record_scores(profile, CandidateView { context_window: None, ..c }, lowered);
}

/// What a candidate that was never used scores for a request that needs
/// nothing in particular: 46 points with all of its quota, a provider of the
/// first priority and an unknown price. Names, keys and tiers do not matter.
pub proof fn an_unused_candidate_scores(
    profile: ProfileView,
    c: CandidateView,
    lowered: Seq<char>,
)
    requires
        needs_nothing(profile),
        c.recent_successes == 0,
        c.recent_errors == 0,
        c.recent_429s == 0,
        c.recent_timeouts == 0,
        c.quota_headroom >= 100,
        c.provider_priority <= 0,
        c.prompt_is_free is None,
    ensures
        points(profile, c, lowered) == 46,
{
    record_scores(profile, c, lowered);
}

// ---------------------------------------------------------------- ranking
/// In a ranking the scores never grow. Candidates that score alike stand in the
/// order of their providers' names, and with the same provider in that of their
/// models' names.
pub proof fn rankings_are_in_order(
    profile: ProfileView,
    candidates: Seq<CandidateView>,
    constraints: ConstraintsView,
    i: int,
    j: int,
)
    requires
        0 <= i < j < ranking(profile, candidates, constraints).len(),
    ensures
        ({
            let a = ranking(profile, candidates, constraints)[i];
            let b = ranking(profile, candidates, constraints)[j];
            &&& a.score >= b.score
            &&& a.score == b.score ==> !before(b.candidate.provider, a.candidate.provider)
            &&& a.score == b.score && a.candidate.provider == b.candidate.provider ==> !before(
                b.candidate.model,
                a.candidate.model,
            )
        }),
{
    ranks_before_is_order();
    let scores = kept(candidates, may_serve(profile, constraints)).map_values(scored(profile));
    sorted_is_in_order(scores, ranks_before());
    let r = ranking(profile, candidates, constraints);
    assert(!ranks_before()(r[j], r[i]));
}

/// What stands in a ranking: each candidate with the points that it scores.
pub(crate) proof fn ranked_with_points(
    profile: ProfileView,
    candidates: Seq<CandidateView>,
    constraints: ConstraintsView,
    i: int,
)
    requires
        0 <= i < ranking(profile, candidates, constraints).len(),
    ensures
        ({
            let a = ranking(profile, candidates, constraints)[i];
            &&& a.score == points(profile, a.candidate, lowercase_of(a.candidate.model))
            &&& a.breakdown == breakdown_of(
                profile,
                a.candidate,
                lowercase_of(a.candidate.model),
            )
        }),
{
    let fit = kept(candidates, may_serve(profile, constraints));
    let scores = fit.map_values(scored(profile));
    let r = ranking(profile, candidates, constraints);
    sorted_holds_the_same(scores, ranks_before(), r[i]);
    assert(r.contains(r[i]));
    let k = choose|k: int| 0 <= k < scores.len() && scores[k] == r[i];
    assert(scores[k] == scored(profile)(fit[k]));
}

/// Of two candidates of the same model that differ in their providers and keys
/// alone, the one whose provider has the lower priority number comes first,
/// where the numbers lie between 0 and 5.
pub proof fn lower_priority_numbers_come_first(
    profile: ProfileView,
    candidates: Seq<CandidateView>,
    constraints: ConstraintsView,
    i: int,
    j: int,
)
    requires
        0 <= i < ranking(profile, candidates, constraints).len(),
        0 <= j < ranking(profile, candidates, constraints).len(),
        ({
            let a = ranking(profile, candidates, constraints)[i].candidate;
            let b = ranking(profile, candidates, constraints)[j].candidate;
            &&& has_record(a)
            &&& 0 <= a.provider_priority < b.provider_priority <= 5
            &&& b == (CandidateView {
                provider: b.provider,
                api_key: b.api_key,
                tier: b.tier,
                provider_priority: b.provider_priority,
                ..a
            })
        }),
    ensures
        i < j,
{
    let r = ranking(profile, candidates, constraints);
    let a = r[i].candidate;
    let b = r[j].candidate;
    let lowered = lowercase_of(a.model);
    ranked_with_points(profile, candidates, constraints, i);
    ranked_with_points(profile, candidates, constraints, j);
    lower_priority_numbers_score_more(
        profile,
        a,
        lowered,
        a.provider_priority,
        b.provider_priority,
    );
    record_scores(profile, b, lowered);
    record_scores(profile, CandidateView { provider_priority: b.provider_priority, ..a }, lowered);
    assert(a == CandidateView { provider_priority: a.provider_priority, ..a });
    if j <= i {
        if j < i {
            rankings_are_in_order(profile, candidates, constraints, j, i);
        }
    }
}

/// Whether a candidate may serve: its provider is the one that is asked for and
/// belongs to the group that is asked for, it is free unless paying is allowed,
/// and it is not known to lack what the request cannot do without.
pub open spec fn is_fit(
    profile: ProfileView,
    constraints: ConstraintsView,
    c: CandidateView,
) -> bool {
    &&& constraints.provider is None || constraints.provider == Some(c.provider)
    &&& constraints.provider_group is None || constraints.provider_group->0.contains(c.provider)
    &&& c.tier == CandidateTier::Free || constraints.allow_paid
    &&& profile.needs_vision ==> c.supports_vision != Some(false)
    &&& profile.needs_tools ==> c.supports_tools != Some(false)
    &&& profile.needs_long_context && c.context_window is Some ==> c.context_window->0
        >= profile.estimated_prompt_tokens
}

/// A ranking holds every candidate that may serve, and no other.
pub proof fn rankings_hold_whoever_is_fit(
    profile: ProfileView,
    candidates: Seq<CandidateView>,
    constraints: ConstraintsView,
    c: CandidateView,
)
    ensures
        (exists|i: int|
            0 <= i < ranking(profile, candidates, constraints).len() && (#[trigger] ranking(
                profile,
                candidates,
                constraints,
            )[i]).candidate == c) <==> candidates.contains(c) && is_fit(profile, constraints, c),
{
    let p = may_serve(profile, constraints);
    let fit = kept(candidates, p);
    let scores = fit.map_values(scored(profile));
    let r = ranking(profile, candidates, constraints);
    kept_satisfies(candidates, p);
    assert(p(c) == is_fit(profile, constraints, c));
    if candidates.contains(c) && is_fit(profile, constraints, c) {
        assert(fit.contains(c));
        let k = choose|k: int| 0 <= k < fit.len() && fit[k] == c;
        assert(scores[k] == scored(profile)(c));
        assert(scores.contains(scores[k]));
        sorted_holds_the_same(scores, ranks_before(), scores[k]);
        let i = choose|i: int| 0 <= i < r.len() && r[i] == scores[k];
        assert(r[i].candidate == c);
    }
    if exists|i: int| 0 <= i < r.len() && (#[trigger] r[i]).candidate == c {
        let i = choose|i: int| 0 <= i < r.len() && (#[trigger] r[i]).candidate == c;
        assert(r.contains(r[i]));
        sorted_holds_the_same(scores, ranks_before(), r[i]);
        let k = choose|k: int| 0 <= k < scores.len() && scores[k] == r[i];
        assert(scores[k] == scored(profile)(fit[k]));
        assert(fit[k] == c);
        assert(fit.contains(fit[k]));
    }
}

/// The first of a ranking is fit and scores at least as much as every other
/// candidate that is.
pub proof fn the_best_comes_first(
    profile: ProfileView,
    candidates: Seq<CandidateView>,
    constraints: ConstraintsView,
    c: CandidateView,
)
    requires
        candidates.contains(c),
        is_fit(profile, constraints, c),
    ensures
        ({
            let r = ranking(profile, candidates, constraints);
            &&& r.len() > 0
            &&& candidates.contains(r[0].candidate)
            &&& is_fit(profile, constraints, r[0].candidate)
            &&& points(profile, r[0].candidate, lowercase_of(r[0].candidate.model)) >= points(
                profile,
                c,
                lowercase_of(c.model),
            )
        }),
{
    let r = ranking(profile, candidates, constraints);
    rankings_hold_whoever_is_fit(profile, candidates, constraints, c);
    let i = choose|i: int| 0 <= i < r.len() && (#[trigger] r[i]).candidate == c;
    rankings_hold_whoever_is_fit(profile, candidates, constraints, r[0].candidate);
    ranked_with_points(profile, candidates, constraints, 0);
    ranked_with_points(profile, candidates, constraints, i);
    if i > 0 {
        rankings_are_in_order(profile, candidates, constraints, 0, i);
    }
}

/// A ranking lists as many as there are fit, each as often as it was given.
pub proof fn rankings_list_each_as_given(
    profile: ProfileView,
    candidates: Seq<CandidateView>,
    constraints: ConstraintsView,
)
    requires
        forall|i: int|
            0 <= i < candidates.len() ==> is_fit(profile, constraints, #[trigger] candidates[i]),
    ensures
        ranking(profile, candidates, constraints).len() == candidates.len(),
        ranking(profile, candidates, constraints).to_multiset() =~= candidates.map_values(
            scored(profile),
        ).to_multiset(),
{
    let p = may_serve(profile, constraints);
    all_kept(candidates, p);
    sorted_is_permutation(candidates.map_values(scored(profile)), ranks_before());
}

proof fn all_kept(candidates: Seq<CandidateView>, p: spec_fn(CandidateView) -> bool)
    requires
        forall|i: int| 0 <= i < candidates.len() ==> p(#[trigger] candidates[i]),
    ensures
        kept(candidates, p) == candidates,
    decreases candidates.len(),
{
    if candidates.len() > 0 {
        assert(p(candidates[candidates.len() - 1]));
        all_kept(candidates.drop_last(), p);
        assert(candidates.drop_last().push(candidates.last()) =~= candidates);
    } else {
        assert(kept(candidates, p) =~= candidates);
    }
}

} // verus!
