//! What adaptive routing would do, and the routes that it offers.
use crate::adaptive::profile::{build_task_profile, kind_name, task_kind_name, TaskKind};
use crate::adaptive::routing::{
    acting_agent, AdaptiveScope, agent_providers, collect_candidates, concrete_model,
    concrete_requested_model, constraints_for_scope, is_reserved, is_reserved_provider_prefix,
    key_is_ready, label_of, ModelFacts, profile_under, providers_of_agent, ranked, refused,
    route_task, scope_agent, scope_label, tells,
};
use crate::adaptive::scoring::{
    CandidateTier, score_candidates, scored_views, ScoredCandidate, ScoredView,
};
use crate::api::attempts::at_most;
use crate::api::models::DisabledModels;
use crate::config::{AgentProfileConfig, Config, RoutingGroupConfig};
use crate::error::GatewayResult;
use crate::keystate::{KeyState, KeyStateView, state_views};
use crate::lists::{
    collected, collected_all, collected_next, flat, flat_all, flat_next, kept, kept_all, kept_next,
    lookup, named_in,
};
use crate::models::{ChatCompletionRequest, HealthState, RequestView};
use crate::sorting::{
    sort_and_dedup, sort_stably, sort_strings, sorted, sorted_maps, sorted_set, text_order,
};
use crate::text::{
    before, comes_before, concat2, concat3, copy_strings, list_has, opt_view, same, str_of, views,
};
use vstd::prelude::*;

verus! {

#[derive(Debug)]
pub struct RoutingDiagnostics {
    pub adaptive_enabled: bool,
    pub scope: String,
    pub requested_model: String,
    pub concrete_model: Option<String>,
    pub agent: Option<String>,
    pub task_kinds: Vec<String>,
    pub estimated_prompt_tokens: u32,
    pub candidates: Vec<DiagnosticCandidate>,
}

#[derive(Debug)]
pub struct DiagnosticCandidate {
    pub provider: String,
    pub model: String,
    pub tier: String,
    pub score: i32,
    pub selected: bool,
    pub supports_vision: Option<bool>,
    pub supports_tools: Option<bool>,
    pub supports_reasoning: Option<bool>,
    pub context_window: Option<i64>,
    pub recent_successes: i64,
    pub recent_errors: i64,
    pub recent_429s: i64,
    pub recent_timeouts: i64,
    pub quota_headroom: u32,
    pub breakdown: DiagnosticScoreBreakdown,
}

#[derive(Debug, Clone, Copy, PartialEq, Eq, Structural)]
pub struct DiagnosticScoreBreakdown {
    pub capability_match: i32,
    pub reliability: i32,
    pub quota: i32,
    pub provider_priority: i32,
    pub cost: i32,
    pub penalty: i32,
}

#[derive(Debug)]
pub struct RoutingGroupSummary {
    pub name: String,
    pub route_prefix: String,
    pub provider_names: Vec<String>,
    pub agents: Vec<String>,
    pub providers: Vec<RoutingGroupProviderSummary>,
}

#[derive(Debug)]
pub struct RoutingGroupProviderSummary {
    pub name: String,
    pub configured: bool,
    pub enabled: bool,
    pub health_status: Option<String>,
    pub available_keys: usize,
    pub total_keys: usize,
    pub models_count: usize,
}

#[derive(Debug)]
pub struct RoutingRouteSummary {
    pub kind: String,
    pub name: String,
    pub route_prefix: String,
    pub models_route: String,
    pub chat_route: String,
    pub enabled: bool,
    pub providers: Vec<String>,
    pub agents: Vec<String>,
}

// ---------------------------------------------------------------- diagnostics
/// What a [`DiagnosticCandidate`] holds.
pub struct DiagnosticView {
    pub provider: Seq<char>,
    pub model: Seq<char>,
    pub tier: Seq<char>,
    pub score: i32,
    pub selected: bool,
    pub supports_vision: Option<bool>,
    pub supports_tools: Option<bool>,
    pub supports_reasoning: Option<bool>,
    pub context_window: Option<i64>,
    pub recent_successes: i64,
    pub recent_errors: i64,
    pub recent_429s: i64,
    pub recent_timeouts: i64,
    pub quota_headroom: u32,
    pub breakdown: DiagnosticScoreBreakdown,
}

impl View for DiagnosticCandidate {
    type V = DiagnosticView;

    open spec fn view(&self) -> DiagnosticView {
        DiagnosticView {
            provider: self.provider@,
            model: self.model@,
            tier: self.tier@,
            score: self.score,
            selected: self.selected,
            supports_vision: self.supports_vision,
            supports_tools: self.supports_tools,
            supports_reasoning: self.supports_reasoning,
            context_window: self.context_window,
            recent_successes: self.recent_successes,
            recent_errors: self.recent_errors,
            recent_429s: self.recent_429s,
            recent_timeouts: self.recent_timeouts,
            quota_headroom: self.quota_headroom,
            breakdown: self.breakdown,
        }
    }
}

/// What [`RoutingDiagnostics`] hold.
pub struct DiagnosticsView {
    pub adaptive_enabled: bool,
    pub scope: Seq<char>,
    pub requested_model: Seq<char>,
    pub concrete_model: Option<Seq<char>>,
    pub agent: Option<Seq<char>>,
    pub task_kinds: Seq<Seq<char>>,
    pub estimated_prompt_tokens: u32,
    pub candidates: Seq<DiagnosticView>,
}

impl View for RoutingDiagnostics {
    type V = DiagnosticsView;

    open spec fn view(&self) -> DiagnosticsView {
        DiagnosticsView {
            adaptive_enabled: self.adaptive_enabled,
            scope: self.scope@,
            requested_model: self.requested_model@,
            concrete_model: opt_view(self.concrete_model),
            agent: opt_view(self.agent),
            task_kinds: views(self.task_kinds@),
            estimated_prompt_tokens: self.estimated_prompt_tokens,
            candidates: self.candidates@.map_values(|c: DiagnosticCandidate| c@),
        }
    }
}

/// The name of a tier.
pub open spec fn tier_name(tier: CandidateTier) -> Seq<char> {
    match tier {
        CandidateTier::Free => "free"@,
        CandidateTier::Paid => "paid"@,
        CandidateTier::Unknown => "unknown"@,
    }
}

/// The name of a tier.
pub fn candidate_tier_name(tier: CandidateTier) -> (r: &'static str)
    ensures
        r@ == tier_name(tier),
{
    match tier {
        CandidateTier::Free => "free",
        CandidateTier::Paid => "paid",
        CandidateTier::Unknown => "unknown",
    }
}

/// A scored candidate as it is shown; the first is the one selected.
pub open spec fn diagnosed(s: ScoredView, place: int) -> DiagnosticView {
    DiagnosticView {
        provider: s.candidate.provider,
        model: s.candidate.model,
        tier: tier_name(s.candidate.tier),
        score: s.score,
        selected: place == 0,
        supports_vision: s.candidate.supports_vision,
        supports_tools: s.candidate.supports_tools,
        supports_reasoning: s.candidate.supports_reasoning,
        context_window: s.candidate.context_window,
        recent_successes: s.candidate.recent_successes,
        recent_errors: s.candidate.recent_errors,
        recent_429s: s.candidate.recent_429s,
        recent_timeouts: s.candidate.recent_timeouts,
        quota_headroom: s.candidate.quota_headroom,
        breakdown: DiagnosticScoreBreakdown {
            capability_match: s.breakdown.capability_match,
            reliability: s.breakdown.reliability,
            quota: s.breakdown.quota,
            provider_priority: s.breakdown.provider_priority,
            cost: s.breakdown.cost,
            penalty: s.breakdown.penalty,
        },
    }
}

/// How a request would be routed: what it is taken for, and the best
/// candidates.
pub open spec fn diagnostics_of(
    config: Config,
    best: Seq<ScoredView>,
    scope: AdaptiveScope,
    request: RequestView,
) -> DiagnosticsView {
    let profile = profile_under(config, scope, request);
    DiagnosticsView {
        adaptive_enabled: config.adaptive_routing.enabled,
        scope: label_of(scope),
        requested_model: request.model,
        concrete_model: concrete_model(config, request.model),
        agent: acting_agent(scope, request),
        task_kinds: profile.task_kinds.map_values(|k: TaskKind| kind_name(k)),
        estimated_prompt_tokens: profile.estimated_prompt_tokens,
        candidates: at_most(best, config.adaptive_routing.candidate_limit as int).map(
            |i: int, s: ScoredView| diagnosed(s, i),
        ),
    }
}

fn diagnose(s: &ScoredCandidate, place: usize) -> (r: DiagnosticCandidate)
    ensures
        r@ == diagnosed(s@, place as int),
{
    DiagnosticCandidate {
        provider: s.candidate.provider.clone(),
        model: s.candidate.model.clone(),
        tier: candidate_tier_name(s.candidate.tier).to_owned(),
        score: s.score,
        selected: place == 0,
        supports_vision: s.candidate.supports_vision,
        supports_tools: s.candidate.supports_tools,
        supports_reasoning: s.candidate.supports_reasoning,
        context_window: s.candidate.context_window,
        recent_successes: s.candidate.recent_successes,
        recent_errors: s.candidate.recent_errors,
        recent_429s: s.candidate.recent_429s,
        recent_timeouts: s.candidate.recent_timeouts,
        quota_headroom: s.candidate.quota_headroom,
        breakdown: DiagnosticScoreBreakdown {
            capability_match: s.breakdown.capability_match,
            reliability: s.breakdown.reliability,
            quota: s.breakdown.quota,
            provider_priority: s.breakdown.provider_priority,
            cost: s.breakdown.cost,
            penalty: s.breakdown.penalty,
        },
    }
}

/// How a request would be routed, in a snapshot of all keys.
pub fn routing_diagnostics(
    config: &Config,
    snapshot: &Vec<(String, Vec<KeyState>)>,
    disabled: &DisabledModels,
    facts: &Vec<ModelFacts>,
    now: u64,
    scope: &AdaptiveScope,
    request: &ChatCompletionRequest,
) -> (r: GatewayResult<RoutingDiagnostics>)
    ensures
        match refused(*config, *scope) {
            Some(why) => r matches Err(e) && tells(e, why),
            None => r matches Ok(d) && d@ == diagnostics_of(
                *config,
                ranked(*config, snapshot@, disabled@, facts@, now, *scope, request@),
                *scope,
                request@,
            ),
        },
{
    let constraints = match constraints_for_scope(config, scope) {
        Ok(c) => c,
        Err(e) => {
            return Err(e);
        },
    };
    let task = route_task(config, scope, request.model.as_str());
    let agent = match scope_agent(scope) {
        Some(a) => Some(a),
        None => str_of(&request.agent_name),
    };
    let profile = build_task_profile(agent, request, str_of(&task));
    let exact = concrete_requested_model(config, request.model.as_str());
    let candidates = collect_candidates(
        config,
        snapshot,
        disabled,
        facts,
        str_of(&exact),
        &constraints,
        now,
    );
    let scored = score_candidates(&profile, &candidates, &constraints);
    let ghost best = ranked(*config, snapshot@, disabled@, facts@, now, *scope, request@);
    assert(scored_views(scored@) == best);
    assert(scored@.len() == best.len());
    let limit = config.adaptive_routing.candidate_limit;
    let ghost goal = diagnostics_of(*config, best, *scope, request@);
    let mut list: Vec<DiagnosticCandidate> = Vec::new();
    let mut i: usize = 0;
    while i < scored.len() && i < limit
        invariant
            i <= scored@.len(),
            i <= limit,
            limit == config.adaptive_routing.candidate_limit,
            scored_views(scored@) == best,
            list@.len() == i,
            forall|j: int| 0 <= j < i ==> (#[trigger] list@[j])@ == diagnosed(best[j], j),
        decreases scored@.len() - i,
    {
        assert(best[i as int] == scored@[i as int]@);
        list.push(diagnose(&scored[i], i));
        i += 1;
    }
    assert(list@.map_values(|c: DiagnosticCandidate| c@) =~= goal.candidates);
    let mut kinds: Vec<String> = Vec::new();
    let mut k: usize = 0;
    while k < profile.task_kinds.len()
        invariant
            k <= profile.task_kinds@.len(),
            kinds@.len() == k,
            forall|j: int|
                0 <= j < k ==> (#[trigger] kinds@[j])@ == kind_name(profile.task_kinds@[j]),
        decreases profile.task_kinds@.len() - k,
    {
        kinds.push(task_kind_name(&profile.task_kinds[k]));
        k += 1;
    }
    assert(views(kinds@) =~= goal.task_kinds);
    Ok(
        RoutingDiagnostics {
            adaptive_enabled: config.adaptive_routing.enabled,
            scope: scope_label(scope),
            requested_model: request.model.clone(),
            concrete_model: exact,
            agent: match agent {
                Some(a) => Some(a.to_owned()),
                None => None,
            },
            task_kinds: kinds,
            estimated_prompt_tokens: profile.estimated_prompt_tokens,
            candidates: list,
        },
    )
}

/// Exactly the first candidate that is shown is marked as selected.
pub proof fn one_candidate_is_selected(
    config: Config,
    best: Seq<ScoredView>,
    scope: AdaptiveScope,
    request: RequestView,
)
    ensures
        forall|i: int|
            0 <= i < diagnostics_of(config, best, scope, request).candidates.len() ==> (
            #[trigger] diagnostics_of(config, best, scope, request).candidates[i]).selected == (i
                == 0),
{
}

// ---------------------------------------------------------------- groups
/// What a [`RoutingGroupProviderSummary`] holds.
pub struct GroupProviderView {
    pub name: Seq<char>,
    pub configured: bool,
    pub enabled: bool,
    pub health_status: Option<Seq<char>>,
    pub available_keys: nat,
    pub total_keys: nat,
    pub models_count: nat,
}

impl View for RoutingGroupProviderSummary {
    type V = GroupProviderView;

    open spec fn view(&self) -> GroupProviderView {
        GroupProviderView {
            name: self.name@,
            configured: self.configured,
            enabled: self.enabled,
            health_status: opt_view(self.health_status),
            available_keys: self.available_keys as nat,
            total_keys: self.total_keys as nat,
            models_count: self.models_count as nat,
        }
    }
}

/// What a [`RoutingGroupSummary`] holds.
pub struct GroupView {
    pub name: Seq<char>,
    pub route_prefix: Seq<char>,
    pub provider_names: Seq<Seq<char>>,
    pub agents: Seq<Seq<char>>,
    pub providers: Seq<GroupProviderView>,
}

impl View for RoutingGroupSummary {
    type V = GroupView;

    open spec fn view(&self) -> GroupView {
        GroupView {
            name: self.name@,
            route_prefix: self.route_prefix@,
            provider_names: views(self.provider_names@),
            agents: views(self.agents@),
            providers: self.providers@.map_values(|p: RoutingGroupProviderSummary| p@),
        }
    }
}

/// The views of some groups.
pub open spec fn group_views(list: Seq<RoutingGroupSummary>) -> Seq<GroupView> {
    list.map_values(|g: RoutingGroupSummary| g@)
}

/// The health of a provider.
pub open spec fn health_status(health: Seq<HealthState>, provider: Seq<char>) -> Option<Seq<char>> {
    let mine = kept(health, |h: HealthState| h.provider@ == provider);
    if mine.len() == 0 {
        None
    } else {
        Some(mine.last().status@)
    }
}

/// The keys of a provider in a snapshot.
pub open spec fn keys_of(snapshot: Seq<(String, Vec<KeyState>)>, provider: Seq<char>) -> Seq<
    KeyStateView,
> {
    match named_in(snapshot, provider) {
        Some(keys) => state_views(keys@),
        None => Seq::empty(),
    }
}

/// How many models some keys serve, each counted once.
pub open spec fn distinct_models(keys: Seq<KeyStateView>) -> nat {
    sorted_set(flat(keys, |k: KeyStateView| k.models)).len()
}

/// A provider of a group.
pub open spec fn group_provider(
    config: Config,
    snapshot: Seq<(String, Vec<KeyState>)>,
    health: Seq<HealthState>,
    now: u64,
) -> spec_fn(Seq<char>) -> GroupProviderView {
    |provider: Seq<char>|
        {
            let known = named_in(config.providers@, provider);
            let keys = keys_of(snapshot, provider);
            GroupProviderView {
                name: provider,
                configured: known is Some,
                enabled: match known {
                    Some(p) => p.enabled,
                    None => false,
                },
                health_status: health_status(health, provider),
                available_keys: kept(keys, |k: KeyStateView| k.ready(now)).len(),
                total_keys: keys.len(),
                models_count: distinct_models(keys),
            }
        }
}

/// The name of an agent that uses a group.
pub open spec fn agent_using(group: Seq<char>) -> spec_fn((String, AgentProfileConfig)) -> Option<
    Seq<char>,
> {
    |a: (String, AgentProfileConfig)|
        if views(a.1.provider_groups@).contains(group) {
            Some(a.0@)
        } else {
            None
        }
}

/// A group of providers.
pub open spec fn group_summary(
    config: Config,
    snapshot: Seq<(String, Vec<KeyState>)>,
    health: Seq<HealthState>,
    now: u64,
) -> spec_fn((String, RoutingGroupConfig)) -> GroupView {
    |g: (String, RoutingGroupConfig)|
        GroupView {
            name: g.0@,
            route_prefix: "/provider-groups/"@ + g.0@ + "/v1"@,
            provider_names: views(g.1.providers@),
            agents: collected(config.adaptive_routing.agent_profiles@, agent_using(g.0@)),
            providers: views(g.1.providers@).map_values(
                group_provider(config, snapshot, health, now),
            ),
        }
}

/// By name.
pub open spec fn by_group_name() -> spec_fn(GroupView, GroupView) -> bool {
    |a: GroupView, b: GroupView| before(a.name, b.name)
}

/// The groups of providers, by name.
pub open spec fn groups_of(
    config: Config,
    snapshot: Seq<(String, Vec<KeyState>)>,
    health: Seq<HealthState>,
    now: u64,
) -> Seq<GroupView> {
    sorted(
        config.adaptive_routing.routing_groups@.map_values(
            group_summary(config, snapshot, health, now),
        ),
        by_group_name(),
    )
}

fn health_of(health: &Vec<HealthState>, provider: &str) -> (r: Option<String>)
    ensures
        opt_view(r) == health_status(health@, provider@),
{
    let ghost p = |h: HealthState| h.provider@ == provider@;
    let mut r: Option<String> = None;
    let mut i: usize = 0;
    proof {
        kept_all(health@, p);
    }
    while i < health.len()
        invariant
            i <= health@.len(),
            p == (|h: HealthState| h.provider@ == provider@),
            opt_view(r) == ({
                let mine = kept(health@.take(i as int), p);
                if mine.len() == 0 {
                    None
                } else {
                    Some(mine.last().status@)
                }
            }),
        decreases health@.len() - i,
    {
        proof {
            kept_next(health@, p, i as int);
        }
        if same(health[i].provider.as_str(), provider) {
            r = Some(health[i].status.clone());
        }
        i += 1;
    }
    r
}

fn count_models(keys: &Vec<KeyState>) -> (r: usize)
    ensures
        r == distinct_models(state_views(keys@)),
{
    let ghost all = state_views(keys@);
    let ghost f = |k: KeyStateView| k.models;
    let mut list: Vec<String> = Vec::new();
    let mut i: usize = 0;
    proof {
        flat_all(all, f);
        assert(views(list@) =~= flat(all.take(0), f));
    }
    while i < keys.len()
        invariant
            i <= keys@.len(),
            all == state_views(keys@),
            f == (|k: KeyStateView| k.models),
            views(list@) == flat(all.take(i as int), f),
        decreases keys@.len() - i,
    {
        proof {
            flat_next(all, f, i as int);
            assert(all[i as int] == keys@[i as int]@);
        }
        let ghost start = views(list@);
        let models = &keys[i].models;
        let mut j: usize = 0;
        assert(start + views(models@).take(0) =~= start);
        while j < models.len()
            invariant
                j <= models@.len(),
                views(list@) == start + views(models@).take(j as int),
            decreases models@.len() - j,
        {
            let ghost so_far = views(list@);
            list.push(models[j].clone());
            assert(views(list@) =~= so_far.push(models@[j as int]@));
            j += 1;
            assert(start + views(models@).take(j as int) =~= (start + views(models@).take(
                j - 1,
            )).push(models@[j - 1]@));
        }
        assert(views(models@).take(models@.len() as int) =~= views(models@));
        i += 1;
    }
    let distinct = sort_and_dedup(list);
    assert(views(distinct@).len() == distinct@.len());
    distinct.len()
}

fn count_ready(keys: &Vec<KeyState>, now: u64) -> (r: usize)
    ensures
        r == kept(state_views(keys@), |k: KeyStateView| k.ready(now)).len(),
{
    let ghost all = state_views(keys@);
    let ghost p = |k: KeyStateView| k.ready(now);
    let mut n: usize = 0;
    let mut i: usize = 0;
    proof {
        kept_all(all, p);
    }
    while i < keys.len()
        invariant
            i <= keys@.len(),
            n <= i,
            all == state_views(keys@),
            p == (|k: KeyStateView| k.ready(now)),
            n == kept(all.take(i as int), p).len(),
        decreases keys@.len() - i,
    {
        proof {
            kept_next(all, p, i as int);
            assert(all[i as int] == keys@[i as int]@);
        }
        if key_is_ready(&keys[i], now) {
            n += 1;
        }
        i += 1;
    }
    n
}

fn summarize_provider(
    config: &Config,
    snapshot: &Vec<(String, Vec<KeyState>)>,
    health: &Vec<HealthState>,
    now: u64,
    provider: &str,
) -> (r: RoutingGroupProviderSummary)
    ensures
        r@ == group_provider(*config, snapshot@, health@, now)(provider@),
{
    let (configured, enabled) = match lookup(&config.providers, provider) {
        Some(p) => (true, p.enabled),
        None => (false, false),
    };
    let (available_keys, total_keys, models_count) = match lookup(snapshot, provider) {
        Some(keys) => {
            assert(state_views(keys@).len() == keys@.len());
            (count_ready(keys, now), keys.len(), count_models(keys))
        },
        None => {
            let none: Vec<KeyState> = Vec::new();
            assert(state_views(none@) =~= Seq::empty());
            (count_ready(&none, now), 0, count_models(&none))
        },
    };
    RoutingGroupProviderSummary {
        name: provider.to_owned(),
        configured,
        enabled,
        health_status: health_of(health, provider),
        available_keys,
        total_keys,
        models_count,
    }
}

fn agents_using(config: &Config, group: &str) -> (r: Vec<String>)
    ensures
        views(r@) == collected(
            config.adaptive_routing.agent_profiles@,
            agent_using(group@),
        ),
{
    let ghost all = config.adaptive_routing.agent_profiles@;
    let ghost f = agent_using(group@);
    let profiles = &config.adaptive_routing.agent_profiles;
    let mut r: Vec<String> = Vec::new();
    let mut i: usize = 0;
    proof {
        collected_all(all, f);
        assert(views(r@) =~= collected(all.take(0), f));
    }
    while i < profiles.len()
        invariant
            i <= profiles@.len(),
            all == profiles@,
            f == agent_using(group@),
            views(r@) == collected(all.take(i as int), f),
        decreases profiles@.len() - i,
    {
        proof {
            collected_next(all, f, i as int);
        }
        if list_has(&profiles[i].1.provider_groups, group) {
            let ghost so_far = views(r@);
            r.push(profiles[i].0.clone());
            assert(views(r@) =~= so_far.push(profiles@[i as int].0@));
        }
        i += 1;
    }
    r
}

fn summarize_group(
    config: &Config,
    snapshot: &Vec<(String, Vec<KeyState>)>,
    health: &Vec<HealthState>,
    now: u64,
    entry: &(String, RoutingGroupConfig),
) -> (r: RoutingGroupSummary)
    ensures
        r@ == group_summary(*config, snapshot@, health@, now)(*entry),
{
    let names = &entry.1.providers;
    let mut providers: Vec<RoutingGroupProviderSummary> = Vec::new();
    let mut i: usize = 0;
    while i < names.len()
        invariant
            i <= names@.len(),
            providers@.len() == i,
            forall|j: int|
                0 <= j < i ==> (#[trigger] providers@[j])@ == group_provider(
                    *config,
                    snapshot@,
                    health@,
                    now,
                )(names@[j]@),
        decreases names@.len() - i,
    {
        providers.push(summarize_provider(config, snapshot, health, now, names[i].as_str()));
        i += 1;
    }
    assert(providers@.map_values(|p: RoutingGroupProviderSummary| p@) =~= views(
        names@,
    ).map_values(group_provider(*config, snapshot@, health@, now)));
    RoutingGroupSummary {
        name: entry.0.clone(),
        route_prefix: concat3("/provider-groups/", entry.0.as_str(), "/v1"),
        provider_names: copy_strings(names),
        agents: agents_using(config, entry.0.as_str()),
        providers,
    }
}

/// The groups of providers, by name, in a snapshot of all keys.
pub fn routing_groups_summary(
    config: &Config,
    snapshot: &Vec<(String, Vec<KeyState>)>,
    health: &Vec<HealthState>,
    now: u64,
) -> (r: Vec<RoutingGroupSummary>)
    ensures
        group_views(r@) == groups_of(*config, snapshot@, health@, now),
{
    let groups = &config.adaptive_routing.routing_groups;
    let ghost f = group_summary(*config, snapshot@, health@, now);
    let mut list: Vec<RoutingGroupSummary> = Vec::new();
    let mut i: usize = 0;
    while i < groups.len()
        invariant
            i <= groups@.len(),
            f == group_summary(*config, snapshot@, health@, now),
            list@.len() == i,
            forall|j: int| 0 <= j < i ==> (#[trigger] list@[j])@ == f(groups@[j]),
        decreases groups@.len() - i,
    {
        list.push(summarize_group(config, snapshot, health, now, &groups[i]));
        i += 1;
    }
    assert(group_views(list@) =~= groups@.map_values(f));
    let ghost precedes = |a: RoutingGroupSummary, b: RoutingGroupSummary| before(a.name@, b.name@);
    let comes = |a: &RoutingGroupSummary, b: &RoutingGroupSummary| -> (c: bool)
        ensures
            c == before(a.name@, b.name@),
        { comes_before(a.name.as_str(), b.name.as_str()) };
    let ghost given = list@;
    let r = sort_stably(list, comes, Ghost(precedes));
    proof {
        sorted_maps(given, precedes, |g: RoutingGroupSummary| g@, by_group_name());
    }
    r
}

// ---------------------------------------------------------------- routes
/// What a [`RoutingRouteSummary`] holds.
pub struct RouteView {
    pub kind: Seq<char>,
    pub name: Seq<char>,
    pub route_prefix: Seq<char>,
    pub models_route: Seq<char>,
    pub chat_route: Seq<char>,
    pub enabled: bool,
    pub providers: Seq<Seq<char>>,
    pub agents: Seq<Seq<char>>,
}

impl View for RoutingRouteSummary {
    type V = RouteView;

    open spec fn view(&self) -> RouteView {
        RouteView {
            kind: self.kind@,
            name: self.name@,
            route_prefix: self.route_prefix@,
            models_route: self.models_route@,
            chat_route: self.chat_route@,
            enabled: self.enabled,
            providers: views(self.providers@),
            agents: views(self.agents@),
        }
    }
}

/// The views of some routes.
pub open spec fn route_views(list: Seq<RoutingRouteSummary>) -> Seq<RouteView> {
    list.map_values(|r: RoutingRouteSummary| r@)
}

/// A route under a prefix.
pub open spec fn route(
    kind: Seq<char>,
    name: Seq<char>,
    prefix: Seq<char>,
    enabled: bool,
    providers: Seq<Seq<char>>,
    agents: Seq<Seq<char>>,
) -> RouteView {
    RouteView {
        kind,
        name,
        route_prefix: prefix,
        models_route: prefix + "/models"@,
        chat_route: prefix + "/chat/completions"@,
        enabled,
        providers,
        agents,
    }
}

/// The route of an agent.
pub open spec fn agent_route(config: Config) -> spec_fn(Seq<char>) -> RouteView {
    |agent: Seq<char>|
        route(
            "agent"@,
            agent,
            "/agents/"@ + agent + "/v1"@,
            config.adaptive_routing.enabled,
            sorted_set(agent_providers(config, agent)),
            seq![agent],
        )
}

/// The route of a provider, unless its name is reserved.
pub open spec fn provider_route(config: Config) -> spec_fn(Seq<char>) -> Option<RouteView> {
    |provider: Seq<char>|
        if is_reserved(provider) {
            None
        } else {
            Some(
                route(
                    "provider"@,
                    provider,
                    "/"@ + provider + "/v1"@,
                    config.adaptive_routing.enabled && (match named_in(
                        config.providers@,
                        provider,
                    ) {
                        Some(p) => p.enabled,
                        None => false,
                    }),
                    seq![provider],
                    Seq::empty(),
                ),
            )
        }
}

/// The route of a group.
pub open spec fn group_route(config: Config) -> spec_fn(GroupView) -> RouteView {
    |g: GroupView|
        route(
            "provider_group"@,
            g.name,
            g.route_prefix,
            config.adaptive_routing.enabled,
            g.provider_names,
            g.agents,
        )
}

/// The names in a list of named values, in order.
pub open spec fn names_in<V>(list: Seq<(String, V)>) -> Seq<Seq<char>> {
    sorted(list.map_values(|e: (String, V)| e.0@), text_order())
}

/// The routes: the automatic one, those of the agents, of the providers and of
/// the groups.
pub open spec fn routes_of(config: Config, groups: Seq<GroupView>) -> Seq<RouteView> {
    seq![
        route(
            "auto"@,
            "auto"@,
            "/auto/v1"@,
            config.adaptive_routing.enabled,
            Seq::empty(),
            Seq::empty(),
        ),
    ] + names_in(config.adaptive_routing.agent_profiles@).map_values(agent_route(config))
        + collected(names_in(config.providers@), provider_route(config)) + groups.map_values(
        group_route(config),
    )
}

fn make_route(
    kind: &str,
    name: &str,
    prefix: &str,
    enabled: bool,
    providers: Vec<String>,
    agents: Vec<String>,
) -> (r: RoutingRouteSummary)
    ensures
        r@ == route(kind@, name@, prefix@, enabled, views(providers@), views(agents@)),
{
    RoutingRouteSummary {
        kind: kind.to_owned(),
        name: name.to_owned(),
        route_prefix: prefix.to_owned(),
        models_route: concat2(prefix, "/models"),
        chat_route: concat2(prefix, "/chat/completions"),
        enabled,
        providers,
        agents,
    }
}

fn sorted_names<V>(list: &Vec<(String, V)>) -> (r: Vec<String>)
    ensures
        views(r@) == names_in(list@),
{
    let mut names: Vec<String> = Vec::new();
    let mut i: usize = 0;
    while i < list.len()
        invariant
            i <= list@.len(),
            names@.len() == i,
            forall|j: int| 0 <= j < i ==> (#[trigger] names@[j])@ == list@[j].0@,
        decreases list@.len() - i,
    {
        names.push(list[i].0.clone());
        i += 1;
    }
    assert(views(names@) =~= list@.map_values(|e: (String, V)| e.0@));
    sort_strings(names)
}

fn one_name(name: &str) -> (r: Vec<String>)
    ensures
        views(r@) == seq![name@],
{
    let mut r: Vec<String> = Vec::new();
    r.push(name.to_owned());
    assert(views(r@) =~= seq![name@]);
    r
}

fn no_names() -> (r: Vec<String>)
    ensures
        views(r@) == Seq::<Seq<char>>::empty(),
{
    let r: Vec<String> = Vec::new();
    assert(views(r@) =~= Seq::<Seq<char>>::empty());
    r
}

fn push_route(list: &mut Vec<RoutingRouteSummary>, r: RoutingRouteSummary)
    ensures
        route_views(final(list)@) == route_views(old(list)@).push(r@),
{
    let ghost so_far = route_views(list@);
    list.push(r);
    assert(route_views(list@) =~= so_far.push(r@));
}

/// The routes that adaptive routing offers, given the groups of providers.
pub fn routing_routes_summary(config: &Config, groups: &Vec<RoutingGroupSummary>) -> (r: Vec<
    RoutingRouteSummary,
>)
    ensures
        route_views(r@) == routes_of(*config, group_views(groups@)),
{
    let enabled = config.adaptive_routing.enabled;
    let mut routes: Vec<RoutingRouteSummary> = Vec::new();
    assert(route_views(routes@) =~= Seq::empty());
    push_route(&mut routes, make_route("auto", "auto", "/auto/v1", enabled, no_names(), no_names()));
    let ghost first = route_views(routes@);
    assert(first =~= seq![
        route("auto"@, "auto"@, "/auto/v1"@, enabled, Seq::empty(), Seq::empty()),
    ]);
    let agents = sorted_names(&config.adaptive_routing.agent_profiles);
    let ghost agent_names = names_in(config.adaptive_routing.agent_profiles@);
    let ghost second = agent_names.map_values(agent_route(*config));
    let mut i: usize = 0;
    assert(first + second.take(0) =~= first);
    while i < agents.len()
        invariant
            i <= agents@.len(),
            enabled == config.adaptive_routing.enabled,
            agent_names == views(agents@),
            second == agent_names.map_values(agent_route(*config)),
            route_views(routes@) == first + second.take(i as int),
        decreases agents@.len() - i,
    {
        let agent = agents[i].as_str();
        assert(agent_names[i as int] == agent@);
        let prefix = concat3("/agents/", agent, "/v1");
        let providers = sort_and_dedup(providers_of_agent(config, agent));
        let r = make_route("agent", agent, prefix.as_str(), enabled, providers, one_name(agent));
        assert(r@ == second[i as int]);
        push_route(&mut routes, r);
        i += 1;
        assert(first + second.take(i as int) =~= (first + second.take(i - 1)).push(second[i - 1]));
    }
    assert(second.take(second.len() as int) =~= second);
    let ghost two = route_views(routes@);
    let providers = sorted_names(&config.providers);
    let ghost provider_names = names_in(config.providers@);
    let ghost f = provider_route(*config);
    let mut k: usize = 0;
    proof {
        collected_all(provider_names, f);
        assert(two + collected(provider_names.take(0), f) =~= two);
    }
    while k < providers.len()
        invariant
            k <= providers@.len(),
            enabled == config.adaptive_routing.enabled,
            provider_names == views(providers@),
            f == provider_route(*config),
            route_views(routes@) == two + collected(provider_names.take(k as int), f),
        decreases providers@.len() - k,
    {
        let provider = providers[k].as_str();
        proof {
            collected_next(provider_names, f, k as int);
            assert(provider_names[k as int] == provider@);
        }
        if !is_reserved_provider_prefix(provider) {
            let prefix = concat3("/", provider, "/v1");
            let on = match lookup(&config.providers, provider) {
                Some(p) => enabled && p.enabled,
                None => false,
            };
            let r = make_route(
                "provider",
                provider,
                prefix.as_str(),
                on,
                one_name(provider),
                no_names(),
            );
            let ghost earlier = collected(provider_names.take(k as int), f);
            let ghost v = r@;
            push_route(&mut routes, r);
            assert(two + earlier.push(v) =~= (two + earlier).push(v));
        }
        k += 1;
    }
    let ghost three = route_views(routes@);
    let ghost group_list = group_views(groups@);
    let ghost fourth = group_list.map_values(group_route(*config));
    let mut n: usize = 0;
    assert(three + fourth.take(0) =~= three);
    while n < groups.len()
        invariant
            n <= groups@.len(),
            enabled == config.adaptive_routing.enabled,
            group_list == group_views(groups@),
            fourth == group_list.map_values(group_route(*config)),
            route_views(routes@) == three + fourth.take(n as int),
        decreases groups@.len() - n,
    {
        let g = &groups[n];
        assert(group_list[n as int] == g@);
        let r = make_route(
            "provider_group",
            g.name.as_str(),
            g.route_prefix.as_str(),
            enabled,
            copy_strings(&g.provider_names),
            copy_strings(&g.agents),
        );
        assert(r@ == fourth[n as int]);
        push_route(&mut routes, r);
        n += 1;
        assert(three + fourth.take(n as int) =~= (three + fourth.take(n - 1)).push(fourth[n - 1]));
    }
    assert(fourth.take(fourth.len() as int) =~= fourth);
    routes
}

} // verus!
