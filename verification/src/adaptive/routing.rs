//! Which candidates there are for a request, and which of them serves it.
use crate::adaptive::profile::{build_task_profile, ProfileView, signals_of, TaskKind, TaskProfile};
use crate::adaptive::scoring::{
    AdaptiveCandidate, candidate_views, CandidateTier, CandidateView, ConstraintsView,
    provider_allowed, ranked_are_allowed, ranking, RouteConstraints, score_candidates,
    scored_views, ScoredView,
};
use crate::api::models::{
    DisabledModels, info_views, is_disabled, merge_model_families, merged_families, model_disabled,
    ModelInfoView, plain_info, plain_model,
};
use crate::clock::now_seconds;
use crate::config::{Config, KeyTier};
use crate::error::{GatewayError, GatewayResult};
use crate::keyhub::KeyHub;
use crate::keyhub::hub::{hub_maskable, HubView, lists_masked};
use crate::keystate::{KeyState, KeyStateView, KeyStatus, state_views};
use crate::lists::{
    collected, collected_all, collected_next, flat, flat_all, flat_next, kept, kept_all, kept_next,
    lookup, named_in,
};
use crate::models::{ChatCompletionRequest, ModelInfo, RequestView};
use crate::text::{
    concat2, concat3, copy_strings, lower, opt_view, same, same_ignoring_case, str_of, str_view,
    views,
};
use vstd::prelude::*;

verus! {

/// Where a request may be routed to.
#[derive(Debug)]
pub enum AdaptiveScope {
    Auto,
    Agent(String),
    Provider(String),
    ProviderGroup(String),
}

#[derive(Debug)]
pub struct AdaptiveSelection {
    pub provider: String,
    pub model: String,
    pub api_key: String,
    pub score: i32,
    pub task_kinds: Vec<TaskKind>,
}

/// What an [`AdaptiveSelection`] holds.
pub struct SelectionView {
    pub provider: Seq<char>,
    pub model: Seq<char>,
    pub api_key: Seq<char>,
    pub score: i32,
    pub task_kinds: Seq<TaskKind>,
}

impl View for AdaptiveSelection {
    type V = SelectionView;

    open spec fn view(&self) -> SelectionView {
        SelectionView {
            provider: self.provider@,
            model: self.model@,
            api_key: self.api_key@,
            score: self.score,
            task_kinds: self.task_kinds@,
        }
    }
}

/// What metadata says of a provider's model. Of the prompt's price only
/// matters whether there is one to pay.
#[derive(Debug)]
pub struct ModelFacts {
    pub provider: String,
    pub model_id: String,
    pub supports_vision: Option<bool>,
    pub supports_tools: Option<bool>,
    pub supports_reasoning: Option<bool>,
    pub context_window: Option<i64>,
    pub prompt_is_free: Option<bool>,
}

// ---------------------------------------------------------------- prefixes
/// The first parts of paths that belong to the gateway itself.
pub open spec fn reserved_prefixes() -> Seq<Seq<char>> {
    seq![
        "v1"@,
        "auto"@,
        "agents"@,
        "provider-groups"@,
        "admin"@,
        "health"@,
        "status"@,
        "metrics"@,
    ]
}

/// Whether a name is the first part of a path of the gateway, in either case.
pub open spec fn is_reserved(value: Seq<char>) -> bool {
    exists|i: int|
        0 <= i < reserved_prefixes().len() && lower(value) == lower(
            #[trigger] reserved_prefixes()[i],
        )
}

/// Whether a name is the first part of a path of the gateway, in either case.
pub fn is_reserved_provider_prefix(value: &str) -> (r: bool)
    ensures
        r == is_reserved(value@),
{
    let ghost p = reserved_prefixes();
    assert(p[0] == "v1"@ && p[1] == "auto"@ && p[2] == "agents"@ && p[3] == "provider-groups"@
        && p[4] == "admin"@ && p[5] == "health"@ && p[6] == "status"@ && p[7] == "metrics"@);
    same_ignoring_case(value, "v1") || same_ignoring_case(value, "auto") || same_ignoring_case(
        value,
        "agents",
    ) || same_ignoring_case(value, "provider-groups") || same_ignoring_case(value, "admin")
        || same_ignoring_case(value, "health") || same_ignoring_case(value, "status")
        || same_ignoring_case(value, "metrics")
}

/// The case of a name does not change whether it is reserved.
pub proof fn reserved_in_either_case(a: Seq<char>, b: Seq<char>)
    requires
        lower(a) == lower(b),
    ensures
        is_reserved(a) == is_reserved(b),
{
    let p = reserved_prefixes();
    if is_reserved(a) {
        let i = choose|i: int| 0 <= i < p.len() && lower(a) == lower(#[trigger] p[i]);
        assert(lower(b) == lower(p[i]));
    }
    if is_reserved(b) {
        let i = choose|i: int| 0 <= i < p.len() && lower(b) == lower(#[trigger] p[i]);
        assert(lower(a) == lower(p[i]));
    }
}

// ---------------------------------------------------------------- scopes
/// The agent of a scope.
pub open spec fn agent_of(scope: AdaptiveScope) -> Option<Seq<char>> {
    match scope {
        AdaptiveScope::Agent(a) => Some(a@),
        _ => None,
    }
}

/// The agent of a scope.
pub fn scope_agent(scope: &AdaptiveScope) -> (r: Option<&str>)
    ensures
        str_view(r) == agent_of(*scope),
{
    match scope {
        AdaptiveScope::Agent(a) => Some(a.as_str()),
        _ => None,
    }
}

/// The name of a scope.
pub open spec fn label_of(scope: AdaptiveScope) -> Seq<char> {
    match scope {
        AdaptiveScope::Auto => "auto"@,
        AdaptiveScope::Agent(a) => "agent:"@ + a@,
        AdaptiveScope::Provider(p) => "provider:"@ + p@,
        AdaptiveScope::ProviderGroup(g) => "provider_group:"@ + g@,
    }
}

/// The name of a scope.
pub fn scope_label(scope: &AdaptiveScope) -> (r: String)
    ensures
        r@ == label_of(*scope),
{
    match scope {
        AdaptiveScope::Auto => "auto".to_owned(),
        AdaptiveScope::Agent(a) => concat2("agent:", a.as_str()),
        AdaptiveScope::Provider(p) => concat2("provider:", p.as_str()),
        AdaptiveScope::ProviderGroup(g) => concat2("provider_group:", g.as_str()),
    }
}

/// The task that an automatic model stands for.
pub open spec fn auto_task(config: Config, model: Seq<char>) -> Option<Seq<char>> {
    match named_in(config.adaptive_routing.auto_models@, model) {
        Some(auto) => Some(auto.task@),
        None => None,
    }
}

/// The task that a route stands for: that of the requested model, else that of
/// the agent's own automatic model.
pub open spec fn task_of_route(
    config: Config,
    scope: AdaptiveScope,
    requested_model: Seq<char>,
) -> Option<Seq<char>> {
    match auto_task(config, requested_model) {
        Some(task) => Some(task),
        None => match scope {
            AdaptiveScope::Agent(agent) => match named_in(
                config.adaptive_routing.agent_profiles@,
                agent@,
            ) {
                Some(profile) => auto_task(config, profile.default_auto_model@),
                None => None,
            },
            _ => None,
        },
    }
}

fn task_of_auto(config: &Config, model: &str) -> (r: Option<String>)
    ensures
        opt_view(r) == auto_task(*config, model@),
{
    match lookup(&config.adaptive_routing.auto_models, model) {
        Some(auto) => Some(auto.task.clone()),
        None => None,
    }
}

/// The task that a route stands for.
pub fn route_task(config: &Config, scope: &AdaptiveScope, requested_model: &str) -> (r: Option<
    String,
>)
    ensures
        opt_view(r) == task_of_route(*config, *scope, requested_model@),
{
    match task_of_auto(config, requested_model) {
        Some(task) => Some(task),
        None => match scope {
            AdaptiveScope::Agent(agent) => match lookup(
                &config.adaptive_routing.agent_profiles,
                agent.as_str(),
            ) {
                Some(profile) => task_of_auto(config, profile.default_auto_model.as_str()),
                None => None,
            },
            _ => None,
        },
    }
}

/// The providers of a group; none where there is no such group.
pub open spec fn group_providers(config: Config) -> spec_fn(Seq<char>) -> Seq<Seq<char>> {
    |group: Seq<char>|
        match named_in(config.adaptive_routing.routing_groups@, group) {
            Some(g) => views(g.providers@),
            None => Seq::empty(),
        }
}

/// The groups of an agent; none where it has no profile.
pub open spec fn agent_groups(config: Config, agent: Seq<char>) -> Seq<Seq<char>> {
    match named_in(config.adaptive_routing.agent_profiles@, agent) {
        Some(profile) => views(profile.provider_groups@),
        None => Seq::empty(),
    }
}

/// The providers of an agent's groups, group by group.
pub open spec fn agent_providers(config: Config, agent: Seq<char>) -> Seq<Seq<char>> {
    flat(agent_groups(config, agent), group_providers(config))
}

/// What a scope allows; nothing where it names a group that is not there. An
/// agent without providers may use them all.
pub open spec fn scope_constraints(config: Config, scope: AdaptiveScope) -> Option<
    ConstraintsView,
> {
    let allow_paid = config.adaptive_routing.allow_paid;
    match scope {
        AdaptiveScope::Auto => Some(
            ConstraintsView { provider: None, provider_group: None, allow_paid },
        ),
        AdaptiveScope::Agent(agent) => {
            let providers = agent_providers(config, agent@);
            Some(
                ConstraintsView {
                    provider: None,
                    provider_group: if providers.len() == 0 {
                        None
                    } else {
                        Some(providers)
                    },
                    allow_paid,
                },
            )
        },
        AdaptiveScope::Provider(p) => Some(
            ConstraintsView { provider: Some(p@), provider_group: None, allow_paid },
        ),
        AdaptiveScope::ProviderGroup(group) => match named_in(
            config.adaptive_routing.routing_groups@,
            group@,
        ) {
            Some(g) => Some(
                ConstraintsView {
                    provider: None,
                    provider_group: Some(views(g.providers@)),
                    allow_paid,
                },
            ),
            None => None,
        },
    }
}

fn append_strings(list: &mut Vec<String>, more: &Vec<String>)
    ensures
        views(final(list)@) == views(old(list)@) + views(more@),
{
    let ghost start = views(list@);
    let mut i: usize = 0;
    assert(start + views(more@).take(0) =~= start);
    while i < more.len()
        invariant
            i <= more@.len(),
            views(list@) == start + views(more@).take(i as int),
        decreases more@.len() - i,
    {
        let ghost so_far = views(list@);
        list.push(more[i].clone());
        assert(views(list@) =~= so_far.push(more@[i as int]@));
        assert(views(more@).take(i + 1) =~= views(more@).take(i as int).push(
            more@[i as int]@,
        ));
        assert(start + views(more@).take(i as int).push(more@[i as int]@) =~= (start + views(
            more@,
        ).take(i as int)).push(more@[i as int]@));
        i += 1;
    }
    assert(views(more@).take(more@.len() as int) =~= views(more@));
}

/// The providers of an agent's groups, group by group.
pub fn providers_of_agent(config: &Config, agent: &str) -> (r: Vec<String>)
    ensures
        views(r@) == agent_providers(*config, agent@),
{
    let mut r: Vec<String> = Vec::new();
    match lookup(&config.adaptive_routing.agent_profiles, agent) {
        Some(profile) => {
            let ghost groups = agent_groups(*config, agent@);
            let ghost f = group_providers(*config);
            let mut i: usize = 0;
            proof {
                flat_all(groups, f);
                assert(views(r@) =~= flat(groups.take(0), f));
            }
            while i < profile.provider_groups.len()
                invariant
                    i <= profile.provider_groups@.len(),
                    groups == views(profile.provider_groups@),
                    f == group_providers(*config),
                    views(r@) == flat(groups.take(i as int), f),
                decreases profile.provider_groups@.len() - i,
            {
                proof {
                    flat_next(groups, f, i as int);
                    assert(groups[i as int] == profile.provider_groups@[i as int]@);
                }
                match lookup(
                    &config.adaptive_routing.routing_groups,
                    profile.provider_groups[i].as_str(),
                ) {
                    Some(group) => append_strings(&mut r, &group.providers),
                    None => {
                        assert(views(r@) =~= flat(groups.take(i as int), f) + Seq::empty());
                    },
                }
                i += 1;
            }
        },
        None => {
            assert(views(r@) =~= agent_providers(*config, agent@));
        },
    }
    r
}

/// Why a request cannot be routed.
pub enum Refusal {
    /// Adaptive routing is switched off.
    Disabled,
    /// The provider's name is reserved.
    Reserved(Seq<char>),
    /// There is no such group of providers.
    UnknownGroup,
}

/// Whether an error says why a request cannot be routed.
pub open spec fn tells(error: GatewayError, refusal: Refusal) -> bool {
    match error {
        GatewayError::InvalidRequest(m) => m@ == match refusal {
            Refusal::Disabled => "adaptive routing is disabled in config"@,
            Refusal::Reserved(p) => "'"@ + p + "' is a reserved gateway route prefix"@,
            Refusal::UnknownGroup => "unknown provider group"@,
        },
        _ => false,
    }
}

/// Why a scope cannot be routed, where it cannot.
pub open spec fn refused(config: Config, scope: AdaptiveScope) -> Option<Refusal> {
    if !config.adaptive_routing.enabled {
        Some(Refusal::Disabled)
    } else {
        match scope {
            AdaptiveScope::Provider(p) => if is_reserved(p@) {
                Some(Refusal::Reserved(p@))
            } else {
                None
            },
            AdaptiveScope::ProviderGroup(_) => if scope_constraints(config, scope) is None {
                Some(Refusal::UnknownGroup)
            } else {
                None
            },
            _ => None,
        }
    }
}

/// What a scope allows, or why it cannot be routed.
pub fn constraints_for_scope(config: &Config, scope: &AdaptiveScope) -> (r: GatewayResult<
    RouteConstraints,
>)
    ensures
        match r {
            Ok(c) => refused(*config, *scope) is None && scope_constraints(*config, *scope) == Some(
                c@,
            ),
            Err(e) => (refused(*config, *scope) matches Some(why) && tells(e, why)),
        },
{
    if !config.adaptive_routing.enabled {
        return Err(
            GatewayError::InvalidRequest("adaptive routing is disabled in config".to_owned()),
        );
    }
    let allow_paid = config.adaptive_routing.allow_paid;
    match scope {
        AdaptiveScope::Auto => Ok(
            RouteConstraints { provider: None, provider_group: None, allow_paid },
        ),
        AdaptiveScope::Agent(agent) => {
            let providers = providers_of_agent(config, agent.as_str());
            assert(views(providers@).len() == providers@.len());
            if providers.len() == 0 {
                Ok(RouteConstraints { provider: None, provider_group: None, allow_paid })
            } else {
                Ok(
                    RouteConstraints {
                        provider: None,
                        provider_group: Some(providers),
                        allow_paid,
                    },
                )
            }
        },
        AdaptiveScope::Provider(p) => {
            if is_reserved_provider_prefix(p.as_str()) {
                return Err(
                    GatewayError::InvalidRequest(
                        concat3("'", p.as_str(), "' is a reserved gateway route prefix"),
                    ),
                );
            }
            Ok(
                RouteConstraints {
                    provider: Some(p.clone()),
                    provider_group: None,
                    allow_paid,
                },
            )
        },
        AdaptiveScope::ProviderGroup(group) => match lookup(
            &config.adaptive_routing.routing_groups,
            group.as_str(),
        ) {
            Some(g) => Ok(
                RouteConstraints {
                    provider: None,
                    provider_group: Some(copy_strings(&g.providers)),
                    allow_paid,
                },
            ),
            None => Err(GatewayError::InvalidRequest("unknown provider group".to_owned())),
        },
    }
}

/// The model that is meant by a requested one: none for an automatic model, that
/// of an alias, else itself.
pub open spec fn concrete_model(config: Config, requested: Seq<char>) -> Option<Seq<char>> {
    if requested == "auto"@ || named_in(config.adaptive_routing.auto_models@, requested) is Some {
        None
    } else {
        match named_in(config.models@, requested) {
            Some(alias) => Some(alias.model@),
            None => Some(requested),
        }
    }
}

/// The model that is meant by a requested one.
pub fn concrete_requested_model(config: &Config, requested_model: &str) -> (r: Option<String>)
    ensures
        opt_view(r) == concrete_model(*config, requested_model@),
{
    if same(requested_model, "auto") || lookup(
        &config.adaptive_routing.auto_models,
        requested_model,
    ).is_some() {
        return None;
    }
    match lookup(&config.models, requested_model) {
        Some(alias) => Some(alias.model.clone()),
        None => Some(requested_model.to_owned()),
    }
}

// ---------------------------------------------------------------- candidates
/// Whether facts are of a provider's model.
pub open spec fn facts_of(provider: Seq<char>, model: Seq<char>) -> spec_fn(ModelFacts) -> bool {
    |f: ModelFacts| f.provider@ == provider && f.model_id@ == model
}

/// What is known of a provider's model.
pub open spec fn known_facts(
    facts: Seq<ModelFacts>,
    provider: Seq<char>,
    model: Seq<char>,
) -> Option<ModelFacts> {
    let mine = kept(facts, facts_of(provider, model));
    if mine.len() == 0 {
        None
    } else {
        Some(mine[0])
    }
}

/// The tier of a key as that of a candidate.
pub open spec fn tier_of(tier: KeyTier) -> CandidateTier {
    match tier {
        KeyTier::Free => CandidateTier::Free,
        KeyTier::Paid => CandidateTier::Paid,
        KeyTier::Unknown => CandidateTier::Unknown,
    }
}

/// A count that stays within `i64`.
pub open spec fn within_i64(n: u64) -> i64 {
    if n > i64::MAX {
        i64::MAX
    } else {
        n as i64
    }
}

fn keep_within_i64(n: u64) -> (r: i64)
    ensures
        r == within_i64(n),
{
    if n > 0x7fff_ffff_ffff_ffff {
        i64::MAX
    } else {
        n as i64
    }
}

/// The priority of a provider; 0 where it is not configured.
pub open spec fn priority_of(config: Config, provider: Seq<char>) -> i32 {
    match named_in(config.providers@, provider) {
        Some(p) => if p.priority > i32::MAX {
            i32::MAX
        } else {
            p.priority as i32
        },
        None => 0,
    }
}

/// A key and one of its models as a candidate.
pub open spec fn candidate_of(
    config: Config,
    facts: Seq<ModelFacts>,
    provider: Seq<char>,
    key: KeyStateView,
    model: Seq<char>,
) -> CandidateView {
    let known = known_facts(facts, provider, model);
    CandidateView {
        provider,
        model,
        api_key: Some(key.key),
        tier: tier_of(key.tier),
        supports_vision: match known {
            Some(f) => f.supports_vision,
            None => None,
        },
        supports_tools: match known {
            Some(f) => f.supports_tools,
            None => None,
        },
        supports_reasoning: match known {
            Some(f) => f.supports_reasoning,
            None => None,
        },
        context_window: match known {
            Some(f) => f.context_window,
            None => None,
        },
        recent_successes: within_i64(key.success_count),
        recent_errors: within_i64(key.total_fail_count),
        recent_429s: if key.last_error_status == Some(429u16) {
            1
        } else {
            0
        },
        recent_timeouts: 0,
        quota_headroom: 100,
        provider_priority: priority_of(config, provider),
        prompt_is_free: match known {
            Some(f) => f.prompt_is_free,
            None => None,
        },
    }
}

/// The circumstances under which candidates are looked for.
pub struct Search {
    pub config: Config,
    pub disabled: Seq<(String, Vec<String>)>,
    pub facts: Seq<ModelFacts>,
    pub exact: Option<Seq<char>>,
    pub constraints: ConstraintsView,
    pub now: u64,
}

impl Search {
    /// A model of a key as a candidate, where it is asked for and not switched
    /// off.
    pub open spec fn of_model(self, provider: Seq<char>, key: KeyStateView) -> spec_fn(
        Seq<char>,
    ) -> Option<CandidateView> {
        |model: Seq<char>|
            if (self.exact matches Some(m) && m != model) || is_disabled(
                self.disabled,
                provider,
                model,
            ) {
                None
            } else {
                Some(candidate_of(self.config, self.facts, provider, key, model))
            }
    }

    /// The candidates of a key: one for each of its models, where it is ready.
    pub open spec fn of_key(self, provider: Seq<char>) -> spec_fn(KeyStateView) -> Seq<
        CandidateView,
    > {
        |key: KeyStateView|
            if key.ready(self.now) {
                collected(key.models, self.of_model(provider, key))
            } else {
                Seq::empty()
            }
    }

    /// The candidates of a provider, key by key, where it is allowed.
    pub open spec fn of_provider(self) -> spec_fn((String, Vec<KeyState>)) -> Seq<CandidateView> {
        |entry: (String, Vec<KeyState>)|
            if self.constraints.allow(entry.0@) {
                flat(state_views(entry.1@), self.of_key(entry.0@))
            } else {
                Seq::empty()
            }
    }

    /// The candidates in a snapshot of all keys.
    pub open spec fn found(self, snapshot: Seq<(String, Vec<KeyState>)>) -> Seq<CandidateView> {
        flat(snapshot, self.of_provider())
    }
}

fn find_facts<'a>(facts: &'a Vec<ModelFacts>, provider: &str, model: &str) -> (r: Option<
    &'a ModelFacts,
>)
    ensures
        match r {
            Some(f) => known_facts(facts@, provider@, model@) == Some(*f),
            None => known_facts(facts@, provider@, model@) is None,
        },
{
    let ghost p = facts_of(provider@, model@);
    let mut i: usize = 0;
    proof {
        kept_all(facts@, p);
    }
    while i < facts.len()
        invariant
            i <= facts@.len(),
            p == facts_of(provider@, model@),
            kept(facts@.take(i as int), p).len() == 0,
        decreases facts@.len() - i,
    {
        proof {
            kept_next(facts@, p, i as int);
        }
        if same(facts[i].provider.as_str(), provider) && same(facts[i].model_id.as_str(), model) {
            proof {
                let head = kept(facts@.take(i + 1), p);
                assert(head[0] == facts@[i as int]);
                kept_starts_with(facts@, p, i + 1);
            }
            return Some(&facts[i]);
        }
        i += 1;
    }
    None
}

proof fn kept_starts_with<T>(s: Seq<T>, p: spec_fn(T) -> bool, i: int)
    requires
        0 <= i <= s.len(),
        kept(s.take(i), p).len() > 0,
    ensures
        kept(s, p).len() > 0,
        kept(s, p)[0] == kept(s.take(i), p)[0],
    decreases s.len() - i,
{
    if i == s.len() {
        assert(s.take(i) =~= s);
    } else {
        kept_next(s, p, i);
        kept_starts_with(s, p, i + 1);
    }
}

fn make_candidate(
    config: &Config,
    facts: &Vec<ModelFacts>,
    provider: &str,
    key: &KeyState,
    model: &str,
) -> (r: AdaptiveCandidate)
    ensures
        r@ == candidate_of(*config, facts@, provider@, key@, model@),
{
    let known = find_facts(facts, provider, model);
    let recent_429s: i64 = match key.last_error_status {
        Some(status) => if status == 429 {
            1
        } else {
            0
        },
        None => 0,
    };
    let provider_priority: i32 = match lookup(&config.providers, provider) {
        Some(p) => if p.priority > 0x7fff_ffff {
            i32::MAX
        } else {
            p.priority as i32
        },
        None => 0,
    };
    AdaptiveCandidate {
        provider: provider.to_owned(),
        model: model.to_owned(),
        api_key: Some(key.key.clone()),
        tier: match key.tier {
            KeyTier::Free => CandidateTier::Free,
            KeyTier::Paid => CandidateTier::Paid,
            KeyTier::Unknown => CandidateTier::Unknown,
        },
        supports_vision: match known {
            Some(f) => f.supports_vision,
            None => None,
        },
        supports_tools: match known {
            Some(f) => f.supports_tools,
            None => None,
        },
        supports_reasoning: match known {
            Some(f) => f.supports_reasoning,
            None => None,
        },
        context_window: match known {
            Some(f) => f.context_window,
            None => None,
        },
        recent_successes: keep_within_i64(key.success_count),
        recent_errors: keep_within_i64(key.total_fail_count),
        recent_429s,
        recent_timeouts: 0,
        quota_headroom: 100,
        provider_priority,
        prompt_is_free: match known {
            Some(f) => f.prompt_is_free,
            None => None,
        },
    }
}

/// Whether a key is available and within its limits.
pub fn key_is_ready(key: &KeyState, now: u64) -> (r: bool)
    ensures
        r == key@.ready(now),
{
    key.status == KeyStatus::Available && !key.is_rate_limited(now)
}

fn candidates_of_key(
    config: &Config,
    disabled: &DisabledModels,
    facts: &Vec<ModelFacts>,
    exact: Option<&str>,
    provider: &str,
    key: &KeyState,
    list: &mut Vec<AdaptiveCandidate>,
    Ghost(search): Ghost<Search>,
)
    requires
        search.config == *config,
        search.disabled == disabled@,
        search.facts == facts@,
        search.exact == str_view(exact),
    ensures
        candidate_views(final(list)@) == candidate_views(old(list)@) + collected(
            key@.models,
            search.of_model(provider@, key@),
        ),
{
    let ghost start = candidate_views(list@);
    let ghost all = key@.models;
    let ghost f = search.of_model(provider@, key@);
    let mut i: usize = 0;
    proof {
        collected_all(all, f);
        assert(start + collected(all.take(0), f) =~= start);
    }
    while i < key.models.len()
        invariant
            i <= key.models@.len(),
            all == key@.models,
            f == search.of_model(provider@, key@),
            search.config == *config,
            search.disabled == disabled@,
            search.facts == facts@,
            search.exact == str_view(exact),
            candidate_views(list@) == start + collected(all.take(i as int), f),
        decreases key.models@.len() - i,
    {
        proof {
            collected_next(all, f, i as int);
            assert(all[i as int] == key.models@[i as int]@);
        }
        let model = key.models[i].as_str();
        let other = match exact {
            Some(requested) => !same(requested, model),
            None => false,
        };
        if !other && !model_disabled(disabled, provider, model) {
            let c = make_candidate(config, facts, provider, key, model);
            let ghost so_far = candidate_views(list@);
            let ghost v = c@;
            let ghost earlier = collected(all.take(i as int), f);
            list.push(c);
            assert(candidate_views(list@) =~= so_far.push(v));
            assert(start + earlier.push(v) =~= (start + earlier).push(v));
        }
        i += 1;
    }
}

/// The candidates in a snapshot of all keys.
pub fn collect_candidates(
    config: &Config,
    snapshot: &Vec<(String, Vec<KeyState>)>,
    disabled: &DisabledModels,
    facts: &Vec<ModelFacts>,
    exact_model: Option<&str>,
    constraints: &RouteConstraints,
    now: u64,
) -> (r: Vec<AdaptiveCandidate>)
    ensures
        candidate_views(r@) == (Search {
            config: *config,
            disabled: disabled@,
            facts: facts@,
            exact: str_view(exact_model),
            constraints: constraints@,
            now,
        }).found(snapshot@),
{
    let ghost search = Search {
        config: *config,
        disabled: disabled@,
        facts: facts@,
        exact: str_view(exact_model),
        constraints: constraints@,
        now,
    };
    let ghost f = search.of_provider();
    let mut r: Vec<AdaptiveCandidate> = Vec::new();
    let mut i: usize = 0;
    proof {
        flat_all(snapshot@, f);
        assert(candidate_views(r@) =~= flat(snapshot@.take(0), f));
    }
    while i < snapshot.len()
        invariant
            i <= snapshot@.len(),
            search == (Search {
                config: *config,
                disabled: disabled@,
                facts: facts@,
                exact: str_view(exact_model),
                constraints: constraints@,
                now,
            }),
            f == search.of_provider(),
            candidate_views(r@) == flat(snapshot@.take(i as int), f),
        decreases snapshot@.len() - i,
    {
        proof {
            flat_next(snapshot@, f, i as int);
        }
        let provider = snapshot[i].0.as_str();
        let keys = &snapshot[i].1;
        let ghost start = candidate_views(r@);
        if provider_allowed(provider, constraints) {
            let ghost all = state_views(keys@);
            let ghost g = search.of_key(provider@);
            let mut k: usize = 0;
            proof {
                flat_all(all, g);
                assert(start + flat(all.take(0), g) =~= start);
            }
            while k < keys.len()
                invariant
                    k <= keys@.len(),
                    search == (Search {
                        config: *config,
                        disabled: disabled@,
                        facts: facts@,
                        exact: str_view(exact_model),
                        constraints: constraints@,
                        now,
                    }),
                    all == state_views(keys@),
                    g == search.of_key(provider@),
                    candidate_views(r@) == start + flat(all.take(k as int), g),
                decreases keys@.len() - k,
            {
                proof {
                    flat_next(all, g, k as int);
                    assert(all[k as int] == keys@[k as int]@);
                }
                let ghost so_far = flat(all.take(k as int), g);
                if key_is_ready(&keys[k], now) {
                    candidates_of_key(
                        config,
                        disabled,
                        facts,
                        exact_model,
                        provider,
                        &keys[k],
                        &mut r,
                        Ghost(search),
                    );
                    assert((start + so_far) + g(all[k as int]) =~= start + (so_far + g(
                        all[k as int],
                    )));
                } else {
                    assert(so_far + Seq::<CandidateView>::empty() =~= so_far);
                }
                k += 1;
            }
        } else {
            assert(start + Seq::<CandidateView>::empty() =~= start);
        }
        i += 1;
    }
    r
}

// ---------------------------------------------------------------- selection
/// The profile of a request under a scope.
pub open spec fn profile_under(
    config: Config,
    scope: AdaptiveScope,
    request: RequestView,
) -> ProfileView {
    signals_of(
        acting_agent(scope, request),
        request,
        task_of_route(config, scope, request.model),
    ).profile()
}

/// The agent that acts: that of the scope, else that of the request.
pub open spec fn acting_agent(scope: AdaptiveScope, request: RequestView) -> Option<Seq<char>> {
    match agent_of(scope) {
        Some(a) => Some(a),
        None => request.agent_name,
    }
}

/// The candidates for a request under a scope, the best first.
pub open spec fn ranked(
    config: Config,
    snapshot: Seq<(String, Vec<KeyState>)>,
    disabled: Seq<(String, Vec<String>)>,
    facts: Seq<ModelFacts>,
    now: u64,
    scope: AdaptiveScope,
    request: RequestView,
) -> Seq<ScoredView> {
    let constraints = scope_constraints(config, scope)->0;
    ranking(
        profile_under(config, scope, request),
        (Search {
            config,
            disabled,
            facts,
            exact: concrete_model(config, request.model),
            constraints,
            now,
        }).found(snapshot),
        constraints,
    )
}

/// What a selection comes to: the best candidate, or none.
pub open spec fn selection_of(best: Seq<ScoredView>, profile: ProfileView) -> Option<
    SelectionView,
> {
    if best.len() == 0 {
        None
    } else {
        Some(
            SelectionView {
                provider: best[0].candidate.provider,
                model: best[0].candidate.model,
                api_key: best[0].candidate.api_key->0,
                score: best[0].score,
                task_kinds: profile.task_kinds,
            },
        )
    }
}

/// Whether a result is what a selection comes to.
pub open spec fn selects(
    r: GatewayResult<AdaptiveSelection>,
    config: Config,
    snapshot: Seq<(String, Vec<KeyState>)>,
    disabled: Seq<(String, Vec<String>)>,
    facts: Seq<ModelFacts>,
    now: u64,
    scope: AdaptiveScope,
    request: RequestView,
) -> bool {
    match refused(config, scope) {
        Some(why) => r matches Err(e) && tells(e, why),
        None => match selection_of(
            ranked(config, snapshot, disabled, facts, now, scope, request),
            profile_under(config, scope, request),
        ) {
            Some(s) => r matches Ok(got) && got@ == s,
            None => r matches Err(GatewayError::ModelNotFound(m)) && m@ == request.model,
        },
    }
}

fn profile_for(config: &Config, scope: &AdaptiveScope, request: &ChatCompletionRequest) -> (r:
    TaskProfile)
    ensures
        r@ == profile_under(*config, *scope, request@),
{
    let task = route_task(config, scope, request.model.as_str());
    let agent = match scope_agent(scope) {
        Some(a) => Some(a),
        None => str_of(&request.agent_name),
    };
    build_task_profile(agent, request, str_of(&task))
}

proof fn ranked_have_keys(
    config: Config,
    snapshot: Seq<(String, Vec<KeyState>)>,
    disabled: Seq<(String, Vec<String>)>,
    facts: Seq<ModelFacts>,
    now: u64,
    scope: AdaptiveScope,
    request: RequestView,
)
    ensures
        forall|i: int|
            0 <= i < ranked(config, snapshot, disabled, facts, now, scope, request).len() ==> (
            #[trigger] ranked(
                config,
                snapshot,
                disabled,
                facts,
                now,
                scope,
                request,
            )[i]).candidate.api_key is Some,
{
    let constraints = scope_constraints(config, scope)->0;
    let search = Search {
        config,
        disabled,
        facts,
        exact: concrete_model(config, request.model),
        constraints,
        now,
    };
    let profile = profile_under(config, scope, request);
    ranked_are_allowed(profile, search.found(snapshot), constraints);
    found_have_keys(search, snapshot);
    let r = ranked(config, snapshot, disabled, facts, now, scope, request);
    assert forall|i: int| 0 <= i < r.len() implies (#[trigger] r[i]).candidate.api_key is Some by {
        let c = r[i].candidate;
        assert(search.found(snapshot).contains(c));
    }
}

proof fn flat_holds<T, U>(s: Seq<T>, f: spec_fn(T) -> Seq<U>, p: spec_fn(U) -> bool)
    requires
        forall|i: int, k: int|
            0 <= i < s.len() && 0 <= k < f(#[trigger] s[i]).len() ==> p(#[trigger] f(s[i])[k]),
    ensures
        forall|k: int| 0 <= k < flat(s, f).len() ==> p(#[trigger] flat(s, f)[k]),
    decreases s.len(),
{
    if s.len() > 0 {
        let t = s.drop_last();
        assert forall|i: int, k: int|
            0 <= i < t.len() && 0 <= k < f(#[trigger] t[i]).len() implies p(
            #[trigger] f(t[i])[k],
        ) by {
            assert(t[i] == s[i]);
        }
        flat_holds(t, f, p);
        assert forall|k: int| 0 <= k < flat(s, f).len() implies p(#[trigger] flat(s, f)[k]) by {
            if k < flat(t, f).len() {
                assert(flat(s, f)[k] == flat(t, f)[k]);
            } else {
                assert(s[s.len() - 1] == s.last());
                assert(flat(s, f)[k] == f(s[s.len() - 1])[k - flat(t, f).len()]);
            }
        }
    }
}

proof fn collected_holds<T, U>(s: Seq<T>, f: spec_fn(T) -> Option<U>, p: spec_fn(U) -> bool)
    requires
        forall|x: T| #[trigger] f(x) is Some ==> p(f(x)->0),
    ensures
        forall|k: int| 0 <= k < collected(s, f).len() ==> p(#[trigger] collected(s, f)[k]),
    decreases s.len(),
{
    if s.len() > 0 {
        collected_holds(s.drop_last(), f, p);
        assert(f(s.last()) is Some ==> p(f(s.last())->0));
        assert forall|k: int| 0 <= k < collected(s, f).len() implies p(
            #[trigger] collected(s, f)[k],
        ) by {
            if k < collected(s.drop_last(), f).len() {
                assert(collected(s, f)[k] == collected(s.drop_last(), f)[k]);
            }
        }
    }
}

proof fn found_have_keys(search: Search, snapshot: Seq<(String, Vec<KeyState>)>)
    ensures
        forall|i: int|
            0 <= i < search.found(snapshot).len() ==> (#[trigger] search.found(snapshot)[i]).api_key
                is Some,
{
    let p = |c: CandidateView| c.api_key is Some;
    let f = search.of_provider();
    assert forall|i: int, k: int|
        0 <= i < snapshot.len() && 0 <= k < f(#[trigger] snapshot[i]).len() implies p(
        #[trigger] f(snapshot[i])[k],
    ) by {
        let entry = snapshot[i];
        let keys = state_views(entry.1@);
        let g = search.of_key(entry.0@);
        assert forall|j: int, n: int|
            0 <= j < keys.len() && 0 <= n < g(#[trigger] keys[j]).len() implies p(
            #[trigger] g(keys[j])[n],
        ) by {
            collected_holds(keys[j].models, search.of_model(entry.0@, keys[j]), p);
        }
        flat_holds(keys, g, p);
        if search.constraints.allow(entry.0@) {
            assert(f(entry) == flat(keys, g));
        }
    }
    flat_holds(snapshot, f, p);
    assert forall|i: int| 0 <= i < search.found(snapshot).len() implies (
    #[trigger] search.found(snapshot)[i]).api_key is Some by {
        assert(p(flat(snapshot, f)[i]));
    }
}

/// The best candidate in a snapshot of all keys.
pub fn select_from(
    config: &Config,
    snapshot: &Vec<(String, Vec<KeyState>)>,
    disabled: &DisabledModels,
    facts: &Vec<ModelFacts>,
    now: u64,
    scope: &AdaptiveScope,
    request: &ChatCompletionRequest,
) -> (r: GatewayResult<AdaptiveSelection>)
    ensures
        selects(r, *config, snapshot@, disabled@, facts@, now, *scope, request@),
{
    let constraints = match constraints_for_scope(config, scope) {
        Ok(c) => c,
        Err(e) => {
            return Err(e);
        },
    };
    let profile = profile_for(config, scope, request);
    let exact = concrete_requested_model(config, request.model.as_str());
    let candidates = collect_candidates(
        config,
        snapshot,
        disabled,
        facts,
        str_of(&exact),
        &constraints,
        now,
    );
    let scored = score_candidates(&profile, &candidates, &constraints);
    let ghost best = ranked(*config, snapshot@, disabled@, facts@, now, *scope, request@);
    assert(scored_views(scored@) == best);
    assert(scored@.len() == best.len());
    if scored.len() == 0 {
        return Err(GatewayError::ModelNotFound(request.model.clone()));
    }
    proof {
        ranked_have_keys(*config, snapshot@, disabled@, facts@, now, *scope, request@);
        assert(best[0] == scored@[0]@);
    }
    let first = &scored[0];
    match &first.candidate.api_key {
        Some(api_key) => Ok(
            AdaptiveSelection {
                provider: first.candidate.provider.clone(),
                model: first.candidate.model.clone(),
                api_key: api_key.clone(),
                score: first.score,
                task_kinds: profile.task_kinds,
            },
        ),
        None => Err(GatewayError::NoAvailableKeys(first.candidate.provider.clone())),
    }
}

/// Whether a snapshot was taken of a hub, which it left recovered.
pub open spec fn snapshot_of(
    snapshot: Seq<(String, Vec<KeyState>)>,
    before: HubView,
    after: HubView,
    at: u64,
) -> bool {
    after == before.all_recovered(at) && lists_masked(snapshot, after)
}

/// The best candidate among the keys of a hub. Where the request is refused
/// the hub is not asked.
pub fn select_model(
    config: &Config,
    keyhub: &mut KeyHub,
    disabled: &DisabledModels,
    facts: &Vec<ModelFacts>,
    scope: &AdaptiveScope,
    request: &ChatCompletionRequest,
) -> (r: GatewayResult<AdaptiveSelection>)
    requires
        old(keyhub).wf(),
        hub_maskable(old(keyhub)@),
    ensures
        final(keyhub).wf(),
        match refused(*config, *scope) {
            Some(why) => (r matches Err(e) && tells(e, why)) && final(keyhub)@ == old(keyhub)@,
            None => exists|snapshot: Seq<(String, Vec<KeyState>)>, at: u64, now: u64|
                {
                    &&& #[trigger] snapshot_of(snapshot, old(keyhub)@, final(keyhub)@, at)
                    &&& #[trigger] selects(
                        r,
                        *config,
                        snapshot,
                        disabled@,
                        facts@,
                        now,
                        *scope,
                        request@,
                    )
                },
        },
{
    match constraints_for_scope(config, scope) {
        Ok(_) => {},
        Err(e) => {
            return Err(e);
        },
    }
    let snapshot = keyhub.snapshot();
    let now = now_seconds();
    let r = select_from(config, &snapshot, disabled, facts, now, scope, request);
    proof {
        let at = choose|at: u64|
            keyhub@ == #[trigger] old(keyhub)@.all_recovered(at) && lists_masked(
                snapshot@,
                old(keyhub)@.all_recovered(at),
            );
        assert(snapshot_of(snapshot@, old(keyhub)@, keyhub@, at));
        assert(selects(r, *config, snapshot@, disabled@, facts@, now, *scope, request@));
    }
    r
}

// ---------------------------------------------------------------- laws
/// A selection keeps to its scope: its provider is allowed there, and without
/// leave to pay its key is free.
pub proof fn selection_keeps_to_scope(
    config: Config,
    snapshot: Seq<(String, Vec<KeyState>)>,
    disabled: Seq<(String, Vec<String>)>,
    facts: Seq<ModelFacts>,
    now: u64,
    scope: AdaptiveScope,
    request: RequestView,
)
    requires
        refused(config, scope) is None,
    ensures
        forall|i: int|
            0 <= i < ranked(config, snapshot, disabled, facts, now, scope, request).len() ==> {
                let c = (#[trigger] ranked(
                    config,
                    snapshot,
                    disabled,
                    facts,
                    now,
                    scope,
                    request,
                )[i]).candidate;
                &&& scope_constraints(config, scope)->0.allow(c.provider)
                &&& !config.adaptive_routing.allow_paid ==> c.tier == CandidateTier::Free
            },
{
    let constraints = scope_constraints(config, scope)->0;
    let search = Search {
        config,
        disabled,
        facts,
        exact: concrete_model(config, request.model),
        constraints,
        now,
    };
    ranked_are_allowed(
        profile_under(config, scope, request),
        search.found(snapshot),
        constraints,
    );
}

/// No model that is switched off is ever selected.
pub proof fn disabled_models_are_not_selected(
    config: Config,
    snapshot: Seq<(String, Vec<KeyState>)>,
    disabled: Seq<(String, Vec<String>)>,
    facts: Seq<ModelFacts>,
    now: u64,
    scope: AdaptiveScope,
    request: RequestView,
)
    requires
        refused(config, scope) is None,
    ensures
        forall|i: int|
            0 <= i < ranked(config, snapshot, disabled, facts, now, scope, request).len() ==> {
                let c = (#[trigger] ranked(
                    config,
                    snapshot,
                    disabled,
                    facts,
                    now,
                    scope,
                    request,
                )[i]).candidate;
                !is_disabled(disabled, c.provider, c.model)
            },
{
    let constraints = scope_constraints(config, scope)->0;
    let search = Search {
        config,
        disabled,
        facts,
        exact: concrete_model(config, request.model),
        constraints,
        now,
    };
    let p = |c: CandidateView| !is_disabled(disabled, c.provider, c.model);
    let f = search.of_provider();
    assert forall|i: int, k: int|
        0 <= i < snapshot.len() && 0 <= k < f(#[trigger] snapshot[i]).len() implies p(
        #[trigger] f(snapshot[i])[k],
    ) by {
        let entry = snapshot[i];
        let keys = state_views(entry.1@);
        let g = search.of_key(entry.0@);
        assert forall|j: int, n: int|
            0 <= j < keys.len() && 0 <= n < g(#[trigger] keys[j]).len() implies p(
            #[trigger] g(keys[j])[n],
        ) by {
            collected_holds(keys[j].models, search.of_model(entry.0@, keys[j]), p);
        }
        flat_holds(keys, g, p);
        if constraints.allow(entry.0@) {
            assert(f(entry) == flat(keys, g));
        }
    }
    flat_holds(snapshot, f, p);
    ranked_are_allowed(
        profile_under(config, scope, request),
        search.found(snapshot),
        constraints,
    );
    let r = ranked(config, snapshot, disabled, facts, now, scope, request);
    assert forall|i: int| 0 <= i < r.len() implies !is_disabled(
        disabled,
        (#[trigger] r[i]).candidate.provider,
        r[i].candidate.model,
    ) by {
        let c = r[i].candidate;
        assert(search.found(snapshot).contains(c));
        let k = choose|k: int| 0 <= k < search.found(snapshot).len() && search.found(snapshot)[k] == c;
        assert(p(flat(snapshot, f)[k]));
    }
}

// ---------------------------------------------------------------- models of a scope
/// A model of a key, unless it is switched off.
pub open spec fn listed_model(
    disabled: Seq<(String, Vec<String>)>,
    provider: Seq<char>,
    created: i64,
) -> spec_fn(Seq<char>) -> Option<ModelInfoView> {
    |model: Seq<char>|
        if is_disabled(disabled, provider, model) {
            None
        } else {
            Some(plain_info(model, provider, created))
        }
}

/// The models of a key, where it is free and ready.
pub open spec fn listed_for_key(
    disabled: Seq<(String, Vec<String>)>,
    provider: Seq<char>,
    created: i64,
    now: u64,
) -> spec_fn(KeyStateView) -> Seq<ModelInfoView> {
    |key: KeyStateView|
        if key.tier == KeyTier::Free && key.ready(now) {
            collected(key.models, listed_model(disabled, provider, created))
        } else {
            Seq::empty()
        }
}

/// The models of a provider, where it is allowed.
pub open spec fn listed_for_provider(
    disabled: Seq<(String, Vec<String>)>,
    constraints: ConstraintsView,
    created: i64,
    now: u64,
) -> spec_fn((String, Vec<KeyState>)) -> Seq<ModelInfoView> {
    |entry: (String, Vec<KeyState>)|
        if constraints.allow(entry.0@) {
            flat(state_views(entry.1@), listed_for_key(disabled, entry.0@, created, now))
        } else {
            Seq::empty()
        }
}

/// The models of a scope: what the free keys of its providers serve, every
/// family as one model.
pub open spec fn models_of_scope(
    snapshot: Seq<(String, Vec<KeyState>)>,
    disabled: Seq<(String, Vec<String>)>,
    constraints: ConstraintsView,
    created: i64,
    now: u64,
) -> Seq<ModelInfoView> {
    merged_families(flat(snapshot, listed_for_provider(disabled, constraints, created, now)))
}

fn list_models_of_key(
    disabled: &DisabledModels,
    provider: &str,
    created: i64,
    key: &KeyState,
    list: &mut Vec<ModelInfo>,
)
    ensures
        info_views(final(list)@) == info_views(old(list)@) + collected(
            key@.models,
            listed_model(disabled@, provider@, created),
        ),
{
    let ghost start = info_views(list@);
    let ghost all = key@.models;
    let ghost f = listed_model(disabled@, provider@, created);
    let mut i: usize = 0;
    proof {
        collected_all(all, f);
        assert(start + collected(all.take(0), f) =~= start);
    }
    while i < key.models.len()
        invariant
            i <= key.models@.len(),
            all == key@.models,
            f == listed_model(disabled@, provider@, created),
            info_views(list@) == start + collected(all.take(i as int), f),
        decreases key.models@.len() - i,
    {
        proof {
            collected_next(all, f, i as int);
            assert(all[i as int] == key.models@[i as int]@);
        }
        let model = key.models[i].as_str();
        if !model_disabled(disabled, provider, model) {
            let m = plain_model(model, provider, created);
            let ghost so_far = info_views(list@);
            let ghost v = m@;
            let ghost earlier = collected(all.take(i as int), f);
            list.push(m);
            assert(info_views(list@) =~= so_far.push(v));
            assert(start + earlier.push(v) =~= (start + earlier).push(v));
        }
        i += 1;
    }
}

/// The models of a scope, in a snapshot of all keys.
pub fn scoped_models(
    config: &Config,
    snapshot: &Vec<(String, Vec<KeyState>)>,
    disabled: &DisabledModels,
    scope: &AdaptiveScope,
    created: i64,
    now: u64,
) -> (r: GatewayResult<Vec<ModelInfo>>)
    ensures
        match refused(*config, *scope) {
            Some(why) => r matches Err(e) && tells(e, why),
            None => r matches Ok(list) && info_views(list@) == models_of_scope(
                snapshot@,
                disabled@,
                scope_constraints(*config, *scope)->0,
                created,
                now,
            ),
        },
{
    let constraints = match constraints_for_scope(config, scope) {
        Ok(c) => c,
        Err(e) => {
            return Err(e);
        },
    };
    let ghost f = listed_for_provider(disabled@, constraints@, created, now);
    let mut models: Vec<ModelInfo> = Vec::new();
    let mut i: usize = 0;
    proof {
        flat_all(snapshot@, f);
        assert(info_views(models@) =~= flat(snapshot@.take(0), f));
    }
    while i < snapshot.len()
        invariant
            i <= snapshot@.len(),
            f == listed_for_provider(disabled@, constraints@, created, now),
            info_views(models@) == flat(snapshot@.take(i as int), f),
        decreases snapshot@.len() - i,
    {
        proof {
            flat_next(snapshot@, f, i as int);
        }
        let provider = snapshot[i].0.as_str();
        let keys = &snapshot[i].1;
        let ghost start = info_views(models@);
        if provider_allowed(provider, &constraints) {
            let ghost all = state_views(keys@);
            let ghost g = listed_for_key(disabled@, provider@, created, now);
            let mut k: usize = 0;
            proof {
                flat_all(all, g);
                assert(start + flat(all.take(0), g) =~= start);
            }
            while k < keys.len()
                invariant
                    k <= keys@.len(),
                    all == state_views(keys@),
                    g == listed_for_key(disabled@, provider@, created, now),
                    info_views(models@) == start + flat(all.take(k as int), g),
                decreases keys@.len() - k,
            {
                proof {
                    flat_next(all, g, k as int);
                    assert(all[k as int] == keys@[k as int]@);
                }
                let ghost so_far = flat(all.take(k as int), g);
                if keys[k].tier == KeyTier::Free && key_is_ready(&keys[k], now) {
                    list_models_of_key(disabled, provider, created, &keys[k], &mut models);
                    assert((start + so_far) + g(all[k as int]) =~= start + (so_far + g(
                        all[k as int],
                    )));
                } else {
                    assert(so_far + Seq::<ModelInfoView>::empty() =~= so_far);
                }
                k += 1;
            }
        } else {
            assert(start + Seq::<ModelInfoView>::empty() =~= start);
        }
        i += 1;
    }
    Ok(merge_model_families(&models))
}

} // verus!
