//! Laws of what is told of the routes, of plans, and of what is recorded.
use crate::adaptive::chat::{ChatPlan, ChatRecords, plans, records};
use crate::adaptive::observations::capabilities_of;
use crate::adaptive::profile::{kind_name, ProfileView};
use crate::adaptive::routing::{
    AdaptiveScope, agent_of, agent_providers, is_reserved, label_of, SelectionView,
};
use crate::adaptive::scoring::{breakdown_of, CandidateView, ScoredView};
use crate::adaptive::summary::{
    agent_route, agent_using, by_group_name, diagnostics_of, group_provider, group_route,
    group_summary, groups_of, GroupView, health_status, keys_of, names_in, provider_route, route,
    routes_of,
};
use crate::api::chat::{RelayEvent, StreamRelay};
use crate::config::{Config, RoutingGroupConfig};
use crate::error::{GatewayError, GatewayResult};
use crate::keyhub::hub::HubView;
use crate::keystate::{KeyState, KeyStateView};
use crate::lists::{collected_from, collected_has, kept, named_in, named_in_is_first};
use crate::models::{HealthState, RequestView};
use crate::sorting::{
    sorted_holds_the_same, sorted_is_permutation, sorted_set_is_increasing, text_order,
};
use crate::text::{opt_view, views};
use vstd::prelude::*;

verus! {

// ---------------------------------------------------------------- diagnostics
/// The candidates are told in the order of their ranks, no more than the limit,
/// and the first alone is the selected one.
pub proof fn the_first_is_the_selected(
    config: Config,
    best: Seq<ScoredView>,
    scope: AdaptiveScope,
    request: RequestView,
    i: int,
)
    requires
        0 <= i < best.len(),
        i < config.adaptive_routing.candidate_limit,
    ensures
        ({
            let d = diagnostics_of(config, best, scope, request);
            &&& d.candidates.len() <= config.adaptive_routing.candidate_limit || d.candidates.len()
                == best.len()
            &&& d.candidates[i].provider == best[i].candidate.provider
            &&& d.candidates[i].model == best[i].candidate.model
            &&& d.candidates[i].score == best[i].score
            &&& d.candidates[i].selected <==> i == 0
            &&& d.candidates[i].recent_successes == best[i].candidate.recent_successes
            &&& d.candidates[i].recent_errors == best[i].candidate.recent_errors
            &&& d.candidates[i].recent_429s == best[i].candidate.recent_429s
            &&& d.candidates[i].recent_timeouts == best[i].candidate.recent_timeouts
            &&& d.candidates[i].quota_headroom == best[i].candidate.quota_headroom
            &&& d.candidates[i].breakdown.reliability == best[i].breakdown.reliability
            &&& d.candidates[i].breakdown.quota == best[i].breakdown.quota
            &&& d.candidates[i].breakdown.provider_priority == best[i].breakdown.provider_priority
            &&& d.candidates[i].breakdown.cost == best[i].breakdown.cost
            &&& d.candidates[i].breakdown.penalty == best[i].breakdown.penalty
            &&& d.requested_model == request.model
            &&& d.adaptive_enabled == config.adaptive_routing.enabled
        }),
{
}

/// Scopes of different kinds or names are told apart by what they name.
pub proof fn scopes_are_labelled_by_what_they_name(name: String)
    ensures
        label_of(AdaptiveScope::Auto) == "auto"@,
        label_of(AdaptiveScope::Agent(name)) == "agent:"@ + name@,
        label_of(AdaptiveScope::Provider(name)) == "provider:"@ + name@,
        label_of(AdaptiveScope::ProviderGroup(name)) == "provider_group:"@ + name@,
{
}

// ---------------------------------------------------------------- groups
/// Every configured group is told, under its name, with its providers in their
/// order and the path that leads to it.
pub proof fn groups_are_told(
    config: Config,
    snapshot: Seq<(String, Vec<KeyState>)>,
    health: Seq<HealthState>,
    now: u64,
    i: int,
)
    requires
        0 <= i < config.adaptive_routing.routing_groups@.len(),
    ensures
        ({
            let list = groups_of(config, snapshot, health, now);
            let g = config.adaptive_routing.routing_groups@[i];
            &&& list.len() == config.adaptive_routing.routing_groups@.len()
            &&& exists|k: int|
                {
                    &&& 0 <= k < list.len()
                    &&& (#[trigger] list[k]).name == g.0@
                    &&& list[k].provider_names == views(g.1.providers@)
                    &&& list[k].route_prefix == "/provider-groups/"@ + g.0@ + "/v1"@
                    &&& list[k].providers.len() == g.1.providers@.len()
                }
        }),
{
    let f = group_summary(config, snapshot, health, now);
    let given = config.adaptive_routing.routing_groups@;
    let all = given.map_values(f);
    sorted_is_permutation(all, by_group_name());
    all.to_multiset_ensures();
    let list = groups_of(config, snapshot, health, now);
    list.to_multiset_ensures();
    assert(all[i] == f(given[i]));
    assert(all.contains(f(given[i])));
    sorted_holds_the_same(all, by_group_name(), f(given[i]));
    let k = choose|k: int| 0 <= k < list.len() && list[k] == f(given[i]);
    assert(list[k].name == given[i].0@);
}

/// The agents of a group are those whose profile names it.
pub proof fn groups_have_their_agents(
    config: Config,
    snapshot: Seq<(String, Vec<KeyState>)>,
    health: Seq<HealthState>,
    now: u64,
    g: (String, RoutingGroupConfig),
    agent: Seq<char>,
)
    ensures
        group_summary(config, snapshot, health, now)(g).agents.contains(agent) <==> exists|i: int|
            {
                &&& 0 <= i < config.adaptive_routing.agent_profiles@.len()
                &&& (#[trigger] config.adaptive_routing.agent_profiles@[i]).0@ == agent
                &&& views(
                    config.adaptive_routing.agent_profiles@[i].1.provider_groups@,
                ).contains(g.0@)
            },
{
    let profiles = config.adaptive_routing.agent_profiles@;
    let f = agent_using(g.0@);
    let r = group_summary(config, snapshot, health, now)(g).agents;
    if r.contains(agent) {
        collected_from(profiles, f, agent);
        let i = choose|i: int| 0 <= i < profiles.len() && f(#[trigger] profiles[i]) == Some(agent);
        assert(profiles[i].0@ == agent);
    }
    if exists|i: int|
        {
            &&& 0 <= i < profiles.len()
            &&& (#[trigger] profiles[i]).0@ == agent
            &&& views(profiles[i].1.provider_groups@).contains(g.0@)
        } {
        let i = choose|i: int|
            {
                &&& 0 <= i < profiles.len()
                &&& (#[trigger] profiles[i]).0@ == agent
                &&& views(profiles[i].1.provider_groups@).contains(g.0@)
            };
        assert(f(profiles[i]) == Some(agent));
        collected_has(profiles, f, i);
    }
}

/// A provider of a group is told as configured and switched on where it is, with
/// all its keys and those of them that can take a request.
pub proof fn providers_of_groups_are_told(
    config: Config,
    snapshot: Seq<(String, Vec<KeyState>)>,
    health: Seq<HealthState>,
    now: u64,
    provider: Seq<char>,
)
    ensures
        ({
            let p = group_provider(config, snapshot, health, now)(provider);
            let keys = keys_of(snapshot, provider);
            &&& p.name == provider
            &&& p.configured <==> named_in(config.providers@, provider) is Some
            &&& p.enabled ==> p.configured
            &&& named_in(config.providers@, provider) matches Some(pc) ==> p.enabled == pc.enabled
            &&& p.total_keys == keys.len()
            &&& p.available_keys <= p.total_keys
            &&& (forall|i: int| 0 <= i < keys.len() ==> (#[trigger] keys[i]).ready(now))
                ==> p.available_keys == keys.len()
            &&& (forall|i: int| 0 <= i < keys.len() ==> !(#[trigger] keys[i]).ready(now))
                ==> p.available_keys == 0
        }),
{
    let keys = keys_of(snapshot, provider);
    counted_within(keys, |k: KeyStateView| k.ready(now));
}

proof fn counted_within(keys: Seq<KeyStateView>, p: spec_fn(KeyStateView) -> bool)
    ensures
        kept(keys, p).len() <= keys.len(),
        (forall|i: int| 0 <= i < keys.len() ==> p(#[trigger] keys[i])) ==> kept(keys, p).len()
            == keys.len(),
        (forall|i: int| 0 <= i < keys.len() ==> !p(#[trigger] keys[i])) ==> kept(keys, p).len()
            == 0,
    decreases keys.len(),
{
    if keys.len() > 0 {
        let rest = keys.drop_last();
        counted_within(rest, p);
        assert(forall|i: int| 0 <= i < rest.len() ==> rest[i] == #[trigger] keys[i]);
        assert(keys.last() == keys[keys.len() - 1]);
    }
}

/// What was noted last of the health of a provider is what is told of it.
pub proof fn the_last_note_of_health_is_told(health: Seq<HealthState>, h: HealthState, provider: Seq<char>)
    ensures
        h.provider@ == provider ==> health_status(health.push(h), provider) == Some(h.status@),
        h.provider@ != provider ==> health_status(health.push(h), provider) == health_status(
            health,
            provider,
        ),
        health_status(Seq::empty(), provider) is None,
{
    assert(health.push(h).drop_last() =~= health);
}

// ---------------------------------------------------------------- routes
/// A route leads to its models and to its chat below its own path.
pub proof fn routes_lead_below_their_path(
    kind: Seq<char>,
    name: Seq<char>,
    prefix: Seq<char>,
    enabled: bool,
    providers: Seq<Seq<char>>,
    agents: Seq<Seq<char>>,
)
    ensures
        ({
            let r = route(kind, name, prefix, enabled, providers, agents);
            &&& r.models_route == prefix + "/models"@
            &&& r.chat_route == prefix + "/chat/completions"@
            &&& r.route_prefix == prefix && r.name == name && r.kind == kind
            &&& r.enabled == enabled && r.providers == providers && r.agents == agents
        }),
{
}

/// The route of an agent names the providers of its groups, and stands below
/// the agent's name.
pub proof fn agents_have_their_routes(config: Config, agent: Seq<char>, provider: Seq<char>)
    ensures
        ({
            let r = agent_route(config)(agent);
            &&& r.kind == "agent"@ && r.name == agent
            &&& r.route_prefix == "/agents/"@ + agent + "/v1"@
            &&& r.enabled == config.adaptive_routing.enabled
            &&& r.providers.contains(provider) <==> agent_providers(config, agent).contains(
                provider,
            )
            &&& r.agents == seq![agent]
        }),
{
    sorted_set_is_increasing(agent_providers(config, agent));
}

/// A provider has a route below its own name, which serves it alone and is on
/// where routing and the provider are; a reserved name leads elsewhere.
pub proof fn providers_have_their_routes(config: Config, provider: Seq<char>, i: int)
    requires
        0 <= i < config.providers@.len(),
        config.providers@[i].0@ == provider,
        forall|j: int| 0 <= j < i ==> (#[trigger] config.providers@[j]).0@ != provider,
    ensures
        is_reserved(provider) ==> provider_route(config)(provider) is None,
        !is_reserved(provider) ==> (provider_route(config)(provider) matches Some(r) && r.name
            == provider && r.kind == "provider"@ && r.route_prefix == "/"@ + provider + "/v1"@
            && r.providers == seq![provider] && r.enabled == (config.adaptive_routing.enabled
            && config.providers@[i].1.enabled)),
{
    named_in_is_first(config.providers@, provider, i);
}

/// The routes begin with the automatic one, and every agent, every provider
/// whose name is not reserved, and every group has one.
pub proof fn everyone_has_a_route(config: Config, groups: Seq<GroupView>, i: int)
    ensures
        routes_of(config, groups).len() > 0,
        routes_of(config, groups)[0].kind == "auto"@,
        routes_of(config, groups)[0].route_prefix == "/auto/v1"@,
        routes_of(config, groups)[0].enabled == config.adaptive_routing.enabled,
        0 <= i < config.adaptive_routing.agent_profiles@.len() ==> routes_of(
            config,
            groups,
        ).contains(agent_route(config)(config.adaptive_routing.agent_profiles@[i].0@)),
        0 <= i < config.providers@.len() && !is_reserved(config.providers@[i].0@) ==> routes_of(
            config,
            groups,
        ).contains(provider_route(config)(config.providers@[i].0@)->0),
        0 <= i < groups.len() ==> routes_of(config, groups).contains(group_route(config)(groups[i])),
{
    let r = routes_of(config, groups);
    let a_names = names_in(config.adaptive_routing.agent_profiles@);
    let p_names = names_in(config.providers@);
    let agents = a_names.map_values(agent_route(config));
    let providers = crate::lists::collected(p_names, provider_route(config));
    let last = groups.map_values(group_route(config));
    if 0 <= i < config.adaptive_routing.agent_profiles@.len() {
        let name = config.adaptive_routing.agent_profiles@[i].0@;
        named(config.adaptive_routing.agent_profiles@, i);
        let w = choose|w: int| 0 <= w < a_names.len() && a_names[w] == name;
        assert(agents[w] == agent_route(config)(name));
        assert(r[1 + w] == agents[w]);
    }
    if 0 <= i < config.providers@.len() && !is_reserved(config.providers@[i].0@) {
        let name = config.providers@[i].0@;
        named(config.providers@, i);
        let w = choose|w: int| 0 <= w < p_names.len() && p_names[w] == name;
        assert(provider_route(config)(p_names[w]) is Some);
        collected_has(p_names, provider_route(config), w);
        let one = provider_route(config)(name)->0;
        let v = choose|v: int| 0 <= v < providers.len() && providers[v] == one;
        assert(r[1 + agents.len() + v] == one);
    }
    if 0 <= i < groups.len() {
        assert(r[1 + agents.len() + providers.len() + i] == last[i]);
    }
}

proof fn named<V>(list: Seq<(String, V)>, i: int)
    requires
        0 <= i < list.len(),
    ensures
        names_in(list).contains(list[i].0@),
{
    let names = list.map_values(|e: (String, V)| e.0@);
    assert(names[i] == list[i].0@);
    assert(names.contains(list[i].0@));
    sorted_holds_the_same(names, text_order(), list[i].0@);
}

// ---------------------------------------------------------------- plans
/// A plan asks for the selected model on the selected key, which is reserved,
/// and keeps what is said; without a key there is no plan.
pub proof fn plans_ask_for_what_is_selected(
    r: GatewayResult<ChatPlan>,
    config: Config,
    s: SelectionView,
    registered: Seq<Seq<char>>,
    before: HubView,
    after: HubView,
    now: u64,
    scope: AdaptiveScope,
    request: RequestView,
)
    requires
        plans(r, config, Some(s), registered, before, after, now, scope, request),
        registered.contains(s.provider),
    ensures
        r is Ok <==> before.can_reserve(s.provider, s.api_key, now),
        r matches Ok(plan) ==> {
            &&& plan.request@.model == s.model
            &&& plan.request@.messages == request.messages
            &&& plan.request@.max_tokens == request.max_tokens
            &&& plan.request@.temperature == request.temperature
            &&& plan.request@.extra == request.extra
            &&& plan.request@.stream == Some(false)
            &&& plan.selection@ == s
        },
        r matches Err(e) ==> (e matches GatewayError::NoAvailableKeys(p) && p@ == s.provider),
        after == before.reserved(s.provider, s.api_key, now),
{
}

/// What is recorded of an answer is what happened: success with its tokens, or
/// failure, for the agent of the scope and each kind of task.
pub proof fn records_tell_what_happened(
    r: ChatRecords,
    plan: ChatPlan,
    scope: AdaptiveScope,
    success: bool,
    prompt: Option<u32>,
    completion: Option<u32>,
    i: int,
)
    requires
        records(r, plan, scope, success, prompt, completion),
        0 <= i < plan.selection@.task_kinds.len(),
    ensures
        r.success == success,
        success ==> r.outcome@ == "success"@,
        !success ==> r.outcome@ == "failure"@,
        r.prompt_tokens == prompt && r.completion_tokens == completion,
        r.tasks@.len() == plan.selection@.task_kinds.len(),
        views(r.tasks@)[i] == kind_name(plan.selection@.task_kinds[i]),
        scope matches AdaptiveScope::Agent(a) ==> opt_view(r.agent) == Some(a@),
        !(scope is Agent) ==> r.agent is None,
{
    assert(views(r.tasks@).len() == r.tasks@.len());
    assert(opt_view(r.agent) == agent_of(scope));
}

/// A capability is noted exactly where the request needs it.
pub proof fn needed_capabilities_are_noted(p: ProfileView)
    ensures
        capabilities_of(p).contains("vision"@) <==> p.needs_vision,
        capabilities_of(p).contains("tools"@) <==> p.needs_tools,
        capabilities_of(p).contains("reasoning"@) <==> p.needs_reasoning,
        capabilities_of(p).contains("coding"@) <==> p.needs_coding,
        capabilities_of(p).contains("long_context"@) <==> p.needs_long_context,
{
    reveal_strlit("vision");
    reveal_strlit("tools");
    reveal_strlit("reasoning");
    reveal_strlit("coding");
    reveal_strlit("long_context");
    assert("vision"@.len() == 6);
    assert("tools"@.len() == 5);
    assert("reasoning"@.len() == 9);
    assert("coding"@.len() == 6);
    assert("long_context"@.len() == 12);
    assert("vision"@[0] != "coding"@[0]);
    let r = capabilities_of(p);
    let a: int = if p.needs_vision {
        1
    } else {
        0
    };
    let b: int = a + if p.needs_tools {
        1int
    } else {
        0
    };
    let c: int = b + if p.needs_reasoning {
        1int
    } else {
        0
    };
    let d: int = c + if p.needs_coding {
        1int
    } else {
        0
    };
    assert(p.needs_vision ==> r[0] == "vision"@);
    assert(p.needs_tools ==> r[a] == "tools"@);
    assert(p.needs_reasoning ==> r[b] == "reasoning"@);
    assert(p.needs_coding ==> r[c] == "coding"@);
    assert(p.needs_long_context ==> r[d] == "long_context"@);
    assert forall|i: int| 0 <= i < r.len() implies (p.needs_vision && #[trigger] r[i]
        == "vision"@) || (p.needs_tools && r[i] == "tools"@) || (p.needs_reasoning && r[i]
        == "reasoning"@) || (p.needs_coding && r[i] == "coding"@) || (p.needs_long_context && r[i]
        == "long_context"@) by {}
}

// ---------------------------------------------------------------- streams
/// What comes from the provider is passed on and never answered for; a stream
/// that ends or fails before anything came is told to be empty, and a failure is
/// told as one.
pub proof fn streams_are_told_of_what_happened(s: StreamRelay, e: GatewayError)
    ensures
        s.sent(RelayEvent::Chunk).len() == 0,
        s.errors(RelayEvent::Chunk) == 0,
        !s.after(RelayEvent::Chunk).first,
        s.after(RelayEvent::Silence) == s,
        s.errors(RelayEvent::Silence) == 0,
        s.sent(RelayEvent::Silence).len() == 1,
        s.first ==> s.sent(RelayEvent::Ended).len() == 1 && s.errors(RelayEvent::Ended) == 1,
        !s.first ==> s.sent(RelayEvent::Ended).len() == 0 && s.errors(RelayEvent::Ended) == 0,
        !s.first ==> s.sent(RelayEvent::Failed(e)).len() == 1 && s.errors(RelayEvent::Failed(e))
            == 1,
        s.first ==> s.sent(RelayEvent::Failed(e)).len() == 2 && s.errors(RelayEvent::Failed(e))
            == 2,
{
}

/// Every piece of a stream is counted once.
pub proof fn pieces_are_counted(s: StreamRelay)
    requires
        s.total_chunks < u64::MAX,
    ensures
        s.after(RelayEvent::Chunk).total_chunks == s.total_chunks + 1,
        s.after(RelayEvent::Ended) == s,
{
}

/// Of a provider, every step of its priority number from nought to five costs
/// one point, and beyond five none.
pub proof fn steps_of_priority_cost_one_point(
    profile: ProfileView,
    c: CandidateView,
    lowered: Seq<char>,
    p: i32,
)
    requires
        0 <= p < 5,
    ensures
        breakdown_of(
            profile,
            CandidateView { provider_priority: p, ..c },
            lowered,
        ).provider_priority == breakdown_of(
            profile,
            CandidateView { provider_priority: (p + 1) as i32, ..c },
            lowered,
        ).provider_priority + 1,
        c.provider_priority >= 5 ==> breakdown_of(profile, c, lowered).provider_priority == 0,
        c.provider_priority <= 0 ==> breakdown_of(profile, c, lowered).provider_priority == 5,
{
}

} // verus!
