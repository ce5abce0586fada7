//! Laws of the routes: what a request needs, who may serve it, and who does.
use crate::adaptive::laws::{
    has_record, is_fit, lower_priority_numbers_score_more, points, ranked_with_points,
    rankings_hold_whoever_is_fit, record_scores, the_best_comes_first,
};
use crate::adaptive::profile::{
    ProfileView, signals_of, SignalsView, TaskKind, texts_of, value_texts,
};
use crate::adaptive::routing::{
    acting_agent, AdaptiveScope, AdaptiveSelection, agent_providers, candidate_of, concrete_model,
    facts_of, group_providers, known_facts, ModelFacts, profile_under, ranked, refused,
    reserved_prefixes, scope_constraints, Search, selects, task_of_route,
};
use crate::adaptive::scoring::{CandidateTier, CandidateView, ranking};
use crate::api::models::is_disabled;
use crate::config::{Config, KeyTier};
use crate::error::{GatewayError, GatewayResult};
use crate::json::{JsonView, member};
use crate::keystate::{KeyState, KeyStateView, state_views};
use crate::lists::{
    collected_from, collected_has, flat_from, flat_has, kept, kept_satisfies, named_in,
};
use crate::models::{has_image, is_image_part, MessageView, RequestView};
use crate::text::{joined, lowercase_of, occurs, views};
use vstd::prelude::*;

verus! {

// ---------------------------------------------------------------- needs
/// A request needs vision exactly where one of its messages shows an image.
pub proof fn images_need_vision(
    agent: Option<Seq<char>>,
    request: RequestView,
    route_task: Option<Seq<char>>,
    parts: Seq<JsonView>,
    i: int,
    k: int,
)
    requires
        0 <= i < request.messages.len(),
        request.messages[i].content == JsonView::Array(parts),
        0 <= k < parts.len(),
        parts[k].get("type"@) == Some(JsonView::Text("image_url"@)),
    ensures
        signals_of(agent, request, route_task).profile().needs_vision,
        signals_of(agent, request, route_task).profile().task_kinds.contains(TaskKind::Vision),
{
    let s = signals_of(agent, request, route_task);
    let content = request.messages[i].content;
    assert(is_image_part(content->Array_0[k]));
    assert(has_image(content));
    assert(s.has_vision);
    assert(s.kinds()[1] == TaskKind::Vision);
}

/// A request whose messages are all plain text needs no vision.
pub proof fn plain_text_needs_no_vision(
    agent: Option<Seq<char>>,
    request: RequestView,
    route_task: Option<Seq<char>>,
)
    requires
        forall|i: int| 0 <= i < request.messages.len() ==> (#[trigger] request.messages[i]).content is Text,
    ensures
        !signals_of(agent, request, route_task).profile().needs_vision,
{
}

/// A request that brings tools, or a choice among them, needs tools.
pub proof fn tools_need_tools(
    agent: Option<Seq<char>>,
    request: RequestView,
    route_task: Option<Seq<char>>,
)
    ensures
        member(request.extra, "tools"@) is Some || member(request.extra, "tool_choice"@) is Some
            ==> signals_of(agent, request, route_task).profile().needs_tools,
        signals_of(agent, request, route_task).profile().needs_tools ==> member(
            request.extra,
            "tools"@,
        ) is Some || member(request.extra, "tool_choice"@) is Some || occurs(
            signals_of(agent, request, route_task).lower,
            "tool call"@,
        ) || occurs(signals_of(agent, request, route_task).lower, "function call"@),
{
}

/// Words about code need a model for code, and one that reasons; so does a route
/// that stands for coding. A route for reasoning needs one that reasons.
pub proof fn words_and_routes_need(s: SignalsView)
    ensures
        occurs(s.lower, "```"@) || occurs(s.lower, "stack trace"@) || occurs(s.lower, "panic"@)
            || occurs(s.lower, "exception"@) || occurs(s.lower, "diff --git"@) || occurs(
            s.lower,
            ".rs"@,
        ) || occurs(s.lower, ".ts"@) || occurs(s.lower, ".py"@) ==> s.profile().needs_coding
            && s.profile().needs_reasoning && s.profile().task_kinds.contains(TaskKind::Coding),
        occurs(s.agent_lower, "coding"@) || occurs(s.agent_lower, "hermes"@)
            ==> s.profile().needs_coding,
        s.route_task == Some("coding"@) ==> s.profile().needs_coding && s.profile().needs_reasoning
            && s.profile().task_kinds.contains(TaskKind::Coding),
        s.route_task == Some("reasoning"@) ==> s.profile().needs_reasoning
            && s.profile().task_kinds.contains(TaskKind::Reasoning),
        occurs(s.lower, "reason"@) || occurs(s.lower, "plan"@) || occurs(s.lower, "debug"@)
            || occurs(s.lower, "analyze"@) ==> s.profile().needs_reasoning,
        s.route_task == Some("document"@) || s.route_task == Some("long_context"@)
            ==> s.profile().needs_long_context && s.profile().task_kinds.contains(
            TaskKind::LongContext,
        ),
        occurs(s.agent_lower, "document"@) ==> s.profile().needs_long_context,
        s.route_task is None && s.profile().needs_coding ==> s.profile().needs_reasoning,
{
    let v = if s.has_vision || s.routed_to("vision"@) {
        1int
    } else {
        0
    };
    let t = if s.needs_tools() || s.routed_to("tools"@) {
        1int
    } else {
        0
    };
    let c = if s.about_code() || s.routed_to("coding"@) {
        1int
    } else {
        0
    };
    let r = if s.about_reasoning() || s.routed_to("reasoning"@) {
        1int
    } else {
        0
    };
    if c == 1 {
        assert(s.kinds()[1 + v + t] == TaskKind::Coding);
    }
    if r == 1 {
        assert(s.kinds()[1 + v + t + c] == TaskKind::Reasoning);
    }
    if s.needs_long_context() {
        assert(s.kinds()[1 + v + t + c + r] == TaskKind::LongContext);
    }
}

/// A prompt is taken for a token in every four characters, at least one; one of
/// more than eight thousand tokens needs a long context, and without words,
/// agent or route that say so no other does.
pub proof fn long_prompts_need_a_long_context(s: SignalsView)
    requires
        s.length < 0x1_0000_0000,
    ensures
        s.length >= 4 ==> 4 * s.profile().estimated_prompt_tokens <= s.length < 4 * (
        s.profile().estimated_prompt_tokens + 1),
        s.length < 4 ==> s.profile().estimated_prompt_tokens == 1,
        s.length >= 32_004 ==> s.profile().needs_long_context,
        s.length < 32_004 && s.route_task is None && !occurs(s.agent_lower, "document"@)
            ==> !s.profile().needs_long_context,
{
}

/// What a request says is judged: the text of each message that is a text, line
/// by line, in lower case.
pub proof fn what_is_said_is_judged(
    agent: Option<Seq<char>>,
    request: RequestView,
    route_task: Option<Seq<char>>,
    texts: Seq<Seq<char>>,
)
    requires
        texts.len() == request.messages.len(),
        forall|i: int|
            0 <= i < texts.len() ==> (#[trigger] request.messages[i]).content == JsonView::Text(
                texts[i],
            ),
    ensures
        signals_of(agent, request, route_task).lower == lowercase_of(joined(texts, "\n"@)),
        signals_of(agent, request, route_task).length == joined(texts, "\n"@).len(),
{
    let items = request.messages.map_values(|m: MessageView| m.content);
    plain_texts(items, texts);
}

proof fn plain_texts(items: Seq<JsonView>, texts: Seq<Seq<char>>)
    requires
        items.len() == texts.len(),
        forall|i: int| 0 <= i < items.len() ==> #[trigger] items[i] == JsonView::Text(texts[i]),
    ensures
        texts_of(items) == texts,
    decreases items.len(),
{
    if items.len() > 0 {
        let n = items.len() - 1;
        let before = items.subrange(0, n);
        assert forall|i: int| 0 <= i < before.len() implies #[trigger] before[i] == JsonView::Text(
            texts.subrange(0, n)[i],
        ) by {
            assert(before[i] == items[i]);
        }
        plain_texts(before, texts.subrange(0, n));
        assert(items[n] == JsonView::Text(texts[n]));
        assert(value_texts(items[n]) == seq![texts[n]]);
        assert(texts_of(items) == texts_of(before) + value_texts(items[n]));
        assert(texts.subrange(0, n) + seq![texts[n]] =~= texts);
    } else {
        assert(texts_of(items) =~= texts);
    }
}

// ---------------------------------------------------------------- scopes
/// Every provider may serve without a scope; with one, only the provider that
/// it names, or those of the group that it names. Paying is allowed where the
/// configuration allows it.
pub proof fn scopes_name_who_may_serve(config: Config, name: String, provider: Seq<char>)
    ensures
        scope_constraints(config, AdaptiveScope::Auto) matches Some(c) && c.allow(provider)
            && c.allow_paid == config.adaptive_routing.allow_paid,
        scope_constraints(config, AdaptiveScope::Provider(name)) matches Some(c) && (c.allow(
            provider,
        ) <==> provider == name@) && c.allow_paid == config.adaptive_routing.allow_paid,
        named_in(config.adaptive_routing.routing_groups@, name@) matches Some(g) ==> (
        scope_constraints(config, AdaptiveScope::ProviderGroup(name)) matches Some(c) && (c.allow(
            provider,
        ) <==> views(g.providers@).contains(provider)) && c.allow_paid
            == config.adaptive_routing.allow_paid),
        named_in(config.adaptive_routing.routing_groups@, name@) is None ==> scope_constraints(
            config,
            AdaptiveScope::ProviderGroup(name),
        ) is None,
{
}

/// An agent may use the providers of its groups; one without any may use all.
pub proof fn agents_use_their_groups(
    config: Config,
    agent: String,
    group: Seq<char>,
    provider: Seq<char>,
)
    ensures
        named_in(config.adaptive_routing.agent_profiles@, agent@) matches Some(p) ==> (views(
            p.provider_groups@,
        ).contains(group) ==> (named_in(config.adaptive_routing.routing_groups@, group) matches Some(
            g,
        ) ==> (views(g.providers@).contains(provider) ==> scope_constraints(
            config,
            AdaptiveScope::Agent(agent),
        )->0.allow(provider)))),
        named_in(config.adaptive_routing.agent_profiles@, agent@) is None ==> scope_constraints(
            config,
            AdaptiveScope::Agent(agent),
        )->0.allow(provider),
        scope_constraints(config, AdaptiveScope::Agent(agent)) is Some,
{
    let f = group_providers(config);
    if let Some(p) = named_in(config.adaptive_routing.agent_profiles@, agent@) {
        let groups = views(p.provider_groups@);
        if groups.contains(group) && named_in(config.adaptive_routing.routing_groups@, group)
            is Some && f(group).contains(provider) {
            let i = choose|i: int| 0 <= i < groups.len() && groups[i] == group;
            flat_has(groups, f, i, provider);
        }
    }
}

/// An agent with providers of its own may use no other.
pub proof fn agents_use_no_other(config: Config, agent: String, provider: Seq<char>)
    requires
        agent_providers(config, agent@).len() > 0,
        scope_constraints(config, AdaptiveScope::Agent(agent))->0.allow(provider),
    ensures
        named_in(config.adaptive_routing.agent_profiles@, agent@) matches Some(p) && exists|k: int|
            0 <= k < p.provider_groups@.len() && (named_in(
                config.adaptive_routing.routing_groups@,
                (#[trigger] p.provider_groups@[k])@,
            ) matches Some(g) && views(g.providers@).contains(provider)),
{
    let f = group_providers(config);
    let p = named_in(config.adaptive_routing.agent_profiles@, agent@)->0;
    let groups = views(p.provider_groups@);
    flat_from(groups, f, provider);
    let i = choose|i: int| 0 <= i < groups.len() && f(#[trigger] groups[i]).contains(provider);
    assert(groups[i] == p.provider_groups@[i]@);
}

/// Routing is refused exactly where it is switched off, where the provider's
/// name belongs to the gateway itself, and where there is no such group.
pub proof fn refusals_have_their_reasons(config: Config, name: String)
    ensures
        !config.adaptive_routing.enabled ==> refused(config, AdaptiveScope::Auto) is Some,
        config.adaptive_routing.enabled ==> refused(config, AdaptiveScope::Auto) is None
            && refused(config, AdaptiveScope::Agent(name)) is None,
        config.adaptive_routing.enabled ==> (refused(config, AdaptiveScope::ProviderGroup(name))
            is None <==> named_in(config.adaptive_routing.routing_groups@, name@) is Some),
        name@ == "admin"@ || name@ == "v1"@ || name@ == "auto"@ || name@ == "agents"@ || name@
            == "health"@ || name@ == "status"@ || name@ == "metrics"@ || name@
            == "provider-groups"@ ==> refused(config, AdaptiveScope::Provider(name)) is Some,
{
    let p = reserved_prefixes();
    assert(p[0] == "v1"@ && p[1] == "auto"@ && p[2] == "agents"@ && p[3] == "provider-groups"@
        && p[4] == "admin"@ && p[5] == "health"@ && p[6] == "status"@ && p[7] == "metrics"@);
}

/// A requested model is meant as it is named, or as its alias says; an automatic
/// one leaves the choice open.
pub proof fn requested_models_are_meant(config: Config, requested: Seq<char>)
    ensures
        requested == "auto"@ ==> concrete_model(config, requested) is None,
        named_in(config.adaptive_routing.auto_models@, requested) is Some ==> concrete_model(
            config,
            requested,
        ) is None,
        requested != "auto"@ && named_in(config.adaptive_routing.auto_models@, requested) is None
            ==> (if named_in(config.models@, requested) is Some {
            concrete_model(config, requested) == Some(
                named_in(config.models@, requested)->0.model@,
            )
        } else {
            concrete_model(config, requested) == Some(requested)
        }),
{
}

/// The task of a route is that of the automatic model that is asked for, else
/// that of the agent's own.
pub proof fn routes_stand_for_tasks(config: Config, agent: String, model: Seq<char>)
    ensures
        named_in(config.adaptive_routing.auto_models@, model) matches Some(auto) ==> task_of_route(
            config,
            AdaptiveScope::Auto,
            model,
        ) == Some(auto.task@) && task_of_route(config, AdaptiveScope::Agent(agent), model) == Some(
            auto.task@,
        ),
        named_in(config.adaptive_routing.auto_models@, model) is None ==> task_of_route(
            config,
            AdaptiveScope::Auto,
            model,
        ) is None,
        named_in(config.adaptive_routing.auto_models@, model) is None ==> (named_in(
            config.adaptive_routing.agent_profiles@,
            agent@,
        ) matches Some(p) ==> (named_in(
            config.adaptive_routing.auto_models@,
            p.default_auto_model@,
        ) matches Some(auto) ==> task_of_route(config, AdaptiveScope::Agent(agent), model) == Some(
            auto.task@,
        ))),
{
}

// ---------------------------------------------------------------- candidates
/// A candidate is what its key and the facts of its model say: the key's value
/// and tier, its successes and failures, whether its last error was a rate
/// limit, and the priority that its provider is configured with.
pub proof fn candidates_tell_of_their_key(
    config: Config,
    facts: Seq<ModelFacts>,
    provider: Seq<char>,
    key: KeyStateView,
    model: Seq<char>,
)
    requires
        key.success_count <= i64::MAX,
        key.total_fail_count <= i64::MAX,
    ensures
        ({
            let c = candidate_of(config, facts, provider, key, model);
            &&& c.provider == provider
            &&& c.model == model
            &&& c.api_key == Some(key.key)
            &&& c.tier == CandidateTier::Free <==> key.tier == KeyTier::Free
            &&& c.tier == CandidateTier::Paid <==> key.tier == KeyTier::Paid
            &&& c.recent_successes == key.success_count
            &&& c.recent_errors == key.total_fail_count
            &&& c.recent_429s == (if key.last_error_status == Some(429u16) {
                1int
            } else {
                0
            })
            &&& c.recent_timeouts == 0
            &&& c.quota_headroom == 100
            &&& named_in(config.providers@, provider) matches Some(p) ==> (p.priority <= i32::MAX
                ==> c.provider_priority == p.priority)
            &&& named_in(config.providers@, provider) is None ==> c.provider_priority == 0
        }),
{
}

/// What is known of a model is what the facts of that provider's model say, and
/// no facts of another.
pub proof fn facts_are_of_the_model(
    config: Config,
    facts: Seq<ModelFacts>,
    provider: Seq<char>,
    key: KeyStateView,
    model: Seq<char>,
    i: int,
)
    ensures
        0 <= i < facts.len() && facts[i].provider@ == provider && facts[i].model_id@ == model && (
        forall|j: int|
            0 <= j < facts.len() && j != i ==> (#[trigger] facts[j]).provider@ != provider
                || facts[j].model_id@ != model) ==> {
            let c = candidate_of(config, facts, provider, key, model);
            &&& c.supports_vision == facts[i].supports_vision
            &&& c.supports_tools == facts[i].supports_tools
            &&& c.supports_reasoning == facts[i].supports_reasoning
            &&& c.context_window == facts[i].context_window
            &&& c.prompt_is_free == facts[i].prompt_is_free
        },
        (forall|j: int|
            0 <= j < facts.len() ==> (#[trigger] facts[j]).provider@ != provider
                || facts[j].model_id@ != model) ==> {
            let c = candidate_of(config, facts, provider, key, model);
            &&& c.supports_vision is None && c.supports_tools is None && c.supports_reasoning is None
            &&& c.context_window is None && c.prompt_is_free is None
        },
{
    let p = facts_of(provider, model);
    let mine = kept(facts, p);
    kept_satisfies(facts, p);
    if mine.len() > 0 {
        assert(p(mine[0]) && facts.contains(mine[0]));
        let w = choose|w: int| 0 <= w < facts.len() && facts[w] == mine[0];
        assert(facts[w].provider@ == provider && facts[w].model_id@ == model);
    }
    if 0 <= i < facts.len() && facts[i].provider@ == provider && facts[i].model_id@ == model {
        assert(facts.contains(facts[i]) && p(facts[i]));
        assert(mine.contains(facts[i]));
    }
}

/// A model of a key is a candidate where its provider is allowed, its key is
/// available and within its limits, it is the one that is asked for, and it is
/// not switched off.
pub proof fn usable_models_are_candidates(
    search: Search,
    snapshot: Seq<(String, Vec<KeyState>)>,
    i: int,
    j: int,
    model: Seq<char>,
)
    requires
        0 <= i < snapshot.len(),
        0 <= j < snapshot[i].1@.len(),
        search.constraints.allow(snapshot[i].0@),
        snapshot[i].1@[j]@.ready(search.now),
        snapshot[i].1@[j]@.models.contains(model),
        search.exact is None || search.exact == Some(model),
        !is_disabled(search.disabled, snapshot[i].0@, model),
    ensures
        search.found(snapshot).contains(
            candidate_of(
                search.config,
                search.facts,
                snapshot[i].0@,
                snapshot[i].1@[j]@,
                model,
            ),
        ),
{
    let provider = snapshot[i].0@;
    let keys = state_views(snapshot[i].1@);
    let key = keys[j];
    let f = search.of_model(provider, key);
    let k = choose|k: int| 0 <= k < key.models.len() && key.models[k] == model;
    let c = candidate_of(search.config, search.facts, provider, key, model);
    assert(f(key.models[k]) == Some(c));
    collected_has(key.models, f, k);
    let g = search.of_key(provider);
    assert(g(keys[j]).contains(c));
    flat_has(keys, g, j, c);
    let h = search.of_provider();
    assert(h(snapshot[i]).contains(c));
    flat_has(snapshot, h, i, c);
}

/// Every candidate is such a model of a key.
pub proof fn candidates_are_usable_models(
    search: Search,
    snapshot: Seq<(String, Vec<KeyState>)>,
    c: CandidateView,
)
    requires
        search.found(snapshot).contains(c),
    ensures
        exists|i: int, j: int|
            #![trigger snapshot[i].1@[j]]
            {
                &&& 0 <= i < snapshot.len()
                &&& 0 <= j < snapshot[i].1@.len()
                &&& c.provider == snapshot[i].0@
                &&& c.api_key == Some(snapshot[i].1@[j]@.key)
                &&& snapshot[i].1@[j]@.ready(search.now)
                &&& snapshot[i].1@[j]@.models.contains(c.model)
                &&& search.constraints.allow(snapshot[i].0@)
                &&& search.exact is None || search.exact == Some(c.model)
                &&& !is_disabled(search.disabled, c.provider, c.model)
                &&& c == candidate_of(
                    search.config,
                    search.facts,
                    c.provider,
                    snapshot[i].1@[j]@,
                    c.model,
                )
            },
{
    let h = search.of_provider();
    flat_from(snapshot, h, c);
    let i = choose|i: int| 0 <= i < snapshot.len() && h(#[trigger] snapshot[i]).contains(c);
    let provider = snapshot[i].0@;
    let keys = state_views(snapshot[i].1@);
    let g = search.of_key(provider);
    assert(search.constraints.allow(provider));
    flat_from(keys, g, c);
    let j = choose|j: int| 0 <= j < keys.len() && g(#[trigger] keys[j]).contains(c);
    let f = search.of_model(provider, keys[j]);
    assert(keys[j].ready(search.now));
    collected_from(keys[j].models, f, c);
    let k = choose|k: int|
        0 <= k < keys[j].models.len() && f(#[trigger] keys[j].models[k]) == Some(c);
    assert(keys[j] == snapshot[i].1@[j]@);
    assert(keys[j].models.contains(keys[j].models[k]));
}

// ---------------------------------------------------------------- selection
/// Whoever could serve a request, someone is selected for it, and no one that
/// could would have scored more. The selection names the provider, the model and
/// the key of its candidate.
pub proof fn the_best_is_selected(
    r: GatewayResult<AdaptiveSelection>,
    config: Config,
    snapshot: Seq<(String, Vec<KeyState>)>,
    disabled: Seq<(String, Vec<String>)>,
    facts: Seq<ModelFacts>,
    now: u64,
    scope: AdaptiveScope,
    request: RequestView,
    i: int,
    j: int,
    model: Seq<char>,
)
    requires
        selects(r, config, snapshot, disabled, facts, now, scope, request),
        refused(config, scope) is None,
        0 <= i < snapshot.len(),
        0 <= j < snapshot[i].1@.len(),
        scope_constraints(config, scope)->0.allow(snapshot[i].0@),
        snapshot[i].1@[j]@.ready(now),
        snapshot[i].1@[j]@.models.contains(model),
        concrete_model(config, request.model) is None || concrete_model(config, request.model)
            == Some(model),
        !is_disabled(disabled, snapshot[i].0@, model),
        is_fit(
            profile_under(config, scope, request),
            scope_constraints(config, scope)->0,
            candidate_of(config, facts, snapshot[i].0@, snapshot[i].1@[j]@, model),
        ),
    ensures
        r matches Ok(s) && s.score >= points(
            profile_under(config, scope, request),
            candidate_of(config, facts, snapshot[i].0@, snapshot[i].1@[j]@, model),
            lowercase_of(model),
        ),
{
    let constraints = scope_constraints(config, scope)->0;
    let profile = profile_under(config, scope, request);
    let search = Search {
        config,
        disabled,
        facts,
        exact: concrete_model(config, request.model),
        constraints,
        now,
    };
    let c = candidate_of(config, facts, snapshot[i].0@, snapshot[i].1@[j]@, model);
    usable_models_are_candidates(search, snapshot, i, j, model);
    the_best_comes_first(profile, search.found(snapshot), constraints, c);
    let best = ranked(config, snapshot, disabled, facts, now, scope, request);
    assert(best == ranking(profile, search.found(snapshot), constraints));
    ranked_with_points(profile, search.found(snapshot), constraints, 0);
}

/// Whoever is selected can serve the request: the selection is a model of a key
/// that is available and within its limits, of a provider that the scope allows,
/// the model that is asked for where one is, not switched off, and fit. It is
/// scored by what it is, and told with the kinds of the task.
pub proof fn the_selected_can_serve(
    s: AdaptiveSelection,
    config: Config,
    snapshot: Seq<(String, Vec<KeyState>)>,
    disabled: Seq<(String, Vec<String>)>,
    facts: Seq<ModelFacts>,
    now: u64,
    scope: AdaptiveScope,
    request: RequestView,
)
    requires
        selects(Ok(s), config, snapshot, disabled, facts, now, scope, request),
    ensures
        exists|i: int, j: int|
            #![trigger snapshot[i].1@[j]]
            {
                let c = candidate_of(config, facts, s.provider@, snapshot[i].1@[j]@, s.model@);
                &&& 0 <= i < snapshot.len()
                &&& 0 <= j < snapshot[i].1@.len()
                &&& s.provider@ == snapshot[i].0@
                &&& s.api_key@ == snapshot[i].1@[j]@.key
                &&& snapshot[i].1@[j]@.ready(now)
                &&& snapshot[i].1@[j]@.models.contains(s.model@)
                &&& scope_constraints(config, scope)->0.allow(s.provider@)
                &&& concrete_model(config, request.model) is None || concrete_model(
                    config,
                    request.model,
                ) == Some(s.model@)
                &&& !is_disabled(disabled, s.provider@, s.model@)
                &&& is_fit(
                    profile_under(config, scope, request),
                    scope_constraints(config, scope)->0,
                    c,
                )
                &&& s.score == points(
                    profile_under(config, scope, request),
                    c,
                    lowercase_of(s.model@),
                )
            },
        s.task_kinds@ == profile_under(config, scope, request).task_kinds,
{
    let constraints = scope_constraints(config, scope)->0;
    let profile = profile_under(config, scope, request);
    let search = Search {
        config,
        disabled,
        facts,
        exact: concrete_model(config, request.model),
        constraints,
        now,
    };
    let best = ranked(config, snapshot, disabled, facts, now, scope, request);
    assert(best == ranking(profile, search.found(snapshot), constraints));
    let c = best[0].candidate;
    rankings_hold_whoever_is_fit(profile, search.found(snapshot), constraints, c);
    candidates_are_usable_models(search, snapshot, c);
    ranked_with_points(profile, search.found(snapshot), constraints, 0);
}

/// Where a selection fails although routing is not refused, the model that was
/// asked for is not found.
pub proof fn nobody_means_no_model(
    e: GatewayError,
    config: Config,
    snapshot: Seq<(String, Vec<KeyState>)>,
    disabled: Seq<(String, Vec<String>)>,
    facts: Seq<ModelFacts>,
    now: u64,
    scope: AdaptiveScope,
    request: RequestView,
)
    requires
        selects(Err(e), config, snapshot, disabled, facts, now, scope, request),
        refused(config, scope) is None,
    ensures
        e matches GatewayError::ModelNotFound(m) && m@ == request.model,
{
}

/// Of two providers whose keys are alike and serve the same model, the one with
/// the lower priority number is preferred, where the numbers lie between 0 and
/// 5.
pub proof fn providers_are_preferred_by_priority(
    config: Config,
    facts: Seq<ModelFacts>,
    near: Seq<char>,
    far: Seq<char>,
    key: KeyStateView,
    other: KeyStateView,
    model: Seq<char>,
    profile: ProfileView,
)
    requires
        named_in(config.providers@, near) matches Some(a) && (named_in(
            config.providers@,
            far,
        ) matches Some(b) && a.priority < b.priority <= 5),
        known_facts(facts, near, model) is None,
        known_facts(facts, far, model) is None,
        key.tier == other.tier,
        key.success_count == other.success_count,
        key.total_fail_count == other.total_fail_count,
        key.last_error_status == other.last_error_status,
        key.success_count < 100_000_000,
        key.total_fail_count < 100_000_000,
    ensures
        points(profile, candidate_of(config, facts, near, key, model), lowercase_of(model))
            > points(profile, candidate_of(config, facts, far, other, model), lowercase_of(model)),
{
    let a = candidate_of(config, facts, near, key, model);
    let b = candidate_of(config, facts, far, other, model);
    let lowered = lowercase_of(model);
    lower_priority_numbers_score_more(
        profile,
        a,
        lowered,
        a.provider_priority,
        b.provider_priority,
    );
    assert(has_record(a) && has_record(b));
    let mid = CandidateView { provider_priority: b.provider_priority, ..a };
    assert(a == CandidateView { provider_priority: a.provider_priority, ..a });
    record_scores(profile, mid, lowered);
    record_scores(profile, b, lowered);
}

/// The agent that acts is that of the scope, where it names one.
pub proof fn the_scope_names_the_agent(agent: String, request: RequestView)
    ensures
        acting_agent(AdaptiveScope::Agent(agent), request) == Some(agent@),
        acting_agent(AdaptiveScope::Auto, request) == request.agent_name,
{
}

} // verus!
