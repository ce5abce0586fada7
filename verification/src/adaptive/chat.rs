//! One adaptive request: what is sent to whom, and what is learned from it.
use crate::adaptive::observations::{capabilities_of, required_capabilities};
use crate::adaptive::profile::{
    build_task_profile, kind_name, task_kind_name, TaskKind, TaskProfile,
};
use crate::adaptive::routing::{
    acting_agent, AdaptiveScope, AdaptiveSelection, agent_of, ModelFacts, profile_under, ranked,
    Refusal, refused, route_task, scope_agent, select_model, selection_of, SelectionView, selects,
    snapshot_of, tells,
};
use crate::api::models::DisabledModels;
use crate::clock::Moment;
use crate::config::Config;
use crate::error::{GatewayError, GatewayResult, status_of};
use crate::json::Json;
use crate::keyhub::KeyHub;
use crate::keyhub::hub::{hub_maskable, HubView};
use crate::keystate::KeyState;
use crate::models::{ChatCompletionRequest, extract_usage, RequestView, usage_of};
use crate::text::{copy_opt, list_has, opt_view, views};
use vstd::prelude::*;

verus! {

/// A request that is ready to be sent, to whom, and what it is taken for.
#[derive(Debug)]
pub struct ChatPlan {
    pub selection: AdaptiveSelection,
    pub profile: TaskProfile,
    pub request: ChatCompletionRequest,
}

/// The request that is sent: to the selected model, by the acting agent, and
/// not as a stream.
pub open spec fn sent_request(
    request: RequestView,
    selection: SelectionView,
    scope: AdaptiveScope,
) -> RequestView {
    RequestView {
        model: selection.model,
        agent_name: acting_agent(scope, request),
        stream: Some(false),
        ..request
    }
}

/// Whether a result is what a selection comes to, where the hub goes from one
/// state to another.
pub open spec fn plans(
    r: GatewayResult<ChatPlan>,
    config: Config,
    selected: Option<SelectionView>,
    registered: Seq<Seq<char>>,
    before: HubView,
    after: HubView,
    now: u64,
    scope: AdaptiveScope,
    request: RequestView,
) -> bool {
    match selected {
        None => (r matches Err(GatewayError::ModelNotFound(m)) && m@ == request.model) && after
            == before,
        Some(s) => if !registered.contains(s.provider) {
            (r matches Err(GatewayError::ProviderNotFound(p)) && p@ == s.provider) && after
                == before
        } else {
            &&& after == before.reserved(s.provider, s.api_key, now)
            &&& if before.can_reserve(s.provider, s.api_key, now) {
                r matches Ok(plan) && plan.selection@ == s && plan.profile@ == profile_under(
                    config,
                    scope,
                    request,
                ) && plan.request@ == sent_request(request, s, scope)
            } else {
                r matches Err(GatewayError::NoAvailableKeys(p)) && p@ == s.provider
            }
        },
    }
}

/// Plans a request: selects a model, reserves its key and makes the request
/// ready. Where it is refused the hub is not asked.
pub fn plan_chat(
    config: &Config,
    keyhub: &mut KeyHub,
    registered: &Vec<String>,
    disabled: &DisabledModels,
    facts: &Vec<ModelFacts>,
    scope: &AdaptiveScope,
    request: ChatCompletionRequest,
) -> (r: GatewayResult<ChatPlan>)
    requires
        old(keyhub).wf(),
        hub_maskable(old(keyhub)@),
    ensures
        final(keyhub).wf(),
        !config.adaptive_routing.enabled ==> (r matches Err(e) && tells(e, Refusal::Disabled))
            && final(keyhub)@ == old(keyhub)@,
        config.adaptive_routing.enabled && request.stream == Some(true) ==> (r matches Err(
            GatewayError::InvalidRequest(m),
        ) && m@
            == "adaptive streaming is not implemented yet; use non-streaming or /v1"@)
            && final(keyhub)@ == old(keyhub)@,
        config.adaptive_routing.enabled && request.stream != Some(true) ==> match refused(
            *config,
            *scope,
        ) {
            Some(why) => (r matches Err(e) && tells(e, why)) && final(keyhub)@ == old(keyhub)@,
            None => exists|
                snapshot: Seq<(String, Vec<KeyState>)>,
                middle: HubView,
                at: u64,
                now: u64,
                then: u64,
            |
                {
                    &&& #[trigger] snapshot_of(snapshot, old(keyhub)@, middle, at)
                    &&& #[trigger] plans(
                        r,
                        *config,
                        selection_of(
                            ranked(
                                *config,
                                snapshot,
                                disabled@,
                                facts@,
                                now,
                                *scope,
                                request@,
                            ),
                            profile_under(*config, *scope, request@),
                        ),
                        views(registered@),
                        middle,
                        final(keyhub)@,
                        then,
                        *scope,
                        request@,
                    )
                },
        },
{
    if !config.adaptive_routing.enabled {
        return Err(
            GatewayError::InvalidRequest("adaptive routing is disabled in config".to_owned()),
        );
    }
    if let Some(true) = request.stream {
        return Err(
            GatewayError::InvalidRequest(
                "adaptive streaming is not implemented yet; use non-streaming or /v1".to_owned(),
            ),
        );
    }
    let ghost asked = request@;
    let selection = select_model(config, keyhub, disabled, facts, scope, &request);
    let ghost middle = keyhub@;
    let ghost refusal = refused(*config, *scope);
    let ghost (snapshot, at, now): (Seq<(String, Vec<KeyState>)>, u64, u64) = choose|
        snapshot: Seq<(String, Vec<KeyState>)>,
        at: u64,
        now: u64,
    |
        {
            &&& #[trigger] snapshot_of(snapshot, old(keyhub)@, middle, at)
            &&& #[trigger] selects(
                selection,
                *config,
                snapshot,
                disabled@,
                facts@,
                now,
                *scope,
                asked,
            )
        };
    let ghost selected = selection_of(
        ranked(*config, snapshot, disabled@, facts@, now, *scope, asked),
        profile_under(*config, *scope, asked),
    );
    let selection = match selection {
        Ok(s) => s,
        Err(e) => {
            proof {
                if refusal is None {
                    let r: GatewayResult<ChatPlan> = Err(e);
                    assert(plans(
                        r,
                        *config,
                        selected,
                        views(registered@),
                        middle,
                        middle,
                        0,
                        *scope,
                        asked,
                    ));
                }
            }
            return Err(e);
        },
    };
    let task = route_task(config, scope, request.model.as_str());
    let agent = match scope_agent(scope) {
        Some(a) => Some(a),
        None => match &request.agent_name {
            Some(a) => Some(a.as_str()),
            None => None,
        },
    };
    let profile = build_task_profile(
        agent,
        &request,
        match &task {
            Some(t) => Some(t.as_str()),
            None => None,
        },
    );
    if !list_has(registered, selection.provider.as_str()) {
        let r: GatewayResult<ChatPlan> = Err(
            GatewayError::ProviderNotFound(selection.provider),
        );
        assert(plans(
            r,
            *config,
            selected,
            views(registered@),
            middle,
            middle,
            0,
            *scope,
            asked,
        ));
        return r;
    }
    let reserved = keyhub.reserve_key(selection.provider.as_str(), selection.api_key.as_str());
    let ghost then = choose|then: u64|
        reserved == middle.can_reserve(selection.provider@, selection.api_key@, then) && keyhub@
            == #[trigger] middle.reserved(selection.provider@, selection.api_key@, then);
    if !reserved {
        let r: GatewayResult<ChatPlan> = Err(GatewayError::NoAvailableKeys(selection.provider));
        assert(plans(
            r,
            *config,
            selected,
            views(registered@),
            middle,
            keyhub@,
            then,
            *scope,
            asked,
        ));
        return r;
    }
    let acting = match scope_agent(scope) {
        Some(a) => Some(a.to_owned()),
        None => copy_opt(&request.agent_name),
    };
    let mut request = request;
    request.model = selection.model.clone();
    request.agent_name = acting;
    request.stream = Some(false);
    let r: GatewayResult<ChatPlan> = Ok(ChatPlan { selection, profile, request });
    assert(plans(
        r,
        *config,
        selected,
        views(registered@),
        middle,
        keyhub@,
        then,
        *scope,
        asked,
    ));
    r
}

/// What is learned from a request: of each kind of task that it was, and of each
/// capability that it asked for.
#[derive(Debug)]
pub struct ChatRecords {
    pub agent: Option<String>,
    pub tasks: Vec<String>,
    pub success: bool,
    pub prompt_tokens: Option<u32>,
    pub completion_tokens: Option<u32>,
    pub capabilities: Vec<String>,
    pub outcome: String,
}

/// Whether records are those of a request with this outcome.
pub open spec fn records(
    r: ChatRecords,
    plan: ChatPlan,
    scope: AdaptiveScope,
    success: bool,
    prompt_tokens: Option<u32>,
    completion_tokens: Option<u32>,
) -> bool {
    &&& opt_view(r.agent) == agent_of(scope)
    &&& views(r.tasks@) == plan.selection@.task_kinds.map_values(|k: TaskKind| kind_name(k))
    &&& r.success == success
    &&& r.prompt_tokens == prompt_tokens
    &&& r.completion_tokens == completion_tokens
    &&& views(r.capabilities@) == capabilities_of(plan.profile@)
    &&& r.outcome@ == if success {
        "success"@
    } else {
        "failure"@
    }
}

fn make_records(
    plan: &ChatPlan,
    scope: &AdaptiveScope,
    success: bool,
    prompt_tokens: Option<u32>,
    completion_tokens: Option<u32>,
) -> (r: ChatRecords)
    ensures
        records(r, *plan, *scope, success, prompt_tokens, completion_tokens),
{
    let kinds = &plan.selection.task_kinds;
    let mut tasks: Vec<String> = Vec::new();
    let mut i: usize = 0;
    while i < kinds.len()
        invariant
            i <= kinds@.len(),
            tasks@.len() == i,
            forall|j: int| 0 <= j < i ==> (#[trigger] tasks@[j])@ == kind_name(kinds@[j]),
        decreases kinds@.len() - i,
    {
        tasks.push(task_kind_name(&kinds[i]));
        i += 1;
    }
    assert(views(tasks@) =~= kinds@.map_values(|k: TaskKind| kind_name(k)));
    ChatRecords {
        agent: match scope_agent(scope) {
            Some(a) => Some(a.to_owned()),
            None => None,
        },
        tasks,
        success,
        prompt_tokens,
        completion_tokens,
        capabilities: required_capabilities(&plan.profile),
        outcome: if success {
            "success".to_owned()
        } else {
            "failure".to_owned()
        },
    }
}

/// Takes a response into account: the key served a request with the tokens that
/// the response reports.
pub fn chat_succeeded(
    keyhub: &mut KeyHub,
    plan: &ChatPlan,
    scope: &AdaptiveScope,
    body: &Json,
) -> (r: ChatRecords)
    requires
        old(keyhub).wf(),
    ensures
        final(keyhub).wf(),
        exists|now: u64|
            final(keyhub)@ == #[trigger] old(keyhub)@.succeeded(
                plan.selection.provider@,
                plan.selection.api_key@,
                usage_of(body@, "prompt_tokens"@),
                usage_of(body@, "completion_tokens"@),
                true,
                now,
            ),
        records(
            r,
            *plan,
            *scope,
            true,
            usage_of(body@, "prompt_tokens"@),
            usage_of(body@, "completion_tokens"@),
        ),
{
    let (prompt_tokens, completion_tokens) = extract_usage(body);
    keyhub.report_reserved_success(
        plan.selection.provider.as_str(),
        plan.selection.api_key.as_str(),
        prompt_tokens,
        completion_tokens,
    );
    make_records(plan, scope, true, prompt_tokens, completion_tokens)
}

/// Takes an error of the provider into account.
pub fn chat_failed(
    keyhub: &mut KeyHub,
    plan: &ChatPlan,
    scope: &AdaptiveScope,
    error: &GatewayError,
) -> (r: ChatRecords)
    requires
        old(keyhub).wf(),
    ensures
        final(keyhub).wf(),
        exists|moment: Moment, now: u64|
            0 <= moment.seconds && final(keyhub)@ == #[trigger] old(keyhub)@.charged(
                plan.selection.provider@,
                plan.selection.api_key@,
                *error,
                moment,
                now,
            ),
        records(r, *plan, *scope, false, None, None),
{
    keyhub.report_gateway_error(
        plan.selection.provider.as_str(),
        plan.selection.api_key.as_str(),
        error,
    );
    make_records(plan, scope, false, None, None)
}

// ---------------------------------------------------------------- errors
/// The status to answer an error with: its own, or 502 where that is none.
pub fn status_for_adaptive_error(error: &GatewayError) -> (r: u16)
    ensures
        r == if 100 <= status_of(*error) <= 999 {
            status_of(*error)
        } else {
            502
        },
{
    let status = error.http_status();
    if 100 <= status && status <= 999 {
        status
    } else {
        502
    }
}

} // verus!
