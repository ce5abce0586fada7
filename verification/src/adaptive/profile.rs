//! What a request needs of a model.
use crate::json::{group_json_views, items_view, Json, JsonView, member};
use crate::models::{
    any_vision, ChatCompletionRequest, low32, MessageView, request_has_vision, RequestView,
    truncate32,
};
use crate::text::{
    char_count, contains, join, joined, lowercase, lowercase_of, occurs, opt_view, same, str_view,
    views,
};
use vstd::prelude::*;

verus! {

#[derive(Debug, Clone, Copy, PartialEq, Eq, Structural)]
pub enum TaskKind {
    Balanced,
    Coding,
    Reasoning,
    Tools,
    Vision,
    LongContext,
    Document,
}

#[derive(Debug, Clone, Copy, PartialEq, Eq, Structural)]
pub enum LatencyPreference {
    Interactive,
    Batch,
}

#[derive(Debug, Clone, Copy, PartialEq, Eq, Structural)]
pub enum CostPreference {
    Cheap,
    Balanced,
    Quality,
}

#[derive(Debug)]
pub struct TaskProfile {
    pub agent: Option<String>,
    pub task_kinds: Vec<TaskKind>,
    pub needs_vision: bool,
    pub needs_tools: bool,
    pub needs_reasoning: bool,
    pub needs_coding: bool,
    pub needs_long_context: bool,
    pub estimated_prompt_tokens: u32,
    pub latency_preference: LatencyPreference,
    pub cost_preference: CostPreference,
}

/// What a [`TaskProfile`] holds.
pub struct ProfileView {
    pub agent: Option<Seq<char>>,
    pub task_kinds: Seq<TaskKind>,
    pub needs_vision: bool,
    pub needs_tools: bool,
    pub needs_reasoning: bool,
    pub needs_coding: bool,
    pub needs_long_context: bool,
    pub estimated_prompt_tokens: u32,
    pub latency_preference: LatencyPreference,
    pub cost_preference: CostPreference,
}

impl View for TaskProfile {
    type V = ProfileView;

    open spec fn view(&self) -> ProfileView {
        ProfileView {
            agent: opt_view(self.agent),
            task_kinds: self.task_kinds@,
            needs_vision: self.needs_vision,
            needs_tools: self.needs_tools,
            needs_reasoning: self.needs_reasoning,
            needs_coding: self.needs_coding,
            needs_long_context: self.needs_long_context,
            estimated_prompt_tokens: self.estimated_prompt_tokens,
            latency_preference: self.latency_preference,
            cost_preference: self.cost_preference,
        }
    }
}

// ---------------------------------------------------------------- text
/// The texts in a content: itself, those of its items, or that of its member
/// `text`.
pub open spec fn value_texts(value: JsonView) -> Seq<Seq<char>>
    decreases value,
{
    match value {
        JsonView::Text(t) => seq![t],
        JsonView::Array(items) => texts_of(items),
        JsonView::Object(members) => match member(members, "text"@) {
            Some(JsonView::Text(t)) => seq![t],
            _ => Seq::empty(),
        },
        _ => Seq::empty(),
    }
}

/// The texts in some contents, one after the other.
pub open spec fn texts_of(items: Seq<JsonView>) -> Seq<Seq<char>>
    decreases items,
{
    if items.len() == 0 {
        Seq::empty()
    } else {
        texts_of(items.subrange(0, items.len() - 1)) + value_texts(items[items.len() - 1])
    }
}

/// The text of a request: the texts of its messages, line by line.
pub open spec fn request_texts(messages: Seq<MessageView>) -> Seq<Seq<char>> {
    texts_of(messages.map_values(|m: MessageView| m.content))
}

proof fn texts_of_next(items: Seq<JsonView>, i: int)
    requires
        0 <= i < items.len(),
    ensures
        texts_of(items.take(i + 1)) == texts_of(items.take(i)) + value_texts(items[i]),
{
    let t = items.take(i + 1);
    assert(t.subrange(0, t.len() - 1) =~= items.take(i));
    assert(t[t.len() - 1] == items[i]);
}

fn collect_value_text(value: &Json, parts: &mut Vec<String>)
    ensures
        views(final(parts)@) == views(old(parts)@) + value_texts(value@),
    decreases value,
{
    broadcast use group_json_views;

    let ghost start = views(parts@);
    match value {
        Json::Text(text) => {
            parts.push(text.clone());
            assert(views(parts@) =~= start + seq![text@]);
        },
        Json::Array(values) => {
            let ghost all = items_view(values@);
            let mut i: usize = 0;
            assert(start + texts_of(all.take(0)) =~= start);
            while i < values.len()
                invariant
                    i <= values@.len(),
                    all == items_view(values@),
                    value == Json::Array(*values),
                    views(parts@) == start + texts_of(all.take(i as int)),
                decreases values@.len() - i,
            {
                proof {
                    assert(decreases_to!(value => value->Array_0));
                    assert(decreases_to!(values@ => values@[i as int]));
                    texts_of_next(all, i as int);
                    assert(all[i as int] == values@[i as int]@);
                }
                let ghost so_far = texts_of(all.take(i as int));
                collect_value_text(&values[i], parts);
                assert(start + so_far + value_texts(all[i as int]) =~= start + (so_far
                    + value_texts(all[i as int])));
                i += 1;
            }
            assert(all.take(all.len() as int) =~= all);
        },
        Json::Object(_) => {
            let text = match value.get("text") {
                Some(t) => t.as_str(),
                None => None,
            };
            match text {
                Some(t) => {
                    parts.push(t.to_owned());
                    assert(views(parts@) =~= start + seq![t@]);
                },
                None => {
                    assert(views(parts@) =~= start + value_texts(value@));
                },
            }
        },
        _ => {
            assert(views(parts@) =~= start + value_texts(value@));
        },
    }
}

fn request_text(request: &ChatCompletionRequest) -> (r: String)
    ensures
        r@ == joined(request_texts(request@.messages), "\n"@),
{
    let mut parts: Vec<String> = Vec::new();
    let ghost all = request@.messages.map_values(|m: MessageView| m.content);
    let mut i: usize = 0;
    assert(views(parts@) =~= texts_of(all.take(0)));
    while i < request.messages.len()
        invariant
            i <= request.messages@.len(),
            all == request@.messages.map_values(|m: MessageView| m.content),
            views(parts@) == texts_of(all.take(i as int)),
        decreases request.messages@.len() - i,
    {
        proof {
            texts_of_next(all, i as int);
            assert(request@.messages[i as int] == request.messages@[i as int]@);
        }
        collect_value_text(&request.messages[i].content, &mut parts);
        i += 1;
    }
    assert(all.take(all.len() as int) =~= all);
    join(&parts, "\n")
}

// ---------------------------------------------------------------- signals
/// What is known of a request before it is judged.
pub struct SignalsView {
    /// The agent, as it was named.
    pub agent: Option<Seq<char>>,
    /// The agent in lower case; nothing where none was named.
    pub agent_lower: Seq<char>,
    /// The text in lower case.
    pub lower: Seq<char>,
    /// How many characters the text has.
    pub length: nat,
    pub has_vision: bool,
    /// Whether the request brings tools or a choice of tools.
    pub has_tools: bool,
    /// The kind of task that its route stands for.
    pub route_task: Option<Seq<char>>,
}

/// What is known of a request before it is judged.
pub struct Signals<'a> {
    pub agent: Option<&'a str>,
    pub agent_lower: String,
    pub lower: String,
    pub length: usize,
    pub has_vision: bool,
    pub has_tools: bool,
    pub route_task: Option<&'a str>,
}

impl<'a> View for Signals<'a> {
    type V = SignalsView;

    open spec fn view(&self) -> SignalsView {
        SignalsView {
            agent: str_view(self.agent),
            agent_lower: self.agent_lower@,
            lower: self.lower@,
            length: self.length as nat,
            has_vision: self.has_vision,
            has_tools: self.has_tools,
            route_task: str_view(self.route_task),
        }
    }
}

impl SignalsView {
    /// A quarter of the characters, and at least one.
    pub open spec fn tokens(self) -> u32 {
        let n = low32(self.length as int) / 4;
        if n < 1 {
            1
        } else {
            n as u32
        }
    }

    /// Whether the route stands for a kind of task.
    pub open spec fn routed_to(self, task: Seq<char>) -> bool {
        self.route_task == Some(task)
    }

    /// Whether tools are called for.
    pub open spec fn needs_tools(self) -> bool {
        ||| self.has_tools
        ||| occurs(self.lower, "tool call"@)
        ||| occurs(self.lower, "function call"@)
    }

    /// Whether the text, or the agent, is about code.
    pub open spec fn about_code(self) -> bool {
        ||| occurs(self.lower, "```"@)
        ||| occurs(self.lower, "stack trace"@)
        ||| occurs(self.lower, "panic"@)
        ||| occurs(self.lower, "exception"@)
        ||| occurs(self.lower, "diff --git"@)
        ||| occurs(self.lower, ".rs"@)
        ||| occurs(self.lower, ".ts"@)
        ||| occurs(self.lower, ".py"@)
        ||| occurs(self.agent_lower, "coding"@)
        ||| occurs(self.agent_lower, "hermes"@)
    }

    /// Whether the text calls for reasoning.
    pub open spec fn about_reasoning(self) -> bool {
        ||| self.about_code()
        ||| occurs(self.lower, "reason"@)
        ||| occurs(self.lower, "plan"@)
        ||| occurs(self.lower, "debug"@)
        ||| occurs(self.lower, "analyze"@)
    }

    /// Whether the agent works on documents.
    pub open spec fn about_documents(self) -> bool {
        occurs(self.agent_lower, "document"@)
    }

    /// Whether a long context is needed.
    pub open spec fn needs_long_context(self) -> bool {
        ||| self.tokens() > 8_000
        ||| self.about_documents()
        ||| self.routed_to("document"@)
        ||| self.routed_to("long_context"@)
    }

    /// The kinds of task that the request is: always a balanced one, and what
    /// its signals or its route say.
    pub open spec fn kinds(self) -> Seq<TaskKind> {
        seq![TaskKind::Balanced] + kind_if(
            self.has_vision || self.routed_to("vision"@),
            TaskKind::Vision,
        ) + kind_if(self.needs_tools() || self.routed_to("tools"@), TaskKind::Tools) + kind_if(
            self.about_code() || self.routed_to("coding"@),
            TaskKind::Coding,
        ) + kind_if(
            self.about_reasoning() || self.routed_to("reasoning"@),
            TaskKind::Reasoning,
        ) + kind_if(self.needs_long_context(), TaskKind::LongContext) + kind_if(
            self.about_documents() || self.routed_to("document"@),
            TaskKind::Document,
        )
    }

    /// What the request needs.
    pub open spec fn profile(self) -> ProfileView {
        ProfileView {
            agent: self.agent,
            task_kinds: self.kinds(),
            needs_vision: self.has_vision,
            needs_tools: self.needs_tools(),
            needs_reasoning: self.about_reasoning() || self.routed_to("reasoning"@)
                || self.routed_to("coding"@),
            needs_coding: self.about_code() || self.routed_to("coding"@),
            needs_long_context: self.needs_long_context(),
            estimated_prompt_tokens: self.tokens(),
            latency_preference: LatencyPreference::Interactive,
            cost_preference: CostPreference::Balanced,
        }
    }
}

/// A kind of task, where a condition holds.
pub open spec fn kind_if(condition: bool, kind: TaskKind) -> Seq<TaskKind> {
    if condition {
        seq![kind]
    } else {
        Seq::empty()
    }
}

fn push_if(list: &mut Vec<TaskKind>, condition: bool, kind: TaskKind)
    ensures
        final(list)@ == old(list)@ + kind_if(condition, kind),
{
    if condition {
        list.push(kind);
        assert(list@ =~= old(list)@ + seq![kind]);
    } else {
        assert(list@ =~= old(list)@ + Seq::empty());
    }
}

fn task_is(route_task: Option<&str>, task: &str) -> (r: bool)
    ensures
        r == (str_view(route_task) == Some(task@)),
{
    match route_task {
        Some(t) => same(t, task),
        None => false,
    }
}

/// What a request with these signals needs.
pub fn judge(signals: &Signals<'_>) -> (r: TaskProfile)
    ensures
        r@ == signals@.profile(),
{
    let lower = signals.lower.as_str();
    let agent_lower = signals.agent_lower.as_str();
    let quarter = truncate32(signals.length as u64) / 4;
    let estimated_prompt_tokens = if quarter < 1 {
        1
    } else {
        quarter
    };
    let needs_tools = signals.has_tools || contains(lower, "tool call") || contains(
        lower,
        "function call",
    );
    let coding = contains(lower, "```") || contains(lower, "stack trace") || contains(
        lower,
        "panic",
    ) || contains(lower, "exception") || contains(lower, "diff --git") || contains(lower, ".rs")
        || contains(lower, ".ts") || contains(lower, ".py") || contains(agent_lower, "coding")
        || contains(agent_lower, "hermes");
    let reasoning = coding || contains(lower, "reason") || contains(lower, "plan") || contains(
        lower,
        "debug",
    ) || contains(lower, "analyze");
    let documents = contains(agent_lower, "document");
    let to_document = task_is(signals.route_task, "document");
    let to_coding = task_is(signals.route_task, "coding");
    let to_reasoning = task_is(signals.route_task, "reasoning");
    let needs_long_context = estimated_prompt_tokens > 8_000 || documents || to_document
        || task_is(signals.route_task, "long_context");
    let mut task_kinds: Vec<TaskKind> = Vec::new();
    task_kinds.push(TaskKind::Balanced);
    assert(task_kinds@ =~= seq![TaskKind::Balanced]);
    push_if(
        &mut task_kinds,
        signals.has_vision || task_is(signals.route_task, "vision"),
        TaskKind::Vision,
    );
    push_if(
        &mut task_kinds,
        needs_tools || task_is(signals.route_task, "tools"),
        TaskKind::Tools,
    );
    push_if(&mut task_kinds, coding || to_coding, TaskKind::Coding);
    push_if(&mut task_kinds, reasoning || to_reasoning, TaskKind::Reasoning);
    push_if(&mut task_kinds, needs_long_context, TaskKind::LongContext);
    push_if(&mut task_kinds, documents || to_document, TaskKind::Document);
    TaskProfile {
        agent: match signals.agent {
            Some(a) => Some(a.to_owned()),
            None => None,
        },
        task_kinds,
        needs_vision: signals.has_vision,
        needs_tools,
        needs_reasoning: reasoning || to_reasoning || to_coding,
        needs_coding: coding || to_coding,
        needs_long_context,
        estimated_prompt_tokens,
        latency_preference: LatencyPreference::Interactive,
        cost_preference: CostPreference::Balanced,
    }
}

/// Whether a request has a member under a name.
pub open spec fn has_extra(request: RequestView, name: Seq<char>) -> bool {
    member(request.extra, name) is Some
}

/// What is known of a request, for an agent and a route.
pub open spec fn signals_of(
    agent: Option<Seq<char>>,
    request: RequestView,
    route_task: Option<Seq<char>>,
) -> SignalsView {
    let text = joined(request_texts(request.messages), "\n"@);
    SignalsView {
        agent,
        agent_lower: lowercase_of(
            match agent {
                Some(a) => a,
                None => Seq::empty(),
            },
        ),
        lower: lowercase_of(text),
        length: text.len(),
        has_vision: any_vision(request.messages),
        has_tools: has_extra(request, "tools"@) || has_extra(request, "tool_choice"@),
        route_task,
    }
}

fn extra_has(request: &ChatCompletionRequest, name: &str) -> (r: bool)
    ensures
        r == has_extra(request@, name@),
{
    let ghost all = request@.extra;
    let mut i: usize = 0;
    assert(all.subrange(0, all.len() as int) =~= all);
    while i < request.extra.len()
        invariant
            i <= request.extra@.len(),
            all == request@.extra,
            member(all, name@) == member(all.subrange(i as int, all.len() as int), name@),
        decreases request.extra@.len() - i,
    {
        let ghost rest = all.subrange(i as int, all.len() as int);
        assert(rest[0] == (request.extra@[i as int].0@, request.extra@[i as int].1@));
        assert(rest.subrange(1, rest.len() as int) =~= all.subrange(i + 1, all.len() as int));
        if same(request.extra[i].0.as_str(), name) {
            return true;
        }
        i += 1;
    }
    false
}

/// What a request needs, for an agent and a route.
pub fn build_task_profile(
    agent: Option<&str>,
    request: &ChatCompletionRequest,
    route_task: Option<&str>,
) -> (r: TaskProfile)
    ensures
        r@ == signals_of(str_view(agent), request@, str_view(route_task)).profile(),
{
    let text = request_text(request);
    let agent_lower = match agent {
        Some(a) => lowercase(a),
        None => {
            proof {
                reveal_strlit("");
                assert(""@ =~= Seq::empty());
            }
            lowercase("")
        },
    };
    let signals = Signals {
        agent,
        agent_lower,
        lower: lowercase(text.as_str()),
        length: char_count(text.as_str()),
        has_vision: request_has_vision(&request.messages),
        has_tools: extra_has(request, "tools") || extra_has(request, "tool_choice"),
        route_task,
    };
    judge(&signals)
}

/// The name of a kind of task.
pub open spec fn kind_name(kind: TaskKind) -> Seq<char> {
    match kind {
        TaskKind::Balanced => "balanced"@,
        TaskKind::Coding => "coding"@,
        TaskKind::Reasoning => "reasoning"@,
        TaskKind::Tools => "tools"@,
        TaskKind::Vision => "vision"@,
        TaskKind::LongContext => "longcontext"@,
        TaskKind::Document => "document"@,
    }
}

/// The name of a kind of task.
pub fn task_kind_name(kind: &TaskKind) -> (r: String)
    ensures
        r@ == kind_name(*kind),
{
    match kind {
        TaskKind::Balanced => "balanced".to_owned(),
        TaskKind::Coding => "coding".to_owned(),
        TaskKind::Reasoning => "reasoning".to_owned(),
        TaskKind::Tools => "tools".to_owned(),
        TaskKind::Vision => "vision".to_owned(),
        TaskKind::LongContext => "longcontext".to_owned(),
        TaskKind::Document => "document".to_owned(),
    }
}

// ---------------------------------------------------------------- laws
/// Every profile begins with a balanced task, and names no kind twice.
pub proof fn kinds_are_distinct(signals: SignalsView)
    ensures
        signals.kinds().len() > 0,
        signals.kinds()[0] == TaskKind::Balanced,
        signals.kinds().no_duplicates(),
{
}

/// What is about code calls for reasoning too.
pub proof fn code_needs_reasoning(signals: SignalsView)
    ensures
        signals.profile().needs_coding ==> signals.profile().needs_reasoning,
{
}

} // verus!
