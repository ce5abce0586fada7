//! Ollama, which runs models on the local machine.
use crate::config::ProviderConfig;
use crate::identifiers::{is_random_uuid, new_uuid};
use crate::json::{
    group_json_views, int_json, items_view, Json, json_list, JsonView, num, ObjectBuilder,
    strings_json,
};
use crate::json_text::{document, parse_json};
use crate::keystate::plus32;
use crate::lists::{collected, collected_all, collected_next};
use crate::models::{
    ChatCompletionChunk, ChatCompletionRequest, ChatMessage, ChunkChoice, ChunkDelta, low32,
    message_views, MessageView, RequestView, StopToken, StopView, truncate32,
};
use crate::providers::github_models::{or_default, ProviderView, text_or};
use crate::providers::traits::{str_at, text_at};
use crate::text::{
    blank, concat2, is_blank, opt_view, parts_between, to_chars, trim, trim_end_char, trimmed,
    views, without_trailing,
};
use vstd::prelude::*;

verus! {

#[derive(Debug)]
pub struct OllamaProvider {
    pub name: String,
    pub base_url: String,
    pub health_check_model: String,
    pub timeout_seconds: u64,
    pub priority: u32,
}

impl View for OllamaProvider {
    type V = ProviderView;

    open spec fn view(&self) -> ProviderView {
        ProviderView {
            name: self.name@,
            base_url: self.base_url@,
            proxy_url: None,
            health_check_model: self.health_check_model@,
            timeout_seconds: self.timeout_seconds,
            priority: self.priority,
        }
    }
}

impl OllamaProvider {
    /// What a configuration comes to. Without a priority of its own the local
    /// service comes last.
    pub open spec fn configured(name: Seq<char>, config: ProviderConfig) -> ProviderView {
        ProviderView {
            name,
            base_url: without_trailing(config.base_url@, '/'),
            proxy_url: None,
            health_check_model: or_default(config.health_check_model@, "qwen2.5:7b"@),
            timeout_seconds: config.timeout_seconds,
            priority: if config.priority == 0 {
                100
            } else {
                config.priority
            },
        }
    }

    pub fn new(name: &str, config: &ProviderConfig) -> (r: OllamaProvider)
        ensures
            r@ == OllamaProvider::configured(name@, *config),
    {
        OllamaProvider {
            name: name.to_owned(),
            base_url: trim_end_char(config.base_url.as_str(), '/'),
            health_check_model: text_or(config.health_check_model.as_str(), "qwen2.5:7b"),
            timeout_seconds: config.timeout_seconds,
            priority: if config.priority == 0 {
                100
            } else {
                config.priority
            },
        }
    }

    /// Where the models are listed.
    pub fn tags_url(&self) -> (r: String)
        ensures
            r@ == self@.base_url + "/api/tags"@,
    {
        concat2(self.base_url.as_str(), "/api/tags")
    }

    /// Where chats are completed.
    pub fn chat_url(&self) -> (r: String)
        ensures
            r@ == self@.base_url + "/api/chat"@,
    {
        concat2(self.base_url.as_str(), "/api/chat")
    }
}

// ---------------------------------------------------------------- requests
/// A message as Ollama takes it.
pub open spec fn local_message(m: MessageView) -> JsonView {
    JsonView::Object(seq![("role"@, JsonView::Text(m.role)), ("content"@, m.content)])
}

/// A member, where there is a value for it.
pub open spec fn member_if(key: Seq<char>, value: Option<JsonView>) -> Seq<(Seq<char>, JsonView)> {
    match value {
        Some(v) => seq![(key, v)],
        None => Seq::empty(),
    }
}

/// The options of a request, as Ollama names them.
pub open spec fn option_members(request: RequestView) -> Seq<(Seq<char>, JsonView)> {
    member_if(
        "temperature"@,
        match request.temperature {
            Some(n) => Some(JsonView::Number(n)),
            None => None,
        },
    ) + member_if(
        "top_p"@,
        match request.top_p {
            Some(n) => Some(JsonView::Number(n)),
            None => None,
        },
    ) + member_if(
        "num_predict"@,
        match request.max_tokens {
            Some(n) => Some(num(n as u64)),
            None => None,
        },
    ) + member_if(
        "stop"@,
        match request.stop {
            Some(StopView::Single(s)) => Some(strings_json(seq![s])),
            Some(StopView::Multiple(list)) => Some(strings_json(list)),
            None => None,
        },
    )
}

/// The options of a request; none where it has none.
pub open spec fn options_of(request: RequestView) -> Option<JsonView> {
    if option_members(request).len() == 0 {
        None
    } else {
        Some(JsonView::Object(option_members(request)))
    }
}

/// A request as Ollama takes it.
pub open spec fn local_request(request: RequestView, stream: bool) -> JsonView {
    JsonView::Object(
        seq![
            ("model"@, JsonView::Text(request.model)),
            (
                "messages"@,
                JsonView::Array(request.messages.map_values(|m: MessageView| local_message(m))),
            ),
            ("stream"@, JsonView::Bool(stream)),
        ] + member_if("options"@, options_of(request)),
    )
}

fn convert_message(m: &ChatMessage) -> (r: Json)
    ensures
        r@ == local_message(m@),
{
    let mut o = ObjectBuilder::new();
    o.put_text("role", m.role.as_str());
    o.put("content", m.content.copy());
    assert(o@ =~= local_message(m@)->Object_0);
    o.done()
}

/// Messages as Ollama takes them.
pub fn convert_messages(messages: &Vec<ChatMessage>) -> (r: Json)
    ensures
        r@ == JsonView::Array(
            message_views(messages@).map_values(|m: MessageView| local_message(m)),
        ),
{
    let convert = |m: &ChatMessage| -> (j: Json)
        ensures
            j@ == local_message(m@),
        { convert_message(m) };
    let r = json_list(messages, convert, Ghost(|m: ChatMessage| local_message(m@)));
    assert(messages@.map_values(|m: ChatMessage| local_message(m@)) =~= message_views(
        messages@,
    ).map_values(|m: MessageView| local_message(m)));
    r
}

/// The options of a request, as Ollama names them.
pub fn build_ollama_options(request: &ChatCompletionRequest) -> (r: Option<Json>)
    ensures
        (match r {
            Some(o) => Some(o@),
            None => None,
        }) == options_of(request@),
{
    let mut o = ObjectBuilder::new();
    let ghost m1 = member_if(
        "temperature"@,
        match request@.temperature {
            Some(n) => Some(JsonView::Number(n)),
            None => None,
        },
    );
    let ghost m2 = member_if(
        "top_p"@,
        match request@.top_p {
            Some(n) => Some(JsonView::Number(n)),
            None => None,
        },
    );
    let ghost m3 = member_if(
        "num_predict"@,
        match request@.max_tokens {
            Some(n) => Some(num(n as u64)),
            None => None,
        },
    );
    if let Some(t) = &request.temperature {
        o.put("temperature", Json::Number(t.copy()));
    }
    assert(o@ =~= m1);
    if let Some(p) = &request.top_p {
        o.put("top_p", Json::Number(p.copy()));
    }
    assert(o@ =~= m1 + m2);
    if let Some(n) = request.max_tokens {
        o.put_num("num_predict", n as u64);
    }
    assert(o@ =~= m1 + m2 + m3);
    if let Some(s) = &request.stop {
        match s {
            StopToken::Single(v) => {
                let mut list: Vec<String> = Vec::new();
                list.push(v.clone());
                assert(views(list@) =~= seq![v@]);
                o.put_strings("stop", &list);
            },
            StopToken::Multiple(v) => {
                o.put_strings("stop", v);
            },
        }
    }
    assert(o@ =~= option_members(request@));
    if o.members.len() == 0 {
        assert(o@.len() == 0);
        None
    } else {
        assert(o@.len() > 0);
        Some(o.done())
    }
}

/// A request as Ollama takes it.
pub fn ollama_request(request: &ChatCompletionRequest, stream: bool) -> (r: Json)
    ensures
        r@ == local_request(request@, stream),
{
    let mut o = ObjectBuilder::new();
    o.put_text("model", request.model.as_str());
    o.put("messages", convert_messages(&request.messages));
    o.put_bool("stream", stream);
    if let Some(options) = build_ollama_options(request) {
        o.put("options", options);
    }
    assert(o@ =~= local_request(request@, stream)->Object_0);
    o.done()
}

// ---------------------------------------------------------------- responses
/// A count of tokens that a response reports.
pub open spec fn reported_count(value: JsonView, name: Seq<char>) -> u32 {
    match value.get(name) {
        Some(v) => match v.unsigned() {
            Some(n) => low32(n as int),
            None => 0,
        },
        None => 0,
    }
}

/// What a message of a response says.
pub open spec fn said(value: JsonView) -> Seq<char> {
    match text_at(value, "message"@, "content"@) {
        Some(t) => t,
        None => Seq::empty(),
    }
}

/// A response of Ollama's as OpenAI gives it.
pub open spec fn as_openai(
    value: JsonView,
    model: Seq<char>,
    id: Seq<char>,
    created: i64,
) -> JsonView {
    let prompt = reported_count(value, "prompt_eval_count"@);
    let completion = reported_count(value, "eval_count"@);
    JsonView::Object(
        seq![
            ("id"@, JsonView::Text(id)),
            ("object"@, JsonView::Text("chat.completion"@)),
            ("created"@, int_json(created as int)),
            ("model"@, JsonView::Text(model)),
            (
                "choices"@,
                JsonView::Array(
                    seq![
                        JsonView::Object(
                            seq![
                                ("index"@, num(0)),
                                (
                                    "message"@,
                                    JsonView::Object(
                                        seq![
                                            ("role"@, JsonView::Text("assistant"@)),
                                            ("content"@, JsonView::Text(said(value))),
                                        ],
                                    ),
                                ),
                                ("finish_reason"@, JsonView::Text("stop"@)),
                            ],
                        ),
                    ],
                ),
            ),
            (
                "usage"@,
                JsonView::Object(
                    seq![
                        ("prompt_tokens"@, num(prompt as u64)),
                        ("completion_tokens"@, num(completion as u64)),
                        ("total_tokens"@, num(plus32(prompt, completion) as u64)),
                    ],
                ),
            ),
        ],
    )
}

fn count_reported(value: &Json, name: &str) -> (r: u32)
    ensures
        r == reported_count(value@, name@),
{
    match value.get(name) {
        Some(v) => match v.as_u64() {
            Some(n) => truncate32(n),
            None => 0,
        },
        None => 0,
    }
}

/// A response of Ollama's as OpenAI gives it, under an identifier and a time.
pub fn convert_ollama_with(ollama: &Json, model: &str, id: &str, created: i64) -> (r: Json)
    ensures
        r@ == as_openai(ollama@, model@, id@, created),
{
    broadcast use group_json_views;

    let ghost goal = as_openai(ollama@, model@, id@, created);
    let prompt = count_reported(ollama, "prompt_eval_count");
    let completion = count_reported(ollama, "eval_count");
    let mut message = ObjectBuilder::new();
    message.put_text("role", "assistant");
    match str_at(ollama, "message", "content") {
        Some(t) => message.put_text("content", t),
        None => {
            proof {
                reveal_strlit("");
                assert(""@ =~= Seq::empty());
            }
            message.put_text("content", "");
        },
    }
    assert(message@ =~= goal->Object_0[4].1->Array_0[0]->Object_0[1].1->Object_0);
    let mut choice = ObjectBuilder::new();
    choice.put_num("index", 0);
    choice.put("message", message.done());
    choice.put_text("finish_reason", "stop");
    assert(choice@ =~= goal->Object_0[4].1->Array_0[0]->Object_0);
    let mut choices: Vec<Json> = Vec::new();
    choices.push(choice.done());
    assert(items_view(choices@) =~= goal->Object_0[4].1->Array_0);
    let mut usage = ObjectBuilder::new();
    usage.put_num("prompt_tokens", prompt as u64);
    usage.put_num("completion_tokens", completion as u64);
    usage.put_num("total_tokens", prompt.saturating_add(completion) as u64);
    assert(usage@ =~= goal->Object_0[5].1->Object_0);
    let mut o = ObjectBuilder::new();
    o.put_text("id", id);
    o.put_text("object", "chat.completion");
    o.put_int("created", created);
    o.put_text("model", model);
    o.put("choices", Json::Array(choices));
    o.put("usage", usage.done());
    assert(o@ =~= goal->Object_0);
    o.done()
}

/// A response of Ollama's as OpenAI gives it, under an identifier of its own.
pub fn convert_ollama_to_openai(ollama: &Json, model: &str, created: i64) -> (r: Json)
    ensures
        exists|id: Seq<char>|
            is_random_uuid(id) && r@ == #[trigger] as_openai(
                ollama@,
                model@,
                "chatcmpl-"@ + id,
                created,
            ),
{
    let uuid = new_uuid();
    let id = concat2("chatcmpl-", uuid.as_str());
    let r = convert_ollama_with(ollama, model, id.as_str(), created);
    assert(r@ == as_openai(ollama@, model@, "chatcmpl-"@ + uuid@, created));
    r
}

// ---------------------------------------------------------------- streams
/// What a chunk of a stream holds.
pub struct ChunkView {
    pub id: Seq<char>,
    pub object: Seq<char>,
    pub created: i64,
    pub model: Seq<char>,
    pub index: usize,
    pub role: Option<Seq<char>>,
    pub content: Option<Seq<char>>,
    pub finish_reason: Option<Seq<char>>,
    pub system_fingerprint: Option<Seq<char>>,
}

/// Whether a chunk has one choice and holds what is said.
pub open spec fn chunk_holds(chunk: ChatCompletionChunk, v: ChunkView) -> bool {
    &&& chunk.id@ == v.id
    &&& chunk.object@ == v.object
    &&& chunk.created == v.created
    &&& chunk.model@ == v.model
    &&& chunk.choices@.len() == 1
    &&& chunk.choices@[0].index == v.index
    &&& opt_view(chunk.choices@[0].delta.role) == v.role
    &&& opt_view(chunk.choices@[0].delta.content) == v.content
    &&& opt_view(chunk.choices@[0].finish_reason) == v.finish_reason
    &&& opt_view(chunk.system_fingerprint) == v.system_fingerprint
}

/// A stream that is being relayed.
#[derive(Debug)]
pub struct OllamaStream {
    pub request_id: String,
    pub created: i64,
    pub model: String,
    pub sent_first: bool,
    pub done: bool,
}

/// What an [`OllamaStream`] holds.
pub struct OllamaStreamView {
    pub request_id: Seq<char>,
    pub created: i64,
    pub model: Seq<char>,
    pub sent_first: bool,
    pub done: bool,
}

impl View for OllamaStream {
    type V = OllamaStreamView;

    open spec fn view(&self) -> OllamaStreamView {
        OllamaStreamView {
            request_id: self.request_id@,
            created: self.created,
            model: self.model@,
            sent_first: self.sent_first,
            done: self.done,
        }
    }
}

impl OllamaStreamView {
    /// A chunk of this stream.
    pub open spec fn chunk(
        self,
        role: Option<Seq<char>>,
        content: Option<Seq<char>>,
        finish_reason: Option<Seq<char>>,
    ) -> ChunkView {
        ChunkView {
            id: self.request_id,
            object: "chat.completion.chunk"@,
            created: self.created,
            model: self.model,
            index: 0,
            role,
            content,
            finish_reason,
            system_fingerprint: None,
        }
    }

    /// Whether a value says that it is the last.
    pub open spec fn ends(value: JsonView) -> bool {
        match value.get("done"@) {
            Some(v) => v.truth() == Some(true),
            None => false,
        }
    }

    /// The chunks that a value comes to: one for what it says, of which the
    /// first names the speaker, and one for the end.
    pub open spec fn chunks_for(self, value: JsonView) -> Seq<ChunkView> {
        (match text_at(value, "message"@, "content"@) {
            Some(t) => seq![
                self.chunk(
                    if self.sent_first {
                        None
                    } else {
                        Some("assistant"@)
                    },
                    Some(t),
                    None,
                ),
            ],
            None => Seq::empty(),
        }) + (if OllamaStreamView::ends(value) {
            seq![self.chunk(None, None, Some("stop"@))]
        } else {
            Seq::empty()
        })
    }

    /// The stream after a value.
    pub open spec fn after(self, value: JsonView) -> OllamaStreamView {
        OllamaStreamView {
            sent_first: self.sent_first || text_at(value, "message"@, "content"@) is Some,
            done: OllamaStreamView::ends(value),
            ..self
        }
    }

    /// The stream after some values: nothing is relayed after the end.
    pub open spec fn after_all(self, values: Seq<JsonView>) -> OllamaStreamView
        decreases values.len(),
    {
        if values.len() == 0 {
            self
        } else {
            let s = self.after_all(values.drop_last());
            if s.done {
                s
            } else {
                s.after(values.last())
            }
        }
    }

    /// The chunks that some values come to.
    pub open spec fn relayed(self, values: Seq<JsonView>) -> Seq<ChunkView>
        decreases values.len(),
    {
        if values.len() == 0 {
            Seq::empty()
        } else {
            let s = self.after_all(values.drop_last());
            if s.done {
                self.relayed(values.drop_last())
            } else {
                self.relayed(values.drop_last()) + s.chunks_for(values.last())
            }
        }
    }
}

/// Whether chunks hold what is said of them.
pub open spec fn chunks_hold(chunks: Seq<ChatCompletionChunk>, v: Seq<ChunkView>) -> bool {
    &&& chunks.len() == v.len()
    &&& forall|i: int| 0 <= i < v.len() ==> chunk_holds(#[trigger] chunks[i], v[i])
}

/// The parts of a text between a character.
pub fn split_char(s: &str, c: char) -> (r: Vec<String>)
    ensures
        views(r@) == parts_between(s@, c),
{
    let chars = to_chars(s);
    let mut r: Vec<String> = Vec::new();
    let mut part = String::new();
    let mut i: usize = 0;
    assert(views(r@).push(part@) =~= parts_between(s@.take(0), c));
    while i < chars.len()
        invariant
            i <= chars@.len(),
            chars@ == s@,
            views(r@).push(part@) == parts_between(s@.take(i as int), c),
        decreases chars@.len() - i,
    {
        let ch = chars[i];
        let ghost t = s@.take(i + 1);
        let ghost earlier = views(r@);
        let ghost last = part@;
        proof {
            assert(t.drop_last() =~= s@.take(i as int));
            assert(t.last() == ch);
            assert(earlier.push(last).drop_last() =~= earlier);
            assert(earlier.push(last).last() == last);
        }
        if ch == c {
            r.push(part);
            assert(views(r@) =~= earlier.push(last));
            part = String::new();
            assert(part@ =~= Seq::empty());
        } else {
            part.push(ch);
        }
        i += 1;
    }
    assert(s@.take(s@.len() as int) =~= s@);
    let ghost earlier = views(r@);
    let ghost last = part@;
    r.push(part);
    assert(views(r@) =~= earlier.push(last));
    r
}

/// The document on a line; none on a blank one, or where it is none.
pub open spec fn line_document(line: Seq<char>) -> Option<JsonView> {
    if is_blank(line) {
        None
    } else {
        document(trimmed(line))
    }
}

/// The documents in a text, line by line.
pub open spec fn line_documents(text: Seq<char>) -> Seq<JsonView> {
    collected(parts_between(text, '\n'), |l: Seq<char>| line_document(l))
}

impl OllamaStream {
    /// A stream of which nothing was relayed yet.
    pub fn new(request_id: &str, created: i64, model: &str) -> (r: OllamaStream)
        ensures
            r@ == (OllamaStreamView {
                request_id: request_id@,
                created,
                model: model@,
                sent_first: false,
                done: false,
            }),
    {
        OllamaStream {
            request_id: request_id.to_owned(),
            created,
            model: model.to_owned(),
            sent_first: false,
            done: false,
        }
    }

    fn make_chunk(
        &self,
        role: Option<String>,
        content: Option<String>,
        finish_reason: Option<String>,
    ) -> (r: ChatCompletionChunk)
        ensures
            chunk_holds(
                r,
                self@.chunk(opt_view(role), opt_view(content), opt_view(finish_reason)),
            ),
    {
        let mut choices: Vec<ChunkChoice> = Vec::new();
        choices.push(ChunkChoice { index: 0, delta: ChunkDelta { role, content }, finish_reason });
        ChatCompletionChunk {
            id: self.request_id.clone(),
            object: "chat.completion.chunk".to_owned(),
            created: self.created,
            model: self.model.clone(),
            choices,
            system_fingerprint: None,
        }
    }

    /// Relays a value: the chunks that it comes to are added to a list.
    pub fn on_value(&mut self, value: &Json, out: &mut Vec<ChatCompletionChunk>)
        requires
            !old(self).done,
        ensures
            final(self)@ == old(self)@.after(value@),
            final(out)@.len() >= old(out)@.len(),
            final(out)@.take(old(out)@.len() as int) == old(out)@,
            chunks_hold(
                final(out)@.skip(old(out)@.len() as int),
                old(self)@.chunks_for(value@),
            ),
    {
        let ghost start = out@;
        let ghost before = self@;
        if let Some(t) = str_at(value, "message", "content") {
            let role = if self.sent_first {
                None
            } else {
                Some("assistant".to_owned())
            };
            let chunk = self.make_chunk(role, Some(t.to_owned()), None);
            out.push(chunk);
            self.sent_first = true;
        }
        let last = match value.get("done") {
            Some(v) => match v.as_bool() {
                Some(b) => b,
                None => false,
            },
            None => false,
        };
        if last {
            let chunk = self.make_chunk(None, None, Some("stop".to_owned()));
            out.push(chunk);
        }
        self.done = last;
        assert(out@.take(start.len() as int) =~= start);
        assert(chunks_hold(out@.skip(start.len() as int), before.chunks_for(value@)));
    }

    /// Relays a text of lines, each of which may hold a document: the chunks
    /// that it comes to, up to the end of the stream.
    pub fn on_text(&mut self, text: &str) -> (r: Vec<ChatCompletionChunk>)
        requires
            !old(self).done,
        ensures
            final(self)@ == old(self)@.after_all(line_documents(text@)),
            chunks_hold(r@, old(self)@.relayed(line_documents(text@))),
    {
        let lines = split_char(text, '\n');
        let ghost all = parts_between(text@, '\n');
        let ghost f = |l: Seq<char>| line_document(l);
        let ghost before = self@;
        let mut r: Vec<ChatCompletionChunk> = Vec::new();
        let mut i: usize = 0;
        proof {
            collected_all(all, f);
        }
        while i < lines.len()
            invariant
                i <= lines@.len(),
                all == views(lines@),
                f == (|l: Seq<char>| line_document(l)),
                self@ == before.after_all(collected(all.take(i as int), f)),
                chunks_hold(r@, before.relayed(collected(all.take(i as int), f))),
            decreases lines@.len() - i,
        {
            let ghost docs = collected(all.take(i as int), f);
            proof {
                collected_next(all, f, i as int);
                assert(all[i as int] == lines@[i as int]@);
            }
            if !blank(lines[i].as_str()) {
                let line = trim(lines[i].as_str());
                if let Some(value) = parse_json(line.as_str()) {
                    let ghost next = docs.push(value@);
                    assert(next.drop_last() =~= docs);
                    if !self.done {
                        let ghost so_far = r@;
                        let ghost here = self@;
                        self.on_value(&value, &mut r);
                        proof {
                            let a = before.relayed(docs);
                            let b = here.chunks_for(value@);
                            assert forall|k: int| 0 <= k < (a + b).len() implies chunk_holds(
                                #[trigger] r@[k],
                                (a + b)[k],
                            ) by {
                                if k < a.len() {
                                    assert(r@[k] == r@.take(so_far.len() as int)[k]);
                                    assert(chunk_holds(so_far[k], a[k]));
                                } else {
                                    assert(r@[k] == r@.skip(so_far.len() as int)[k - a.len()]);
                                    assert(chunk_holds(
                                        r@.skip(so_far.len() as int)[k - a.len()],
                                        b[k - a.len()],
                                    ));
                                }
                            }
                        }
                    }
                }
            }
            i += 1;
        }
        r
    }
}

/// A payload as an event of a stream.
pub fn sse_data(payload: &str) -> (r: String)
    ensures
        r@ == "data: "@ + payload@ + "\n\n"@,
{
    let mut out = "data: ".to_owned();
    out.push_str(payload);
    out.push_str("\n\n");
    out
}

/// The last payload as an event of a stream, and the event that ends it.
pub fn sse_last(payload: &str) -> (r: String)
    ensures
        r@ == "data: "@ + payload@ + "\n\ndata: [DONE]\n\n"@,
{
    let mut out = "data: ".to_owned();
    out.push_str(payload);
    out.push_str("\n\ndata: [DONE]\n\n");
    out
}

// ---------------------------------------------------------------- laws
/// Values that come after the end of a stream change nothing.
pub proof fn nothing_follows_the_end(stream: OllamaStreamView, values: Seq<JsonView>, more: Seq<
    JsonView,
>)
    requires
        stream.after_all(values).done,
    ensures
        stream.after_all(values + more) == stream.after_all(values),
        stream.relayed(values + more) == stream.relayed(values),
    decreases more.len(),
{
    if more.len() == 0 {
        assert(values + more =~= values);
    } else {
        nothing_follows_the_end(stream, values, more.drop_last());
        assert((values + more).drop_last() =~= values + more.drop_last());
    }
}

/// Reading a stream in two pieces relays what reading it in one does.
pub proof fn pieces_relay_the_whole(stream: OllamaStreamView, first: Seq<JsonView>, second: Seq<
    JsonView,
>)
    requires
        !stream.after_all(first).done,
    ensures
        stream.after_all(first + second) == stream.after_all(first).after_all(second),
        stream.relayed(first + second) == stream.relayed(first) + stream.after_all(first).relayed(
            second,
        ),
    decreases second.len(),
{
    if second.len() == 0 {
        assert(first + second =~= first);
        assert(stream.relayed(first) + Seq::empty() =~= stream.relayed(first));
    } else {
        pieces_relay_the_whole(stream, first, second.drop_last());
        assert((first + second).drop_last() =~= first + second.drop_last());
        let s = stream.after_all(first);
        let t = s.after_all(second.drop_last());
        if !t.done {
            assert(stream.relayed(first) + s.relayed(second.drop_last()) + t.chunks_for(
                second.last(),
            ) =~= stream.relayed(first) + (s.relayed(second.drop_last()) + t.chunks_for(
                second.last(),
            )));
        }
    }
}

/// Only the first chunk of a stream names the speaker.
pub proof fn only_the_first_names_the_speaker(stream: OllamaStreamView, value: JsonView)
    requires
        stream.sent_first,
    ensures
        forall|i: int|
            0 <= i < stream.chunks_for(value).len() ==> (#[trigger] stream.chunks_for(
                value,
            )[i]).role is None,
{
}

} // verus!
