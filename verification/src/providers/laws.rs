//! Laws of the translation between protocols.
use crate::json::{get_in, JsonView, member, member_at, member_missing, member_of_both, NumberView};
use crate::lists::{collected, collected_from, collected_has};
use crate::models::{MessageView, RequestView, StopView};
use crate::providers::cloudflare::{callable_name, models_in, normalized, text_model, with_member};
use crate::providers::ollama::{
    as_openai, ChunkView, local_message, local_request, member_if, OllamaStreamView,
    option_members, options_of,
};
use crate::sorting::sorted_set_is_increasing;
use vstd::prelude::*;

verus! {

// ---------------------------------------------------------------- requests
proof fn one_member(key: Seq<char>, value: Option<JsonView>, name: Seq<char>)
    ensures
        member(member_if(key, value), name) == if key == name {
            value
        } else {
            None
        },
{
    reveal_with_fuel(member, 3);
}

/// Ollama is told what each message says and who says it: as many messages as
/// there are, in the same order, each with its own role and its own content.
pub proof fn ollama_is_told_who_says_what(request: RequestView, stream: bool)
    ensures
        ({
            let q = local_request(request, stream);
            q.get("messages"@) matches Some(JsonView::Array(m)) && {
                &&& m.len() == request.messages.len()
                &&& forall|i: int|
                    0 <= i < m.len() ==> (#[trigger] m[i]).get("role"@) == Some(
                        JsonView::Text(request.messages[i].role),
                    ) && m[i].get("content"@) == Some(request.messages[i].content)
            }
        }),
{
    reveal_strlit("model");
    reveal_strlit("messages");
    reveal_strlit("role");
    reveal_strlit("content");
    assert("model"@.len() == 5);
    assert("messages"@.len() == 8);
    assert("role"@.len() == 4);
    assert("content"@.len() == 7);
    let q = local_request(request, stream);
    let members = q->Object_0;
    assert(members[1].0 == "messages"@);
    member_at(members, 1);
    let m = request.messages.map_values(|m: MessageView| local_message(m));
    assert forall|i: int| 0 <= i < m.len() implies (#[trigger] m[i]).get("role"@) == Some(
        JsonView::Text(request.messages[i].role),
    ) && m[i].get("content"@) == Some(request.messages[i].content) by {
        let o = local_message(request.messages[i])->Object_0;
        assert(m[i] == local_message(request.messages[i]));
        member_at(o, 0);
        member_at(o, 1);
    }
}

/// Ollama is asked for the model that the request names, and for a stream
/// exactly where one is wanted.
pub proof fn ollama_is_asked_for_the_model(request: RequestView, stream: bool)
    ensures
        local_request(request, stream).get("model"@) == Some(JsonView::Text(request.model)),
        local_request(request, stream).get("stream"@) == Some(JsonView::Bool(stream)),
{
    reveal_strlit("model");
    reveal_strlit("messages");
    reveal_strlit("stream");
    assert("model"@.len() == 5);
    assert("messages"@.len() == 8);
    assert("stream"@.len() == 6);
    let members = local_request(request, stream)->Object_0;
    assert(members[0].0 == "model"@);
    assert(members[2].0 == "stream"@);
    member_at(members, 0);
    member_at(members, 2);
}

proof fn option_named(request: RequestView, name: Seq<char>, stream: bool)
    ensures
        get_in(local_request(request, stream).get("options"@), name) == member(
            option_members(request),
            name,
        ),
{
    reveal_strlit("model");
    reveal_strlit("messages");
    reveal_strlit("stream");
    reveal_strlit("options");
    assert("model"@.len() == 5);
    assert("messages"@.len() == 8);
    assert("stream"@.len() == 6);
    assert("options"@.len() == 7);
    let members = local_request(request, stream)->Object_0;
    if options_of(request) is Some {
        assert(members[3].0 == "options"@);
        member_at(members, 3);
    } else {
        member_missing(members, "options"@);
        assert(option_members(request).len() == 0);
    }
}

/// Ollama is given the settings of a request under its own names, each with its
/// own value, and none that the request does not have.
pub proof fn ollama_is_given_the_settings(request: RequestView, stream: bool)
    ensures
        ({
            let options = local_request(request, stream).get("options"@);
            &&& get_in(options, "temperature"@) == match request.temperature {
                Some(n) => Some(JsonView::Number(n)),
                None => None,
            }
            &&& get_in(options, "top_p"@) == match request.top_p {
                Some(n) => Some(JsonView::Number(n)),
                None => None,
            }
            &&& get_in(options, "num_predict"@) == match request.max_tokens {
                Some(n) => Some(JsonView::Number(NumberView::Unsigned(n as u64))),
                None => None,
            }
            &&& match request.stop {
                Some(StopView::Single(s)) => get_in(options, "stop"@) matches Some(
                    JsonView::Array(list),
                ) && list.len() == 1 && list[0] == JsonView::Text(s),
                Some(StopView::Multiple(all)) => get_in(options, "stop"@) matches Some(
                    JsonView::Array(list),
                ) && list.len() == all.len() && forall|i: int|
                    0 <= i < all.len() ==> #[trigger] list[i] == JsonView::Text(all[i]),
                None => get_in(options, "stop"@) is None,
            }
        }),
{
    reveal_strlit("temperature");
    reveal_strlit("top_p");
    reveal_strlit("num_predict");
    reveal_strlit("stop");
    assert("temperature"@.len() == 11);
    assert("top_p"@.len() == 5);
    assert("num_predict"@.len() == 11);
    assert("stop"@.len() == 4);
    assert("temperature"@[0] != "num_predict"@[0]);
    let a = member_if(
        "temperature"@,
        match request.temperature {
            Some(n) => Some(JsonView::Number(n)),
            None => None,
        },
    );
    let b = member_if(
        "top_p"@,
        match request.top_p {
            Some(n) => Some(JsonView::Number(n)),
            None => None,
        },
    );
    let c = member_if(
        "num_predict"@,
        match request.max_tokens {
            Some(n) => Some(crate::json::num(n as u64)),
            None => None,
        },
    );
    let d = member_if(
        "stop"@,
        match request.stop {
            Some(StopView::Single(s)) => Some(crate::json::strings_json(seq![s])),
            Some(StopView::Multiple(list)) => Some(crate::json::strings_json(list)),
            None => None,
        },
    );
    assert(option_members(request) == a + b + c + d);
    assert forall|name: Seq<char>| #[trigger]
        member(option_members(request), name) == (if member(a, name) is Some {
        member(a, name)
    } else if member(b, name) is Some {
        member(b, name)
    } else if member(c, name) is Some {
        member(c, name)
    } else {
        member(d, name)
    }) by {
        member_of_both(a + b + c, d, name);
        member_of_both(a + b, c, name);
        member_of_both(a, b, name);
    }
    let at = "temperature"@;
    let bt = "top_p"@;
    let ct = "num_predict"@;
    let dt = "stop"@;
    assert(at != ct);
    settings_apart(request, a, b, c, d, at, bt, ct, dt);
    option_named(request, at, stream);
    option_named(request, bt, stream);
    option_named(request, ct, stream);
    option_named(request, dt, stream);
    one_member(at, if a.len() > 0 { Some(a[0].1) } else { None }, at);
    assert(member(option_members(request), at) == member(a, at));
    assert(member(option_members(request), bt) == member(b, bt));
    assert(member(option_members(request), ct) == member(c, ct));
    assert(member(option_members(request), dt) == member(d, dt));
    reveal_with_fuel(member, 3);
}

proof fn settings_apart(
    request: RequestView,
    a: Seq<(Seq<char>, JsonView)>,
    b: Seq<(Seq<char>, JsonView)>,
    c: Seq<(Seq<char>, JsonView)>,
    d: Seq<(Seq<char>, JsonView)>,
    at: Seq<char>,
    bt: Seq<char>,
    ct: Seq<char>,
    dt: Seq<char>,
)
    requires
        at != bt && at != ct && at != dt && bt != ct && bt != dt && ct != dt,
        forall|i: int| 0 <= i < a.len() ==> (#[trigger] a[i]).0 == at,
        forall|i: int| 0 <= i < b.len() ==> (#[trigger] b[i]).0 == bt,
        forall|i: int| 0 <= i < c.len() ==> (#[trigger] c[i]).0 == ct,
        forall|i: int| 0 <= i < d.len() ==> (#[trigger] d[i]).0 == dt,
    ensures
        member(b, at) is None && member(c, at) is None && member(d, at) is None,
        member(a, bt) is None && member(c, bt) is None && member(d, bt) is None,
        member(a, ct) is None && member(b, ct) is None && member(d, ct) is None,
        member(a, dt) is None && member(b, dt) is None && member(c, dt) is None,
{
    member_missing(b, at);
    member_missing(c, at);
    member_missing(d, at);
    member_missing(a, bt);
    member_missing(c, bt);
    member_missing(d, bt);
    member_missing(a, ct);
    member_missing(b, ct);
    member_missing(d, ct);
    member_missing(a, dt);
    member_missing(b, dt);
    member_missing(c, dt);
}

// ---------------------------------------------------------------- responses
/// What Ollama's message says is what the client is told, in the first choice,
/// as words of the assistant, under the model that was asked for.
pub proof fn what_ollama_says_is_told(
    value: JsonView,
    message: JsonView,
    said: Seq<char>,
    model: Seq<char>,
    id: Seq<char>,
    created: i64,
)
    requires
        value.get("message"@) == Some(message),
        message.get("content"@) == Some(JsonView::Text(said)),
    ensures
        ({
            let r = as_openai(value, model, id, created);
            &&& r.get("model"@) == Some(JsonView::Text(model))
            &&& r.get("id"@) == Some(JsonView::Text(id))
            &&& r.get("choices"@) matches Some(JsonView::Array(choices)) && {
                &&& choices.len() == 1
                &&& choices[0].get("message"@) matches Some(m) && m.get("content"@) == Some(
                    JsonView::Text(said),
                ) && m.get("role"@) == Some(JsonView::Text("assistant"@))
                &&& choices[0].get("finish_reason"@) == Some(JsonView::Text("stop"@))
            }
        }),
{
    reveal_strlit("id");
    reveal_strlit("object");
    reveal_strlit("created");
    reveal_strlit("model");
    reveal_strlit("choices");
    reveal_strlit("index");
    reveal_strlit("message");
    reveal_strlit("role");
    reveal_strlit("content");
    reveal_strlit("finish_reason");
    assert("id"@.len() == 2);
    assert("object"@.len() == 6);
    assert("created"@.len() == 7);
    assert("model"@.len() == 5);
    assert("choices"@.len() == 7);
    assert("index"@.len() == 5);
    assert("message"@.len() == 7);
    assert("role"@.len() == 4);
    assert("content"@.len() == 7);
    assert("finish_reason"@.len() == 13);
    assert("created"@[1] != "choices"@[1]);
    assert("created"@[0] != "message"@[0]);
    assert("created"@[1] != "content"@[1]);
    assert("model"@[0] != "index"@[0]);
    assert("choices"@[0] != "message"@[0]);
    assert("choices"@[1] != "content"@[1]);
    assert("message"@[0] != "content"@[0]);
    let r = as_openai(value, model, id, created)->Object_0;
    member_at(r, 0);
    member_at(r, 3);
    member_at(r, 4);
    let choice = r[4].1->Array_0[0]->Object_0;
    member_at(choice, 1);
    member_at(choice, 2);
    let m = choice[1].1->Object_0;
    member_at(m, 0);
    member_at(m, 1);
}

/// The tokens that Ollama reports are those that the client is told of, and
/// their sum.
pub proof fn what_ollama_counts_is_told(
    value: JsonView,
    prompt: u32,
    completion: u32,
    model: Seq<char>,
    id: Seq<char>,
    created: i64,
)
    requires
        value.get("prompt_eval_count"@) == Some(
            JsonView::Number(NumberView::Unsigned(prompt as u64)),
        ),
        value.get("eval_count"@) == Some(JsonView::Number(NumberView::Unsigned(completion as u64))),
        prompt + completion <= u32::MAX,
    ensures
        ({
            let usage = as_openai(value, model, id, created).get("usage"@);
            &&& get_in(usage, "prompt_tokens"@) == Some(
                JsonView::Number(NumberView::Unsigned(prompt as u64)),
            )
            &&& get_in(usage, "completion_tokens"@) == Some(
                JsonView::Number(NumberView::Unsigned(completion as u64)),
            )
            &&& get_in(usage, "total_tokens"@) == Some(
                JsonView::Number(NumberView::Unsigned((prompt + completion) as u64)),
            )
        }),
{
    reveal_strlit("id");
    reveal_strlit("object");
    reveal_strlit("created");
    reveal_strlit("model");
    reveal_strlit("choices");
    reveal_strlit("usage");
    reveal_strlit("prompt_tokens");
    reveal_strlit("completion_tokens");
    reveal_strlit("total_tokens");
    assert("id"@.len() == 2);
    assert("object"@.len() == 6);
    assert("created"@.len() == 7);
    assert("model"@.len() == 5);
    assert("choices"@.len() == 7);
    assert("usage"@.len() == 5);
    assert("prompt_tokens"@.len() == 13);
    assert("completion_tokens"@.len() == 17);
    assert("total_tokens"@.len() == 12);
    assert("created"@[1] != "choices"@[1]);
    assert("model"@[0] != "usage"@[0]);
    let r = as_openai(value, model, id, created)->Object_0;
    member_at(r, 5);
    let u = r[5].1->Object_0;
    member_at(u, 0);
    member_at(u, 1);
    member_at(u, 2);
}

// ---------------------------------------------------------------- streams
/// What a value of a stream says.
pub open spec fn streamed_text(value: JsonView) -> Option<Seq<char>> {
    match get_in(value.get("message"@), "content"@) {
        Some(JsonView::Text(t)) => Some(t),
        _ => None,
    }
}

/// What some chunks say, one after the other.
pub open spec fn chunk_texts(chunks: Seq<ChunkView>) -> Seq<Seq<char>> {
    collected(chunks, |c: ChunkView| c.content)
}

proof fn collected_of_both<T, U>(a: Seq<T>, b: Seq<T>, f: spec_fn(T) -> Option<U>)
    ensures
        collected(a + b, f) == collected(a, f) + collected(b, f),
    decreases b.len(),
{
    if b.len() == 0 {
        assert(a + b =~= a);
        assert(collected(a, f) + collected(b, f) =~= collected(a, f));
    } else {
        assert((a + b).drop_last() =~= a + b.drop_last());
        collected_of_both(a, b.drop_last(), f);
        if let Some(u) = f(b.last()) {
            assert((collected(a, f) + collected(b.drop_last(), f)).push(u) =~= collected(a, f) + (
            collected(b.drop_last(), f).push(u)));
        }
    }
}

/// What the values of a stream say is what the client reads, piece by piece and
/// in order: nothing is lost, doubled or changed.
pub proof fn streams_relay_what_is_said(stream: OllamaStreamView, values: Seq<JsonView>)
    requires
        !stream.done,
        forall|i: int|
            0 <= i < values.len() ==> (#[trigger] values[i]).get("done"@) != Some(
                JsonView::Bool(true),
            ),
    ensures
        chunk_texts(stream.relayed(values)) == collected(
            values,
            |v: JsonView| streamed_text(v),
        ),
        !stream.after_all(values).done,
    decreases values.len(),
{
    let f = |c: ChunkView| c.content;
    let g = |v: JsonView| streamed_text(v);
    if values.len() > 0 {
        let before = values.drop_last();
        let last = values.last();
        assert(last == values[values.len() - 1]);
        assert forall|i: int| 0 <= i < before.len() implies (#[trigger] before[i]).get("done"@)
            != Some(JsonView::Bool(true)) by {
            assert(before[i] == values[i]);
        }
        streams_relay_what_is_said(stream, before);
        let s = stream.after_all(before);
        let new = s.chunks_for(last);
        collected_of_both(stream.relayed(before), new, f);
        reveal_with_fuel(collected, 3);
        if let Some(t) = streamed_text(last) {
            assert(new.len() == 1 && new[0].content == Some(t));
            assert(new.drop_last() =~= Seq::empty());
            assert(collected(new, f) =~= seq![t]);
            assert(collected(before, g) + seq![t] =~= collected(before, g).push(t));
        } else {
            assert(new =~= Seq::empty());
            assert(collected(before, g) + Seq::empty() =~= collected(before, g));
        }
    } else {
        assert(chunk_texts(stream.relayed(values)) =~= collected(values, g));
    }
}

/// The end of a stream is told once, behind what the last value says. Every
/// chunk carries the stream's own identifier, model and time, and the first
/// names the assistant.
pub proof fn streams_end_with_a_reason(stream: OllamaStreamView, value: JsonView)
    requires
        value.get("done"@) == Some(JsonView::Bool(true)),
    ensures
        ({
            let chunks = stream.chunks_for(value);
            &&& chunks.len() > 0
            &&& chunks.last().finish_reason == Some("stop"@)
            &&& chunks.last().content is None
            &&& stream.after(value).done
            &&& streamed_text(value) is Some ==> chunks.len() == 2 && chunks[0].content
                == streamed_text(value) && chunks[0].finish_reason is None
            &&& streamed_text(value) is Some && !stream.sent_first ==> chunks[0].role == Some(
                "assistant"@,
            )
            &&& forall|i: int|
                0 <= i < chunks.len() ==> (#[trigger] chunks[i]).id == stream.request_id
                    && chunks[i].model == stream.model && chunks[i].created == stream.created
        }),
{
}

// ---------------------------------------------------------------- Cloudflare
/// A response that is wrapped comes out of its wrapping.
pub proof fn wrapped_responses_come_out(raw: JsonView, inner: JsonView, c: JsonView)
    requires
        raw.get("result"@) == Some(inner),
        !(inner is Null),
        inner.get("choices"@) is None,
    ensures
        normalized(raw) == inner,
{
}

proof fn set_member_is_found(members: Seq<(Seq<char>, JsonView)>, key: Seq<char>, value: JsonView)
    ensures
        member(with_member(members, key, value), key) == Some(value),
    decreases members.len(),
{
    let w = with_member(members, key, value);
    if members.len() == 0 {
    } else if members[0].0 == key {
    } else {
        let rest = members.subrange(1, members.len() as int);
        set_member_is_found(rest, key, value);
        assert(w.drop_first() =~= with_member(rest, key, value));
    }
}

/// Where a message has no content but tells how it reasoned, that is what the
/// client reads.
pub proof fn reasoning_stands_for_content(
    raw: JsonView,
    choices: Seq<JsonView>,
    message: JsonView,
    thought: Seq<char>,
)
    requires
        raw.get("result"@) is None,
        raw.get("choices"@) == Some(JsonView::Array(choices)),
        choices.len() > 0,
        choices[0].get("message"@) == Some(message),
        message is Object,
        message.get("content"@) is None || message.get("content"@) == Some(JsonView::Null),
        message.get("reasoning"@) == Some(JsonView::Text(thought)),
        thought.len() > 0,
    ensures
        normalized(raw).get("choices"@) matches Some(JsonView::Array(after)) && {
            &&& after.len() == choices.len()
            &&& after[0].get("message"@) matches Some(m) && m.get("content"@) == Some(
                JsonView::Text(thought),
            )
            &&& forall|i: int| 0 < i < choices.len() ==> #[trigger] after[i] == choices[i]
        },
{
    let told = JsonView::Object(
        with_member(message->Object_0, "content"@, JsonView::Text(thought)),
    );
    set_member_is_found(message->Object_0, "content"@, JsonView::Text(thought));
    set_member_is_found(choices[0]->Object_0, "message"@, told);
    let choice = JsonView::Object(with_member(choices[0]->Object_0, "message"@, told));
    set_member_is_found(
        raw->Object_0,
        "choices"@,
        JsonView::Array(choices.update(0, choice)),
    );
}

/// A response whose message has content is left as it is.
pub proof fn content_is_left_alone(
    raw: JsonView,
    choices: Seq<JsonView>,
    message: JsonView,
    content: JsonView,
)
    requires
        raw.get("result"@) is None,
        raw.get("choices"@) == Some(JsonView::Array(choices)),
        choices.len() > 0,
        choices[0].get("message"@) == Some(message),
        message.get("content"@) == Some(content),
        !(content is Null),
    ensures
        normalized(raw) == raw,
{
}

/// A model of Cloudflare's own that generates text is listed, under a name that
/// can be called; and every name that is listed can be called.
pub proof fn cloudflare_models_are_listed(entries: Seq<JsonView>, i: int, name: Seq<char>)
    requires
        0 <= i < entries.len(),
        entries[i].get("name"@) == Some(JsonView::Text(name)),
        "@cf/"@.is_prefix_of(name),
        entries[i].get("task"@) is None,
    ensures
        models_in(entries).contains(name),
        forall|k: int|
            0 <= k < models_in(entries).len() ==> "@cf/"@.is_prefix_of(
                #[trigger] models_in(entries)[k],
            ),
{
    let f = |m: JsonView| text_model(m);
    let g = |m: JsonView| callable_name(m);
    assert(f(entries[i]) == Some(name));
    collected_has(entries, f, i);
    let texts = collected(entries, f);
    let w = choose|w: int| 0 <= w < texts.len() && texts[w] == name;
    assert(texts.len() > 0);
    sorted_set_is_increasing(texts);
    assert(models_in(entries).contains(name));
    assert forall|k: int| 0 <= k < models_in(entries).len() implies "@cf/"@.is_prefix_of(
        #[trigger] models_in(entries)[k],
    ) by {
        let n = models_in(entries)[k];
        assert(models_in(entries).contains(n));
        assert(texts.contains(n));
        collected_from(entries, f, n);
    }
}

} // verus!
