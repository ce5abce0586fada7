//! Laws of the interfaces that are mapped to chat completions.
use crate::api::compat::{
    assistant_text, completion_body, completions_fault, completions_request, input_messages,
    item_message, normal_content, normal_part, prompt_text, response_body, responses_fault,
    responses_request,
};
use crate::json::{JsonView, member_at, NumberView};
use crate::lists::collected;
use crate::models::{content_text, MessageView, StopView};
use crate::providers::ollama::as_openai;
use crate::text::{is_blank, joined};
use vstd::prelude::*;

verus! {

// ---------------------------------------------------------------- contents
/// A part of input text is a part of text of the same text; every other part
/// stays as it is.
pub proof fn input_texts_become_texts(part: JsonView, text: JsonView)
    requires
        part.get("text"@) == Some(text),
    ensures
        part.get("type"@) == Some(JsonView::Text("input_text"@)) ==> normal_part(part).get("type"@)
            == Some(JsonView::Text("text"@)),
        part.get("type"@) != Some(JsonView::Text("input_text"@)) ==> normal_part(part) == part,
        normal_part(part).get("text"@) == Some(text),
{
    reveal_strlit("type");
    reveal_strlit("text");
    assert("type"@.len() == 4);
    assert("text"@.len() == 4);
    assert("type"@[1] != "text"@[1]);
    let o = normal_part(part)->Object_0;
    if part.get("type"@) == Some(JsonView::Text("input_text"@)) {
        member_at(o, 0);
        member_at(o, 1);
    }
}

/// The mapping of a content keeps what its parts say: as many parts, in the same
/// order, each with the text that it had. What is no list of parts stays.
pub proof fn contents_keep_their_texts(content: JsonView, parts: Seq<JsonView>)
    ensures
        !(content is Array) ==> normal_content(content) == content,
        normal_content(JsonView::Array(parts)) matches JsonView::Array(after) && {
            &&& after.len() == parts.len()
            &&& forall|i: int|
                0 <= i < parts.len() && (#[trigger] parts[i]).get("text"@) is Some
                    ==> after[i].get("text"@) == parts[i].get("text"@)
            &&& forall|i: int|
                0 <= i < parts.len() && (#[trigger] parts[i]).get("type"@) != Some(
                    JsonView::Text("input_text"@),
                ) ==> after[i] == parts[i]
        },
{
    let after = normal_content(JsonView::Array(parts))->Array_0;
    assert forall|i: int| 0 <= i < parts.len() && (#[trigger] parts[i]).get("text"@) is Some implies
        after[i].get("text"@) == parts[i].get("text"@) by {
        assert(after[i] == normal_part(parts[i]));
        input_texts_become_texts(parts[i], parts[i].get("text"@)->0);
    }
    assert forall|i: int|
        0 <= i < parts.len() && (#[trigger] parts[i]).get("type"@) != Some(
            JsonView::Text("input_text"@),
        ) implies after[i] == parts[i] by {
        assert(after[i] == normal_part(parts[i]));
    }
}

/// An input that is a text is one message of the user, which says that text.
pub proof fn a_text_is_a_message_of_the_user(text: Seq<char>)
    ensures
        input_messages(JsonView::Text(text)).len() == 1,
        input_messages(JsonView::Text(text))[0].role == "user"@,
        input_messages(JsonView::Text(text))[0].content == JsonView::Text(text),
{
}

/// An item of an input is a message in its place: of the role that it names,
/// else of the user; it says what its content says, else its text.
pub proof fn items_are_messages(items: Seq<JsonView>, i: int)
    requires
        0 <= i < items.len(),
    ensures
        ({
            let m = input_messages(JsonView::Array(items))[i];
            &&& input_messages(JsonView::Array(items)).len() == items.len()
            &&& items[i].get("role"@) matches Some(JsonView::Text(role)) ==> m.role == role
            &&& items[i].get("role"@) is None ==> m.role == "user"@
            &&& items[i].get("content"@) matches Some(JsonView::Text(t)) ==> m.content
                == JsonView::Text(t)
            &&& items[i].get("content"@) matches Some(JsonView::Array(parts)) ==> m.content
                == normal_content(JsonView::Array(parts))
            &&& items[i].get("content"@) is None ==> (items[i].get("text"@) matches Some(
                JsonView::Text(t),
            ) ==> m.content == JsonView::Text(t))
            &&& m.tool_calls is None && m.tool_call_id is None && m.name is None
        }),
{
    assert(input_messages(JsonView::Array(items))[i] == item_message(items[i]));
}

// ---------------------------------------------------------------- requests
/// A request of the newer interface becomes a chat completion of the same model
/// that says the instructions first, as the system's words, and then what the
/// input says.
pub proof fn responses_say_instructions_and_input(
    body: JsonView,
    model: Seq<char>,
    input: JsonView,
)
    requires
        body.get("model"@) == Some(JsonView::Text(model)),
        body.get("input"@) == Some(input),
    ensures
        responses_request(body).model == model,
        body.get("instructions"@) is None ==> responses_request(body).messages == input_messages(
            input,
        ),
        body.get("instructions"@) matches Some(JsonView::Text(t)) ==> (is_blank(t)
            ==> responses_request(body).messages == input_messages(input)),
        body.get("instructions"@) matches Some(JsonView::Text(t)) ==> (!is_blank(t) ==> {
            let messages = responses_request(body).messages;
            &&& messages.len() == input_messages(input).len() + 1
            &&& messages[0].role == "system"@
            &&& messages[0].content == JsonView::Text(t)
            &&& forall|i: int|
                0 <= i < input_messages(input).len() ==> messages[i + 1] == #[trigger] input_messages(
                    input,
                )[i]
        }),
        responses_fault(body) is None <==> responses_request(body).messages.len() > 0,
{
    assert(Seq::<MessageView>::empty() + input_messages(input) =~= input_messages(input));
}

/// A request of the newer interface without a model or an input is refused.
pub proof fn incomplete_responses_are_refused(body: JsonView)
    ensures
        body.get("model"@) is None || !(body.get("model"@)->0 is Text) ==> responses_fault(body)
            is Some,
        body.get("input"@) is None ==> responses_fault(body) is Some,
{
}

/// The settings of a request of the newer interface are those of the chat
/// completion; as many tokens as it allows for the output, else as it allows.
pub proof fn responses_keep_their_settings(body: JsonView)
    ensures
        ({
            let r = responses_request(body);
            &&& body.get("temperature"@) matches Some(JsonView::Number(n)) ==> r.temperature
                == Some(n)
            &&& body.get("temperature"@) is None ==> r.temperature is None
            &&& body.get("top_p"@) matches Some(JsonView::Number(n)) ==> r.top_p == Some(n)
            &&& body.get("top_p"@) is None ==> r.top_p is None
            &&& body.get("stream"@) matches Some(JsonView::Bool(b)) ==> r.stream == Some(b)
            &&& body.get("stream"@) is None ==> r.stream is None
            &&& body.get("user"@) matches Some(JsonView::Text(t)) ==> r.user == Some(t)
            &&& body.get("stop"@) matches Some(JsonView::Text(t)) ==> r.stop == Some(
                StopView::Single(t),
            )
            &&& body.get("stop"@) is None ==> r.stop is None
            &&& body.get("max_output_tokens"@) matches Some(
                JsonView::Number(NumberView::Unsigned(n)),
            ) ==> (n <= u32::MAX ==> r.max_tokens == Some(n as u32))
            &&& body.get("max_output_tokens"@) is None ==> (body.get("max_tokens"@) matches Some(
                JsonView::Number(NumberView::Unsigned(n)),
            ) ==> (n <= u32::MAX ==> r.max_tokens == Some(n as u32)))
            &&& body.get("max_output_tokens"@) is None && body.get("max_tokens"@) is None
                ==> r.max_tokens is None
        }),
{
}

/// Stop tokens in a list are all taken, in order, where they are texts.
pub proof fn lists_of_stops_are_kept(stops: Seq<Seq<char>>)
    ensures
        crate::api::compat::stop_of(
            Some(JsonView::Array(stops.map_values(|t: Seq<char>| JsonView::Text(t)))),
        ) == Some(StopView::Multiple(stops)),
    decreases stops.len(),
{
    let items = stops.map_values(|t: Seq<char>| JsonView::Text(t));
    texts_collected(stops, items, |i: JsonView| i.text());
}

proof fn texts_collected(
    texts: Seq<Seq<char>>,
    items: Seq<JsonView>,
    f: spec_fn(JsonView) -> Option<Seq<char>>,
)
    requires
        items.len() == texts.len(),
        forall|i: int| 0 <= i < items.len() ==> f(#[trigger] items[i]) == Some(texts[i]),
    ensures
        collected(items, f) == texts,
    decreases items.len(),
{
    if items.len() > 0 {
        let before = items.drop_last();
        assert forall|i: int| 0 <= i < before.len() implies f(#[trigger] before[i]) == Some(
            texts.drop_last()[i],
        ) by {
            assert(before[i] == items[i]);
        }
        texts_collected(texts.drop_last(), before, f);
        assert(f(items[items.len() - 1]) == Some(texts[items.len() - 1]));
        assert(texts.drop_last().push(texts.last()) =~= texts);
    } else {
        assert(collected(items, f) =~= texts);
    }
}

/// A request of the older interface becomes a chat completion of the same model
/// with one message of the user, which says the prompt. It is not streamed.
pub proof fn completions_say_the_prompt(body: JsonView, model: Seq<char>, prompt: JsonView)
    requires
        body.get("model"@) == Some(JsonView::Text(model)),
        body.get("prompt"@) == Some(prompt),
    ensures
        ({
            let r = completions_request(body);
            &&& completions_fault(body) is None
            &&& r.model == model
            &&& r.messages.len() == 1
            &&& r.messages[0].role == "user"@
            &&& r.stream == Some(false)
            &&& prompt matches JsonView::Text(t) ==> r.messages[0].content == JsonView::Text(t)
        }),
{
}

/// The texts of a prompt that is a list are its lines.
pub proof fn prompts_are_joined_by_lines(texts: Seq<Seq<char>>)
    ensures
        prompt_text(JsonView::Array(texts.map_values(|t: Seq<char>| JsonView::Text(t)))) == joined(
            texts,
            "\n"@,
        ),
{
    let items = texts.map_values(|t: Seq<char>| JsonView::Text(t));
    assert(items.map_values(|p: JsonView| crate::api::compat::prompt_part(p)) =~= texts);
}

/// A request of the older interface without a model or a prompt is refused.
pub proof fn incomplete_completions_are_refused(body: JsonView)
    ensures
        body.get("model"@) is None || !(body.get("model"@)->0 is Text) ==> completions_fault(body)
            is Some,
        body.get("prompt"@) is None ==> completions_fault(body) is Some,
{
}

/// The settings of a request of the older interface are those of the chat
/// completion.
pub proof fn completions_keep_their_settings(body: JsonView)
    ensures
        ({
            let r = completions_request(body);
            &&& body.get("temperature"@) matches Some(JsonView::Number(n)) ==> r.temperature
                == Some(n)
            &&& body.get("top_p"@) matches Some(JsonView::Number(n)) ==> r.top_p == Some(n)
            &&& body.get("presence_penalty"@) matches Some(JsonView::Number(n))
                ==> r.presence_penalty == Some(n)
            &&& body.get("frequency_penalty"@) matches Some(JsonView::Number(n))
                ==> r.frequency_penalty == Some(n)
            &&& body.get("temperature"@) is None ==> r.temperature is None
            &&& body.get("top_p"@) is None ==> r.top_p is None
            &&& body.get("presence_penalty"@) is None ==> r.presence_penalty is None
            &&& body.get("frequency_penalty"@) is None ==> r.frequency_penalty is None
            &&& body.get("user"@) matches Some(JsonView::Text(t)) ==> r.user == Some(t)
            &&& body.get("stop"@) matches Some(JsonView::Text(t)) ==> r.stop == Some(
                StopView::Single(t),
            )
            &&& body.get("max_tokens"@) matches Some(JsonView::Number(NumberView::Unsigned(n)))
                ==> (n <= u32::MAX ==> r.max_tokens == Some(n as u32))
            &&& body.get("max_tokens"@) is None ==> r.max_tokens is None
            &&& body.get("n"@) matches Some(JsonView::Number(NumberView::Unsigned(n))) ==> (n
                <= u32::MAX ==> r.n == Some(n as u32))
            &&& body.get("n"@) is None ==> r.n is None
        }),
{
}

// ---------------------------------------------------------------- answers
/// What the assistant says in the first choice is what its message says; where
/// that is a list of parts, their texts line by line.
pub proof fn the_assistant_says_its_message(
    chat: JsonView,
    choices: Seq<JsonView>,
    message: JsonView,
    content: JsonView,
)
    requires
        chat.get("choices"@) == Some(JsonView::Array(choices)),
        choices.len() > 0,
        choices[0].get("message"@) == Some(message),
        message.get("content"@) == Some(content),
    ensures
        content matches JsonView::Text(t) ==> assistant_text(chat) == t,
        content is Null ==> assistant_text(chat).len() == 0,
{
}

/// What parts of text say is what is read of them, line by line.
pub proof fn parts_are_read_line_by_line(parts: Seq<JsonView>, texts: Seq<Seq<char>>)
    requires
        parts.len() == texts.len(),
        forall|i: int|
            0 <= i < parts.len() ==> (#[trigger] parts[i]).get("text"@) == Some(
                JsonView::Text(texts[i]),
            ),
    ensures
        content_text(JsonView::Array(parts)) == joined(texts, "\n"@),
{
    let f = |p: JsonView| crate::models::part_text(p);
    texts_collected(texts, parts, f);
}

/// An answer of the newer interface says what the assistant says, at both places
/// where clients look for it, and names the model and the tokens of the chat
/// completion.
pub proof fn responses_answer_what_the_assistant_says(chat: JsonView, id: Seq<char>, created: u64)
    ensures
        ({
            let r = response_body(chat, id, created);
            let said = JsonView::Text(assistant_text(chat));
            &&& r.get("output_text"@) == Some(said)
            &&& r.get("id"@) == Some(JsonView::Text(id))
            &&& r.get("status"@) == Some(JsonView::Text("completed"@))
            &&& r.get("object"@) == Some(JsonView::Text("response"@))
            &&& r.get("created_at"@) == Some(JsonView::Number(NumberView::Unsigned(created)))
            &&& chat.get("model"@) is Some ==> r.get("model"@) == chat.get("model"@)
            &&& chat.get("usage"@) is Some ==> r.get("usage"@) == chat.get("usage"@)
            &&& r.get("output"@) matches Some(JsonView::Array(output)) && {
                &&& output.len() == 1
                &&& output[0].get("type"@) == Some(JsonView::Text("message"@))
                &&& output[0].get("role"@) == Some(JsonView::Text("assistant"@))
                &&& output[0].get("content"@) matches Some(JsonView::Array(parts)) && parts.len()
                    == 1 && parts[0].get("text"@) == Some(said) && parts[0].get("type"@) == Some(
                    JsonView::Text("output_text"@),
                )
            }
        }),
{
    reveal_strlit("id");
    reveal_strlit("object");
    reveal_strlit("created_at");
    reveal_strlit("status");
    reveal_strlit("model");
    reveal_strlit("output");
    reveal_strlit("output_text");
    reveal_strlit("usage");
    reveal_strlit("type");
    reveal_strlit("role");
    reveal_strlit("content");
    reveal_strlit("text");
    assert("id"@.len() == 2);
    assert("object"@.len() == 6);
    assert("created_at"@.len() == 10);
    assert("status"@.len() == 6);
    assert("model"@.len() == 5);
    assert("output"@.len() == 6);
    assert("output_text"@.len() == 11);
    assert("usage"@.len() == 5);
    assert("type"@.len() == 4);
    assert("role"@.len() == 4);
    assert("content"@.len() == 7);
    assert("text"@.len() == 4);
    assert("object"@[0] != "status"@[0]);
    assert("object"@[1] != "output"@[1]);
    assert("status"@[0] != "output"@[0]);
    assert("model"@[0] != "usage"@[0]);
    assert("type"@[0] != "role"@[0]);
    assert("type"@[1] != "text"@[1]);
    assert("role"@[0] != "text"@[0]);
    let r = response_body(chat, id, created)->Object_0;
    member_at(r, 0);
    member_at(r, 1);
    member_at(r, 2);
    member_at(r, 3);
    member_at(r, 4);
    member_at(r, 5);
    member_at(r, 6);
    member_at(r, 7);
    let m = r[5].1->Array_0[0]->Object_0;
    member_at(m, 0);
    member_at(m, 1);
    member_at(m, 2);
    let p = m[2].1->Array_0[0]->Object_0;
    member_at(p, 0);
    member_at(p, 1);
}

/// An answer of the older interface says what the assistant says, with the
/// reason for which the chat completion ended, its model and its tokens.
pub proof fn completions_answer_what_the_assistant_says(
    chat: JsonView,
    choices: Seq<JsonView>,
    id: Seq<char>,
    created: u64,
)
    requires
        chat.get("choices"@) == Some(JsonView::Array(choices)),
        choices.len() > 0,
    ensures
        ({
            let r = completion_body(chat, id, created);
            &&& r.get("id"@) == Some(JsonView::Text(id))
            &&& r.get("object"@) == Some(JsonView::Text("text_completion"@))
            &&& r.get("created"@) == Some(JsonView::Number(NumberView::Unsigned(created)))
            &&& chat.get("model"@) is Some ==> r.get("model"@) == chat.get("model"@)
            &&& chat.get("usage"@) is Some ==> r.get("usage"@) == chat.get("usage"@)
            &&& r.get("choices"@) matches Some(JsonView::Array(list)) && {
                &&& list.len() == 1
                &&& list[0].get("text"@) == Some(JsonView::Text(assistant_text(chat)))
                &&& choices[0].get("finish_reason"@) is Some ==> list[0].get("finish_reason"@)
                    == choices[0].get("finish_reason"@)
            }
        }),
{
    reveal_strlit("id");
    reveal_strlit("object");
    reveal_strlit("created");
    reveal_strlit("model");
    reveal_strlit("choices");
    reveal_strlit("usage");
    reveal_strlit("text");
    reveal_strlit("index");
    reveal_strlit("logprobs");
    reveal_strlit("finish_reason");
    assert("id"@.len() == 2);
    assert("object"@.len() == 6);
    assert("created"@.len() == 7);
    assert("model"@.len() == 5);
    assert("choices"@.len() == 7);
    assert("usage"@.len() == 5);
    assert("text"@.len() == 4);
    assert("index"@.len() == 5);
    assert("logprobs"@.len() == 8);
    assert("finish_reason"@.len() == 13);
    assert("created"@[1] != "choices"@[1]);
    assert("model"@[0] != "usage"@[0]);
    assert("model"@[0] != "index"@[0]);
    assert("usage"@[0] != "index"@[0]);
    let r = completion_body(chat, id, created)->Object_0;
    member_at(r, 0);
    member_at(r, 1);
    member_at(r, 2);
    member_at(r, 3);
    member_at(r, 4);
    member_at(r, 5);
    let c = r[4].1->Array_0[0]->Object_0;
    member_at(c, 0);
    member_at(c, 3);
}

/// What a message of Ollama's says reaches a client of either interface.
pub proof fn what_ollama_says_reaches_every_client(
    value: JsonView,
    message: JsonView,
    said: Seq<char>,
    model: Seq<char>,
    id: Seq<char>,
    created: i64,
)
    requires
        value.get("message"@) == Some(message),
        message.get("content"@) == Some(JsonView::Text(said)),
    ensures
        assistant_text(as_openai(value, model, id, created)) == said,
{
    crate::providers::laws::what_ollama_says_is_told(value, message, said, model, id, created);
    let chat = as_openai(value, model, id, created);
    let choices = chat.get("choices"@)->0->Array_0;
    the_assistant_says_its_message(
        chat,
        choices,
        choices[0].get("message"@)->0,
        JsonView::Text(said),
    );
}

} // verus!
