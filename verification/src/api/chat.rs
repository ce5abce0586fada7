//! Chat completions: what a request is given on its way, and how a stream is
//! relayed.
use crate::api::compat::{is_new_request_id, request_id};
use crate::error::{category_of, GatewayError, message_of};
use crate::json::{Json, JsonView, ObjectBuilder};
use crate::json_text::{json_text, text_of};
use crate::keystate::plus64;
use crate::models::{ChatCompletionRequest, RequestView};
use crate::providers::ollama::sse_last;
use crate::providers::traits::{header_text, header_value, Headers};
use crate::sanitize::{sanitize_diagnostic, sanitized};
use crate::text::{lowercase, lowercase_of, opt_view, same, views};
use vstd::prelude::*;

verus! {

// ---------------------------------------------------------------- headers
/// The headers whose values are never logged.
pub open spec fn secret_headers() -> Seq<Seq<char>> {
    seq![
        "authorization"@,
        "cookie"@,
        "set-cookie"@,
        "api-key"@,
        "apikey"@,
        "x-api-key"@,
        "token"@,
        "x-token"@,
    ]
}

/// A header as it is logged, where its name in lower case is given.
pub open spec fn logged_header(name: Seq<char>, value: Option<Seq<char>>) -> (
    Seq<char>,
    Seq<char>,
) {
    (
        name,
        if secret_headers().contains(name) {
            "[REDACTED]"@
        } else {
            match value {
                Some(v) => v,
                None => "[binary]"@,
            }
        },
    )
}

/// Whether the value of a header, its name in lower case, is never logged.
pub fn is_secret_header(name: &str) -> (r: bool)
    ensures
        r == secret_headers().contains(name@),
{
    let ghost s = secret_headers();
    assert(s[0] == "authorization"@ && s[1] == "cookie"@ && s[2] == "set-cookie"@ && s[3]
        == "api-key"@ && s[4] == "apikey"@ && s[5] == "x-api-key"@ && s[6] == "token"@ && s[7]
        == "x-token"@);
    same(name, "authorization") || same(name, "cookie") || same(name, "set-cookie") || same(
        name,
        "api-key",
    ) || same(name, "apikey") || same(name, "x-api-key") || same(name, "token") || same(
        name,
        "x-token",
    )
}

/// A header as it is logged, where its name in lower case is given.
pub fn log_header(name: String, value: &Option<String>) -> (r: (String, String))
    ensures
        (r.0@, r.1@) == logged_header(name@, opt_view(*value)),
{
    let shown = if is_secret_header(name.as_str()) {
        "[REDACTED]".to_owned()
    } else {
        match value {
            Some(v) => v.clone(),
            None => "[binary]".to_owned(),
        }
    };
    (name, shown)
}

/// Headers as they are logged: names in lower case, secrets left out.
pub fn sanitize_headers(headers: &Headers) -> (r: Vec<(String, String)>)
    ensures
        r@.len() == headers@.len(),
        forall|i: int|
            0 <= i < r@.len() ==> ((#[trigger] r@[i]).0@, r@[i].1@) == logged_header(
                lowercase_of(headers@[i].0@),
                opt_view(headers@[i].1),
            ),
{
    let mut r: Vec<(String, String)> = Vec::new();
    let mut i: usize = 0;
    while i < headers.len()
        invariant
            i <= headers@.len(),
            r@.len() == i,
            forall|j: int|
                0 <= j < i ==> ((#[trigger] r@[j]).0@, r@[j].1@) == logged_header(
                    lowercase_of(headers@[j].0@),
                    opt_view(headers@[j].1),
                ),
        decreases headers@.len() - i,
    {
        let name = lowercase(headers[i].0.as_str());
        r.push(log_header(name, &headers[i].1));
        i += 1;
    }
    r
}

/// What is logged of a secret header does not depend on its value.
pub proof fn secrets_are_not_logged(
    name: Seq<char>,
    a: Option<Seq<char>>,
    b: Option<Seq<char>>,
)
    requires
        secret_headers().contains(name),
    ensures
        logged_header(name, a) == logged_header(name, b),
{
}

// ---------------------------------------------------------------- requests
/// Notes on a request who asks, and under which identifier.
pub fn apply_chat_headers(headers: &Headers, request: &mut ChatCompletionRequest)
    ensures
        ({
            let given = header_text(headers@, "x-request-id"@);
            let id = final(request)@.request_id;
            &&& final(request)@ == (RequestView {
                agent_name: header_text(headers@, "x-agent-name"@),
                request_id: id,
                ..old(request)@
            })
            &&& id is Some
            &&& match given {
                Some(h) => id == Some(h),
                None => is_new_request_id(id->0),
            }
        }),
{
    let id = header_value(headers, "x-request-id");
    request.agent_name = header_value(headers, "x-agent-name");
    request.request_id = Some(
        match &id {
            Some(h) => request_id(Some(h.as_str())),
            None => request_id(None),
        },
    );
}

/// Notes on a request under which identifier it is made, and who asks where it
/// does not say so itself.
pub fn apply_request_headers(headers: &Headers, request: &mut ChatCompletionRequest)
    ensures
        ({
            let given = header_text(headers@, "x-request-id"@);
            let id = final(request)@.request_id;
            &&& final(request)@ == (RequestView {
                agent_name: match old(request)@.agent_name {
                    Some(a) => Some(a),
                    None => header_text(headers@, "x-agent-name"@),
                },
                request_id: id,
                ..old(request)@
            })
            &&& id is Some
            &&& match given {
                Some(h) => id == Some(h),
                None => is_new_request_id(id->0),
            }
        }),
{
    let id = header_value(headers, "x-request-id");
    if request.agent_name.is_none() {
        request.agent_name = header_value(headers, "x-agent-name");
    }
    request.request_id = Some(
        match &id {
            Some(h) => request_id(Some(h.as_str())),
            None => request_id(None),
        },
    );
}

/// Whether a stream is asked for.
pub fn wants_stream(request: &ChatCompletionRequest) -> (r: bool)
    ensures
        r == (request.stream == Some(true)),
{
    match request.stream {
        Some(s) => s,
        None => false,
    }
}

/// The error of a request that took too long.
pub fn deadline_error() -> (r: GatewayError)
    ensures
        r matches GatewayError::Timeout(m) && m@ == "Gateway request deadline exceeded"@,
{
    GatewayError::Timeout("Gateway request deadline exceeded".to_owned())
}

/// Seconds of silence after which a stream is kept alive: at least one.
pub fn keepalive_seconds(configured: u64) -> (r: u64)
    ensures
        r == if configured < 1 {
            1
        } else {
            configured
        },
{
    if configured < 1 {
        1
    } else {
        configured
    }
}

// ---------------------------------------------------------------- streams
/// What happens to a stream that is relayed.
#[derive(Debug)]
pub enum RelayEvent {
    /// Nothing came for a while.
    Silence,
    /// Bytes came.
    Chunk,
    /// The provider failed.
    Failed(GatewayError),
    /// The provider is done.
    Ended,
}

/// What is done about it: whether the bytes that came are sent on, what is sent
/// besides, how many errors are counted, and whether the stream ends.
#[derive(Debug)]
pub struct RelayStep {
    pub forward: bool,
    pub send: Vec<String>,
    pub errors: u64,
    pub stop: bool,
}

/// A stream that is relayed: whether nothing was sent on yet, and how many
/// chunks were.
#[derive(Debug, Clone, Copy, PartialEq, Eq, Structural)]
pub struct StreamRelay {
    pub first: bool,
    pub total_chunks: u64,
}

/// What is sent to keep a stream alive.
pub open spec fn keep_alive_text() -> Seq<char> {
    ": keep-alive\n\n"@
}

/// What is sent where nothing came.
pub open spec fn empty_stream_text() -> Seq<char> {
    "data: {\"error\":{\"message\":\"Empty response from provider\",\"type\":\"upstream_error\",\"param\":null,\"code\":\"empty_stream\"}}\n\ndata: [DONE]\n\n"@
}

/// What is said of a failure in a stream, with secrets left out.
pub open spec fn stream_error(error: GatewayError) -> JsonView {
    JsonView::Object(
        seq![
            (
                "error"@,
                JsonView::Object(
                    seq![
                        (
                            "message"@,
                            JsonView::Text(sanitized(message_of(error))),
                        ),
                        ("type"@, JsonView::Text(category_of(error))),
                        ("param"@, JsonView::Null),
                        ("code"@, JsonView::Text("stream_error"@)),
                    ],
                ),
            ),
        ],
    )
}

/// The event that tells of a failure and ends a stream.
pub open spec fn stream_error_text(error: GatewayError) -> Seq<char> {
    "data: "@ + text_of(stream_error(error)) + "\n\ndata: [DONE]\n\n"@
}

impl StreamRelay {
    /// The stream after an event.
    pub open spec fn after(self, event: RelayEvent) -> StreamRelay {
        match event {
            RelayEvent::Chunk => StreamRelay {
                first: false,
                total_chunks: plus64(self.total_chunks, 1),
            },
            _ => self,
        }
    }

    /// What is sent for an event besides the bytes that came. A stream that
    /// ends, or fails, before anything was sent on is answered.
    pub open spec fn sent(self, event: RelayEvent) -> Seq<Seq<char>> {
        let answer = if self.first {
            seq![empty_stream_text()]
        } else {
            Seq::empty()
        };
        match event {
            RelayEvent::Silence => seq![keep_alive_text()],
            RelayEvent::Chunk => Seq::empty(),
            RelayEvent::Failed(e) => seq![stream_error_text(e)] + answer,
            RelayEvent::Ended => answer,
        }
    }

    /// How many errors an event counts for.
    pub open spec fn errors(self, event: RelayEvent) -> int {
        (if event is Failed {
            1int
        } else {
            0
        }) + (if self.first && (event is Failed || event is Ended) {
            1int
        } else {
            0
        })
    }

    /// A stream of which nothing was sent on yet.
    pub fn new() -> (r: StreamRelay)
        ensures
            r == (StreamRelay { first: true, total_chunks: 0 }),
    {
        StreamRelay { first: true, total_chunks: 0 }
    }

    /// What is done about an event.
    pub fn on_event(&mut self, event: &RelayEvent) -> (r: RelayStep)
        ensures
            *final(self) == old(self).after(*event),
            r.forward == (event is Chunk),
            views(r.send@) == old(self).sent(*event),
            r.errors == old(self).errors(*event),
            r.stop == (event is Failed || event is Ended),
    {
        let mut send: Vec<String> = Vec::new();
        let mut errors: u64 = 0;
        assert(views(send@) =~= Seq::empty());
        match event {
            RelayEvent::Silence => {
                send.push(": keep-alive\n\n".to_owned());
                assert(views(send@) =~= seq![keep_alive_text()]);
                RelayStep { forward: false, send, errors, stop: false }
            },
            RelayEvent::Chunk => {
                self.first = false;
                self.total_chunks = self.total_chunks.saturating_add(1);
                RelayStep { forward: true, send, errors, stop: false }
            },
            RelayEvent::Failed(error) => {
                let body = stream_error_body(error);
                let text = json_text(&body);
                send.push(sse_last(text.as_str()));
                assert(views(send@) =~= seq![stream_error_text(*error)]);
                errors = 1;
                if self.first {
                    self.answer_empty(&mut send);
                    errors = 2;
                }
                assert(views(send@) =~= old(self).sent(*event));
                RelayStep { forward: false, send, errors, stop: true }
            },
            RelayEvent::Ended => {
                if self.first {
                    self.answer_empty(&mut send);
                    errors = 1;
                }
                assert(views(send@) =~= old(self).sent(*event));
                RelayStep { forward: false, send, errors, stop: true }
            },
        }
    }

    fn answer_empty(&self, send: &mut Vec<String>)
        ensures
            views(final(send)@) == views(old(send)@).push(empty_stream_text()),
    {
        let ghost so_far = views(send@);
        send.push(
            "data: {\"error\":{\"message\":\"Empty response from provider\",\"type\":\"upstream_error\",\"param\":null,\"code\":\"empty_stream\"}}\n\ndata: [DONE]\n\n".to_owned(),
        );
        assert(views(send@) =~= so_far.push(empty_stream_text()));
    }
}

fn stream_error_body(error: &GatewayError) -> (r: Json)
    ensures
        r@ == stream_error(*error),
{
    let ghost goal = stream_error(*error);
    let mut inner = ObjectBuilder::new();
    inner.put_text("message", sanitize_diagnostic(error.to_string().as_str()).as_str());
    inner.put_text("type", error.category());
    inner.put("param", Json::Null);
    inner.put_text("code", "stream_error");
    assert(inner@ =~= goal->Object_0[0].1->Object_0);
    let mut o = ObjectBuilder::new();
    o.put("error", inner.done());
    assert(o@ =~= goal->Object_0);
    o.done()
}

// ---------------------------------------------------------------- laws
/// A stream is never closed without a word: where nothing was sent on, an error
/// is.
pub proof fn streams_are_answered(relay: StreamRelay, event: RelayEvent)
    requires
        relay.first,
        event is Failed || event is Ended,
    ensures
        relay.sent(event).len() > 0,
        relay.sent(event).last() == empty_stream_text(),
        relay.errors(event) > 0,
{
}

/// A stream that was sent on and ends of itself has nothing added to it, and
/// counts no error.
pub proof fn good_streams_are_left_alone(relay: StreamRelay)
    requires
        !relay.first,
    ensures
        relay.sent(RelayEvent::Ended).len() == 0,
        relay.errors(RelayEvent::Ended) == 0,
{
}

} // verus!
