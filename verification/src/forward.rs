//! Forwarding: what is sent to a specialist and what its answer becomes.
//!
//! The body goes out byte for byte as it came in. A specialist's answer is passed
//! on as a stream, as one JSON body, or as one server-sent event that holds the
//! JSON; whatever goes wrong on the way becomes a JSON-RPC error.

use vstd::prelude::*;
use vstd::string::*;
use vstd::utf8::encode_utf8;

use crate::http::{bytes_of, HeaderView, Headers, HttpReply, ReplyView};
use crate::json::{integer_json, Json, JsonView, Members, NumberView};
use crate::probe::{ResponseShape, Upstream};
use crate::sse::{events_in, law_frame_is_one_event, plain_breaks, sse_event, sse_frame};
use crate::text::{lossy_text, text_of_bytes, trim, trimmed};
use crate::wire::{
    depth_limit, json_parsed, json_text, json_to_text, lemma_plain_name, plain_within, Parsed,
};

verus! {

/// How long a specialist may take, in seconds.
pub const FORWARD_TIMEOUT_SECS: u64 = 900;

/// The media type of JSON, as the one header of a reply.
pub open spec fn json_headers() -> Seq<HeaderView> {
    seq![("content-type"@, "application/json"@)]
}

/// The JSON-RPC document that reports an internal error.
pub open spec fn error_document(msg: Seq<char>) -> JsonView {
    JsonView::Object(
        map![
            "jsonrpc"@ => JsonView::Str("2.0"@),
            "id"@ => JsonView::Null,
            "error"@ => JsonView::Object(
                map![
                    "code"@ => JsonView::Number(NumberView::Integer(-32603)),
                    "message"@ => JsonView::Str(msg),
                ],
            ),
        ],
    )
}

/// The reply that reports `msg` with the given status.
pub open spec fn error_reply(status: u16, msg: Seq<char>) -> ReplyView {
    ReplyView {
        status,
        headers: json_headers(),
        body: encode_utf8(json_text(error_document(msg))),
    }
}

proof fn lemma_error_document_plain(msg: Seq<char>)
    ensures
        plain_within(error_document(msg), depth_limit()),
{
    reveal_strlit("jsonrpc");
    lemma_plain_name("jsonrpc"@);
    reveal_strlit("id");
    lemma_plain_name("id"@);
    reveal_strlit("error");
    lemma_plain_name("error"@);
    reveal_strlit("code");
    lemma_plain_name("code"@);
    reveal_strlit("message");
    lemma_plain_name("message"@);
    reveal_with_fuel(plain_within, 3);
}

/// The reply that reports `msg` with the given status. Its body reads back as the
/// error document.
pub fn error_json(status: u16, msg: String) -> (r: HttpReply)
    ensures
        r@ == error_reply(status, msg@),
        json_parsed(r.body@) == Parsed::Document(error_document(msg@)),
{
    let error: Json = Members::new().with("code", integer_json(-32603)).with_text(
        "message",
        msg.as_str(),
    ).object();
    let body: Json = Members::new().with_text("jsonrpc", "2.0").with("id", Json::Null).with(
        "error",
        error,
    ).object();
    proof {
        lemma_error_document_plain(msg@);
        assert(body@ == error_document(msg@));
    }
    let headers: Headers = Headers::new().with("content-type", "application/json");
    assert(headers@ =~= json_headers());
    HttpReply { status, headers, body: bytes_of(json_to_text(&body).as_str()) }
}

/// What is sent to a specialist.
#[derive(Debug)]
pub struct ForwardRequest {
    pub url: String,
    pub headers: Headers,
    pub body: Vec<u8>,
    pub timeout_secs: u64,
    pub probe_name: &'static str,
    pub response_shape: ResponseShape,
}

/// The content of what is sent to a specialist.
#[verifier::ext_equal]
pub struct ForwardView {
    pub url: Seq<char>,
    pub headers: Seq<HeaderView>,
    pub body: Seq<u8>,
    pub timeout_secs: u64,
    pub probe_name: Seq<char>,
    pub response_shape: ResponseShape,
}

impl View for ForwardRequest {
    type V = ForwardView;

    open spec fn view(&self) -> ForwardView {
        ForwardView {
            url: self.url@,
            headers: self.headers@,
            body: self.body@,
            timeout_secs: self.timeout_secs,
            probe_name: self.probe_name@,
            response_shape: self.response_shape,
        }
    }
}

/// The request to a specialist: the incoming body, untouched, as JSON.
pub open spec fn forwarded(upstream: Upstream, body: Seq<u8>, probe_name: Seq<char>) -> ForwardView {
    ForwardView {
        url: upstream.url@,
        headers: json_headers(),
        body,
        timeout_secs: FORWARD_TIMEOUT_SECS,
        probe_name,
        response_shape: upstream.response_shape,
    }
}

/// The request to a specialist: the incoming body, untouched, as JSON.
pub fn forward(upstream: &Upstream, body: Vec<u8>, probe_name: &'static str) -> (r: ForwardRequest)
    ensures
        r@ == forwarded(*upstream, body@, probe_name@),
        r.body@ == body@,
{
    let headers: Headers = Headers::new().with("content-type", "application/json");
    assert(headers@ =~= json_headers());
    ForwardRequest {
        url: upstream.url.clone(),
        headers,
        body,
        timeout_secs: FORWARD_TIMEOUT_SECS,
        probe_name,
        response_shape: upstream.response_shape,
    }
}

/// What sending a request came to.
#[derive(Debug)]
pub enum SendOutcome {
    /// No answer; the message says why.
    Failed(String),
    /// An answer with this status code.
    Status(u16),
}

/// What is to be done with a specialist's answer.
#[derive(Debug)]
pub enum ForwardStep {
    /// Reply at once.
    Reply(HttpReply),
    /// Read the text of the answer, which reports a failure: `upstream_failure`.
    ReadFailure,
    /// Stream the answer, under these headers.
    Stream(Headers),
    /// Read the whole answer: `forward_json`.
    ReadJson,
    /// Read the whole answer: `forward_json_as_sse`.
    ReadJsonAsSse,
}

/// Whether a status code reports success.
pub open spec fn success(status: u16) -> bool {
    200 <= status < 300
}

/// The headers under which a stream of events is passed on.
pub open spec fn sse_stream_headers(probe_name: Seq<char>) -> Seq<HeaderView> {
    seq![
        ("content-type"@, "text/event-stream"@),
        ("cache-control"@, "no-cache"@),
        ("x-accel-buffering"@, "no"@),
        ("connection"@, "keep-alive"@),
        ("x-router-probe"@, probe_name),
    ]
}

/// The headers under which a stream of events is passed on.
pub fn forward_sse(probe_name: &str) -> (r: Headers)
    ensures
        r@ == sse_stream_headers(probe_name@),
{
    let r: Headers = Headers::new().with("content-type", "text/event-stream").with(
        "cache-control",
        "no-cache",
    ).with("x-accel-buffering", "no").with("connection", "keep-alive").with(
        "x-router-probe",
        probe_name,
    );
    assert(r@ =~= sse_stream_headers(probe_name@));
    r
}

/// What is to be done once a request was sent: a failure to send is reported, a
/// status that is no success has its text read, and otherwise the specialist's
/// response shape decides.
pub fn after_send(shape: ResponseShape, probe_name: &str, outcome: SendOutcome) -> (r: ForwardStep)
    ensures
        match outcome {
            SendOutcome::Failed(e) => r matches ForwardStep::Reply(reply) && reply@ == error_reply(
                502,
                "Upstream "@ + probe_name@ + " unreachable: "@ + e@,
            ),
            SendOutcome::Status(code) => if !success(code) {
                r is ReadFailure
            } else {
                match shape {
                    ResponseShape::Sse => r matches ForwardStep::Stream(h) && h@
                        == sse_stream_headers(probe_name@),
                    ResponseShape::Json => r is ReadJson,
                    ResponseShape::JsonAsSse => r is ReadJsonAsSse,
                }
            },
        },
{
    match outcome {
        SendOutcome::Failed(e) => {
            let mut msg: String = "Upstream ".to_owned();
            msg.append(probe_name);
            msg.append(" unreachable: ");
            msg.append(e.as_str());
            ForwardStep::Reply(error_json(502, msg))
        },
        SendOutcome::Status(code) => {
            if !(200 <= code && code < 300) {
                ForwardStep::ReadFailure
            } else {
                match shape {
                    ResponseShape::Sse => ForwardStep::Stream(forward_sse(probe_name)),
                    ResponseShape::Json => ForwardStep::ReadJson,
                    ResponseShape::JsonAsSse => ForwardStep::ReadJsonAsSse,
                }
            }
        },
    }
}

/// The reply to a specialist's failure: its status, as text, and what it said.
pub fn upstream_failure(probe_name: &str, status: &str, text: &str) -> (r: HttpReply)
    ensures
        r@ == error_reply(
            502,
            "Upstream "@ + probe_name@ + " returned "@ + status@ + ": "@ + text@,
        ),
{
    let mut msg: String = "Upstream ".to_owned();
    msg.append(probe_name);
    msg.append(" returned ");
    msg.append(status);
    msg.append(": ");
    msg.append(text);
    error_json(502, msg)
}

/// The reply to an answer that could not be read to its end.
pub open spec fn unread_reply(probe_name: Seq<char>, e: Seq<char>) -> ReplyView {
    error_reply(502, "Upstream "@ + probe_name + " body read failed: "@ + e)
}

fn unread(probe_name: &str, e: &str) -> (r: HttpReply)
    ensures
        r@ == unread_reply(probe_name@, e@),
{
    let mut msg: String = "Upstream ".to_owned();
    msg.append(probe_name);
    msg.append(" body read failed: ");
    msg.append(e);
    error_json(502, msg)
}

/// Passes a JSON answer on, byte for byte.
pub fn forward_json(probe_name: &str, answer: Result<Vec<u8>, String>) -> (r: HttpReply)
    ensures
        match answer {
            Err(e) => r@ == unread_reply(probe_name@, e@),
            Ok(body) => r@ == (ReplyView {
                status: 200,
                headers: seq![
                    ("content-type"@, "application/json"@),
                    ("x-router-probe"@, probe_name@),
                    ("connection"@, "close"@),
                ],
                body: body@,
            }),
        },
{
    match answer {
        Err(e) => unread(probe_name, e.as_str()),
        Ok(body) => {
            let headers: Headers = Headers::new().with("content-type", "application/json").with(
                "x-router-probe",
                probe_name,
            ).with("connection", "close");
            assert(headers@ =~= seq![
                ("content-type"@, "application/json"@),
                ("x-router-probe"@, probe_name@),
                ("connection"@, "close"@),
            ]);
            HttpReply { status: 200, headers, body }
        },
    }
}

/// Passes a JSON answer on as one server-sent event: its data is the text of the answer,
/// however many lines that has.
pub fn forward_json_as_sse(probe_name: &str, answer: Result<Vec<u8>, String>) -> (r: HttpReply)
    ensures
        answer matches Ok(body) ==> events_in(sse_frame(trimmed(text_of_bytes(body@)))) == seq![
            plain_breaks(trimmed(text_of_bytes(body@))),
        ],
        match answer {
            Err(e) => r@ == unread_reply(probe_name@, e@),
            Ok(body) => r@ == (ReplyView {
                status: 200,
                headers: seq![
                    ("content-type"@, "text/event-stream"@),
                    ("cache-control"@, "no-cache"@),
                    ("x-accel-buffering"@, "no"@),
                    ("x-router-probe"@, probe_name@),
                ],
                body: encode_utf8(sse_frame(trimmed(text_of_bytes(body@)))),
            }),
        },
{
    match answer {
        Err(e) => unread(probe_name, e.as_str()),
        Ok(body) => {
            let json_text: String = lossy_text(body.as_slice());
            proof {
                law_frame_is_one_event(trimmed(text_of_bytes(body@)));
            }
            let frame: String = sse_event(trim(json_text.as_str()));
            let headers: Headers = Headers::new().with("content-type", "text/event-stream").with(
                "cache-control",
                "no-cache",
            ).with("x-accel-buffering", "no").with("x-router-probe", probe_name);
            assert(headers@ =~= seq![
                ("content-type"@, "text/event-stream"@),
                ("cache-control"@, "no-cache"@),
                ("x-accel-buffering"@, "no"@),
                ("x-router-probe"@, probe_name@),
            ]);
            HttpReply { status: 200, headers, body: bytes_of(frame.as_str()) }
        },
    }
}

/// An error says what went wrong, word for word, in the form of a JSON-RPC error that
/// belongs to no request.
pub proof fn law_errors_say_what_went_wrong(status: u16, msg: Seq<char>)
    ensures
        error_document(msg).nested("error"@, "message"@) == Some(JsonView::Str(msg)),
        error_document(msg).nested("error"@, "code"@) == Some(
            JsonView::Number(NumberView::Integer(-32603)),
        ),
        error_document(msg).field("id"@) == Some(JsonView::Null),
        error_document(msg).field("jsonrpc"@) == Some(JsonView::Str("2.0"@)),
        error_reply(status, msg).status == status,
        error_reply(status, msg).body == encode_utf8(json_text(error_document(msg))),
        error_reply(status, msg).headers.len() == 1,
        error_reply(status, msg).headers[0] == ("content-type"@, "application/json"@),
{
    reveal_strlit("jsonrpc");
    reveal_strlit("id");
    reveal_strlit("error");
    reveal_strlit("code");
    reveal_strlit("message");
    assert("jsonrpc"@.len() == 7 && "id"@.len() == 2 && "error"@.len() == 5);
    assert("code"@.len() == 4 && "message"@.len() == 7);
}

/// A request to a specialist holds its address, the body as it came, and how the answer is
/// to be passed on; it is sent as JSON and may take 900 seconds.
pub proof fn law_what_is_sent(upstream: Upstream, body: Seq<u8>, probe_name: Seq<char>)
    ensures
        forwarded(upstream, body, probe_name).url == upstream.url@,
        forwarded(upstream, body, probe_name).body == body,
        forwarded(upstream, body, probe_name).probe_name == probe_name,
        forwarded(upstream, body, probe_name).response_shape == upstream.response_shape,
        forwarded(upstream, body, probe_name).timeout_secs == 900,
        forwarded(upstream, body, probe_name).headers == seq![
            ("content-type"@, "application/json"@),
        ],
{
}

/// An answer that breaks off is reported with the name of the specialist and the reason.
pub proof fn law_broken_answers_are_reported(name: Seq<char>, e: Seq<char>)
    ensures
        unread_reply(name, e).status == 502,
        unread_reply(name, e) == error_reply(
            502,
            "Upstream "@ + name + " body read failed: "@ + e,
        ),
        success(200) && success(299) && !success(199) && !success(300),
        forall|a: u16, b: u16, c: u16|
            a <= b <= c && #[trigger] success(a) && #[trigger] success(c) ==> #[trigger] success(b),
{
}

/// A stream is passed on as one, unbuffered, under the name of its specialist.
pub proof fn law_streams_are_passed_on(name: Seq<char>)
    ensures
        sse_stream_headers(name) == seq![
            ("content-type"@, "text/event-stream"@),
            ("cache-control"@, "no-cache"@),
            ("x-accel-buffering"@, "no"@),
            ("connection"@, "keep-alive"@),
            ("x-router-probe"@, name),
        ],
{
}

} // verus!
