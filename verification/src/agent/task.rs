//! Tasks: how one is read, and how it is answered, at once or as a stream of events.

use vstd::prelude::*;
use vstd::string::*;
use vstd::utf8::encode_utf8;

use crate::forward::json_headers;
use crate::http::{bytes_of, HeaderView, Headers, HttpReply, ReplyView};
use crate::json::{
    array_json, integer_json, str_views, texts_json, texts_view, views, Json, JsonView, Members, NumberView,
};
use crate::sse::{
    events_in, frames_text, law_frame_is_one_event, law_frames_stay_apart,
    law_line_is_found_as_it_is, plain_breaks, sse_event, sse_frame,
};
use crate::text::{lemma_encode_utf8_concat, opt_chars, same_text};
use crate::wire::{
    depth_limit, json_from_bytes, json_parsed, json_text, json_to_text, lemma_plain_name,
    plain_within, raw_value_name, reads_back, Parsed,
};

verus! {

/// The port that the agent listens on, where no other is given.
pub const DEFAULT_PORT: u16 = 8090;

/// What the agent runs with.
#[derive(Debug)]
pub struct AppState {
    pub openai_api_key: String,
    pub model_priority: Vec<String>,
    pub min_completion_tokens: u64,
    pub agent_card_url: String,
}

/// The reply that holds `doc`.
pub open spec fn document_reply(doc: JsonView) -> ReplyView {
    ReplyView { status: 200, headers: json_headers(), body: encode_utf8(json_text(doc)) }
}

/// The reply that holds `doc`. A plain document that is nested within the limit can be
/// read back from it.
pub fn json_reply(doc: &Json) -> (r: HttpReply)
    ensures
        r@ == document_reply(doc@),
        plain_within(doc@, depth_limit()) ==> json_parsed(r.body@) == Parsed::Document(doc@),
{
    let headers: Headers = Headers::new().with("content-type", "application/json");
    assert(headers@ =~= json_headers());
    HttpReply { status: 200, headers, body: bytes_of(json_to_text(doc).as_str()) }
}

/// A JSON-RPC response: `member` is `result` or `error`.
pub open spec fn rpc_response(rpc_id: JsonView, member: Seq<char>, value: JsonView) -> JsonView {
    JsonView::Object(map!["jsonrpc"@ => JsonView::Str("2.0"@), "id"@ => rpc_id, member => value])
}

fn respond(rpc_id: &Json, member: &str, value: Json) -> (r: Json)
    ensures
        r@ == rpc_response(rpc_id@, member@, value@),
{
    Members::new().with_text("jsonrpc", "2.0").with("id", rpc_id.duplicate()).with(
        member,
        value,
    ).object()
}

/// Whether an identifier can be read back from inside a response.
pub open spec fn plain_id(rpc_id: JsonView) -> bool {
    plain_within(rpc_id, (depth_limit() - 1) as nat)
}

proof fn lemma_response_plain(rpc_id: JsonView, member: Seq<char>, value: JsonView)
    requires
        plain_id(rpc_id),
        member != raw_value_name(),
        plain_within(value, (depth_limit() - 1) as nat),
    ensures
        plain_within(rpc_response(rpc_id, member, value), depth_limit()),
{
    reveal_strlit("jsonrpc");
    lemma_plain_name("jsonrpc"@);
    reveal_strlit("id");
    lemma_plain_name("id"@);
    reveal_with_fuel(plain_within, 2);
}

/// What a JSON-RPC error says.
pub open spec fn error_member(code: int, message: Seq<char>) -> JsonView {
    JsonView::Object(
        map![
            "code"@ => JsonView::Number(NumberView::Integer(code)),
            "message"@ => JsonView::Str(message),
        ],
    )
}

/// A JSON-RPC error.
pub open spec fn rpc_error(rpc_id: JsonView, code: int, message: Seq<char>) -> JsonView {
    rpc_response(rpc_id, "error"@, error_member(code, message))
}

/// The reply that reports a JSON-RPC error.
pub fn json_rpc_error(rpc_id: &Json, code: i64, message: &str) -> (r: HttpReply)
    ensures
        r@ == document_reply(rpc_error(rpc_id@, code as int, message@)),
        plain_id(rpc_id@) ==> json_parsed(r.body@) == Parsed::Document(
            rpc_error(rpc_id@, code as int, message@),
        ),
{
    let error: Json = Members::new().with("code", integer_json(code)).with_text(
        "message",
        message,
    ).object();
    proof {
        assert(error@ == error_member(code as int, message@));
        reveal_strlit("error");
        lemma_plain_name("error"@);
        reveal_strlit("code");
        lemma_plain_name("code"@);
        reveal_strlit("message");
        lemma_plain_name("message"@);
        assert(plain_within(error@, (depth_limit() - 1) as nat)) by {
            reveal_with_fuel(plain_within, 2);
        }
        if plain_id(rpc_id@) {
            lemma_response_plain(rpc_id@, "error"@, error@);
        }
    }
    json_reply(&respond(rpc_id, "error", error))
}

/// A task, read out of its envelope. `context_id` is the conversation that it belongs
/// to, where it says so.
#[derive(Debug)]
pub struct TaskRequest {
    pub rpc_id: Json,
    pub stream: bool,
    pub message: Json,
    pub context_id: Option<String>,
}

/// The content of a task.
pub struct RequestView {
    pub rpc_id: JsonView,
    pub stream: bool,
    pub message: JsonView,
    pub context_id: Option<Seq<char>>,
}

impl View for TaskRequest {
    type V = RequestView;

    open spec fn view(&self) -> RequestView {
        RequestView {
            rpc_id: self.rpc_id@,
            stream: self.stream,
            message: self.message@,
            context_id: opt_chars(self.context_id),
        }
    }
}

/// What an envelope comes to: a task to run, or a reply that refuses it.
#[derive(Debug)]
pub enum TaskStep {
    Run(TaskRequest),
    Reply(HttpReply),
}

/// The content of what an envelope comes to.
pub enum StepView {
    Run(RequestView),
    Reply(ReplyView),
}

impl View for TaskStep {
    type V = StepView;

    open spec fn view(&self) -> StepView {
        match *self {
            TaskStep::Run(request) => StepView::Run(request@),
            TaskStep::Reply(reply) => StepView::Reply(reply@),
        }
    }
}

/// The conversation that a message names; an empty name is none.
pub open spec fn named_context(message: JsonView) -> Option<Seq<char>> {
    match message.str_field("contextId"@) {
        Some(id) if id.len() > 0 => Some(id),
        _ => None,
    }
}

/// The task in an envelope. The answer is streamed where the method asks for that, and
/// given at once under any other method.
pub open spec fn opened(envelope: JsonView) -> StepView {
    let rpc_id = envelope.field_or_null("id"@);
    match envelope.nested("params"@, "message"@) {
        None => StepView::Reply(
            document_reply(rpc_error(rpc_id, -32602, "Missing params.message"@)),
        ),
        Some(message) => StepView::Run(
            RequestView {
                rpc_id,
                stream: envelope.str_field("method"@) == Some("message/stream"@),
                message,
                context_id: named_context(message),
            },
        ),
    }
}

/// What the body of a request comes to.
pub open spec fn received(body: Seq<u8>) -> StepView {
    match json_parsed(body) {
        Parsed::Error(e) => StepView::Reply(
            document_reply(rpc_error(JsonView::Null, -32700, "Parse error: "@ + e)),
        ),
        Parsed::Document(envelope) => opened(envelope),
    }
}

/// Takes the task out of an envelope.
pub fn open_envelope(envelope: &Json) -> (r: TaskStep)
    ensures
        r@ == opened(envelope@),
{
    let rpc_id: Json = match envelope.get("id") {
        Some(id) => id.duplicate(),
        None => Json::Null,
    };
    let stream: bool = match envelope.str_field("method") {
        Some(method) => same_text(method, "message/stream"),
        None => false,
    };
    match envelope.nested("params", "message") {
        None => TaskStep::Reply(json_rpc_error(&rpc_id, -32602, "Missing params.message")),
        Some(message) => {
            let context_id: Option<String> = match message.str_field("contextId") {
                Some(id) => if id.is_empty() {
                    None
                } else {
                    Some(id.to_owned())
                },
                None => None,
            };
            assert(opt_chars(context_id) == named_context(message@));
            TaskStep::Run(
                TaskRequest { rpc_id, stream, message: message.duplicate(), context_id },
            )
        },
    }
}

/// Reads the body of a request: the task in it, or the reply that refuses it.
pub fn read_task(body: &[u8]) -> (r: TaskStep)
    ensures
        r@ == received(body@),
{
    match json_from_bytes(body) {
        Err(e) => {
            let mut message: String = "Parse error: ".to_owned();
            message.append(e.as_str());
            TaskStep::Reply(json_rpc_error(&Json::Null, -32700, message.as_str()))
        },
        Ok(envelope) => open_envelope(&envelope),
    }
}

/// Whether `c` is a hexadecimal digit in lower case.
pub open spec fn hex_digit(c: char) -> bool {
    '0' <= c <= '9' || 'a' <= c <= 'f'
}

/// Whether `s` is a random identifier: 32 hexadecimal digits in groups of 8, 4, 4, 4 and
/// 12, of which two say what kind of identifier it is.
pub open spec fn random_id(s: Seq<char>) -> bool {
    &&& s.len() == 36
    &&& forall|i: int|
        0 <= i < 36 ==> if i == 8 || i == 13 || i == 18 || i == 23 {
            #[trigger] s[i] == '-'
        } else {
            hex_digit(s[i])
        }
    &&& s[14] == '4'
    &&& s[19] == '8' || s[19] == '9' || s[19] == 'a' || s[19] == 'b'
}

/// `uuid::Uuid::new_v4` and its `to_string`: a random identifier of version 4. Which one
/// it is depends on chance, and that no two are equal is not stated.
#[verifier::external_body]
fn fresh_id() -> (r: String)
    ensures
        random_id(r@),
{
    uuid::Uuid::new_v4().to_string()
}

/// The identifiers that go with the answer to a task.
#[derive(Debug)]
pub struct TaskIds {
    pub task_id: String,
    pub context_id: String,
    pub artifact_id: String,
}

/// The identifiers that go with the answer to a task, out of three that are at hand: one
/// for the task, one for its answer, and one for the conversation where the task named
/// none.
pub fn ids_of(
    request: &TaskRequest,
    task_id: String,
    context_id: String,
    artifact_id: String,
) -> (r: TaskIds)
    ensures
        r.task_id@ == task_id@,
        r.artifact_id@ == artifact_id@,
        r.context_id@ == match request@.context_id {
            Some(id) => id,
            None => context_id@,
        },
{
    let context_id: String = match &request.context_id {
        Some(id) => id.clone(),
        None => context_id,
    };
    TaskIds { task_id, context_id, artifact_id }
}

/// The identifiers that go with the answer to a task: the conversation that it named, or
/// a new one, and new ones for the task and its answer.
pub fn assign_ids(request: &TaskRequest) -> (r: TaskIds)
    ensures
        random_id(r.task_id@),
        random_id(r.artifact_id@),
        match request@.context_id {
            Some(id) => r.context_id@ == id,
            None => random_id(r.context_id@),
        },
{
    ids_of(request, fresh_id(), fresh_id(), fresh_id())
}

/// What is reported: the answer and the model that gave it, or an error in their place.
pub open spec fn report_of(outcome: Result<(String, String), String>) -> (Seq<char>, Seq<char>) {
    match outcome {
        Ok(answer) => (answer.0@, answer.1@),
        Err(e) => ("ERROR: "@ + e@, "error"@),
    }
}

/// What is reported: the answer and the model that gave it, or an error in their place.
pub fn report(outcome: Result<(String, String), String>) -> (r: (String, String))
    ensures
        (r.0@, r.1@) == report_of(outcome),
{
    match outcome {
        Ok(answer) => answer,
        Err(e) => {
            let mut text: String = "ERROR: ".to_owned();
            text.append(e.as_str());
            (text, "error".to_owned())
        },
    }
}

/// The state that a task is in.
pub open spec fn status_document(state: Seq<char>) -> JsonView {
    JsonView::Object(map!["state"@ => JsonView::Str(state)])
}

fn status_json(state: &str) -> (r: Json)
    ensures
        r@ == status_document(state@),
{
    Members::new().with_text("state", state).object()
}

/// An answer, as an artifact: one text.
pub open spec fn artifact_document(artifact_id: Seq<char>, answer: Seq<char>) -> JsonView {
    JsonView::Object(
        map![
            "artifactId"@ => JsonView::Str(artifact_id),
            "name"@ => JsonView::Str("answer"@),
            "parts"@ => JsonView::Array(
                seq![
                    JsonView::Object(
                        map![
                            "kind"@ => JsonView::Str("text"@),
                            "text"@ => JsonView::Str(answer),
                        ],
                    ),
                ],
            ),
        ],
    )
}

fn one_item(item: Json) -> (r: Json)
    ensures
        r@ == JsonView::Array(seq![item@]),
{
    let mut items: Vec<Json> = Vec::new();
    items.push(item);
    assert(views(items@) =~= seq![item@]);
    array_json(items)
}

fn artifact_json(artifact_id: &str, answer: &str) -> (r: Json)
    ensures
        r@ == artifact_document(artifact_id@, answer@),
{
    let part: Json = Members::new().with_text("kind", "text").with_text("text", answer).object();
    Members::new().with_text("artifactId", artifact_id).with_text("name", "answer").with(
        "parts",
        one_item(part),
    ).object()
}

/// A task that is done, with its answer.
pub open spec fn completed_task(
    task_id: Seq<char>,
    context_id: Seq<char>,
    artifact_id: Seq<char>,
    answer: Seq<char>,
) -> JsonView {
    JsonView::Object(
        map![
            "kind"@ => JsonView::Str("task"@),
            "id"@ => JsonView::Str(task_id),
            "contextId"@ => JsonView::Str(context_id),
            "status"@ => status_document("completed"@),
            "artifacts"@ => JsonView::Array(seq![artifact_document(artifact_id, answer)]),
            "history"@ => JsonView::Array(Seq::empty()),
        ],
    )
}

fn completed_json(ids: &TaskIds, answer: &str) -> (r: Json)
    ensures
        r@ == completed_task(ids.task_id@, ids.context_id@, ids.artifact_id@, answer@),
{
    let history: Vec<Json> = Vec::new();
    assert(views(history@) =~= Seq::empty());
    Members::new().with_text("kind", "task").with_text("id", ids.task_id.as_str()).with_text(
        "contextId",
        ids.context_id.as_str(),
    ).with("status", status_json("completed")).with(
        "artifacts",
        one_item(artifact_json(ids.artifact_id.as_str(), answer)),
    ).with("history", array_json(history)).object()
}

/// The document that answers a task at once.
pub open spec fn answer_document(rpc_id: JsonView, ids: TaskIds, answer: Seq<char>) -> JsonView {
    rpc_response(
        rpc_id,
        "result"@,
        completed_task(ids.task_id@, ids.context_id@, ids.artifact_id@, answer),
    )
}

proof fn lemma_artifact_plain(artifact_id: Seq<char>, answer: Seq<char>, depth: nat)
    requires
        depth >= 3,
    ensures
        plain_within(artifact_document(artifact_id, answer), depth),
{
    reveal_strlit("artifactId");
    lemma_plain_name("artifactId"@);
    reveal_strlit("name");
    lemma_plain_name("name"@);
    reveal_strlit("parts");
    lemma_plain_name("parts"@);
    reveal_strlit("kind");
    lemma_plain_name("kind"@);
    reveal_strlit("text");
    lemma_plain_name("text"@);
    reveal_with_fuel(plain_within, 4);
}

proof fn lemma_completed_plain(
    task_id: Seq<char>,
    context_id: Seq<char>,
    artifact_id: Seq<char>,
    answer: Seq<char>,
    depth: nat,
)
    requires
        depth >= 5,
    ensures
        plain_within(completed_task(task_id, context_id, artifact_id, answer), depth),
{
    lemma_artifact_plain(artifact_id, answer, (depth - 2) as nat);
    reveal_strlit("kind");
    lemma_plain_name("kind"@);
    reveal_strlit("id");
    lemma_plain_name("id"@);
    reveal_strlit("contextId");
    lemma_plain_name("contextId"@);
    reveal_strlit("status");
    lemma_plain_name("status"@);
    reveal_strlit("state");
    lemma_plain_name("state"@);
    reveal_strlit("artifacts");
    lemma_plain_name("artifacts"@);
    reveal_strlit("history");
    lemma_plain_name("history"@);
    reveal_with_fuel(plain_within, 3);
    assert(plain_within(
        JsonView::Array(seq![artifact_document(artifact_id, answer)]),
        (depth - 1) as nat,
    ));
}

/// The reply that answers a task at once.
pub fn answer_reply(rpc_id: &Json, ids: &TaskIds, answer: &str) -> (r: HttpReply)
    ensures
        r@ == document_reply(answer_document(rpc_id@, *ids, answer@)),
        plain_id(rpc_id@) ==> json_parsed(r.body@) == Parsed::Document(
            answer_document(rpc_id@, *ids, answer@),
        ),
{
    proof {
        lemma_completed_plain(
            ids.task_id@,
            ids.context_id@,
            ids.artifact_id@,
            answer@,
            (depth_limit() - 1) as nat,
        );
        reveal_strlit("result");
        lemma_plain_name("result"@);
        if plain_id(rpc_id@) {
            lemma_response_plain(
                rpc_id@,
                "result"@,
                completed_task(ids.task_id@, ids.context_id@, ids.artifact_id@, answer@),
            );
        }
    }
    json_reply(&respond(rpc_id, "result", completed_json(ids, answer)))
}

/// Whoever reads the reply to a task finds the identifier of the request in it, and the
/// answer.
pub proof fn law_reply_holds_the_answer(rpc_id: JsonView, ids: TaskIds, answer: Seq<char>)
    ensures
        answer_document(rpc_id, ids, answer).field("id"@) == Some(rpc_id),
        answer_document(rpc_id, ids, answer).field_or_null("result"@).field_or_null(
            "artifacts"@,
        ).first_or_null().field_or_null("parts"@).first_or_null().str_field("text"@) == Some(answer),
{
    reveal_strlit("id");
    reveal_strlit("result");
    reveal_strlit("status");
    reveal_strlit("history");
    reveal_strlit("artifacts");
    reveal_strlit("contextId");
    assert("id"@.len() == 2 && "result"@.len() == 6);
    assert("artifacts"@[0] == 'a' && "contextId"@[0] == 'c');
}

/// The event that a task was taken on.
pub open spec fn submitted_event(task_id: Seq<char>, context_id: Seq<char>) -> JsonView {
    JsonView::Object(
        map![
            "kind"@ => JsonView::Str("task"@),
            "id"@ => JsonView::Str(task_id),
            "contextId"@ => JsonView::Str(context_id),
            "status"@ => status_document("submitted"@),
        ],
    )
}

/// The event that a task is being worked on.
pub open spec fn working_event(task_id: Seq<char>, context_id: Seq<char>) -> JsonView {
    JsonView::Object(
        map![
            "kind"@ => JsonView::Str("status-update"@),
            "taskId"@ => JsonView::Str(task_id),
            "contextId"@ => JsonView::Str(context_id),
            "status"@ => status_document("working"@),
        ],
    )
}

/// The event that brings the answer.
pub open spec fn artifact_event(
    task_id: Seq<char>,
    context_id: Seq<char>,
    artifact_id: Seq<char>,
    answer: Seq<char>,
) -> JsonView {
    JsonView::Object(
        map![
            "kind"@ => JsonView::Str("artifact-update"@),
            "taskId"@ => JsonView::Str(task_id),
            "contextId"@ => JsonView::Str(context_id),
            "artifact"@ => artifact_document(artifact_id, answer),
            "append"@ => JsonView::Bool(false),
            "lastChunk"@ => JsonView::Bool(true),
        ],
    )
}

/// The event that a task is done.
pub open spec fn completed_event(task_id: Seq<char>, context_id: Seq<char>) -> JsonView {
    JsonView::Object(
        map![
            "kind"@ => JsonView::Str("status-update"@),
            "taskId"@ => JsonView::Str(task_id),
            "contextId"@ => JsonView::Str(context_id),
            "status"@ => status_document("completed"@),
            "final"@ => JsonView::Bool(true),
        ],
    )
}

/// The events of a stream, in order: the task is taken on and worked on, the answer
/// comes, the task is done.
pub open spec fn stream_events(ids: TaskIds, answer: Seq<char>) -> Seq<JsonView> {
    seq![
        submitted_event(ids.task_id@, ids.context_id@),
        working_event(ids.task_id@, ids.context_id@),
        artifact_event(ids.task_id@, ids.context_id@, ids.artifact_id@, answer),
        completed_event(ids.task_id@, ids.context_id@),
    ]
}

/// An event of a stream, in the bytes that are sent.
pub open spec fn event_bytes(doc: JsonView) -> Seq<u8> {
    encode_utf8(sse_frame(json_text(doc)))
}

/// Whether a reader finds one event in what is sent for `doc`, and the text of `doc` in
/// that event.
pub open spec fn reads_as_one_event(doc: JsonView) -> bool {
    events_in(sse_frame(json_text(doc))) == seq![json_text(doc)]
}

/// An event of a stream, in the bytes that are sent. A reader finds the text of the
/// document in it, and from that the document where it is plain.
pub fn sse_event_bytes(doc: &Json) -> (r: Vec<u8>)
    ensures
        r@ == event_bytes(doc@),
        reads_as_one_event(doc@),
        plain_within(doc@, depth_limit()) ==> reads_back(json_text(doc@), doc@),
{
    let text: String = json_to_text(doc);
    proof {
        law_line_is_found_as_it_is(text@);
    }
    bytes_of(sse_event(text.as_str()).as_str())
}

/// The document of the event with number `i`, of the four in a stream.
pub open spec fn stream_document(rpc_id: JsonView, ids: TaskIds, answer: Seq<char>, i: int) -> JsonView {
    rpc_response(rpc_id, "result"@, stream_events(ids, answer)[i])
}

/// Whether `doc` is found in the event that is sent for it: the event is one, its data is
/// the text of `doc`, and that reads back where the identifier is plain.
pub open spec fn event_is_sound(rpc_id: JsonView, doc: JsonView) -> bool {
    &&& reads_as_one_event(doc)
    &&& plain_id(rpc_id) ==> reads_back(json_text(doc), doc)
}

proof fn lemma_stream_document_plain(rpc_id: JsonView, ids: TaskIds, answer: Seq<char>, i: int)
    requires
        0 <= i < 4,
        plain_id(rpc_id),
    ensures
        plain_within(stream_document(rpc_id, ids, answer, i), depth_limit()),
{
    let depth = (depth_limit() - 1) as nat;
    lemma_artifact_plain(ids.artifact_id@, answer, (depth - 1) as nat);
    lemma_event_members_differ();
    reveal_strlit("state");
    reveal_strlit("result");
    lemma_plain_name("state"@);
    lemma_plain_name("result"@);
    lemma_plain_name("id"@);
    lemma_plain_name("kind"@);
    lemma_plain_name("final"@);
    lemma_plain_name("taskId"@);
    lemma_plain_name("status"@);
    lemma_plain_name("append"@);
    lemma_plain_name("artifact"@);
    lemma_plain_name("contextId"@);
    lemma_plain_name("lastChunk"@);
    assert(plain_within(stream_events(ids, answer)[i], depth)) by {
        reveal_with_fuel(plain_within, 3);
    }
    lemma_response_plain(rpc_id, "result"@, stream_events(ids, answer)[i]);
}

/// The bytes of the event with number `i`, of the four in a stream.
pub open spec fn stream_frame(rpc_id: JsonView, ids: TaskIds, answer: Seq<char>, i: int) -> Seq<u8> {
    event_bytes(stream_document(rpc_id, ids, answer, i))
}

/// Every event of a stream is one event to its reader, whatever the answer holds.
pub proof fn law_stream_events_stay_apart(rpc_id: JsonView, ids: TaskIds, answer: Seq<char>, i: int)
    requires
        0 <= i < 4,
    ensures
        stream_frame(rpc_id, ids, answer, i) == encode_utf8(
            sse_frame(json_text(stream_document(rpc_id, ids, answer, i))),
        ),
        events_in(sse_frame(json_text(stream_document(rpc_id, ids, answer, i)))).len() == 1,
{
    law_frame_is_one_event(json_text(stream_document(rpc_id, ids, answer, i)));
}

/// The data of the four events of a stream: the texts of their documents.
pub open spec fn stream_texts(rpc_id: JsonView, ids: TaskIds, answer: Seq<char>) -> Seq<Seq<char>> {
    Seq::new(4, |i: int| json_text(stream_document(rpc_id, ids, answer, i)))
}

/// The four frames of a stream, end to end, read as four events: those of the task, in
/// their order, and nothing else.
pub proof fn law_stream_reads_as_four_events(rpc_id: JsonView, ids: TaskIds, answer: Seq<char>)
    ensures
        stream_frame(rpc_id, ids, answer, 0) + stream_frame(rpc_id, ids, answer, 1) + stream_frame(
            rpc_id,
            ids,
            answer,
            2,
        ) + stream_frame(rpc_id, ids, answer, 3) == encode_utf8(
            frames_text(stream_texts(rpc_id, ids, answer), 4),
        ),
        frames_text(stream_texts(rpc_id, ids, answer), 4) == sse_frame(
            json_text(stream_document(rpc_id, ids, answer, 0)),
        ) + sse_frame(json_text(stream_document(rpc_id, ids, answer, 1))) + sse_frame(
            json_text(stream_document(rpc_id, ids, answer, 2)),
        ) + sse_frame(json_text(stream_document(rpc_id, ids, answer, 3))),
        events_in(frames_text(stream_texts(rpc_id, ids, answer), 4)) == Seq::new(
            4,
            |i: int| plain_breaks(json_text(stream_document(rpc_id, ids, answer, i))),
        ),
{
    let texts = stream_texts(rpc_id, ids, answer);
    let (f0, f1, f2, f3) = (
        sse_frame(texts[0]),
        sse_frame(texts[1]),
        sse_frame(texts[2]),
        sse_frame(texts[3]),
    );
    reveal_with_fuel(frames_text, 5);
    assert(frames_text(texts, 4) =~= f0 + f1 + f2 + f3);
    lemma_encode_utf8_concat(f0 + f1 + f2, f3);
    lemma_encode_utf8_concat(f0 + f1, f2);
    lemma_encode_utf8_concat(f0, f1);
    law_frames_stay_apart(texts);
    assert(events_in(frames_text(texts, 4)) =~= Seq::new(
        4,
        |i: int| plain_breaks(json_text(stream_document(rpc_id, ids, answer, i))),
    ));
}

/// The events that go out before the models are asked: the task is taken on, and worked
/// on. They do not depend on the answer. Each reads as one event, and its document reads
/// back where the identifier of the request is plain.
pub fn opening_events(rpc_id: &Json, ids: &TaskIds) -> (r: (Vec<u8>, Vec<u8>))
    ensures
        forall|answer: Seq<char>|
            r.0@ == #[trigger] stream_frame(rpc_id@, *ids, answer, 0),
        forall|answer: Seq<char>|
            r.1@ == #[trigger] stream_frame(rpc_id@, *ids, answer, 1),
        forall|answer: Seq<char>, i: int|
            0 <= i < 2 ==> event_is_sound(rpc_id@, #[trigger] stream_document(
                rpc_id@,
                *ids,
                answer,
                i,
            )),
{
    proof {
        assert forall|answer: Seq<char>, i: int| 0 <= i < 2 && plain_id(rpc_id@) implies plain_within(
            #[trigger] stream_document(rpc_id@, *ids, answer, i),
            depth_limit(),
        ) by {
            lemma_stream_document_plain(rpc_id@, *ids, answer, i);
        }
    }
    let submitted: Json = Members::new().with_text("kind", "task").with_text(
        "id",
        ids.task_id.as_str(),
    ).with_text("contextId", ids.context_id.as_str()).with(
        "status",
        status_json("submitted"),
    ).object();
    let working: Json = Members::new().with_text("kind", "status-update").with_text(
        "taskId",
        ids.task_id.as_str(),
    ).with_text("contextId", ids.context_id.as_str()).with(
        "status",
        status_json("working"),
    ).object();
    (
        sse_event_bytes(&respond(rpc_id, "result", submitted)),
        sse_event_bytes(&respond(rpc_id, "result", working)),
    )
}

/// The events that go out once there is an answer: the answer, and the end. Each reads as
/// one event, and its document reads back where the identifier of the request is plain.
pub fn closing_events(rpc_id: &Json, ids: &TaskIds, answer: &str) -> (r: (Vec<u8>, Vec<u8>))
    ensures
        r.0@ == stream_frame(rpc_id@, *ids, answer@, 2),
        r.1@ == stream_frame(rpc_id@, *ids, answer@, 3),
        event_is_sound(rpc_id@, stream_document(rpc_id@, *ids, answer@, 2)),
        event_is_sound(rpc_id@, stream_document(rpc_id@, *ids, answer@, 3)),
{
    proof {
        if plain_id(rpc_id@) {
            lemma_stream_document_plain(rpc_id@, *ids, answer@, 2);
            lemma_stream_document_plain(rpc_id@, *ids, answer@, 3);
        }
    }
    let artifact: Json = Members::new().with_text("kind", "artifact-update").with_text(
        "taskId",
        ids.task_id.as_str(),
    ).with_text("contextId", ids.context_id.as_str()).with(
        "artifact",
        artifact_json(ids.artifact_id.as_str(), answer),
    ).with("append", Json::Bool(false)).with("lastChunk", Json::Bool(true)).object();
    let completed: Json = Members::new().with_text("kind", "status-update").with_text(
        "taskId",
        ids.task_id.as_str(),
    ).with_text("contextId", ids.context_id.as_str()).with(
        "status",
        status_json("completed"),
    ).with("final", Json::Bool(true)).object();
    (
        sse_event_bytes(&respond(rpc_id, "result", artifact)),
        sse_event_bytes(&respond(rpc_id, "result", completed)),
    )
}

/// The events of a stream tell of one task in one conversation, the answer comes in the
/// third, and the last one alone says that it is the last.
pub proof fn law_stream_tells_of_one_task(ids: TaskIds, answer: Seq<char>, i: int)
    requires
        0 <= i < 4,
    ensures
        stream_events(ids, answer).len() == 4,
        stream_events(ids, answer)[i].str_field("contextId"@) == Some(ids.context_id@),
        stream_events(ids, answer)[i].str_field(
            if i == 0 {
                "id"@
            } else {
                "taskId"@
            },
        ) == Some(ids.task_id@),
        stream_events(ids, answer)[i].has("final"@) <==> i == 3,
        stream_events(ids, answer)[i].field("artifact"@) == (if i == 2 {
            Some(artifact_document(ids.artifact_id@, answer))
        } else {
            None
        }),
{
    lemma_event_members_differ();
}

proof fn lemma_event_members_differ()
    ensures
        "id"@.len() == 2,
        "kind"@.len() == 4,
        "final"@.len() == 5,
        "taskId"@.len() == 6 && "taskId"@[0] == 't',
        "status"@.len() == 6 && "status"@[0] == 's',
        "append"@.len() == 6 && "append"@[0] == 'a',
        "artifact"@.len() == 8,
        "contextId"@.len() == 9 && "contextId"@[0] == 'c',
        "lastChunk"@.len() == 9 && "lastChunk"@[0] == 'l',
{
    reveal_strlit("id");
    reveal_strlit("kind");
    reveal_strlit("final");
    reveal_strlit("taskId");
    reveal_strlit("status");
    reveal_strlit("append");
    reveal_strlit("artifact");
    reveal_strlit("contextId");
    reveal_strlit("lastChunk");
}

/// The headers of a stream.
pub open spec fn stream_headers() -> Seq<HeaderView> {
    seq![
        ("content-type"@, "text/event-stream"@),
        ("cache-control"@, "no-cache"@),
        ("x-accel-buffering"@, "no"@),
        ("transfer-encoding"@, "chunked"@),
        ("connection"@, "keep-alive"@),
    ]
}

/// The headers of a stream.
pub fn event_stream_headers() -> (r: Headers)
    ensures
        r@ == stream_headers(),
{
    let r: Headers = Headers::new().with("content-type", "text/event-stream").with(
        "cache-control",
        "no-cache",
    ).with("x-accel-buffering", "no").with("transfer-encoding", "chunked").with(
        "connection",
        "keep-alive",
    );
    assert(r@ =~= stream_headers());
    r
}

/// The report that the agent is up.
pub open spec fn health_document() -> JsonView {
    JsonView::Object(
        map![
            "status"@ => JsonView::Str("ready"@),
            "service"@ => JsonView::Str("fwa-agentx"@),
            "version"@ => JsonView::Str("1.0.0"@),
        ],
    )
}

/// The report that the agent is up.
pub fn health() -> (r: HttpReply)
    ensures
        r@ == document_reply(health_document()),
{
    let doc: Json = Members::new().with_text("status", "ready").with_text(
        "service",
        "fwa-agentx",
    ).with_text("version", "1.0.0").object();
    json_reply(&doc)
}

/// The card that tells other agents what this one can do.
pub open spec fn card_document(url: Seq<char>) -> JsonView {
    JsonView::Object(
        map![
            "name"@ => JsonView::Str("fba_purple_agent"@),
            "description"@ => JsonView::Str(
                "Purple agent for FieldWorkArena — vision-language model inference for factory and warehouse safety analysis."@,
            ),
            "url"@ => JsonView::Str(url),
            "version"@ => JsonView::Str("1.0.0"@),
            "defaultInputModes"@ => texts_view(
                seq![
                    "text"@,
                    "text/plain"@,
                    "image/jpeg"@,
                    "image/png"@,
                    "video/mp4"@,
                    "application/pdf"@,
                ],
            ),
            "defaultOutputModes"@ => texts_view(seq!["text"@, "text/plain"@]),
            "capabilities"@ => JsonView::Object(map!["streaming"@ => JsonView::Bool(true)]),
            "skills"@ => JsonView::Array(
                seq![
                    JsonView::Object(
                        map![
                            "id"@ => JsonView::Str("fba_field_work_agent"@),
                            "name"@ => JsonView::Str("fba_purple_agent"@),
                            "description"@ => JsonView::Str(
                                "Vision agent for field work safety analysis."@,
                            ),
                            "tags"@ => texts_view(
                                seq![
                                    "field_work"@,
                                    "vision"@,
                                    "safety"@,
                                    "factory"@,
                                    "warehouse"@,
                                ],
                            ),
                            "examples"@ => texts_view(
                                seq![
                                    "Check PPE compliance status from factory images."@,
                                    "Count safety violations in warehouse video."@,
                                    "Analyze factory incident from camera footage."@,
                                ],
                            ),
                        ],
                    ),
                ],
            ),
        ],
    )
}

/// The card that tells other agents what this one can do.
pub fn agent_card(url: &str) -> (r: HttpReply)
    ensures
        r@ == document_reply(card_document(url@)),
{
    let input_modes = [
        "text",
        "text/plain",
        "image/jpeg",
        "image/png",
        "video/mp4",
        "application/pdf",
    ];
    let output_modes = ["text", "text/plain"];
    let tags = ["field_work", "vision", "safety", "factory", "warehouse"];
    let examples = [
        "Check PPE compliance status from factory images.",
        "Count safety violations in warehouse video.",
        "Analyze factory incident from camera footage.",
    ];
    assert(str_views(input_modes@) =~= seq![
        "text"@,
        "text/plain"@,
        "image/jpeg"@,
        "image/png"@,
        "video/mp4"@,
        "application/pdf"@,
    ]);
    assert(str_views(output_modes@) =~= seq!["text"@, "text/plain"@]);
    assert(str_views(tags@) =~= seq![
        "field_work"@,
        "vision"@,
        "safety"@,
        "factory"@,
        "warehouse"@,
    ]);
    assert(str_views(examples@) =~= seq![
        "Check PPE compliance status from factory images."@,
        "Count safety violations in warehouse video."@,
        "Analyze factory incident from camera footage."@,
    ]);
    let skill: Json = Members::new().with_text("id", "fba_field_work_agent").with_text(
        "name",
        "fba_purple_agent",
    ).with_text("description", "Vision agent for field work safety analysis.").with(
        "tags",
        texts_json(&tags),
    ).with("examples", texts_json(&examples)).object();
    let card: Json = Members::new().with_text("name", "fba_purple_agent").with_text(
        "description",
        "Purple agent for FieldWorkArena — vision-language model inference for factory and warehouse safety analysis.",
    ).with_text("url", url).with_text("version", "1.0.0").with(
        "defaultInputModes",
        texts_json(&input_modes),
    ).with("defaultOutputModes", texts_json(&output_modes)).with(
        "capabilities",
        Members::new().with("streaming", Json::Bool(true)).object(),
    ).with("skills", one_item(skill)).object();
    json_reply(&card)
}

/// A response answers the request with its identifier, and holds its value under its member.
pub proof fn law_responses_carry_the_identifier(
    rpc_id: JsonView,
    member: Seq<char>,
    value: JsonView,
)
    requires
        member != "jsonrpc"@,
        member != "id"@,
    ensures
        rpc_response(rpc_id, member, value).field("id"@) == Some(rpc_id),
        rpc_response(rpc_id, member, value).field("jsonrpc"@) == Some(JsonView::Str("2.0"@)),
        rpc_response(rpc_id, member, value).field(member) == Some(value),
{
    reveal_strlit("id");
    reveal_strlit("jsonrpc");
    assert("id"@.len() == 2 && "jsonrpc"@.len() == 7);
}

/// Each event of a stream carries the identifier of the request, and is the event that is due.
pub proof fn law_events_carry_the_identifier(
    rpc_id: JsonView,
    ids: TaskIds,
    answer: Seq<char>,
    i: int,
)
    requires
        0 <= i < 4,
    ensures
        stream_document(rpc_id, ids, answer, i).field("id"@) == Some(rpc_id),
        stream_document(rpc_id, ids, answer, i).field("jsonrpc"@) == Some(JsonView::Str("2.0"@)),
        stream_document(rpc_id, ids, answer, i).field("result"@) == Some(
            stream_events(ids, answer)[i],
        ),
{
    lemma_result_is_apart();
    law_responses_carry_the_identifier(rpc_id, "result"@, stream_events(ids, answer)[i]);
}

proof fn lemma_result_is_apart()
    ensures
        "result"@ != "id"@ && "result"@ != "jsonrpc"@,
        "error"@ != "id"@ && "error"@ != "jsonrpc"@,
{
    reveal_strlit("id");
    reveal_strlit("jsonrpc");
    reveal_strlit("result");
    reveal_strlit("error");
    assert("id"@.len() == 2 && "jsonrpc"@.len() == 7 && "result"@.len() == 6);
    assert("error"@.len() == 5);
}

/// The events of a stream say in turn that the task is taken on, worked on, answered and
/// done, and the answer is the text of its one artifact.
pub proof fn law_what_the_events_say(ids: TaskIds, answer: Seq<char>)
    ensures
        ({
            let e = stream_events(ids, answer);
            let artifact = e[2].field_or_null("artifact"@);
            &&& e[0].field("kind"@) == Some(JsonView::Str("task"@))
            &&& e[1].field("kind"@) == Some(JsonView::Str("status-update"@))
            &&& e[2].field("kind"@) == Some(JsonView::Str("artifact-update"@))
            &&& e[3].field("kind"@) == Some(JsonView::Str("status-update"@))
            &&& e[0].nested("status"@, "state"@) == Some(JsonView::Str("submitted"@))
            &&& e[1].nested("status"@, "state"@) == Some(JsonView::Str("working"@))
            &&& e[3].nested("status"@, "state"@) == Some(JsonView::Str("completed"@))
            &&& e[3].field("final"@) == Some(JsonView::Bool(true))
            &&& e[2].field("append"@) == Some(JsonView::Bool(false))
            &&& e[2].field("lastChunk"@) == Some(JsonView::Bool(true))
            &&& artifact.field("artifactId"@) == Some(JsonView::Str(ids.artifact_id@))
            &&& artifact.field("name"@) == Some(JsonView::Str("answer"@))
            &&& artifact.array_field("parts"@) is Some
            &&& artifact.array_field("parts"@)->0.len() == 1
            &&& artifact.array_field("parts"@)->0[0].field("kind"@) == Some(
                JsonView::Str("text"@),
            )
            &&& artifact.array_field("parts"@)->0[0].field("text"@) == Some(JsonView::Str(answer))
        }),
{
    lemma_event_members_differ();
    lemma_artifact_members_differ();
}

proof fn lemma_artifact_members_differ()
    ensures
        "artifactId"@.len() == 10,
        "name"@.len() == 4 && "name"@[0] == 'n',
        "parts"@.len() == 5,
        "text"@.len() == 4 && "text"@[0] == 't',
        "kind"@.len() == 4 && "kind"@[0] == 'k',
        "state"@.len() == 5,
{
    reveal_strlit("artifactId");
    reveal_strlit("name");
    reveal_strlit("parts");
    reveal_strlit("text");
    reveal_strlit("kind");
    reveal_strlit("state");
}

/// The reply to a task tells the task and its conversation, says that it is completed, and
/// holds one artifact, whose one part is the answer.
pub proof fn law_what_the_reply_says(rpc_id: JsonView, ids: TaskIds, answer: Seq<char>)
    ensures
        ({
            let task = answer_document(rpc_id, ids, answer).field_or_null("result"@);
            let artifact = task.field_or_null("artifacts"@).first_or_null();
            &&& answer_document(rpc_id, ids, answer).field("id"@) == Some(rpc_id)
            &&& answer_document(rpc_id, ids, answer).field("jsonrpc"@) == Some(
                JsonView::Str("2.0"@),
            )
            &&& task.field("kind"@) == Some(JsonView::Str("task"@))
            &&& task.field("id"@) == Some(JsonView::Str(ids.task_id@))
            &&& task.field("contextId"@) == Some(JsonView::Str(ids.context_id@))
            &&& task.nested("status"@, "state"@) == Some(JsonView::Str("completed"@))
            &&& task.array_field("history"@) is Some && task.array_field("history"@)->0.len() == 0
            &&& task.array_field("artifacts"@) is Some && task.array_field("artifacts"@)->0.len()
                == 1
            &&& artifact.field("artifactId"@) == Some(JsonView::Str(ids.artifact_id@))
            &&& artifact.field("name"@) == Some(JsonView::Str("answer"@))
            &&& artifact.array_field("parts"@) is Some && artifact.array_field("parts"@)->0.len()
                == 1
            &&& artifact.array_field("parts"@)->0[0].field("kind"@) == Some(
                JsonView::Str("text"@),
            )
            &&& artifact.array_field("parts"@)->0[0].field("text"@) == Some(JsonView::Str(answer))
        }),
{
    lemma_event_members_differ();
    lemma_artifact_members_differ();
    lemma_result_is_apart();
    reveal_strlit("artifacts");
    reveal_strlit("history");
    assert("artifacts"@.len() == 9 && "artifacts"@[0] == 'a' && "history"@.len() == 7);
    law_responses_carry_the_identifier(
        rpc_id,
        "result"@,
        completed_task(ids.task_id@, ids.context_id@, ids.artifact_id@, answer),
    );
}

/// A refusal carries the identifier of the request, the code and the message.
pub proof fn law_what_refusals_say(rpc_id: JsonView, code: int, message: Seq<char>)
    ensures
        rpc_error(rpc_id, code, message).field("id"@) == Some(rpc_id),
        rpc_error(rpc_id, code, message).field("jsonrpc"@) == Some(JsonView::Str("2.0"@)),
        rpc_error(rpc_id, code, message).nested("error"@, "code"@) == Some(
            JsonView::Number(NumberView::Integer(code)),
        ),
        rpc_error(rpc_id, code, message).nested("error"@, "message"@) == Some(
            JsonView::Str(message),
        ),
{
    lemma_result_is_apart();
    reveal_strlit("code");
    reveal_strlit("message");
    assert("code"@.len() == 4 && "message"@.len() == 7);
    law_responses_carry_the_identifier(rpc_id, "error"@, error_member(code, message));
}

/// Every document is replied with success, as JSON and in full.
pub proof fn law_documents_are_replied_in_full(doc: JsonView)
    ensures
        document_reply(doc).status == 200,
        document_reply(doc).body == encode_utf8(json_text(doc)),
        document_reply(doc).headers == seq![("content-type"@, "application/json"@)],
        event_bytes(doc) == encode_utf8(sse_frame(json_text(doc))),
{
}

/// An envelope with a message is a task: with the identifier of the request, or null where
/// there is none, with the message as it is, and in the conversation that the message names.
/// It is streamed under one method and under no other.
pub proof fn law_envelopes_are_opened(
    envelope: JsonView,
    params: JsonView,
    message: JsonView,
    id: JsonView,
    context: Seq<char>,
)
    requires
        envelope.field("params"@) == Some(params),
        params.field("message"@) == Some(message),
    ensures
        opened(envelope) is Run,
        opened(envelope)->Run_0.message == message,
        envelope.field("id"@) == Some(id) ==> opened(envelope)->Run_0.rpc_id == id,
        envelope.field("id"@) is None ==> opened(envelope)->Run_0.rpc_id == JsonView::Null,
        opened(envelope)->Run_0.stream <==> envelope.field("method"@) == Some(
            JsonView::Str("message/stream"@),
        ),
        message.field("contextId"@) == Some(JsonView::Str(context)) && context.len() > 0 ==> opened(
            envelope,
        )->Run_0.context_id == Some(context),
        message.field("contextId"@) == Some(JsonView::Str(context)) && context.len() == 0
            ==> opened(envelope)->Run_0.context_id is None,
        message.str_field("contextId"@) is None ==> opened(envelope)->Run_0.context_id is None,
{
}

/// An envelope without a message is refused under its own identifier, and a body that is no
/// JSON under none, with what the reader says of it.
pub proof fn law_broken_requests_are_refused(envelope: JsonView, id: JsonView, body: Seq<u8>)
    ensures
        envelope.nested("params"@, "message"@) is None && envelope.field("id"@) == Some(id)
            ==> opened(envelope) == StepView::Reply(
            document_reply(rpc_error(id, -32602, "Missing params.message"@)),
        ),
        envelope.nested("params"@, "message"@) is None && envelope.field("id"@) is None ==> opened(
            envelope,
        ) == StepView::Reply(
            document_reply(rpc_error(JsonView::Null, -32602, "Missing params.message"@)),
        ),
        json_parsed(body) matches Parsed::Error(e) ==> received(body) == StepView::Reply(
            document_reply(rpc_error(JsonView::Null, -32700, "Parse error: "@ + e)),
        ),
        json_parsed(body) matches Parsed::Document(doc) ==> received(body) == opened(doc),
{
}

/// An answer is reported as it is, with its model; a failure says why there is none.
pub proof fn law_answers_are_reported_as_they_are(text: String, model: String, e: String)
    ensures
        report_of(Ok((text, model))) == (text@, model@),
        report_of(Err(e)) == ("ERROR: "@ + e@, "error"@),
{
}

/// The card tells the address that it was given.
pub proof fn law_the_card_tells_the_address(url: Seq<char>)
    ensures
        card_document(url).field("url"@) == Some(JsonView::Str(url)),
        card_document(url).field("version"@) == Some(JsonView::Str("1.0.0"@)),
        stream_headers() == seq![
            ("content-type"@, "text/event-stream"@),
            ("cache-control"@, "no-cache"@),
            ("x-accel-buffering"@, "no"@),
            ("transfer-encoding"@, "chunked"@),
            ("connection"@, "keep-alive"@),
        ],
{
    reveal_strlit("url");
    reveal_strlit("version");
    reveal_strlit("defaultInputModes");
    reveal_strlit("defaultOutputModes");
    reveal_strlit("capabilities");
    reveal_strlit("skills");
    assert("url"@.len() == 3 && "version"@.len() == 7 && "defaultInputModes"@.len() == 17);
    assert("defaultOutputModes"@.len() == 18 && "capabilities"@.len() == 12);
    assert("skills"@.len() == 6);
}

/// What a request comes to is told as it is.
pub proof fn law_requests_are_told(request: TaskRequest, reply: HttpReply)
    ensures
        TaskStep::Run(request)@ == StepView::Run(request@),
        TaskStep::Reply(reply)@ == StepView::Reply(reply@),
        request@.rpc_id == request.rpc_id@,
        request@.stream == request.stream,
        request@.message == request.message@,
        request@.context_id == opt_chars(request.context_id),
{
}

/// The agent says what it is called, what it takes and gives, that it streams, and what its
/// one skill is; its health is told under its own name.
pub proof fn law_the_card_tells_the_agent(url: Seq<char>)
    ensures
        ({
            let card = card_document(url);
            let skill = card.field_or_null("skills"@).first_or_null();
            &&& card.field("name"@) == Some(JsonView::Str("fba_purple_agent"@))
            &&& card.nested("capabilities"@, "streaming"@) == Some(JsonView::Bool(true))
            &&& card.array_field("defaultInputModes"@) == Some(
                seq![
                    JsonView::Str("text"@),
                    JsonView::Str("text/plain"@),
                    JsonView::Str("image/jpeg"@),
                    JsonView::Str("image/png"@),
                    JsonView::Str("video/mp4"@),
                    JsonView::Str("application/pdf"@),
                ],
            )
            &&& card.array_field("defaultOutputModes"@) == Some(
                seq![JsonView::Str("text"@), JsonView::Str("text/plain"@)],
            )
            &&& card.array_field("skills"@) is Some && card.array_field("skills"@)->0.len() == 1
            &&& skill.field("id"@) == Some(JsonView::Str("fba_field_work_agent"@))
            &&& skill.field("name"@) == Some(JsonView::Str("fba_purple_agent"@))
            &&& health_document().field("status"@) == Some(JsonView::Str("ready"@))
            &&& health_document().field("service"@) == Some(JsonView::Str("fwa-agentx"@))
            &&& health_document().field("version"@) == Some(JsonView::Str("1.0.0"@))
        }),
{
    reveal_strlit("id");
    reveal_strlit("name");
    reveal_strlit("tags");
    reveal_strlit("description");
    reveal_strlit("examples");
    reveal_strlit("url");
    reveal_strlit("version");
    reveal_strlit("defaultInputModes");
    reveal_strlit("defaultOutputModes");
    reveal_strlit("capabilities");
    reveal_strlit("skills");
    reveal_strlit("service");
    reveal_strlit("status");
    assert("id"@.len() == 2 && "name"@.len() == 4 && "name"@[0] == 'n' && "tags"@[0] == 't');
    assert("description"@.len() == 11 && "examples"@.len() == 8 && "url"@.len() == 3);
    assert("version"@.len() == 7 && "defaultInputModes"@.len() == 17 && "tags"@.len() == 4);
    assert("defaultOutputModes"@.len() == 18 && "capabilities"@.len() == 12);
    assert("skills"@.len() == 6 && "status"@.len() == 6);
    assert("version"@[0] == 'v' && "service"@[0] == 's' && "service"@.len() == 7);
    let card = card_document(url);
    assert(card.array_field("defaultInputModes"@)->0 =~= seq![
        JsonView::Str("text"@),
        JsonView::Str("text/plain"@),
        JsonView::Str("image/jpeg"@),
        JsonView::Str("image/png"@),
        JsonView::Str("video/mp4"@),
        JsonView::Str("application/pdf"@),
    ]);
    assert(card.array_field("defaultOutputModes"@)->0 =~= seq![
        JsonView::Str("text"@),
        JsonView::Str("text/plain"@),
    ]);
}

} // verus!
