//! Asking the models: what is sent, when it is sent again, and what an answer is worth.
//!
//! The models are asked in order of preference. Each gets a few attempts, with a pause
//! before each further one; the first answer that is worth having ends the search.
//! `ModelCall::step` decides, for whatever happened, what is to be done next.

use vstd::prelude::*;
use vstd::string::*;
use vstd::utf8::encode_utf8;

use crate::agent::clean::{clean_json_response, cleaned};
use crate::agent::content::{
    build_user_content, image_piece, image_pieces, text_piece, user_content,
};
use crate::agent::hint::{
    effort_of, hint_of, infer_task_hint, prompt_of, reasoning_effort, system_prompt, TaskHint,
};
use crate::agent::media::opt_bytes;
use crate::agent::parts::{FwaParts, NamedBytes, PartsView};
use crate::http::{bytes_of, HeaderView, Headers};
use crate::json::{
    array_json, integer_json, opt_text, views, Json, JsonView, Members, NumberView,
};
use crate::text::{
    chars_of, decimal_text, law_numerals_read_back, numeral_value, opt_chars, parse_number,
    same_text, texts, trim, trimmed, white_space,
};
use crate::wire::{
    depth_limit, json_from_bytes, json_parsed, json_text, json_to_text, lemma_plain_name,
    plain_within, raw_value_name, Parsed,
};

verus! {

/// Where requests to the models go.
pub const OPENAI_DIRECT_ENDPOINT: &'static str = "https://api.openai.com/v1/chat/completions";

/// The models that are asked where none are configured.
pub const DEFAULT_MODEL_PRIORITY: &'static str = "gpt-5.4-2026-03-05,gpt-5.4,gpt-5.5";

/// The most tokens that a model may answer with.
pub const MAX_COMPLETION_TOKENS: i64 = 4096;

/// The fewest tokens that an answer has, where nothing else is configured.
pub const MIN_COMPLETION_TOKENS: u64 = 1;

/// The pause before the second attempt, in milliseconds.
pub const RETRY_BASE_DELAY_MS: u64 = 1000;

/// How often one model is asked.
pub const RETRY_MAX_ATTEMPTS: u32 = 3;

/// The longest pause that a model can ask for, in milliseconds.
pub const RETRY_MAX_DELAY_MS: u64 = 30000;

/// How long a model may take, in seconds.
pub const MODEL_TIMEOUT_SECS: u64 = 180;

/// How many times the base delay the pause behind an attempt is.
pub open spec fn backoff_factor(attempt: nat) -> nat {
    if attempt <= 1 {
        1
    } else if attempt == 2 {
        2
    } else if attempt == 3 {
        4
    } else if attempt == 4 {
        8
    } else {
        16
    }
}

/// The pause behind an attempt, in milliseconds: it doubles from attempt to attempt, up
/// to sixteen times the base delay, and is stretched by up to a fifth so that callers do
/// not come back all at once.
pub open spec fn backoff(attempt: nat) -> nat {
    if attempt <= 1 {
        1000 + attempt * 137 % 201
    } else if attempt == 2 {
        2000 + attempt * 137 % 401
    } else if attempt == 3 {
        4000 + attempt * 137 % 801
    } else if attempt == 4 {
        8000 + attempt * 137 % 1601
    } else {
        16000 + attempt * 137 % 3201
    }
}

/// The pause behind an attempt, in milliseconds.
pub fn backoff_delay(attempt: u32) -> (r: u64)
    ensures
        r == backoff(attempt as nat),
        1000 * backoff_factor(attempt as nat) <= r <= 1200 * backoff_factor(attempt as nat),
{
    let before: u32 = attempt.saturating_sub(1);
    let exp: u32 = if before < 4 {
        before
    } else {
        4
    };
    assert(exp <= 4 ==> (1u64 << exp) == (if exp == 0 {
        1u64
    } else if exp == 1 {
        2u64
    } else if exp == 2 {
        4u64
    } else if exp == 3 {
        8u64
    } else {
        16u64
    })) by (bit_vector);
    let base: u64 = RETRY_BASE_DELAY_MS * (1u64 << exp);
    let jitter: u64 = (attempt as u64 * 137) % (base / 5 + 1);
    assert(base / 5 + 1 == 200 * backoff_factor(attempt as nat) + 1);
    base + jitter
}

/// The content of a chosen answer: what `choices[0]` holds.
pub open spec fn first_choice(doc: JsonView) -> JsonView {
    doc.field_or_null("choices"@).first_or_null()
}

/// The text of an answer, without the white space at its ends; empty where there is
/// none.
pub open spec fn answer_text(doc: JsonView) -> Seq<char> {
    match first_choice(doc).field_or_null("message"@).str_field("content"@) {
        Some(t) => trimmed(t),
        None => trimmed(""@),
    }
}

/// Whether an answer was cut off because it grew too long.
pub open spec fn cut_off(doc: JsonView) -> bool {
    first_choice(doc).str_field("finish_reason"@) == Some("length"@)
}

/// How many tokens an answer has, as far as it says.
pub open spec fn completion_tokens(doc: JsonView) -> u64 {
    match doc.field_or_null("usage"@).field("completion_tokens"@) {
        Some(v) => match v.as_u64() {
            Some(n) => n,
            None => 0,
        },
        None => 0,
    }
}

/// The text of an answer that is worth having: it is not empty, and it is either cut off
/// or not known to be shorter than `min_tokens`.
pub open spec fn judged(doc: JsonView, min_tokens: u64) -> Option<Seq<char>> {
    if answer_text(doc).len() == 0 {
        None
    } else if !cut_off(doc) && 0 < completion_tokens(doc) < min_tokens {
        None
    } else {
        Some(answer_text(doc))
    }
}

fn choice_of(doc: &Json) -> (r: Option<&Json>)
    ensures
        match r {
            Some(c) => first_choice(doc@) == c@,
            None => first_choice(doc@) == JsonView::Null,
        },
{
    match doc.array_field("choices") {
        Some(items) => {
            if items.len() > 0 {
                assert(views(items@)[0] == items@[0]@);
                Some(&items[0])
            } else {
                None
            }
        },
        None => None,
    }
}

/// The text of an answer that is worth having.
pub fn judge_reply(doc: &Json, min_tokens: u64) -> (r: Option<String>)
    ensures
        opt_chars(r) == judged(doc@, min_tokens),
{
    let choice: Option<&Json> = choice_of(doc);
    let content: Option<&str> = match choice {
        Some(c) => match c.get("message") {
            Some(m) => m.str_field("content"),
            None => None,
        },
        None => None,
    };
    let text: &str = trim(
        match content {
            Some(t) => t,
            None => "",
        },
    );
    assert(text@ == answer_text(doc@));
    if text.is_empty() {
        return None;
    }
    let truncated: bool = match choice {
        Some(c) => match c.str_field("finish_reason") {
            Some(reason) => same_text(reason, "length"),
            None => false,
        },
        None => false,
    };
    assert(truncated == cut_off(doc@));
    let tokens: u64 = match doc.nested("usage", "completion_tokens") {
        Some(v) => match v.as_u64() {
            Some(n) => n,
            None => 0,
        },
        None => 0,
    };
    assert(tokens == completion_tokens(doc@));
    if !truncated && tokens > 0 && tokens < min_tokens {
        return None;
    }
    Some(text.to_owned())
}

/// What happened to a request.
#[derive(Debug)]
pub enum ModelEvent {
    /// It could not be sent.
    Failed,
    /// An answer with this status began; `retry_after` is its header of that name.
    Status { code: u16, retry_after: Option<String> },
    /// The answer was read, or could not be.
    Body(Option<Vec<u8>>),
}

/// The content of what happened to a request.
pub enum EventView {
    Failed,
    Status { code: u16, retry_after: Option<Seq<char>> },
    Body(Option<Seq<u8>>),
}

impl View for ModelEvent {
    type V = EventView;

    open spec fn view(&self) -> EventView {
        match *self {
            ModelEvent::Failed => EventView::Failed,
            ModelEvent::Status { code, retry_after } => EventView::Status {
                code,
                retry_after: opt_chars(retry_after),
            },
            ModelEvent::Body(body) => EventView::Body(opt_bytes(body)),
        }
    }
}

/// What is to be done next.
#[derive(Debug)]
pub enum ModelAction {
    /// Send the request to the current model.
    Send,
    /// Pause for so many milliseconds, then send the request to the current model again.
    WaitThenSend(u64),
    /// Read the body of the answer.
    ReadBody,
    /// Done: this is the answer, and the model that gave it.
    Finish { text: String, model: String },
    /// Done: there is no answer, and this is why.
    GiveUp(String),
}

/// The content of what is to be done next.
pub enum ActionView {
    Send,
    WaitThenSend(u64),
    ReadBody,
    Finish { text: Seq<char>, model: Seq<char> },
    GiveUp(Seq<char>),
}

impl View for ModelAction {
    type V = ActionView;

    open spec fn view(&self) -> ActionView {
        match *self {
            ModelAction::Send => ActionView::Send,
            ModelAction::WaitThenSend(ms) => ActionView::WaitThenSend(ms),
            ModelAction::ReadBody => ActionView::ReadBody,
            ModelAction::Finish { text, model } => ActionView::Finish {
                text: text@,
                model: model@,
            },
            ModelAction::GiveUp(why) => ActionView::GiveUp(why@),
        }
    }
}

/// A search for an answer: the models in order of preference, the one that is being
/// asked, and which attempt at it this is, counted from one.
#[derive(Debug)]
pub struct ModelCall {
    pub models: Vec<String>,
    pub min_completion_tokens: u64,
    pub current: usize,
    pub attempt: u32,
}

/// The content of a search.
#[verifier::ext_equal]
pub struct CallView {
    pub models: Seq<Seq<char>>,
    pub min_completion_tokens: u64,
    pub current: nat,
    pub attempt: nat,
}

impl View for ModelCall {
    type V = CallView;

    open spec fn view(&self) -> CallView {
        CallView {
            models: texts(self.models@),
            min_completion_tokens: self.min_completion_tokens,
            current: self.current as nat,
            attempt: self.attempt as nat,
        }
    }
}

/// The message that no model gave an answer.
pub open spec fn all_failed() -> Seq<char> {
    "All models failed (empty, truncated, short, rate-limited, or HTTP error)"@
}

impl CallView {
    /// A search that has not begun.
    pub open spec fn fresh(models: Seq<Seq<char>>, min_completion_tokens: u64) -> CallView {
        CallView { models, min_completion_tokens, current: 0, attempt: 1 }
    }

    /// Whether the current model is one of the list, or just behind its end, and the
    /// attempt is one that a model gets.
    pub open spec fn wf(self) -> bool {
        self.current <= self.models.len() && 1 <= self.attempt <= RETRY_MAX_ATTEMPTS
    }

    /// What a search does as it comes to the model at its current place.
    pub open spec fn opening(self) -> ActionView {
        if self.current < self.models.len() {
            ActionView::Send
        } else {
            ActionView::GiveUp(all_failed())
        }
    }

    /// The search, with the next model.
    pub open spec fn next_model(self) -> CallView {
        CallView { current: self.current + 1, attempt: 1, ..self }
    }

    /// Turns to the next model.
    pub open spec fn give_way(self) -> (CallView, ActionView) {
        (self.next_model(), self.next_model().opening())
    }

    /// Asks the same model once more behind a pause, where it has an attempt left; else
    /// turns to the next one.
    pub open spec fn retry(self, pause: u64) -> (CallView, ActionView) {
        if self.attempt < RETRY_MAX_ATTEMPTS {
            (CallView { attempt: self.attempt + 1, ..self }, ActionView::WaitThenSend(pause))
        } else {
            self.give_way()
        }
    }

    /// What follows on `event`.
    pub open spec fn stepped(self, event: EventView) -> (CallView, ActionView) {
        if self.current >= self.models.len() {
            (self, ActionView::GiveUp(all_failed()))
        } else {
            match event {
                EventView::Failed => self.retry(backoff(self.attempt) as u64),
                EventView::Status { code, retry_after } => if code == 429 {
                    self.retry(rate_limit_pause(retry_after, self.attempt))
                } else if 500 <= code < 600 {
                    self.retry(backoff(self.attempt) as u64)
                } else if 200 <= code < 300 {
                    (self, ActionView::ReadBody)
                } else {
                    self.give_way()
                },
                EventView::Body(body) => match self.answer(body) {
                    Some(text) => (
                        self,
                        ActionView::Finish {
                            text: cleaned(text),
                            model: self.models[self.current as int],
                        },
                    ),
                    None => self.give_way(),
                },
            }
        }
    }

    /// The answer in a body, where it was read, spells a document, and the document holds
    /// an answer that is worth having.
    pub open spec fn answer(self, body: Option<Seq<u8>>) -> Option<Seq<char>> {
        match body {
            Some(bytes) => match json_parsed(bytes) {
                Parsed::Document(doc) => judged(doc, self.min_completion_tokens),
                Parsed::Error(_) => None,
            },
            None => None,
        }
    }
}

/// The pause behind an answer that asks for one: as many seconds as it says, where it
/// says so, but no more than the limit.
pub open spec fn rate_limit_pause(retry_after: Option<Seq<char>>, attempt: nat) -> u64 {
    let asked = match retry_after {
        Some(value) => numeral_value(value, u64::MAX as nat),
        None => None,
    };
    let ms: nat = match asked {
        Some(seconds) => seconds * 1000,
        None => backoff(attempt),
    };
    if ms < RETRY_MAX_DELAY_MS {
        ms as u64
    } else {
        RETRY_MAX_DELAY_MS
    }
}

/// The pause behind an answer that asks for one, in milliseconds.
pub fn rate_limit_delay(retry_after: &Option<String>, attempt: u32) -> (r: u64)
    ensures
        r == rate_limit_pause(opt_chars(*retry_after), attempt as nat),
{
    let asked: Option<u64> = match retry_after {
        Some(value) => parse_number(value.as_str(), u64::MAX),
        None => None,
    };
    let ms: u64 = match asked {
        Some(seconds) => match seconds.checked_mul(1000) {
            Some(ms) => ms,
            None => u64::MAX,
        },
        None => backoff_delay(attempt),
    };
    if ms < RETRY_MAX_DELAY_MS {
        ms
    } else {
        RETRY_MAX_DELAY_MS
    }
}

impl ModelCall {
    /// Begins a search, and says what is to be done first: without a key there is
    /// nothing to be sent.
    pub fn start(api_key: &str, models: Vec<String>, min_completion_tokens: u64) -> (r: (
        ModelCall,
        ModelAction,
    ))
        ensures
            r.0@ == CallView::fresh(texts(models@), min_completion_tokens),
            r.0@.wf(),
            r.1@ == (if api_key@.len() == 0 {
                ActionView::GiveUp("OPENAI_API_KEY not set"@)
            } else {
                r.0@.opening()
            }),
    {
        let call: ModelCall = ModelCall { models, min_completion_tokens, current: 0, attempt: 1 };
        let action: ModelAction = if api_key.is_empty() {
            ModelAction::GiveUp("OPENAI_API_KEY not set".to_owned())
        } else {
            call.open()
        };
        (call, action)
    }

    fn open(&self) -> (r: ModelAction)
        ensures
            r@ == self@.opening(),
    {
        if self.current < self.models.len() {
            ModelAction::Send
        } else {
            ModelAction::GiveUp(
                "All models failed (empty, truncated, short, rate-limited, or HTTP error)".to_owned(),
            )
        }
    }

    /// The model that is being asked; none once all have failed.
    pub fn model(&self) -> (r: Option<&str>)
        ensures
            match r {
                Some(m) => self@.current < self@.models.len() && m@
                    == self@.models[self@.current as int],
                None => self@.current >= self@.models.len(),
            },
    {
        if self.current < self.models.len() {
            Some(self.models[self.current].as_str())
        } else {
            None
        }
    }

    fn turn_to_next(&mut self) -> (r: ModelAction)
        requires
            old(self).current < old(self).models.len(),
        ensures
            (final(self)@, r@) == old(self)@.give_way(),
    {
        self.current = self.current + 1;
        self.attempt = 1;
        self.open()
    }

    fn try_again(&mut self, pause: u64) -> (r: ModelAction)
        requires
            old(self).current < old(self).models.len(),
        ensures
            (final(self)@, r@) == old(self)@.retry(pause),
    {
        if self.attempt < RETRY_MAX_ATTEMPTS {
            self.attempt = self.attempt + 1;
            ModelAction::WaitThenSend(pause)
        } else {
            self.turn_to_next()
        }
    }

    /// Goes on from what happened, and says what is to be done next.
    pub fn step(&mut self, event: ModelEvent) -> (r: ModelAction)
        ensures
            (final(self)@, r@) == old(self)@.stepped(event@),
            old(self)@.wf() ==> final(self)@.wf(),
    {
        if self.current >= self.models.len() {
            return self.open();
        }
        match event {
            ModelEvent::Failed => {
                let pause: u64 = backoff_delay(self.attempt);
                self.try_again(pause)
            },
            ModelEvent::Status { code, retry_after } => {
                if code == 429 {
                    let pause: u64 = rate_limit_delay(&retry_after, self.attempt);
                    self.try_again(pause)
                } else if 500 <= code && code < 600 {
                    let pause: u64 = backoff_delay(self.attempt);
                    self.try_again(pause)
                } else if 200 <= code && code < 300 {
                    ModelAction::ReadBody
                } else {
                    self.turn_to_next()
                }
            },
            ModelEvent::Body(body) => {
                let answer: Option<String> = match &body {
                    Some(bytes) => match json_from_bytes(bytes.as_slice()) {
                        Ok(doc) => judge_reply(&doc, self.min_completion_tokens),
                        Err(_) => None,
                    },
                    None => None,
                };
                assert(opt_chars(answer) == self@.answer(opt_bytes(body)));
                match answer {
                    Some(text) => ModelAction::Finish {
                        text: clean_json_response(text.as_str()),
                        model: self.models[self.current].clone(),
                    },
                    None => self.turn_to_next(),
                }
            },
        }
    }
}

/// One message of a chat.
pub open spec fn chat_message(role: Seq<char>, content: JsonView) -> JsonView {
    JsonView::Object(map!["role"@ => JsonView::Str(role), "content"@ => content])
}

/// The request to a model: what it is told, and what it is shown.
pub open spec fn request_document(model: Seq<char>, hint: TaskHint, content: JsonView) -> JsonView {
    JsonView::Object(
        map![
            "model"@ => JsonView::Str(model),
            "messages"@ => JsonView::Array(
                seq![
                    chat_message("system"@, JsonView::Str(prompt_of(hint))),
                    chat_message("user"@, content),
                ],
            ),
            "max_completion_tokens"@ => JsonView::Number(
                NumberView::Integer(MAX_COMPLETION_TOKENS as int),
            ),
            "reasoning_effort"@ => JsonView::Str(effort_of(hint)),
        ],
    )
}

/// The request to a model: what it is told for this kind of answer, and what it is shown.
pub fn model_request(model: &str, hint: TaskHint, content: &Json) -> (r: Json)
    ensures
        r@ == request_document(model@, hint, content@),
{
    let system: Json = Members::new().with_text("role", "system").with_text(
        "content",
        system_prompt(hint).as_str(),
    ).object();
    let user: Json = Members::new().with_text("role", "user").with(
        "content",
        content.duplicate(),
    ).object();
    let mut messages: Vec<Json> = Vec::new();
    messages.push(system);
    messages.push(user);
    assert(views(messages@) =~= seq![
        chat_message("system"@, JsonView::Str(prompt_of(hint))),
        chat_message("user"@, content@),
    ]);
    Members::new().with_text("model", model).with("messages", array_json(messages)).with(
        "max_completion_tokens",
        integer_json(MAX_COMPLETION_TOKENS),
    ).with_text("reasoning_effort", reasoning_effort(hint)).object()
}

/// The headers of a request to a model.
pub open spec fn request_headers(api_key: Seq<char>) -> Seq<HeaderView> {
    seq![
        ("Authorization"@, "Bearer "@ + api_key),
        ("Content-Type"@, "application/json"@),
    ]
}

/// The headers of a request to a model.
pub fn model_headers(api_key: &str) -> (r: Headers)
    ensures
        r@ == request_headers(api_key@),
{
    let mut token: String = "Bearer ".to_owned();
    token.append(api_key);
    let r: Headers = Headers::new().with("Authorization", token.as_str()).with(
        "Content-Type",
        "application/json",
    );
    assert(r@ =~= request_headers(api_key@));
    r
}

proof fn lemma_piece_names_are_plain()
    ensures
        "type"@ != raw_value_name(),
        "text"@ != raw_value_name(),
        "image_url"@ != raw_value_name(),
        "url"@ != raw_value_name(),
        "detail"@ != raw_value_name(),
{
    reveal_strlit("type");
    lemma_plain_name("type"@);
    reveal_strlit("text");
    lemma_plain_name("text"@);
    reveal_strlit("image_url");
    lemma_plain_name("image_url"@);
    reveal_strlit("url");
    lemma_plain_name("url"@);
    reveal_strlit("detail");
    lemma_plain_name("detail"@);
}

proof fn lemma_request_names_are_plain()
    ensures
        "role"@ != raw_value_name(),
        "content"@ != raw_value_name(),
        "model"@ != raw_value_name(),
        "messages"@ != raw_value_name(),
        "max_completion_tokens"@ != raw_value_name(),
        "reasoning_effort"@ != raw_value_name(),
{
    reveal_strlit("role");
    lemma_plain_name("role"@);
    reveal_strlit("content");
    lemma_plain_name("content"@);
    reveal_strlit("model");
    lemma_plain_name("model"@);
    reveal_strlit("messages");
    lemma_plain_name("messages"@);
    reveal_strlit("max_completion_tokens");
    lemma_plain_name("max_completion_tokens"@);
    reveal_strlit("reasoning_effort");
    lemma_plain_name("reasoning_effort"@);
}

proof fn lemma_image_pieces_plain(
    list: Seq<NamedBytes>,
    caption: Seq<char>,
    detail: Seq<char>,
    n: nat,
    depth: nat,
)
    requires
        depth >= 2,
    ensures
        forall|i: int|
            0 <= i < image_pieces(list, caption, detail, n).len() ==> plain_within(
                #[trigger] image_pieces(list, caption, detail, n)[i],
                depth,
            ),
    decreases n,
{
    lemma_piece_names_are_plain();
    reveal_with_fuel(plain_within, 3);
    if 0 < n <= list.len() {
        let before = image_pieces(list, caption, detail, (n - 1) as nat);
        lemma_image_pieces_plain(list, caption, detail, (n - 1) as nat, depth);
        let text = text_piece(caption + list[n - 1].0);
        let image = image_piece(list[n - 1].1, detail);
        assert(plain_within(text, depth));
        assert(plain_within(image, depth));
        let all = image_pieces(list, caption, detail, n);
        assert forall|i: int| 0 <= i < all.len() implies plain_within(#[trigger] all[i], depth) by {
            if i < before.len() {
                assert(all[i] == before[i]);
            } else if i == before.len() {
                assert(all[i] == text);
            } else {
                assert(all[i] == image);
            }
        }
    }
}

/// What a model reads is what was put together for it: a request with the content of a
/// message can be read back from its text, whatever the message holds.
pub proof fn law_request_is_plain(model: Seq<char>, hint: TaskHint, parts: PartsView)
    ensures
        plain_within(
            request_document(model, hint, JsonView::Array(user_content(parts))),
            depth_limit(),
        ),
{
    let pieces = user_content(parts);
    let d: nat = (depth_limit() - 4) as nat;
    assert forall|i: int| 0 <= i < pieces.len() implies plain_within(#[trigger] pieces[i], d) by {
        lemma_pieces_plain(parts, d, i);
    }
    lemma_request_names_are_plain();
    reveal_with_fuel(plain_within, 5);
    let content = JsonView::Array(pieces);
    assert(plain_within(content, d + 1));
    let user = chat_message("user"@, content);
    let system = chat_message("system"@, JsonView::Str(prompt_of(hint)));
    assert(plain_within(user, d + 2));
    assert(plain_within(system, d + 2));
    assert(plain_within(JsonView::Array(seq![system, user]), d + 3));
}

/// What is asked of the models: the kind of answer that is wanted, and what they are
/// shown.
#[derive(Debug)]
pub struct Inquiry {
    pub hint: TaskHint,
    pub content: Json,
}

/// Puts together what is asked of the models: the question decides which kind of answer
/// is wanted, and everything in `parts` is shown.
pub fn inquire(parts: &FwaParts) -> (r: Inquiry)
    ensures
        r.hint == hint_of(parts@.question),
        r.content@ == JsonView::Array(user_content(parts@)),
{
    Inquiry {
        hint: infer_task_hint(parts.question.as_str()),
        content: build_user_content(parts),
    }
}

impl Inquiry {
    /// The body of the request to one model. What `inquire` put together can be read back
    /// from it.
    pub fn request_body(&self, model: &str) -> (r: Vec<u8>)
        ensures
            r@ == encode_utf8(json_text(request_document(model@, self.hint, self.content@))),
            (exists|parts: PartsView| self.content@ == JsonView::Array(user_content(parts)))
                ==> json_parsed(r@) == Parsed::Document(
                request_document(model@, self.hint, self.content@),
            ),
    {
        proof {
            if exists|parts: PartsView| self.content@ == JsonView::Array(user_content(parts)) {
                let parts = choose|parts: PartsView|
                    self.content@ == JsonView::Array(user_content(parts));
                law_request_is_plain(model@, self.hint, parts);
            }
        }
        let request: Json = model_request(model, self.hint, &self.content);
        bytes_of(json_to_text(&request).as_str())
    }
}

proof fn lemma_pieces_plain(parts: PartsView, depth: nat, i: int)
    requires
        depth >= 2,
        0 <= i < user_content(parts).len(),
    ensures
        plain_within(user_content(parts)[i], depth),
{
    lemma_piece_names_are_plain();
    reveal_with_fuel(plain_within, 2);
    lemma_image_pieces_plain(parts.images, "Image: "@, "high"@, parts.images.len(), depth);
    lemma_image_pieces_plain(
        parts.video_frames,
        "Frame: "@,
        "low"@,
        parts.video_frames.len(),
        depth,
    );
}

/// The pieces of a text between its commas.
pub open spec fn between_commas(s: Seq<char>) -> Seq<Seq<char>>
    decreases s.len(),
{
    if s.len() == 0 {
        seq![Seq::empty()]
    } else {
        let before = between_commas(s.drop_last());
        if s.last() == ',' {
            before.push(Seq::empty())
        } else {
            before.drop_last().push(before.last().push(s.last()))
        }
    }
}

/// The first `n` pieces, without the white space at their ends and without those that
/// are empty then.
pub open spec fn named_pieces(pieces: Seq<Seq<char>>, n: nat) -> Seq<Seq<char>>
    decreases n,
{
    if n == 0 || n > pieces.len() {
        Seq::empty()
    } else {
        let before = named_pieces(pieces, (n - 1) as nat);
        let piece = trimmed(pieces[n - 1]);
        if piece.len() == 0 {
            before
        } else {
            before.push(piece)
        }
    }
}

/// The names in a list that is separated by commas.
pub open spec fn listed_names(s: Seq<char>) -> Seq<Seq<char>> {
    named_pieces(between_commas(s), between_commas(s).len())
}

/// The models to ask, in order: those that are configured, or the default ones where
/// none are.
pub open spec fn priority(configured: Option<Seq<char>>) -> Seq<Seq<char>> {
    let names = match configured {
        Some(s) => listed_names(s),
        None => Seq::empty(),
    };
    if names.len() == 0 {
        listed_names(DEFAULT_MODEL_PRIORITY@)
    } else {
        names
    }
}

fn split_commas(s: &str) -> (r: Vec<String>)
    ensures
        texts(r@) == between_commas(s@),
{
    let chars: Vec<char> = chars_of(s);
    let mut done: Vec<String> = Vec::new();
    let mut from: usize = 0;
    assert(s@.take(0) =~= Seq::empty());
    assert(texts(done@).push(s@.subrange(0, 0)) =~= between_commas(s@.take(0)));
    for i in 0..chars.len()
        invariant
            chars@ == s@,
            from <= i,
            texts(done@).push(s@.subrange(from as int, i as int)) == between_commas(
                s@.take(i as int),
            ),
    {
        let ghost before = texts(done@).push(s@.subrange(from as int, i as int));
        assert(s@.take(i + 1).drop_last() =~= s@.take(i as int));
        if chars[i] == ',' {
            let piece: &str = s.substring_char(from, i);
            done.push(piece.to_owned());
            assert(texts(done@) =~= before);
            from = i + 1;
            assert(s@.subrange(from as int, i + 1) =~= Seq::empty());
        } else {
            assert(before.drop_last() =~= texts(done@));
            assert(s@.subrange(from as int, i + 1) =~= before.last().push(s@[i as int]));
        }
    }
    assert(s@.take(s@.len() as int) =~= s@);
    let ghost before = texts(done@);
    let last: &str = s.substring_char(from, chars.len());
    done.push(last.to_owned());
    assert(texts(done@) =~= before.push(last@));
    done
}

/// The names in a list that is separated by commas.
pub fn list_names(s: &str) -> (r: Vec<String>)
    ensures
        texts(r@) == listed_names(s@),
{
    let pieces: Vec<String> = split_commas(s);
    let mut names: Vec<String> = Vec::new();
    assert(texts(names@) =~= Seq::empty());
    for i in 0..pieces.len()
        invariant
            texts(pieces@) == between_commas(s@),
            texts(names@) == named_pieces(between_commas(s@), i as nat),
    {
        let piece: &str = trim(pieces[i].as_str());
        assert(piece@ == trimmed(texts(pieces@)[i as int]));
        if !piece.is_empty() {
            let ghost before = texts(names@);
            names.push(piece.to_owned());
            assert(texts(names@) =~= before.push(piece@));
        }
    }
    names
}

/// The models to ask, in order: those that are configured, or the default ones where
/// none are.
pub fn parse_model_priority(configured: Option<&str>) -> (r: Vec<String>)
    ensures
        texts(r@) == priority(opt_text(configured)),
{
    let names: Vec<String> = match configured {
        Some(s) => list_names(s),
        None => Vec::new(),
    };
    assert(configured is None ==> texts(names@) =~= Seq::empty());
    if names.len() == 0 {
        list_names(DEFAULT_MODEL_PRIORITY)
    } else {
        names
    }
}

proof fn lemma_trimmed_keeps_ink(s: Seq<char>, i: int)
    requires
        0 <= i < s.len(),
        !white_space(s[i]),
    ensures
        trimmed(s).len() > 0,
    decreases s.len(),
{
    if white_space(s[0]) {
        assert(s.drop_first()[i - 1] == s[i]);
        lemma_trimmed_keeps_ink(s.drop_first(), i - 1);
    } else if white_space(s.last()) {
        assert(s.drop_last()[i] == s[i]);
        lemma_trimmed_keeps_ink(s.drop_last(), i);
    }
}

/// Whether some piece is more than white space.
spec fn some_ink(pieces: Seq<Seq<char>>) -> bool {
    exists|k: int, i: int|
        0 <= k < pieces.len() && 0 <= i < pieces[k].len() && !white_space(
            #[trigger] pieces[k][i],
        )
}

proof fn lemma_pieces_keep_ink(s: Seq<char>, at: int)
    requires
        0 <= at < s.len(),
        s[at] != ',',
        !white_space(s[at]),
    ensures
        some_ink(between_commas(s)),
    decreases s.len(),
{
    let before = between_commas(s.drop_last());
    let pieces = between_commas(s);
    lemma_some_piece(s.drop_last());
    if at == s.len() - 1 {
        let k = pieces.len() - 1;
        let i = pieces[k].len() - 1;
        assert(pieces[k][i] == s.last());
    } else {
        assert(s.drop_last()[at] == s[at]);
        lemma_pieces_keep_ink(s.drop_last(), at);
        let (k, i) = choose|k: int, i: int|
            0 <= k < before.len() && 0 <= i < before[k].len() && !white_space(
                #[trigger] before[k][i],
            );
        assert(pieces[k][i] == before[k][i]);
    }
}

proof fn lemma_some_piece(s: Seq<char>)
    ensures
        between_commas(s).len() > 0,
    decreases s.len(),
{
    if s.len() > 0 {
        lemma_some_piece(s.drop_last());
    }
}

proof fn lemma_named_pieces_grow(pieces: Seq<Seq<char>>, k: nat, n: nat)
    requires
        k < n <= pieces.len(),
        trimmed(pieces[k as int]).len() > 0,
    ensures
        named_pieces(pieces, n).len() > 0,
    decreases n,
{
    if k < n - 1 {
        lemma_named_pieces_grow(pieces, k, (n - 1) as nat);
    }
}

/// There is always a model to ask, whatever is configured.
pub proof fn law_priority_never_empty(configured: Option<Seq<char>>)
    ensures
        priority(configured).len() > 0,
{
    let s = DEFAULT_MODEL_PRIORITY@;
    reveal_strlit("gpt-5.4-2026-03-05,gpt-5.4,gpt-5.5");
    assert(s[0] == 'g');
    lemma_pieces_keep_ink(s, 0);
    let pieces = between_commas(s);
    let (k, i) = choose|k: int, i: int|
        0 <= k < pieces.len() && 0 <= i < pieces[k].len() && !white_space(
            #[trigger] pieces[k][i],
        );
    lemma_trimmed_keeps_ink(pieces[k], i);
    lemma_named_pieces_grow(pieces, k as nat, pieces.len());
}

impl CallView {
    /// The search behind a run of events.
    pub open spec fn after(self, events: Seq<EventView>) -> CallView
        decreases events.len(),
    {
        if events.len() == 0 {
            self
        } else {
            self.after(events.drop_last()).stepped(events.last()).0
        }
    }

    /// How many requests the search calls for as it answers a run of events.
    pub open spec fn sends(self, events: Seq<EventView>) -> nat
        decreases events.len(),
    {
        if events.len() == 0 {
            0
        } else {
            let action = self.after(events.drop_last()).stepped(events.last()).1;
            self.sends(events.drop_last()) + if action is Send || action is WaitThenSend {
                1nat
            } else {
                0nat
            }
        }
    }

    /// How many more requests the search can call for.
    pub open spec fn remaining(self) -> int {
        if self.current < self.models.len() {
            (self.models.len() - self.current) * 3 - self.attempt
        } else {
            0
        }
    }
}

/// A step keeps the list of models, never goes back in it and never skips one; where it
/// calls for a request, fewer requests are left.
pub proof fn law_step_makes_headway(call: CallView, event: EventView)
    requires
        call.wf(),
    ensures
        call.stepped(event).0.wf(),
        call.stepped(event).0.models == call.models,
        call.current <= call.stepped(event).0.current <= call.current + 1,
        0 <= call.stepped(event).0.remaining() <= call.remaining(),
        call.stepped(event).1 is Send || call.stepped(event).1 is WaitThenSend
            ==> call.stepped(event).0.remaining() < call.remaining(),
{
}

/// No pause is longer than the limit.
pub proof fn law_pauses_are_bounded(call: CallView, event: EventView)
    requires
        call.wf(),
    ensures
        call.stepped(event).1 matches ActionView::WaitThenSend(ms) ==> ms <= RETRY_MAX_DELAY_MS,
{
}

/// An answer is reported under the name of the model that was asked, and is what that
/// model said, cleaned.
pub proof fn law_answer_names_its_model(call: CallView, event: EventView)
    ensures
        call.stepped(event).1 matches ActionView::Finish { text, model } ==> {
            &&& call.current < call.models.len()
            &&& model == call.models[call.current as int]
            &&& event matches EventView::Body(body) && call.answer(body) is Some && text == cleaned(
                call.answer(body)->0,
            )
        },
{
}

/// The search is given up only once every model has failed.
pub proof fn law_gives_up_last(call: CallView, event: EventView)
    requires
        call.wf(),
    ensures
        call.stepped(event).1 is GiveUp <==> call.stepped(event).0.current >= call.models.len(),
{
}

/// However things go, a search sends three requests for each model at most, the first
/// one included.
pub proof fn law_requests_are_bounded(
    models: Seq<Seq<char>>,
    min_completion_tokens: u64,
    events: Seq<EventView>,
)
    requires
        models.len() > 0,
    ensures
        1 + CallView::fresh(models, min_completion_tokens).sends(events) <= 3 * models.len(),
{
    lemma_sends_within_remaining(CallView::fresh(models, min_completion_tokens), events);
}

proof fn lemma_sends_within_remaining(call: CallView, events: Seq<EventView>)
    requires
        call.wf(),
    ensures
        call.after(events).wf(),
        0 <= call.after(events).remaining(),
        call.sends(events) + call.after(events).remaining() <= call.remaining(),
    decreases events.len(),
{
    if events.len() > 0 {
        lemma_sends_within_remaining(call, events.drop_last());
        law_step_makes_headway(call.after(events.drop_last()), events.last());
    }
}

/// The base delay doubles behind each attempt, four times at most, and the stretch is taken
/// from the number of the attempt.
pub proof fn law_pauses_double(attempt: nat)
    ensures
        attempt <= 1 ==> backoff(attempt) == 1000 + (attempt * 137) % 201,
        attempt == 2 ==> backoff(attempt) == 2274,
        attempt == 3 ==> backoff(attempt) == 4411,
        attempt == 4 ==> backoff(attempt) == 8548,
        attempt >= 5 ==> backoff(attempt) == 16000 + (attempt * 137) % 3201,
        1 <= attempt <= 4 ==> backoff(attempt) >= 1000 && 1000 * backoff_factor(attempt + 1) == 2000
            * backoff_factor(attempt),
        1000 * backoff_factor(attempt) <= backoff(attempt) <= 1200 * backoff_factor(attempt),
        2 <= attempt <= 4 ==> backoff(attempt) == 1000 * backoff_factor(attempt) + (attempt * 137) % (
        200 * backoff_factor(attempt) + 1),
        backoff_factor(1) == 1,
        attempt >= 5 ==> backoff_factor(attempt) == 16,
{
    let f = backoff_factor(attempt);
    if attempt == 2 {
        assert(200 * f + 1 == 401);
    } else if attempt == 3 {
        assert(200 * f + 1 == 801);
    } else if attempt == 4 {
        assert(200 * f + 1 == 1601);
    }
}

/// What a reply says is found where the service puts it: the text and the reason in the
/// first choice, the count under the usage.
pub proof fn law_replies_are_read(
    doc: JsonView,
    choices: Seq<JsonView>,
    text: Seq<char>,
    reason: Seq<char>,
    tokens: int,
)
    requires
        doc.field("choices"@) == Some(JsonView::Array(choices)),
        choices.len() > 0,
    ensures
        choices[0].nested("message"@, "content"@) == Some(JsonView::Str(text)) ==> answer_text(doc)
            == trimmed(text),
        !(choices[0].nested("message"@, "content"@) matches Some(JsonView::Str(_)))
            ==> answer_text(doc).len() == 0,
        choices[0].field("finish_reason"@) == Some(JsonView::Str(reason)) ==> (cut_off(doc)
            <==> reason == "length"@),
        !(choices[0].field("finish_reason"@) matches Some(JsonView::Str(_))) ==> !cut_off(doc),
        doc.nested("usage"@, "completion_tokens"@) == Some(
            JsonView::Number(NumberView::Integer(tokens)),
        ) && 0 <= tokens <= u64::MAX ==> completion_tokens(doc) == tokens,
        doc.nested("usage"@, "completion_tokens"@) is None ==> completion_tokens(doc) == 0,
{
    reveal_strlit("");
    assert(trimmed(""@).len() == 0);
}

/// A reply without a choice holds no answer.
pub proof fn law_no_choice_no_answer(doc: JsonView, min_tokens: u64)
    requires
        !(doc.field("choices"@) matches Some(JsonView::Array(c)) && c.len() > 0),
    ensures
        judged(doc, min_tokens) is None,
{
    reveal_strlit("");
    assert(trimmed(""@).len() == 0);
}

/// An answer that was cut off is kept, however long it is and whatever the minimum.
pub proof fn law_cut_off_answers_are_kept(
    doc: JsonView,
    choice: JsonView,
    text: Seq<char>,
    min_tokens: u64,
)
    requires
        doc.field("choices"@) matches Some(JsonView::Array(c)) && c.len() > 0 && c[0] == choice,
        choice.nested("message"@, "content"@) == Some(JsonView::Str(text)),
        choice.field("finish_reason"@) == Some(JsonView::Str("length"@)),
        trimmed(text).len() > 0,
    ensures
        judged(doc, min_tokens) == Some(trimmed(text)),
{
}

/// An answer is refused only where it has no text, or where it was not cut off and says that
/// it has fewer tokens than the minimum; any other is kept as it is, but for the white space
/// at its ends.
pub proof fn law_only_short_answers_are_refused(
    doc: JsonView,
    choice: JsonView,
    text: Seq<char>,
    min_tokens: u64,
)
    requires
        doc.field("choices"@) matches Some(JsonView::Array(c)) && c.len() > 0 && c[0] == choice,
        choice.nested("message"@, "content"@) == Some(JsonView::Str(text)),
    ensures
        judged(doc, min_tokens) is None <==> trimmed(text).len() == 0 || (choice.field(
            "finish_reason"@,
        ) != Some(JsonView::Str("length"@)) && (doc.nested("usage"@, "completion_tokens"@) matches Some(
            v,
        ) && (v.as_u64() matches Some(n) && 0 < n < min_tokens))),
        judged(doc, min_tokens) is Some ==> judged(doc, min_tokens) == Some(trimmed(text)),
{
}

/// A smaller minimum never refuses an answer that a larger one keeps.
pub proof fn law_lower_minimum_keeps_more(doc: JsonView, low: u64, high: u64)
    requires
        low <= high,
    ensures
        judged(doc, high) is Some ==> judged(doc, low) == judged(doc, high),
        judged(doc, 0) is Some <==> answer_text(doc).len() > 0,
{
}

/// What follows on each status: too many requests and errors of the service are tried again
/// while the model has an attempt left, success is read, and anything else turns to the
/// next model at once.
pub proof fn law_what_follows_on_a_status(
    call: CallView,
    code: u16,
    retry_after: Option<Seq<char>>,
)
    requires
        call.current < call.models.len(),
    ensures
        ({
            let (next, action) = call.stepped(EventView::Status { code, retry_after });
            let again = code == 429 || 500 <= code <= 599;
            let opening = if call.current + 1 < call.models.len() {
                ActionView::Send
            } else {
                ActionView::GiveUp(all_failed())
            };
            &&& 200 <= code <= 299 ==> next == call && action == ActionView::ReadBody
            &&& again && call.attempt < 3 ==> action is WaitThenSend && next == (CallView {
                attempt: call.attempt + 1,
                ..call
            })
            &&& 500 <= code <= 599 && call.attempt < 3 ==> action == ActionView::WaitThenSend(
                backoff(call.attempt) as u64,
            )
            &&& code == 429 && call.attempt < 3 ==> action == ActionView::WaitThenSend(
                rate_limit_pause(retry_after, call.attempt),
            )
            &&& !(200 <= code <= 299) && !(again && call.attempt < 3) ==> action == opening && next
                == (CallView { current: call.current + 1, attempt: 1, ..call })
        }),
{
}

/// What follows on a request that could not be sent, and on an answer that was read.
pub proof fn law_what_follows_on_an_answer(call: CallView, doc: JsonView, body: Seq<u8>)
    requires
        call.current < call.models.len(),
    ensures
        ({
            let opening = if call.current + 1 < call.models.len() {
                ActionView::Send
            } else {
                ActionView::GiveUp(all_failed())
            };
            let turned = (CallView { current: call.current + 1, attempt: 1, ..call }, opening);
            &&& call.attempt < 3 ==> call.stepped(EventView::Failed) == (
                CallView { attempt: call.attempt + 1, ..call },
                ActionView::WaitThenSend(backoff(call.attempt) as u64),
            )
            &&& call.attempt >= 3 ==> call.stepped(EventView::Failed) == turned
            &&& call.stepped(EventView::Body(None)) == turned
            &&& json_parsed(body) is Error ==> call.stepped(EventView::Body(Some(body))) == turned
            &&& json_parsed(body) == Parsed::Document(doc) && judged(
                doc,
                call.min_completion_tokens,
            ) is None ==> call.stepped(EventView::Body(Some(body))) == turned
            &&& json_parsed(body) == Parsed::Document(doc) ==> (judged(
                doc,
                call.min_completion_tokens,
            ) matches Some(text) ==> call.stepped(EventView::Body(Some(body))) == (
                call,
                ActionView::Finish {
                    text: cleaned(text),
                    model: call.models[call.current as int],
                },
            ))
        }),
{
}

/// A search that has no model left stays given up.
pub proof fn law_given_up_stays_given_up(call: CallView, event: EventView)
    requires
        call.current >= call.models.len(),
    ensures
        call.stepped(event) == (call, ActionView::GiveUp(all_failed())),
        call.opening() == ActionView::GiveUp(all_failed()),
        all_failed() == "All models failed (empty, truncated, short, rate-limited, or HTTP error)"@,
{
}

/// A search begins with the first model, at its first attempt, and keeps what it was given.
pub proof fn law_searches_begin_at_the_first_model(models: Seq<Seq<char>>, min_tokens: u64)
    ensures
        CallView::fresh(models, min_tokens).models == models,
        CallView::fresh(models, min_tokens).min_completion_tokens == min_tokens,
        CallView::fresh(models, min_tokens).current == 0,
        CallView::fresh(models, min_tokens).attempt == 1,
        models.len() > 0 ==> CallView::fresh(models, min_tokens).opening() == ActionView::Send,
{
}

/// A pause that is asked for in seconds is kept, up to thirty; one that is not asked for in
/// a number is the usual one.
pub proof fn law_asked_pauses_are_kept(seconds: nat, attempt: nat, words: Seq<char>)
    requires
        seconds <= u64::MAX,
    ensures
        seconds <= 30 ==> rate_limit_pause(Some(decimal_text(seconds)), attempt) == 1000 * seconds,
        seconds >= 30 ==> rate_limit_pause(Some(decimal_text(seconds)), attempt) == 30000,
        rate_limit_pause(None, attempt) == backoff(attempt),
        numeral_value(words, u64::MAX as nat) is None ==> rate_limit_pause(Some(words), attempt)
            == backoff(attempt),
{
    law_numerals_read_back(seconds, u64::MAX as nat);
}

proof fn lemma_request_members_differ()
    ensures
        "model"@.len() == 5,
        "messages"@.len() == 8,
        "max_completion_tokens"@.len() == 21,
        "reasoning_effort"@.len() == 16,
        "role"@.len() == 4,
        "content"@.len() == 7,
{
    reveal_strlit("model");
    reveal_strlit("messages");
    reveal_strlit("max_completion_tokens");
    reveal_strlit("reasoning_effort");
    reveal_strlit("role");
    reveal_strlit("content");
}

/// A request names the model that it is for, tells it the instructions for the kind of
/// answer that is wanted, and shows it the content, as it is.
pub proof fn law_requests_tell_and_show(model: Seq<char>, hint: TaskHint, content: JsonView)
    ensures
        ({
            let request = request_document(model, hint, content);
            let messages = request.array_field("messages"@)->0;
            &&& request.field("model"@) == Some(JsonView::Str(model))
            &&& request.field("reasoning_effort"@) == Some(JsonView::Str(effort_of(hint)))
            &&& request.field("max_completion_tokens"@) == Some(
                JsonView::Number(NumberView::Integer(4096)),
            )
            &&& request.array_field("messages"@) is Some
            &&& messages.len() == 2
            &&& messages[0].field("role"@) == Some(JsonView::Str("system"@))
            &&& messages[0].field("content"@) == Some(JsonView::Str(prompt_of(hint)))
            &&& messages[1].field("role"@) == Some(JsonView::Str("user"@))
            &&& messages[1].field("content"@) == Some(content)
        }),
{
    lemma_request_members_differ();
}

/// The key of a request is the one that was given.
pub proof fn law_requests_carry_the_key(api_key: Seq<char>)
    ensures
        request_headers(api_key) == seq![
            ("Authorization"@, "Bearer "@ + api_key),
            ("Content-Type"@, "application/json"@),
        ],
{
}

/// Pieces put together again with commas between them.
pub open spec fn with_commas(pieces: Seq<Seq<char>>) -> Seq<char>
    decreases pieces.len(),
{
    if pieces.len() == 0 {
        Seq::empty()
    } else if pieces.len() == 1 {
        pieces[0]
    } else {
        with_commas(pieces.drop_last()) + seq![','] + pieces.last()
    }
}

/// The pieces between the commas hold no comma, and with commas between them they are the
/// text again.
pub proof fn law_commas_part_the_pieces(s: Seq<char>)
    ensures
        between_commas(s).len() > 0,
        with_commas(between_commas(s)) == s,
        forall|k: int|
            0 <= k < between_commas(s).len() ==> !(#[trigger] between_commas(s)[k]).contains(','),
    decreases s.len(),
{
    let pieces = between_commas(s);
    if s.len() == 0 {
        assert(with_commas(pieces) =~= s);
    } else {
        let before = between_commas(s.drop_last());
        law_commas_part_the_pieces(s.drop_last());
        assert(s =~= s.drop_last().push(s.last()));
        if s.last() == ',' {
            assert(pieces.drop_last() =~= before);
            assert(with_commas(pieces) =~= s);
        } else {
            assert(pieces.drop_last() =~= before.drop_last());
            assert(with_commas(pieces) =~= with_commas(before).push(s.last()));
            assert forall|k: int| 0 <= k < pieces.len() implies !(#[trigger] pieces[k]).contains(
                ',',
            ) by {
                if k < pieces.len() - 1 {
                    assert(pieces[k] == before[k]);
                } else {
                    assert(!before.last().contains(',')) by {
                        assert(before[before.len() - 1] == before.last());
                    }
                    if pieces[k].contains(',') {
                        let i = choose|i: int| 0 <= i < pieces[k].len() && pieces[k][i] == ',';
                        if i < before.last().len() {
                            assert(before.last()[i] == ',');
                        }
                    }
                }
            }
        }
    }
}

/// A piece that is more than white space gives a name, without the white space at its ends,
/// behind the names before it; any other piece gives none.
pub proof fn law_pieces_give_names(pieces: Seq<Seq<char>>, piece: Seq<char>)
    ensures
        named_pieces(Seq::empty(), 0).len() == 0,
        trimmed(piece).len() > 0 ==> named_pieces(pieces.push(piece), pieces.len() + 1)
            == named_pieces(pieces, pieces.len()).push(trimmed(piece)),
        trimmed(piece).len() == 0 ==> named_pieces(pieces.push(piece), pieces.len() + 1)
            == named_pieces(pieces, pieces.len()),
{
    lemma_named_prefix(pieces, piece, pieces.len());
}

proof fn lemma_named_prefix(pieces: Seq<Seq<char>>, piece: Seq<char>, n: nat)
    requires
        n <= pieces.len(),
    ensures
        named_pieces(pieces.push(piece), n) == named_pieces(pieces, n),
    decreases n,
{
    if n > 0 {
        lemma_named_prefix(pieces, piece, (n - 1) as nat);
    }
}

/// Models that are configured are asked, all of them and in their order; the default ones
/// stand in only where none are.
pub proof fn law_configured_models_are_asked(s: Seq<char>)
    ensures
        listed_names(s) == named_pieces(between_commas(s), between_commas(s).len()),
        listed_names(s).len() > 0 ==> priority(Some(s)) == listed_names(s),
        listed_names(s).len() == 0 ==> priority(Some(s)) == priority(None),
        priority(None) == listed_names("gpt-5.4-2026-03-05,gpt-5.4,gpt-5.5"@),
{
}

/// With the usual minimum every answer that has a text is kept.
pub proof fn law_usual_minimum_keeps_every_text(doc: JsonView)
    ensures
        judged(doc, MIN_COMPLETION_TOKENS) is Some <==> answer_text(doc).len() > 0,
{
}

/// What happens to a search, what it does next and where it stands are told as they are.
pub proof fn law_searches_are_told(
    code: u16,
    retry_after: Option<String>,
    body: Option<Vec<u8>>,
    ms: u64,
    text: String,
    model: String,
    call: ModelCall,
)
    ensures
        ModelEvent::Failed@ == EventView::Failed,
        (ModelEvent::Status { code, retry_after })@ == (EventView::Status {
            code,
            retry_after: opt_chars(retry_after),
        }),
        ModelEvent::Body(body)@ == EventView::Body(opt_bytes(body)),
        ModelAction::Send@ == ActionView::Send,
        ModelAction::WaitThenSend(ms)@ == ActionView::WaitThenSend(ms),
        ModelAction::ReadBody@ == ActionView::ReadBody,
        (ModelAction::Finish { text, model })@ == (ActionView::Finish {
            text: text@,
            model: model@,
        }),
        ModelAction::GiveUp(text)@ == ActionView::GiveUp(text@),
        call@.models == texts(call.models@),
        call@.min_completion_tokens == call.min_completion_tokens,
        call@.current == call.current,
        call@.attempt == call.attempt,
{
}

} // verus!
