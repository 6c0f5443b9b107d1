//! The skeleton of a request: enough of its structure to tell requests apart in a log,
//! and none of its content.

use vstd::prelude::*;

use crate::envelope::{unwrap_part, unwrapped};
use crate::json::{names_members, views, Json, JsonView};
use crate::text::texts;

verus! {

/// The structure of a request.
#[derive(Debug)]
pub struct Skeleton {
    /// The kind of each part, or `?`.
    pub part_kinds: Vec<String>,
    /// Whether there is a history.
    pub has_history: bool,
    /// The conversation, or `<none>`.
    pub context_id: String,
    /// The names of the parameters, in order.
    pub param_names: Vec<String>,
}

/// The kind of a part, or `?` where it has none.
pub open spec fn kind_or_mark(part: JsonView) -> Seq<char> {
    match unwrapped(part).str_field("kind"@) {
        Some(k) => k,
        None => "?"@,
    }
}

/// The kinds of the parts of a message.
pub open spec fn kinds_of(message: JsonView) -> Seq<Seq<char>> {
    match message.array_field("parts"@) {
        Some(parts) => Seq::new(parts.len(), |i: int| kind_or_mark(parts[i])),
        None => Seq::empty(),
    }
}

/// The conversation that a message belongs to: what the message says or, where it says
/// nothing, what the parameters say.
pub open spec fn context_or_mark(message: JsonView, params: JsonView) -> Seq<char> {
    let value = match message.field("contextId"@) {
        Some(v) => Some(v),
        None => params.field("contextId"@),
    };
    match value {
        Some(JsonView::Str(id)) => id,
        _ => "<none>"@,
    }
}

fn part_kinds(message: &Json) -> (r: Vec<String>)
    ensures
        texts(r@) == kinds_of(message@),
{
    let mut kinds: Vec<String> = Vec::new();
    assert(texts(kinds@) =~= Seq::empty());
    if let Some(parts) = message.array_field("parts") {
        let ghost all = views(parts@);
        for i in 0..parts.len()
            invariant
                all == views(parts@),
                kinds.len() == i,
                forall|j: int| 0 <= j < i ==> (#[trigger] kinds[j])@ == kind_or_mark(all[j]),
        {
            let p: &Json = unwrap_part(&parts[i]);
            let kind: &str = match p.str_field("kind") {
                Some(k) => k,
                None => "?",
            };
            assert(kind@ == kind_or_mark(all[i as int]));
            kinds.push(kind.to_owned());
        }
        assert(texts(kinds@) =~= Seq::new(all.len(), |i: int| kind_or_mark(all[i])));
    }
    kinds
}

/// The structure of a request; none where it carries no message.
pub fn payload_skeleton(req: &Json) -> (r: Option<Skeleton>)
    ensures
        match r {
            Some(s) => {
                let params = req@.field_or_null("params"@);
                let message = params.field_or_null("message"@);
                &&& req@.nested("params"@, "message"@) is Some
                &&& texts(s.part_kinds@) == kinds_of(message)
                &&& s.has_history == (message.has("history"@) || params.has("history"@))
                &&& s.context_id@ == context_or_mark(message, params)
                &&& names_members(texts(s.param_names@), params)
            },
            None => req@.nested("params"@, "message"@) is None,
        },
{
    let params: &Json = match req.get("params") {
        Some(p) => p,
        None => return None,
    };
    let message: &Json = match params.get("message") {
        Some(m) => m,
        None => return None,
    };
    let context: Option<&Json> = match message.get("contextId") {
        Some(v) => Some(v),
        None => params.get("contextId"),
    };
    let context_id: &str = match context {
        Some(v) => match v.as_str() {
            Some(id) => id,
            None => "<none>",
        },
        None => "<none>",
    };
    assert(context_id@ == context_or_mark(message@, params@));
    Some(
        Skeleton {
            part_kinds: part_kinds(message),
            has_history: message.has("history") || params.has("history"),
            context_id: context_id.to_owned(),
            param_names: params.member_names(),
        },
    )
}

/// The skeleton tells the kind of each part at its own place, and marks a part without one.
pub proof fn law_kinds_are_told_in_order(message: JsonView, parts: Seq<JsonView>, i: int)
    requires
        message.field("parts"@) == Some(JsonView::Array(parts)),
        0 <= i < parts.len(),
    ensures
        kinds_of(message).len() == parts.len(),
        unwrapped(parts[i]).field("kind"@) matches Some(JsonView::Str(k)) ==> kinds_of(message)[i]
            == k,
        !(unwrapped(parts[i]).field("kind"@) matches Some(JsonView::Str(_))) ==> kinds_of(
            message,
        )[i] == "?"@,
{
}

/// The conversation is the one that the message names, else the one that the parameters
/// name, else none.
pub proof fn law_the_conversation_is_told(message: JsonView, params: JsonView, id: Seq<char>)
    ensures
        message.array_field("parts"@) is None ==> kinds_of(message).len() == 0,
        message.field("contextId"@) == Some(JsonView::Str(id)) ==> context_or_mark(message, params)
            == id,
        message.field("contextId"@) is None && params.field("contextId"@) == Some(
            JsonView::Str(id),
        ) ==> context_or_mark(message, params) == id,
        message.field("contextId"@) is None && params.field("contextId"@) is None
            ==> context_or_mark(message, params) == "<none>"@,
        message.field("contextId"@) matches Some(v) && !(v is Str) ==> context_or_mark(
            message,
            params,
        ) == "<none>"@,
{
}

} // verus!
