//! What is made of the text that a model answers with.

use vstd::prelude::*;
use vstd::utf8::encode_utf8;

use crate::text::{
    all_white, begins, ends, ends_with, holds, law_trimming, law_trimming_again_changes_nothing,
    occurs, opt_chars, starts_with, trim, trimmed, white_space,
};
use crate::wire::{
    depth_limit, json_from_bytes, json_parsed, json_text, json_to_text, plain_within, reads_back,
    Parsed,
};

verus! {

/// A fenced block of code that is the whole text; the group is what stands inside.
pub const FENCE_PATTERN: &'static str = r"(?s)^```(?:json|JSON)?\s*\n?(.*?)\n?```\s*$";

/// The heading of a task's identifier, with the identifier on the next line; the group is
/// the identifier.
pub const TASK_ID_PATTERN: &'static str = r"# Task ID\n(\S+)\n";

/// What the first group of a regular expression takes at the first match in a text;
/// none where nothing matches or the group takes no part.
pub uninterp spec fn regex_group(pattern: Seq<char>, text: Seq<char>) -> Option<Seq<char>>;

/// Whether `id` is named as a task's identifier at position `at` of `text`: it stands on
/// the line behind a heading, and has no white space in it.
pub open spec fn names_task(text: Seq<char>, id: Seq<char>, at: int) -> bool {
    &&& occurs(text, "# Task ID\n"@ + id + "\n"@, at)
    &&& id.len() > 0
    &&& forall|i: int| 0 <= i < id.len() ==> !white_space(#[trigger] id[i])
}

/// Whether `found` is the identifier that `text` names first, or none where it names none.
pub open spec fn is_task_id(text: Seq<char>, found: Option<Seq<char>>) -> bool {
    match found {
        Some(id) => exists|at: int|
            #![trigger names_task(text, id, at)]
            names_task(text, id, at) && forall|other: Seq<char>, before: int|
                before < at ==> !#[trigger] names_task(text, other, before),
        None => forall|other: Seq<char>, at: int| !#[trigger] names_task(text, other, at),
    }
}

/// A text names one task at most: what is found does not depend on who looks.
pub proof fn law_task_id_is_unique(text: Seq<char>, a: Option<Seq<char>>, b: Option<Seq<char>>)
    requires
        is_task_id(text, a),
        is_task_id(text, b),
    ensures
        a == b,
{
    if a is Some && b is Some {
        let i = choose|at: int|
            #![trigger names_task(text, a->0, at)]
            names_task(text, a->0, at) && forall|other: Seq<char>, before: int|
                before < at ==> !#[trigger] names_task(text, other, before);
        let j = choose|at: int|
            #![trigger names_task(text, b->0, at)]
            names_task(text, b->0, at) && forall|other: Seq<char>, before: int|
                before < at ==> !#[trigger] names_task(text, other, before);
        assert(i == j);
        lemma_longest_id(text, a->0, b->0, i);
        lemma_longest_id(text, b->0, a->0, i);
        assert(a->0 =~= b->0);
    }
}

/// Of two identifiers at one place neither is longer, and they are equal as far as both go.
proof fn lemma_longest_id(text: Seq<char>, a: Seq<char>, b: Seq<char>, at: int)
    requires
        names_task(text, a, at),
        names_task(text, b, at),
    ensures
        a.len() <= b.len(),
        forall|i: int| 0 <= i < a.len() && i < b.len() ==> a[i] == b[i],
{
    let heading = "# Task ID\n"@;
    let wa = heading + a + "\n"@;
    let wb = heading + b + "\n"@;
    let h = heading.len() as int;
    reveal_strlit("\n");
    assert(text.subrange(at, at + wa.len()) == wa);
    assert(text.subrange(at, at + wb.len()) == wb);
    assert forall|i: int| 0 <= i < a.len() && i < b.len() implies a[i] == b[i] by {
        assert(wa[h + i] == a[i] && wb[h + i] == b[i]);
        assert(text.subrange(at, at + wa.len())[h + i] == text[at + h + i]);
        assert(text.subrange(at, at + wb.len())[h + i] == text[at + h + i]);
    }
    if a.len() > b.len() {
        let i = b.len() as int;
        assert(wb[h + i] == '\n');
        assert(wa[h + i] == a[i]);
        assert(text.subrange(at, at + wa.len())[h + i] == text[at + h + i]);
        assert(text.subrange(at, at + wb.len())[h + i] == text[at + h + i]);
        assert(white_space(a[i]));
    }
}

/// `regex::Regex::new`, `Regex::captures` and `Captures::get` with group 1: what the
/// group takes at the first match of `pattern` in `text`, which is a function of the two
/// alone. It is a piece of `text`. A pattern that is no regular expression matches
/// nothing. `FENCE_PATTERN` is anchored at the start, so it matches only a text that
/// begins with a fence. `TASK_ID_PATTERN` is literal but for its group, which takes one or
/// more characters that are no white space; the first match is the leftmost.
#[verifier::external_body]
fn first_group(pattern: &str, text: &str) -> (r: Option<String>)
    ensures
        opt_chars(r) == regex_group(pattern@, text@),
        r matches Some(piece) ==> holds(text@, piece@),
        pattern@ == FENCE_PATTERN@ && r is Some ==> begins(text@, "```"@),
        pattern@ == TASK_ID_PATTERN@ ==> is_task_id(text@, opt_chars(r)),
{
    let re = regex::Regex::new(pattern).ok()?;
    re.captures(text)?.get(1).map(|m| m.as_str().to_string())
}

/// The identifier of the task that a question names, where it names one: the line behind
/// the first heading that has an identifier and nothing else on that line.
pub fn extract_task_id(question: &str) -> (r: Option<String>)
    ensures
        is_task_id(question@, opt_chars(r)),
{
    first_group(TASK_ID_PATTERN, question)
}

/// Whether a text stands in braces or in square brackets.
pub open spec fn bracketed(s: Seq<char>) -> bool {
    ||| begins(s, "{"@) && ends(s, "}"@)
    ||| begins(s, "["@) && ends(s, "]"@)
}

/// A text that spells a JSON object or array, written anew; any other text as it is.
pub open spec fn canonical(s: Seq<char>) -> Seq<char> {
    if bracketed(trimmed(s)) {
        match json_parsed(encode_utf8(trimmed(s))) {
            Parsed::Document(doc) => json_text(doc),
            Parsed::Error(_) => s,
        }
    } else {
        s
    }
}

/// The answer in a text: what stands inside its fence where it has one, else the whole
/// text, without the white space at the ends.
pub open spec fn unfenced(text: Seq<char>, inside: Option<Seq<char>>) -> Seq<char> {
    match inside {
        Some(piece) => trimmed(piece),
        None => trimmed(text),
    }
}

/// What is made of a model's text.
pub open spec fn cleaned(text: Seq<char>) -> Seq<char> {
    canonical(unfenced(text, regex_group(FENCE_PATTERN@, trimmed(text))))
}

/// Writes a text that spells a JSON object or array anew, and leaves any other text as
/// it is. What is written anew still spells the same document, where that is plain and
/// its nesting is within the limit.
pub fn canonicalize(s: &str) -> (r: String)
    ensures
        r@ == canonical(s@),
        bracketed(trimmed(s@)) ==> (json_parsed(encode_utf8(trimmed(s@))) matches Parsed::Document(
            doc,
        ) ==> plain_within(doc, depth_limit()) ==> reads_back(r@, doc)),
{
    let t: &str = trim(s);
    if (starts_with(t, "{") && ends_with(t, "}")) || (starts_with(t, "[") && ends_with(t, "]")) {
        match json_from_bytes(t.as_bytes()) {
            Ok(doc) => json_to_text(&doc),
            Err(_) => s.to_owned(),
        }
    } else {
        s.to_owned()
    }
}

/// What is made of a model's text; `inside` is what stands inside its fence, where it
/// has one.
pub fn clean_unfenced(text: &str, inside: Option<String>) -> (r: String)
    ensures
        r@ == canonical(unfenced(text@, opt_chars(inside))),
{
    match inside {
        Some(piece) => canonicalize(trim(piece.as_str())),
        None => canonicalize(trim(text)),
    }
}

/// What is made of a model's text: it is taken out of its fence, and JSON is written
/// anew. A text that does not begin with a fence is taken as a whole.
pub fn clean_json_response(text: &str) -> (r: String)
    ensures
        r@ == cleaned(text@),
        !begins(trimmed(text@), "```"@) ==> r@ == canonical(trimmed(text@)),
{
    let inside: Option<String> = first_group(FENCE_PATTERN, trim(text));
    clean_unfenced(text, inside)
}

/// A text that does not stand in braces or in brackets comes out of cleaning unchanged,
/// character for character, and so does one that does and spells no document.
pub proof fn law_plain_words_stay(s: Seq<char>)
    ensures
        ({
            let t = trimmed(s);
            ||| t.len() > 0 && ((t[0] == '{' && t.last() == '}') || (t[0] == '[' && t.last()
                == ']')) && json_parsed(encode_utf8(t)) is Document
            ||| canonical(s) == s
        }),
{
    lemma_brackets(trimmed(s));
}

/// A text in braces or brackets that spells a document is written as that document.
pub proof fn law_documents_are_written_anew(s: Seq<char>)
    requires
        trimmed(s).len() > 0,
        (trimmed(s)[0] == '{' && trimmed(s).last() == '}') || (trimmed(s)[0] == '[' && trimmed(
            s,
        ).last() == ']'),
    ensures
        json_parsed(encode_utf8(trimmed(s))) matches Parsed::Document(doc) ==> canonical(s)
            == json_text(doc),
{
    lemma_brackets(trimmed(s));
}

proof fn lemma_brackets(t: Seq<char>)
    ensures
        bracketed(t) <==> t.len() > 0 && ((t[0] == '{' && t.last() == '}') || (t[0] == '['
            && t.last() == ']')),
{
    reveal_strlit("{");
    reveal_strlit("}");
    reveal_strlit("[");
    reveal_strlit("]");
    if t.len() > 0 {
        assert(t.subrange(0, 1) =~= seq![t[0]]);
        assert(t.subrange(t.len() - 1, t.len() as int) =~= seq![t.last()]);
        assert("{"@ =~= seq!['{'] && "}"@ =~= seq!['}']);
        assert("["@ =~= seq!['['] && "]"@ =~= seq![']']);
        assert(seq![t[0]][0] == t[0] && seq![t.last()][0] == t.last());
        assert(seq!['{'][0] == '{' && seq!['}'][0] == '}');
        assert(seq!['['][0] == '[' && seq![']'][0] == ']');
    }
}

/// What stands inside a fence is the answer, and without a fence the whole text is; either
/// way without the white space around it.
pub proof fn law_the_fence_is_taken_off(
    text: Seq<char>,
    a: Seq<char>,
    inside: Seq<char>,
    b: Seq<char>,
)
    requires
        all_white(a),
        all_white(b),
        inside.len() > 0 ==> !white_space(inside[0]) && !white_space(inside.last()),
    ensures
        unfenced(text, Some(a + inside + b)) == inside,
        unfenced(a + inside + b, None) == inside,
{
    law_trimming(a, inside, b);
}

/// An answer, inside its fence where there is one, comes out as it is unless it stands in
/// braces or in brackets and spells a document; then it comes out as that document.
pub proof fn law_answers_in_plain_words_stay(text: Seq<char>)
    ensures
        ({
            let t = match regex_group(FENCE_PATTERN@, trimmed(text)) {
                Some(piece) => trimmed(piece),
                None => trimmed(text),
            };
            let framed = t.len() > 0 && ((t[0] == '{' && t.last() == '}') || (t[0] == '['
                && t.last() == ']'));
            &&& !framed ==> cleaned(text) == t
            &&& json_parsed(encode_utf8(t)) is Error ==> cleaned(text) == t
            &&& framed ==> (json_parsed(encode_utf8(t)) matches Parsed::Document(doc) ==> cleaned(
                text,
            ) == json_text(doc))
        }),
{
    let inside = regex_group(FENCE_PATTERN@, trimmed(text));
    let source = match inside {
        Some(piece) => piece,
        None => text,
    };
    let t = trimmed(source);
    law_trimming_again_changes_nothing(source);
    assert(unfenced(text, inside) == t);
    law_plain_words_stay(t);
    lemma_brackets(t);
}

/// A task's identifier is found on the line behind a heading and holds no white space; where
/// none is found, no heading has one behind it.
pub proof fn law_task_ids_stand_behind_their_heading(
    text: Seq<char>,
    found: Option<Seq<char>>,
    a: Seq<char>,
    id: Seq<char>,
    b: Seq<char>,
)
    requires
        is_task_id(text, found),
    ensures
        found matches Some(f) ==> f.len() > 0 && holds(text, "# Task ID\n"@ + f + "\n"@) && (forall|
            i: int,
        |
            0 <= i < f.len() ==> !white_space(#[trigger] f[i])),
        text == a + "# Task ID\n"@ + id + "\n"@ + b && id.len() > 0 && (forall|i: int|
            0 <= i < id.len() ==> !white_space(#[trigger] id[i])) ==> found is Some,
{
    if found is Some {
        let f = found->0;
        let at = choose|at: int|
            #![trigger names_task(text, f, at)]
            names_task(text, f, at) && forall|other: Seq<char>, before: int|
                before < at ==> !#[trigger] names_task(text, other, before);
        assert(occurs(text, "# Task ID\n"@ + f + "\n"@, at));
    } else if text == a + "# Task ID\n"@ + id + "\n"@ + b && id.len() > 0 && (forall|i: int|
        0 <= i < id.len() ==> !white_space(#[trigger] id[i])) {
        let line = "# Task ID\n"@ + id + "\n"@;
        assert(text.subrange(a.len() as int, (a.len() + line.len()) as int) =~= line);
        assert(names_task(text, id, a.len() as int));
    }
}

} // verus!
