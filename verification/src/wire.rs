//! JSON text on the wire: reading and writing documents through `serde_json`.
//!
//! `serde_json` does the reading and the writing. Its `Value` is opened and built
//! one level at a time, and the recursion over the tree is proved here.

use vstd::prelude::*;
use vstd::utf8::encode_utf8;

use crate::json::{
    array_json, lemma_items_view, members_view, number_contents, views, Json, JsonView, Members,
};
use crate::text::one_line;

verus! {

/// A JSON document as `serde_json` holds it.
#[verifier::external_type_specification]
#[verifier::external_body]
pub struct ExValue(serde_json::Value);

/// The document that a `serde_json::Value` holds.
pub uninterp spec fn value_contents(v: serde_json::Value) -> JsonView;

/// What reading a text as JSON comes to.
pub enum Parsed {
    /// The text spells this document.
    Document(JsonView),
    /// The text spells none; this is the message that says why.
    Error(Seq<char>),
}

/// What `serde_json::from_slice` makes of `bytes`.
pub uninterp spec fn json_parsed(bytes: Seq<u8>) -> Parsed;

/// The text that `serde_json::to_string` writes for a document.
pub uninterp spec fn json_text(doc: JsonView) -> Seq<char>;

/// The top level of a `serde_json::Value`.
pub enum ValueParts {
    Null,
    Bool(bool),
    Number(serde_json::Number),
    Str(String),
    Array(Vec<serde_json::Value>),
    Object(Vec<(String, serde_json::Value)>),
}

/// The documents that the values hold, one by one.
pub open spec fn contents_of(items: Seq<serde_json::Value>) -> Seq<JsonView> {
    Seq::new(items.len(), |i: int| value_contents(items[i]))
}

/// What the first `n` named values say of each name, later ones counting.
pub open spec fn members_of(members: Seq<(String, serde_json::Value)>, n: nat) -> Map<
    Seq<char>,
    JsonView,
>
    decreases n,
{
    if n == 0 || n > members.len() {
        Map::empty()
    } else {
        members_of(members, (n - 1) as nat).insert(
            members[n - 1].0@,
            value_contents(members[n - 1].1),
        )
    }
}

/// The document with the given top level.
pub open spec fn parts_view(parts: ValueParts) -> JsonView {
    match parts {
        ValueParts::Null => JsonView::Null,
        ValueParts::Bool(b) => JsonView::Bool(b),
        ValueParts::Number(n) => JsonView::Number(number_contents(n)),
        ValueParts::Str(s) => JsonView::Str(s@),
        ValueParts::Array(items) => JsonView::Array(contents_of(items@)),
        ValueParts::Object(members) => JsonView::Object(members_of(members@, members@.len())),
    }
}

/// Whether no two members have one name.
pub open spec fn names_differ(members: Seq<(String, serde_json::Value)>) -> bool {
    forall|i: int, j: int|
        0 <= i < j < members.len() ==> (#[trigger] members[i]).0@ != (#[trigger] members[j]).0@
}

/// The variants of `serde_json::Value`, told apart: the parts together are what
/// the value holds, and a `serde_json::Map` holds each name once.
#[verifier::external_body]
fn open_value(v: serde_json::Value) -> (r: ValueParts)
    ensures
        parts_view(r) == value_contents(v),
        r matches ValueParts::Object(members) ==> names_differ(members@),
{
    match v {
        serde_json::Value::Null => ValueParts::Null,
        serde_json::Value::Bool(b) => ValueParts::Bool(b),
        serde_json::Value::Number(n) => ValueParts::Number(n),
        serde_json::Value::String(s) => ValueParts::Str(s),
        serde_json::Value::Array(items) => ValueParts::Array(items),
        serde_json::Value::Object(members) => ValueParts::Object(members.into_iter().collect()),
    }
}

/// The variants of `serde_json::Value`, built: the value holds what the parts
/// hold together. Of two members with one name, `serde_json::Map` keeps the later.
#[verifier::external_body]
fn build_value(parts: ValueParts) -> (r: serde_json::Value)
    ensures
        value_contents(r) == parts_view(parts),
{
    match parts {
        ValueParts::Null => serde_json::Value::Null,
        ValueParts::Bool(b) => serde_json::Value::Bool(b),
        ValueParts::Number(n) => serde_json::Value::Number(n),
        ValueParts::Str(s) => serde_json::Value::String(s),
        ValueParts::Array(items) => serde_json::Value::Array(items),
        ValueParts::Object(members) => serde_json::Value::Object(members.into_iter().collect()),
    }
}

/// `serde_json::from_slice` into a `Value`: the document that `bytes` spell, or
/// the text of the error. It is a function of the bytes alone.
#[verifier::external_body]
fn parse_value(bytes: &[u8]) -> (r: Result<serde_json::Value, String>)
    ensures
        match r {
            Ok(v) => json_parsed(bytes@) == Parsed::Document(value_contents(v)),
            Err(e) => json_parsed(bytes@) == Parsed::Error(e@),
        },
{
    serde_json::from_slice(bytes).map_err(|e| e.to_string())
}

/// The deepest nesting that `serde_json` reads back.
pub open spec fn depth_limit() -> nat {
    127
}

/// The name of a member that `serde_json` reads in a way of its own: an object that
/// begins with it is taken for the text of another document.
pub open spec fn raw_value_name() -> Seq<char> {
    "$serde_json::private::RawValue"@
}

/// A name of another length is not the one that is read in a way of its own.
pub proof fn lemma_plain_name(name: Seq<char>)
    requires
        name.len() != 30,
    ensures
        name != raw_value_name(),
{
    reveal_strlit("$serde_json::private::RawValue");
    assert(raw_value_name().len() == 30);
}

/// Whether at most `depth` arrays and objects of `doc` stand inside one another, every
/// number in it is an integer, and no member has the name that is read in a way of its
/// own.
pub open spec fn plain_within(doc: JsonView, depth: nat) -> bool
    decreases depth,
{
    match doc {
        JsonView::Number(n) => n is Integer,
        JsonView::Array(items) => depth > 0 && forall|i: int|
            0 <= i < items.len() ==> plain_within(#[trigger] items[i], (depth - 1) as nat),
        JsonView::Object(members) => depth > 0 && !members.contains_key(raw_value_name())
            && forall|k: Seq<char>|
            members.contains_key(k) ==> plain_within(#[trigger] members[k], (depth - 1) as nat),
        _ => true,
    }
}

/// `serde_json::to_string` of a `Value`: it does not fail, and the text is a
/// function of the document alone. It is written without line breaks: those inside
/// strings are escaped. `serde_json::from_slice` reads the document back from the
/// text's bytes where no number is a fraction, no member has the name of a raw value
/// and the nesting is within its limit; of other documents nothing is stated.
#[verifier::external_body]
fn value_text(v: &serde_json::Value) -> (r: Result<String, serde_json::Error>)
    ensures
        r is Ok,
        r->Ok_0@ == json_text(value_contents(*v)),
        one_line(r->Ok_0@),
        plain_within(value_contents(*v), depth_limit()) ==> json_parsed(encode_utf8(r->Ok_0@))
            == Parsed::Document(value_contents(*v)),
{
    serde_json::to_string(v)
}

/// The error of `serde_json`.
#[verifier::external_type_specification]
#[verifier::external_body]
pub struct ExError(serde_json::Error);

/// Where no two names are equal, every member is found under its name.
proof fn lemma_member_found(members: Seq<(String, serde_json::Value)>, n: nat, i: int)
    requires
        0 <= i < n <= members.len(),
        names_differ(members),
    ensures
        members_of(members, n).dom().finite(),
        members_of(members, n).contains_key(members[i].0@),
        members_of(members, n)[members[i].0@] == value_contents(members[i].1),
    decreases n,
{
    lemma_members_finite(members, n);
    if i < n - 1 {
        lemma_member_found(members, (n - 1) as nat, i);
    }
}

proof fn lemma_members_finite(members: Seq<(String, serde_json::Value)>, n: nat)
    ensures
        members_of(members, n).dom().finite(),
    decreases n,
{
    if 0 < n <= members.len() {
        lemma_members_finite(members, (n - 1) as nat);
    }
}

/// The document that `v` holds, as a tree of the library.
fn json_of_value(v: serde_json::Value) -> (r: Json)
    ensures
        r@ == value_contents(v),
    decreases value_contents(v),
{
    let ghost doc = value_contents(v);
    match open_value(v) {
        ValueParts::Null => Json::Null,
        ValueParts::Bool(b) => Json::Bool(b),
        ValueParts::Number(n) => Json::Number(n),
        ValueParts::Str(s) => Json::Str(s),
        ValueParts::Array(items) => {
            let mut out: Vec<Json> = Vec::new();
            let ghost all = items@;
            for item in it: items
                invariant
                    it.seq() == all,
                    doc == value_contents(v),
                    doc == JsonView::Array(contents_of(all)),
                    out.len() == it.index(),
                    forall|j: int| 0 <= j < out.len() ==> out[j]@ == value_contents(all[j]),
            {
                proof {
                    let i = it.index();
                    assert(item == all[i]);
                    assert(decreases_to!(doc => doc->Array_0));
                    assert(decreases_to!(doc->Array_0 => doc->Array_0[i]));
                }
                out.push(json_of_value(item));
            }
            proof {
                assert(views(out@) =~= contents_of(all));
            }
            array_json(out)
        },
        ValueParts::Object(members) => {
            let mut out: Members = Members::new();
            let ghost all = members@;
            for member in it: members
                invariant
                    it.seq() == all,
                    doc == value_contents(v),
                    doc == JsonView::Object(members_of(all, all.len())),
                    names_differ(all),
                    out@ == members_of(all, it.index() as nat),
            {
                proof {
                    let i = it.index();
                    assert(member == all[i]);
                    lemma_member_found(all, all.len(), i);
                    assert(decreases_to!(doc => doc->Object_0));
                    assert(decreases_to!(doc->Object_0 => doc->Object_0[all[i].0@]));
                }
                out = out.with(member.0.as_str(), json_of_value(member.1));
            }
            out.object()
        },
    }
}

/// The document `j`, as a `serde_json::Value`.
fn value_of_json(j: &Json) -> (r: serde_json::Value)
    ensures
        value_contents(r) == j@,
    decreases j,
{
    match j {
        Json::Null => build_value(ValueParts::Null),
        Json::Bool(b) => build_value(ValueParts::Bool(*b)),
        Json::Number(n) => build_value(ValueParts::Number(n.clone())),
        Json::Str(s) => build_value(ValueParts::Str(s.clone())),
        Json::Array(items) => {
            let mut out: Vec<serde_json::Value> = Vec::new();
            for i in 0..items.len()
                invariant
                    *j == Json::Array(*items),
                    out.len() == i,
                    forall|k: int| 0 <= k < i ==> value_contents(#[trigger] out[k]) == items[k]@,
            {
                proof {
                    assert(decreases_to!(*j => j->Array_0));
                    assert(decreases_to!(j->Array_0 => items@));
                    assert(decreases_to!(items@ => items@[i as int]));
                }
                out.push(value_of_json(&items[i]));
            }
            proof {
                lemma_items_view(items@, items@.len());
                assert(contents_of(out@) =~= views(items@).take(items@.len() as int));
            }
            build_value(ValueParts::Array(out))
        },
        Json::Object(members) => {
            let mut out: Vec<(String, serde_json::Value)> = Vec::new();
            for i in 0..members.len()
                invariant
                    *j == Json::Object(*members),
                    out.len() == i,
                    members_of(out@, i as nat) == members_view(members@, i as nat),
            {
                proof {
                    assert(decreases_to!(*j => j->Object_0));
                    assert(decreases_to!(j->Object_0 => members@));
                    assert(decreases_to!(members@ => members@[i as int]));
                    assert(decreases_to!(members@[i as int] => members@[i as int].1));
                }
                let ghost before = out@;
                out.push((members[i].0.clone(), value_of_json(&members[i].1)));
                proof {
                    lemma_members_of_prefix(before, out@.last(), i as nat);
                    assert(out@ =~= before.push(out@.last()));
                }
            }
            build_value(ValueParts::Object(out))
        },
    }
}

/// A member added at the end leaves what the earlier ones say alone.
proof fn lemma_members_of_prefix(
    members: Seq<(String, serde_json::Value)>,
    next: (String, serde_json::Value),
    n: nat,
)
    requires
        n <= members.len(),
    ensures
        members_of(members.push(next), n) == members_of(members, n),
    decreases n,
{
    if n > 0 {
        lemma_members_of_prefix(members, next, (n - 1) as nat);
    }
}

/// Reads a JSON document; the error is the message that says why there is none.
pub fn json_from_bytes(bytes: &[u8]) -> (r: Result<Json, String>)
    ensures
        match r {
            Ok(doc) => json_parsed(bytes@) == Parsed::Document(doc@),
            Err(message) => json_parsed(bytes@) == Parsed::Error(message@),
        },
{
    match parse_value(bytes) {
        Ok(v) => Ok(json_of_value(v)),
        Err(message) => Err(message),
    }
}

/// Whether a reader finds exactly `doc` in `text`.
pub open spec fn reads_back(text: Seq<char>, doc: JsonView) -> bool {
    json_parsed(encode_utf8(text)) == Parsed::Document(doc)
}

/// Writes a JSON document on one line. A plain document that is nested within the
/// limit can be read back from the text.
pub fn json_to_text(doc: &Json) -> (r: String)
    ensures
        r@ == json_text(doc@),
        one_line(r@),
        plain_within(doc@, depth_limit()) ==> reads_back(r@, doc@),
{
    let v: serde_json::Value = value_of_json(doc);
    match value_text(&v) {
        Ok(text) => text,
        Err(_) => String::new(),
    }
}

} // verus!
