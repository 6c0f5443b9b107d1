//! JSON documents: the executable tree, its mathematical view, and the ways to
//! read and build it.
//!
//! An object lists its members in order; where a name occurs twice the later
//! member counts. The view of an object is therefore a map.

use vstd::prelude::*;

use crate::text::{is_before, lemma_precedes_is_an_order, precedes, same_text, texts};

verus! {

/// A JSON number as `serde_json` holds it.
#[verifier::external_type_specification]
#[verifier::external_body]
pub struct ExNumber(serde_json::Number);

/// What a JSON number stands for: an integer, or anything else, which is only
/// carried along.
pub enum NumberView {
    Integer(int),
    Other(serde_json::Number),
}

/// What the number `n` stands for.
pub uninterp spec fn number_contents(n: serde_json::Number) -> NumberView;

/// `serde_json::Number::clone`: a copy stands for what the number itself stands for.
pub assume_specification[ <serde_json::Number as Clone>::clone ](
    n: &serde_json::Number,
) -> (r: serde_json::Number)
    ensures
        number_contents(r) == number_contents(*n),
;

/// `serde_json::Number::from` for `i64`: the number that stands for `i`.
#[verifier::external_body]
fn number_from_i64(i: i64) -> (r: serde_json::Number)
    ensures
        number_contents(r) == NumberView::Integer(i as int),
{
    serde_json::Number::from(i)
}

/// `serde_json::Number::as_u64`: the integer that `n` stands for, where `n`
/// stands for one and a `u64` holds it.
pub assume_specification[ serde_json::Number::as_u64 ](n: &serde_json::Number) -> (r: Option<u64>)
    ensures
        r == integer_in_u64(number_contents(*n)),
;

/// The integer in `n`, where there is one and a `u64` holds it.
pub open spec fn integer_in_u64(n: NumberView) -> Option<u64> {
    match n {
        NumberView::Integer(i) if 0 <= i <= u64::MAX => Some(i as u64),
        _ => None,
    }
}

/// A JSON document.
#[derive(Debug)]
pub enum Json {
    Null,
    Bool(bool),
    Number(serde_json::Number),
    Str(String),
    Array(Vec<Json>),
    Object(Vec<(String, Json)>),
}

/// The mathematical content of a JSON document.
#[verifier::ext_equal]
pub enum JsonView {
    Null,
    Bool(bool),
    Number(NumberView),
    Str(Seq<char>),
    Array(Seq<JsonView>),
    Object(Map<Seq<char>, JsonView>),
}

impl View for Json {
    type V = JsonView;

    open spec fn view(&self) -> JsonView {
        json_view(*self)
    }
}

/// The content of `j`.
pub open spec fn json_view(j: Json) -> JsonView
    decreases j, 0nat,
{
    match j {
        Json::Null => JsonView::Null,
        Json::Bool(b) => JsonView::Bool(b),
        Json::Number(n) => JsonView::Number(number_contents(n)),
        Json::Str(s) => JsonView::Str(s@),
        Json::Array(items) => JsonView::Array(items_view(items@, items@.len())),
        Json::Object(members) => JsonView::Object(members_view(members@, members@.len())),
    }
}

/// The contents of the first `n` items.
pub open spec fn items_view(items: Seq<Json>, n: nat) -> Seq<JsonView>
    decreases items, n,
{
    if n == 0 || n > items.len() {
        Seq::empty()
    } else {
        items_view(items, (n - 1) as nat).push(json_view(items[n - 1]))
    }
}

/// What the first `n` members say of each name.
pub open spec fn members_view(members: Seq<(String, Json)>, n: nat) -> Map<Seq<char>, JsonView>
    decreases members, n,
{
    if n == 0 || n > members.len() {
        Map::empty()
    } else {
        members_view(members, (n - 1) as nat).insert(members[n - 1].0@, json_view(members[n - 1].1))
    }
}

/// The contents of a sequence of documents, one by one.
pub open spec fn views(items: Seq<Json>) -> Seq<JsonView> {
    Seq::new(items.len(), |i: int| items[i]@)
}

/// The view of an array holds the views of its items.
pub proof fn lemma_items_view(items: Seq<Json>, n: nat)
    requires
        n <= items.len(),
    ensures
        items_view(items, n) == views(items).take(n as int),
    decreases n,
{
    if n > 0 {
        lemma_items_view(items, (n - 1) as nat);
        assert(views(items).take(n as int) =~= views(items).take(n - 1).push(items[n - 1]@));
    } else {
        assert(views(items).take(0) =~= Seq::empty());
    }
}

/// Members added at the end leave what the earlier ones say alone.
proof fn lemma_members_prefix(members: Seq<(String, Json)>, more: Seq<(String, Json)>, n: nat)
    requires
        n <= members.len(),
    ensures
        members_view(members + more, n) == members_view(members, n),
    decreases n,
{
    if n > 0 {
        lemma_members_prefix(members, more, (n - 1) as nat);
    }
}

impl JsonView {
    /// The member of an object with the name `key`; none in any other document.
    pub open spec fn field(self, key: Seq<char>) -> Option<JsonView> {
        match self {
            JsonView::Object(members) if members.contains_key(key) => Some(members[key]),
            _ => None,
        }
    }

    /// Whether this is an object with a member named `key`.
    pub open spec fn has(self, key: Seq<char>) -> bool {
        self.field(key) is Some
    }

    /// The characters of a string.
    pub open spec fn as_str(self) -> Option<Seq<char>> {
        match self {
            JsonView::Str(s) => Some(s),
            _ => None,
        }
    }

    /// The items of an array.
    pub open spec fn as_array(self) -> Option<Seq<JsonView>> {
        match self {
            JsonView::Array(items) => Some(items),
            _ => None,
        }
    }

    /// The value of a boolean.
    pub open spec fn as_bool(self) -> Option<bool> {
        match self {
            JsonView::Bool(b) => Some(b),
            _ => None,
        }
    }

    /// The value of a number that is an integer and fits in a `u64`.
    pub open spec fn as_u64(self) -> Option<u64> {
        match self {
            JsonView::Number(n) => integer_in_u64(n),
            _ => None,
        }
    }

    /// The member of the member: what `outer.inner` names.
    pub open spec fn nested(self, outer: Seq<char>, inner: Seq<char>) -> Option<JsonView> {
        match self.field(outer) {
            Some(v) => v.field(inner),
            None => None,
        }
    }

    /// The string that the member `key` holds, where it holds one.
    pub open spec fn str_field(self, key: Seq<char>) -> Option<Seq<char>> {
        match self.field(key) {
            Some(v) => v.as_str(),
            None => None,
        }
    }

    /// The items of the array that the member `key` holds, where it holds one.
    pub open spec fn array_field(self, key: Seq<char>) -> Option<Seq<JsonView>> {
        match self.field(key) {
            Some(v) => v.as_array(),
            None => None,
        }
    }

    /// The member `key`, or null where there is none.
    pub open spec fn field_or_null(self, key: Seq<char>) -> JsonView {
        match self.field(key) {
            Some(v) => v,
            None => JsonView::Null,
        }
    }

    /// The first item of an array, or null where there is none.
    pub open spec fn first_or_null(self) -> JsonView {
        match self {
            JsonView::Array(items) if items.len() > 0 => items[0],
            _ => JsonView::Null,
        }
    }

    /// Whether the member `key` is a string with at least one character.
    pub open spec fn has_text(self, key: Seq<char>) -> bool {
        self.str_field(key) matches Some(s) && s.len() > 0
    }

    /// Whether the member `key` is an array with at least one item.
    pub open spec fn has_items(self, key: Seq<char>) -> bool {
        self.array_field(key) matches Some(a) && a.len() > 0
    }
}

/// The content of a reference that may be missing.
pub open spec fn opt_view(o: Option<&Json>) -> Option<JsonView> {
    match o {
        Some(j) => Some(j@),
        None => None,
    }
}

/// The characters of a string that may be missing.
pub open spec fn opt_text(o: Option<&str>) -> Option<Seq<char>> {
    match o {
        Some(s) => Some(s@),
        None => None,
    }
}

/// Whether strings stand in their order, each once.
pub open spec fn in_order(names: Seq<Seq<char>>) -> bool {
    forall|i: int, j: int|
        0 <= i < j < names.len() ==> precedes(#[trigger] names[i], #[trigger] names[j])
}

/// Whether `names` are the names of the members of `doc`, in order, each once.
pub open spec fn names_members(names: Seq<Seq<char>>, doc: JsonView) -> bool {
    &&& in_order(names)
    &&& forall|name: Seq<char>| #[trigger] names.contains(name) <==> doc.has(name)
}

/// Puts a name in its place among names in order; one that is there already stays.
fn enter_name(names: &mut Vec<String>, name: &str)
    requires
        in_order(texts(old(names)@)),
    ensures
        in_order(texts(final(names)@)),
        forall|other: Seq<char>| #[trigger]
            texts(final(names)@).contains(other) <==> texts(old(names)@).contains(other) || other
                == name@,
{
    let ghost before = texts(names@);
    let mut at: usize = 0;
    while at < names.len() && is_before(names[at].as_str(), name)
        invariant
            texts(names@) == before,
            at <= names.len(),
            forall|i: int| 0 <= i < at ==> precedes(#[trigger] before[i], name@),
        decreases names.len() - at,
    {
        assert(before[at as int] == names@[at as int]@);
        at += 1;
    }
    if at < names.len() && same_text(names[at].as_str(), name) {
        assert(before[at as int] == name@);
        return;
    }
    names.insert(at, name.to_owned());
    proof {
        let after = texts(names@);
        assert(after =~= before.insert(at as int, name@));
        if at < before.len() {
            lemma_precedes_is_an_order(before[at as int], name@, name@);
        }
        assert forall|i: int, j: int| 0 <= i < j < after.len() implies precedes(
            #[trigger] after[i],
            #[trigger] after[j],
        ) by {
            if j < at {
                assert(precedes(before[i], before[j]));
            } else if i > at {
                assert(precedes(before[i - 1], before[j - 1]));
            } else if i < at && j > at {
                assert(precedes(before[i], before[j - 1]));
            } else if i == at && j > at + 1 {
                assert(precedes(before[at as int], before[j - 1]));
                lemma_precedes_is_an_order(name@, before[at as int], before[j - 1]);
            }
        }
        assert forall|other: Seq<char>| #[trigger]
            after.contains(other) <==> before.contains(other) || other == name@ by {
            if other == name@ {
                assert(after[at as int] == other);
            }
            if before.contains(other) {
                let k = choose|k: int| 0 <= k < before.len() && before[k] == other;
                assert(after[if k < at {
                    k
                } else {
                    k + 1
                }] == other);
            }
            if after.contains(other) {
                let k = choose|k: int| 0 <= k < after.len() && after[k] == other;
                if k < at {
                    assert(before[k] == other);
                } else if k > at {
                    assert(before[k - 1] == other);
                }
            }
        }
    }
}

impl Json {
    /// The names of the members of an object, in order, each once.
    pub fn member_names(&self) -> (r: Vec<String>)
        ensures
            names_members(texts(r@), self@),
    {
        let mut names: Vec<String> = Vec::new();
        if let Json::Object(members) = self {
            for i in 0..members.len()
                invariant
                    in_order(texts(names@)),
                    forall|name: Seq<char>| #[trigger]
                        texts(names@).contains(name) <==> members_view(
                            members@,
                            i as nat,
                        ).contains_key(name),
            {
                enter_name(&mut names, members[i].0.as_str());
            }
        }
        names
    }

    /// The member of an object with the name `key`.
    pub fn get(&self, key: &str) -> (r: Option<&Json>)
        ensures
            opt_view(r) == self@.field(key@),
    {
        match self {
            Json::Object(members) => {
                let mut i: usize = members.len();
                let ghost all = members_view(members@, members@.len());
                while i > 0
                    invariant
                        i <= members.len(),
                        self@ == JsonView::Object(all),
                        all == members_view(members@, members@.len()),
                        all.contains_key(key@) == members_view(members@, i as nat).contains_key(key@),
                        all.contains_key(key@) ==> all[key@] == members_view(members@, i as nat)[key@],
                    decreases i,
                {
                    if same_text(members[i - 1].0.as_str(), key) {
                        return Some(&members[i - 1].1);
                    }
                    i -= 1;
                }
                None
            },
            _ => None,
        }
    }

    /// Whether this is an object with a member named `key`.
    pub fn has(&self, key: &str) -> (r: bool)
        ensures
            r == self@.has(key@),
    {
        self.get(key).is_some()
    }

    /// The characters of a string.
    pub fn as_str(&self) -> (r: Option<&str>)
        ensures
            opt_text(r) == self@.as_str(),
    {
        match self {
            Json::Str(s) => Some(s.as_str()),
            _ => None,
        }
    }

    /// The items of an array.
    pub fn as_array(&self) -> (r: Option<&Vec<Json>>)
        ensures
            match r {
                Some(items) => self@.as_array() == Some(views(items@)),
                None => self@.as_array() is None,
            },
    {
        match self {
            Json::Array(items) => {
                proof {
                    lemma_items_view(items@, items@.len());
                    assert(views(items@).take(items@.len() as int) =~= views(items@));
                }
                Some(items)
            },
            _ => None,
        }
    }

    /// The value of a boolean.
    pub fn as_bool(&self) -> (r: Option<bool>)
        ensures
            r == self@.as_bool(),
    {
        match self {
            Json::Bool(b) => Some(*b),
            _ => None,
        }
    }

    /// The value of a number that is an integer and fits in a `u64`.
    pub fn as_u64(&self) -> (r: Option<u64>)
        ensures
            r == self@.as_u64(),
    {
        match self {
            Json::Number(n) => n.as_u64(),
            _ => None,
        }
    }

    /// The member of the member: what `outer.inner` names.
    pub fn nested(&self, outer: &str, inner: &str) -> (r: Option<&Json>)
        ensures
            opt_view(r) == self@.nested(outer@, inner@),
    {
        match self.get(outer) {
            Some(v) => v.get(inner),
            None => None,
        }
    }

    /// The string that the member `key` holds, where it holds one.
    pub fn str_field(&self, key: &str) -> (r: Option<&str>)
        ensures
            opt_text(r) == self@.str_field(key@),
    {
        match self.get(key) {
            Some(v) => v.as_str(),
            None => None,
        }
    }

    /// The items of the array that the member `key` holds, where it holds one.
    pub fn array_field(&self, key: &str) -> (r: Option<&Vec<Json>>)
        ensures
            match r {
                Some(items) => self@.array_field(key@) == Some(views(items@)),
                None => self@.array_field(key@) is None,
            },
    {
        match self.get(key) {
            Some(v) => v.as_array(),
            None => None,
        }
    }

    /// Whether the member `key` is a string with at least one character.
    pub fn has_text(&self, key: &str) -> (r: bool)
        ensures
            r == self@.has_text(key@),
    {
        match self.str_field(key) {
            Some(s) => !s.is_empty(),
            None => false,
        }
    }

    /// Whether the member `key` is an array with at least one item.
    pub fn has_items(&self, key: &str) -> (r: bool)
        ensures
            r == self@.has_items(key@),
    {
        match self.array_field(key) {
            Some(a) => a.len() > 0,
            None => false,
        }
    }

    /// The same document once more.
    pub fn duplicate(&self) -> (r: Json)
        ensures
            r@ == self@,
        decreases self,
    {
        match self {
            Json::Null => Json::Null,
            Json::Bool(b) => Json::Bool(*b),
            Json::Number(n) => Json::Number(n.clone()),
            Json::Str(s) => Json::Str(s.clone()),
            Json::Array(items) => {
                let mut out: Vec<Json> = Vec::new();
                for i in 0..items.len()
                    invariant
                        self == Json::Array(*items),
                        out.len() == i,
                        forall|j: int| 0 <= j < i ==> out[j]@ == items[j]@,
                {
                    proof {
                        assert(decreases_to!(*self => self->Array_0));
                        assert(decreases_to!(self->Array_0 => items@));
                        assert(decreases_to!(items@ => items@[i as int]));
                    }
                    out.push(items[i].duplicate());
                }
                proof {
                    assert(views(out@) =~= views(items@));
                    lemma_items_view(out@, out@.len());
                    lemma_items_view(items@, items@.len());
                }
                Json::Array(out)
            },
            Json::Object(members) => {
                let mut out: Members = Members::new();
                for i in 0..members.len()
                    invariant
                        self == Json::Object(*members),
                        out@ == members_view(members@, i as nat),
                {
                    proof {
                        assert(decreases_to!(*self => self->Object_0));
                        assert(decreases_to!(self->Object_0 => members@));
                        assert(decreases_to!(members@ => members@[i as int]));
                        assert(decreases_to!(members@[i as int] => members@[i as int].1));
                    }
                    out = out.with(members[i].0.as_str(), members[i].1.duplicate());
                }
                out.object()
            },
        }
    }
}

/// The string `s` as a document.
pub fn text_json(s: &str) -> (r: Json)
    ensures
        r@ == JsonView::Str(s@),
{
    Json::Str(s.to_owned())
}

/// The integer `i` as a document.
pub fn integer_json(i: i64) -> (r: Json)
    ensures
        r@ == JsonView::Number(NumberView::Integer(i as int)),
{
    Json::Number(number_from_i64(i))
}

/// An array of the given items.
pub fn array_json(items: Vec<Json>) -> (r: Json)
    ensures
        r@ == JsonView::Array(views(items@)),
{
    proof {
        lemma_items_view(items@, items@.len());
        assert(views(items@).take(items@.len() as int) =~= views(items@));
    }
    Json::Array(items)
}

/// The array of the given strings.
pub open spec fn texts_view(items: Seq<Seq<char>>) -> JsonView {
    JsonView::Array(Seq::new(items.len(), |i: int| JsonView::Str(items[i])))
}

/// The characters of each string.
pub open spec fn str_views(list: Seq<&str>) -> Seq<Seq<char>> {
    Seq::new(list.len(), |i: int| list[i]@)
}

/// The array of the given strings.
pub fn texts_json(list: &[&str]) -> (r: Json)
    ensures
        r@ == texts_view(str_views(list@)),
{
    let mut items: Vec<Json> = Vec::new();
    for i in 0..list.len()
        invariant
            items.len() == i,
            forall|j: int| 0 <= j < i ==> (#[trigger] items[j])@ == JsonView::Str(list[j]@),
    {
        items.push(text_json(list[i]));
    }
    let ghost strings = str_views(list@);
    assert(views(items@) =~= Seq::new(strings.len(), |i: int| JsonView::Str(strings[i])));
    array_json(items)
}

/// The members of an object under construction.
pub struct Members {
    list: Vec<(String, Json)>,
}

impl View for Members {
    type V = Map<Seq<char>, JsonView>;

    closed spec fn view(&self) -> Map<Seq<char>, JsonView> {
        members_view(self.list@, self.list@.len())
    }
}

impl Members {
    /// No members yet.
    pub fn new() -> (r: Members)
        ensures
            r@ == Map::<Seq<char>, JsonView>::empty(),
    {
        Members { list: Vec::new() }
    }

    /// One more member; it takes the place of an earlier one with its name.
    pub fn with(self, key: &str, value: Json) -> (r: Members)
        ensures
            r@ == self@.insert(key@, value@),
    {
        let ghost before = self.list@;
        let mut list: Vec<(String, Json)> = self.list;
        list.push((key.to_owned(), value));
        proof {
            assert(list@ =~= before + seq![list@.last()]);
            lemma_members_prefix(before, seq![list@.last()], before.len());
        }
        Members { list }
    }

    /// The member `key`, a string.
    pub fn with_text(self, key: &str, value: &str) -> (r: Members)
        ensures
            r@ == self@.insert(key@, JsonView::Str(value@)),
    {
        self.with(key, text_json(value))
    }

    /// The object with these members.
    pub fn object(self) -> (r: Json)
        ensures
            r@ == JsonView::Object(self@),
    {
        Json::Object(self.list)
    }
}

/// The members of an object are found under their names, and nothing else is.
pub proof fn law_members_are_found(m: Map<Seq<char>, JsonView>, key: Seq<char>, inner: Seq<char>)
    ensures
        m.contains_key(key) ==> JsonView::Object(m).field(key) == Some(m[key]),
        !m.contains_key(key) ==> JsonView::Object(m).field(key) is None,
        JsonView::Object(m).has(key) <==> m.contains_key(key),
        m.contains_key(key) ==> JsonView::Object(m).nested(key, inner) == m[key].field(inner),
        !m.contains_key(key) ==> JsonView::Object(m).nested(key, inner) is None,
        m.contains_key(key) ==> JsonView::Object(m).field_or_null(key) == m[key],
        !m.contains_key(key) ==> JsonView::Object(m).field_or_null(key) == JsonView::Null,
        m.contains_key(key) ==> JsonView::Object(m).str_field(key) == m[key].as_str(),
        m.contains_key(key) ==> JsonView::Object(m).array_field(key) == m[key].as_array(),
        !m.contains_key(key) ==> JsonView::Object(m).str_field(key) is None,
        !m.contains_key(key) ==> JsonView::Object(m).array_field(key) is None,
{
}

/// A document that is no object has no members.
pub proof fn law_only_objects_have_members(doc: JsonView, key: Seq<char>)
    requires
        !(doc is Object),
    ensures
        doc.field(key) is None,
        !doc.has(key),
        doc.str_field(key) is None,
        doc.array_field(key) is None,
        doc.field_or_null(key) == JsonView::Null,
{
}

/// A value is what it is, and nothing of another kind.
pub proof fn law_values_are_of_one_kind(s: Seq<char>, items: Seq<JsonView>, b: bool, i: int)
    ensures
        JsonView::Str(s).as_str() == Some(s),
        JsonView::Array(items).as_array() == Some(items),
        JsonView::Bool(b).as_bool() == Some(b),
        0 <= i <= u64::MAX ==> JsonView::Number(NumberView::Integer(i)).as_u64() == Some(i as u64),
        !(0 <= i <= u64::MAX) ==> JsonView::Number(NumberView::Integer(i)).as_u64() is None,
        JsonView::Array(items).as_str() is None && JsonView::Null.as_str() is None && JsonView::Bool(
            b,
        ).as_str() is None,
        JsonView::Str(s).as_array() is None && JsonView::Null.as_array() is None,
        JsonView::Str(s).as_u64() is None && JsonView::Null.as_u64() is None,
        items.len() > 0 ==> JsonView::Array(items).first_or_null() == items[0],
        items.len() == 0 ==> JsonView::Array(items).first_or_null() == JsonView::Null,
        JsonView::Null.first_or_null() == JsonView::Null,
{
}

/// A text or a list that is not empty is told from one that is, under any name.
pub proof fn law_contents_are_told_from_none(
    m: Map<Seq<char>, JsonView>,
    key: Seq<char>,
    s: Seq<char>,
    items: Seq<JsonView>,
)
    ensures
        JsonView::Object(m.insert(key, JsonView::Str(s))).has_text(key) <==> s.len() > 0,
        JsonView::Object(m.insert(key, JsonView::Array(items))).has_items(key) <==> items.len() > 0,
        !JsonView::Object(m.insert(key, JsonView::Null)).has_text(key),
        !JsonView::Object(m.insert(key, JsonView::Str(s))).has_items(key),
        !JsonView::Object(m.insert(key, JsonView::Array(items))).has_text(key),
{
}

/// A member that is written takes the place of an earlier one with its name, and leaves the
/// others alone.
pub proof fn law_later_members_count(members: Seq<(String, Json)>, name: String, value: Json)
    ensures
        members_view(members.push((name, value)), members.len() + 1) == members_view(
            members,
            members.len(),
        ).insert(name@, json_view(value)),
        members_view(Seq::empty(), 0) == Map::<Seq<char>, JsonView>::empty(),
{
    let longer = members.push((name, value));
    assert(longer =~= members + seq![(name, value)]);
    lemma_members_prefix(members, seq![(name, value)], members.len());
}

/// The content of a document is that of its parts.
pub proof fn law_contents_of_documents(
    b: bool,
    s: String,
    items: Vec<Json>,
    members: Vec<(String, Json)>,
    i: int,
)
    requires
        0 <= i < items@.len(),
    ensures
        Json::Null@ == JsonView::Null,
        Json::Bool(b)@ == JsonView::Bool(b),
        Json::Str(s)@ == JsonView::Str(s@),
        (Json::Array(items)@)->Array_0.len() == items@.len(),
        (Json::Array(items)@)->Array_0[i] == items@[i]@,
        Json::Array(items)@ is Array && Json::Object(members)@ is Object,
        Json::Object(members)@ == JsonView::Object(members_view(members@, members@.len())),
{
    lemma_items_view(items@, items@.len());
    assert(views(items@).take(items@.len() as int) =~= views(items@));
}

/// An array of strings holds each of them, in order.
pub proof fn law_arrays_of_strings(items: Seq<Seq<char>>, i: int)
    requires
        0 <= i < items.len(),
    ensures
        texts_view(items) is Array,
        texts_view(items)->Array_0.len() == items.len(),
        texts_view(items)->Array_0[i] == JsonView::Str(items[i]),
{
}

/// The names of the members are all there, and stand in the order of strings.
pub proof fn law_member_names_are_told(
    names: Seq<Seq<char>>,
    doc: JsonView,
    name: Seq<char>,
    i: int,
    j: int,
)
    requires
        names_members(names, doc),
    ensures
        names.contains(name) <==> doc.field(name) is Some,
        0 <= i < j < names.len() ==> precedes(names[i], names[j]) && names[i] != names[j],
{
    if 0 <= i < j < names.len() {
        lemma_precedes_is_an_order(names[i], names[j], names[j]);
    }
}

/// What is handed out is what is told: each document, each text, and none for none.
pub proof fn law_what_is_handed_out_is_told(
    items: Seq<Json>,
    texts: Seq<&str>,
    i: int,
    n: serde_json::Number,
)
    ensures
        views(items).len() == items.len(),
        0 <= i < items.len() ==> views(items)[i] == items[i]@,
        0 <= i < items.len() ==> opt_view(Some(&items[i])) == Some(items[i]@),
        opt_view(None) is None,
        str_views(texts).len() == texts.len(),
        0 <= i < texts.len() ==> str_views(texts)[i] == texts[i]@,
        0 <= i < texts.len() ==> opt_text(Some(texts[i])) == Some(texts[i]@),
        opt_text(None) is None,
        Json::Number(n)@ == JsonView::Number(number_contents(n)),
{
}

/// A number, a boolean or nothing at all is never taken for a text, a list or one another.
pub proof fn law_kinds_are_not_mixed_up(n: NumberView, b: bool, s: Seq<char>, items: Seq<JsonView>)
    ensures
        JsonView::Number(n).as_str() is None && JsonView::Number(n).as_array() is None
            && JsonView::Number(n).as_bool() is None,
        JsonView::Bool(b).as_array() is None && JsonView::Bool(b).as_u64() is None,
        JsonView::Str(s).as_bool() is None && JsonView::Array(items).as_bool() is None
            && JsonView::Null.as_bool() is None,
        JsonView::Array(items).as_u64() is None,
        !(n is Integer) ==> JsonView::Number(n).as_u64() is None,
{
}

} // verus!
