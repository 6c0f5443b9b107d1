//! Text: comparison, affixes, trimming, numerals and byte-bounded slices.
//!
//! A string is modelled by its sequence of characters. Everything here is
//! proved but what std does: its Unicode case mapping and its lossy reading of UTF-8.

use vstd::prelude::*;
use vstd::string::*;
use vstd::utf8::{
    decode_utf8, encode_scalar, encode_utf8, is_ascii_chars, is_char_boundary, valid_utf8,
};

verus! {

/// The characters of `s`, one per element.
pub fn chars_of(s: &str) -> (r: Vec<char>)
    ensures
        r@ == s@,
{
    let mut out: Vec<char> = Vec::new();
    for c in it: s.chars()
        invariant
            out@ == it.seq().take(it.index()),
            it.seq() == s@,
    {
        out.push(c);
    }
    out
}

/// The characters of each string.
pub open spec fn texts(list: Seq<String>) -> Seq<Seq<char>> {
    Seq::new(list.len(), |i: int| list[i]@)
}

/// The characters of a string that may be missing.
pub open spec fn opt_chars(o: Option<String>) -> Option<Seq<char>> {
    match o {
        Some(s) => Some(s@),
        None => None,
    }
}

/// Whether two strings hold the same characters.
pub fn same_text(a: &str, b: &str) -> (r: bool)
    ensures
        r == (a@ == b@),
{
    let x: Vec<char> = chars_of(a);
    let y: Vec<char> = chars_of(b);
    x.len() == y.len() && occurs_at(&x, &y, 0)
}

/// Whether `a` stands before `b` in the order of strings: at the first place where they
/// differ `a` has the smaller character, or it ends there.
pub open spec fn precedes(a: Seq<char>, b: Seq<char>) -> bool
    decreases a.len(),
{
    if b.len() == 0 {
        false
    } else if a.len() == 0 {
        true
    } else if a[0] != b[0] {
        a[0] < b[0]
    } else {
        precedes(a.drop_first(), b.drop_first())
    }
}

/// Whether `a` stands before `b` in the order of strings.
pub fn is_before(a: &str, b: &str) -> (r: bool)
    ensures
        r == precedes(a@, b@),
{
    let x: Vec<char> = chars_of(a);
    let y: Vec<char> = chars_of(b);
    let mut i: usize = 0;
    assert(a@.skip(0) =~= a@ && b@.skip(0) =~= b@);
    while i < x.len() && i < y.len() && x[i] == y[i]
        invariant
            x@ == a@,
            y@ == b@,
            i <= x.len(),
            i <= y.len(),
            precedes(a@, b@) == precedes(a@.skip(i as int), b@.skip(i as int)),
        decreases x.len() - i,
    {
        assert(a@.skip(i as int).drop_first() =~= a@.skip(i + 1));
        assert(b@.skip(i as int).drop_first() =~= b@.skip(i + 1));
        i += 1;
    }
    i < y.len() && (i == x.len() || x[i] < y[i])
}

/// The order of strings is strict, total and transitive.
pub proof fn lemma_precedes_is_an_order(a: Seq<char>, b: Seq<char>, c: Seq<char>)
    ensures
        !precedes(a, a),
        a == b || precedes(a, b) || precedes(b, a),
        precedes(a, b) && precedes(b, c) ==> precedes(a, c),
    decreases a.len(),
{
    if a.len() == 0 {
        assert(b.len() == 0 ==> a =~= b);
    } else {
        lemma_precedes_is_an_order(
            a.drop_first(),
            if b.len() == 0 {
                b
            } else {
                b.drop_first()
            },
            if c.len() == 0 {
                c
            } else {
                c.drop_first()
            },
        );
        if b.len() > 0 && a[0] == b[0] && a.drop_first() == b.drop_first() {
            assert(a =~= seq![a[0]] + a.drop_first());
            assert(b =~= seq![b[0]] + b.drop_first());
        }
    }
}

/// Whether a text holds no line break.
pub open spec fn one_line(s: Seq<char>) -> bool {
    forall|i: int| 0 <= i < s.len() ==> #[trigger] s[i] != '\n' && s[i] != '\r'
}

/// Whether `needle` stands in `hay` at position `at`.
pub open spec fn occurs(hay: Seq<char>, needle: Seq<char>, at: int) -> bool {
    0 <= at && at + needle.len() <= hay.len() && hay.subrange(at, at + needle.len()) == needle
}

fn occurs_at(hay: &Vec<char>, needle: &Vec<char>, at: usize) -> (r: bool)
    requires
        at + needle.len() <= hay.len(),
    ensures
        r == occurs(hay@, needle@, at as int),
        hay.len() == needle.len() ==> r == (hay@ == needle@),
{
    for i in 0..needle.len()
        invariant
            at + needle.len() <= hay.len(),
            forall|j: int| 0 <= j < i ==> hay[at + j] == needle[j],
    {
        if hay[at + i] != needle[i] {
            proof {
                assert(hay@.subrange(at as int, at + needle@.len())[i as int] != needle@[i as int]);
            }
            return false;
        }
    }
    assert(hay@.subrange(at as int, at + needle@.len()) =~= needle@);
    assert(hay.len() == needle.len() ==> hay@ =~= needle@);
    true
}

/// Whether `s` begins with `prefix`.
pub open spec fn begins(s: Seq<char>, prefix: Seq<char>) -> bool {
    occurs(s, prefix, 0)
}

/// Whether `s` ends with `suffix`.
pub open spec fn ends(s: Seq<char>, suffix: Seq<char>) -> bool {
    occurs(s, suffix, s.len() - suffix.len())
}

/// Whether `needle` stands somewhere in `s`.
pub open spec fn holds(s: Seq<char>, needle: Seq<char>) -> bool {
    exists|at: int| occurs(s, needle, at)
}

/// Whether `s` begins with `prefix`.
pub fn starts_with(s: &str, prefix: &str) -> (r: bool)
    ensures
        r == begins(s@, prefix@),
{
    let hay: Vec<char> = chars_of(s);
    let needle: Vec<char> = chars_of(prefix);
    needle.len() <= hay.len() && occurs_at(&hay, &needle, 0)
}

/// Whether `s` ends with `suffix`.
pub fn ends_with(s: &str, suffix: &str) -> (r: bool)
    ensures
        r == ends(s@, suffix@),
{
    let hay: Vec<char> = chars_of(s);
    let needle: Vec<char> = chars_of(suffix);
    needle.len() <= hay.len() && occurs_at(&hay, &needle, hay.len() - needle.len())
}

/// Whether `needle` stands somewhere in `s`.
pub fn contains(s: &str, needle: &str) -> (r: bool)
    ensures
        r == holds(s@, needle@),
{
    let hay: Vec<char> = chars_of(s);
    let piece: Vec<char> = chars_of(needle);
    let mut at: usize = 0;
    while at <= hay.len() && piece.len() <= hay.len() - at
        invariant
            hay@ == s@,
            piece@ == needle@,
            at <= hay.len() + 1,
            forall|k: int| 0 <= k < at ==> !occurs(s@, needle@, k),
        decreases hay.len() + 1 - at,
    {
        if occurs_at(&hay, &piece, at) {
            return true;
        }
        if at == hay.len() {
            return false;
        }
        at += 1;
    }
    false
}

/// The place of the first `wanted` in `s`, if there is one.
pub fn find_char(s: &Vec<char>, wanted: char) -> (r: Option<usize>)
    ensures
        match r {
            Some(i) => i < s.len() && s[i as int] == wanted && forall|j: int|
                0 <= j < i ==> s[j] != wanted,
            None => forall|j: int| 0 <= j < s.len() ==> s[j] != wanted,
        },
{
    for i in 0..s.len()
        invariant
            forall|j: int| 0 <= j < i ==> s[j] != wanted,
    {
        if s[i] == wanted {
            return Some(i);
        }
    }
    None
}

/// The characters with the Unicode property `White_Space`.
pub open spec fn white_space(c: char) -> bool {
    ||| '\u{9}' <= c <= '\u{d}'
    ||| c == ' '
    ||| c == '\u{85}'
    ||| c == '\u{a0}'
    ||| c == '\u{1680}'
    ||| '\u{2000}' <= c <= '\u{200a}'
    ||| c == '\u{2028}'
    ||| c == '\u{2029}'
    ||| c == '\u{202f}'
    ||| c == '\u{205f}'
    ||| c == '\u{3000}'
}

fn is_white_space(c: char) -> (r: bool)
    ensures
        r == white_space(c),
{
    ('\u{9}' <= c && c <= '\u{d}') || c == ' ' || c == '\u{85}' || c == '\u{a0}' || c == '\u{1680}'
        || ('\u{2000}' <= c && c <= '\u{200a}') || c == '\u{2028}' || c == '\u{2029}' || c
        == '\u{202f}' || c == '\u{205f}' || c == '\u{3000}'
}

/// `s` without the white space at its two ends.
pub open spec fn trimmed(s: Seq<char>) -> Seq<char>
    decreases s.len(),
{
    if s.len() == 0 {
        s
    } else if white_space(s[0]) {
        trimmed(s.drop_first())
    } else if white_space(s.last()) {
        trimmed(s.drop_last())
    } else {
        s
    }
}

/// `s` without the white space at its two ends.
pub fn trim(s: &str) -> (r: &str)
    ensures
        r@ == trimmed(s@),
{
    let chars: Vec<char> = chars_of(s);
    let mut from: usize = 0;
    let mut to: usize = chars.len();
    assert(s@.subrange(0, to as int) =~= s@);
    while from < to && is_white_space(chars[from])
        invariant
            chars@ == s@,
            from <= to == s@.len(),
            trimmed(s@) == trimmed(s@.subrange(from as int, to as int)),
        decreases to - from,
    {
        assert(s@.subrange(from as int, to as int).drop_first() =~= s@.subrange(
            from + 1,
            to as int,
        ));
        from += 1;
    }
    while from < to && is_white_space(chars[to - 1])
        invariant
            chars@ == s@,
            from <= to <= s@.len(),
            from < to ==> !white_space(s@[from as int]),
            trimmed(s@) == trimmed(s@.subrange(from as int, to as int)),
        decreases to - from,
    {
        assert(s@.subrange(from as int, to as int).drop_last() =~= s@.subrange(from as int, to - 1));
        to -= 1;
    }
    assert(trimmed(s@.subrange(from as int, to as int)) == s@.subrange(from as int, to as int));
    s.substring_char(from, to)
}

/// The Unicode lower-case form of a text.
pub uninterp spec fn lowercase(s: Seq<char>) -> Seq<char>;

/// `c`, with an ASCII capital letter made small.
pub open spec fn ascii_lower(c: char) -> char {
    if 'A' <= c <= 'Z' {
        ((c as u32) + 32) as char
    } else {
        c
    }
}

/// The lower-case form of `s`: letter by letter in ASCII text, else the Unicode
/// mapping.
pub open spec fn lowered(s: Seq<char>) -> Seq<char> {
    if is_ascii_chars(s) {
        s.map_values(|c: char| ascii_lower(c))
    } else {
        lowercase(s)
    }
}

/// The lower-case form of `s`.
pub fn lower(s: &str) -> (r: String)
    ensures
        r@ == lowered(s@),
{
    to_lowercase(s)
}

/// `str::to_lowercase` of std: the Unicode lower-case form of `s`, which is a
/// function of the characters alone. On ASCII text it makes `A` to `Z` small and
/// leaves the rest as it is; what it does beyond ASCII is not stated.
#[verifier::external_body]
fn to_lowercase(s: &str) -> (r: String)
    ensures
        r@ == lowercase(s@),
        is_ascii_chars(s@) ==> r@ == s@.map_values(|c: char| ascii_lower(c)),
{
    s.to_lowercase()
}

/// The text that bytes spell as UTF-8, with a replacement character for what spells
/// none.
pub uninterp spec fn utf8_lossy(bytes: Seq<u8>) -> Seq<char>;

/// `String::from_utf8_lossy` of std: the text that `bytes` spell. It is a function
/// of the bytes alone, and on valid UTF-8 it is the text itself; where replacement
/// characters go is not stated.
#[verifier::external_body]
fn from_utf8_lossy(bytes: &[u8]) -> (r: String)
    ensures
        r@ == utf8_lossy(bytes@),
        valid_utf8(bytes@) ==> r@ == decode_utf8(bytes@),
{
    String::from_utf8_lossy(bytes).into_owned()
}

/// The text that bytes spell: exactly where they are UTF-8, else with replacement
/// characters.
pub open spec fn text_of_bytes(bytes: Seq<u8>) -> Seq<char> {
    if valid_utf8(bytes) {
        decode_utf8(bytes)
    } else {
        utf8_lossy(bytes)
    }
}

/// The text that bytes spell.
pub fn lossy_text(bytes: &[u8]) -> (r: String)
    ensures
        r@ == text_of_bytes(bytes@),
{
    from_utf8_lossy(bytes)
}

/// The character of a decimal digit.
pub open spec fn digit_char(d: nat) -> char {
    ((48 + d) as u32) as char
}

/// The decimal numeral of `n`, without leading zeros.
pub open spec fn decimal_text(n: nat) -> Seq<char>
    decreases n,
{
    if n < 10 {
        seq![digit_char(n)]
    } else {
        decimal_text(n / 10).push(digit_char(n % 10))
    }
}

fn digit(d: u64) -> (r: &'static str)
    requires
        d < 10,
    ensures
        r@ == seq![digit_char(d as nat)],
{
    proof {
        reveal_strlit("0");
        reveal_strlit("1");
        reveal_strlit("2");
        reveal_strlit("3");
        reveal_strlit("4");
        reveal_strlit("5");
        reveal_strlit("6");
        reveal_strlit("7");
        reveal_strlit("8");
        reveal_strlit("9");
    }
    let r: &'static str = match d {
        0 => "0",
        1 => "1",
        2 => "2",
        3 => "3",
        4 => "4",
        5 => "5",
        6 => "6",
        7 => "7",
        8 => "8",
        _ => "9",
    };
    assert(r@ =~= seq![digit_char(d as nat)]);
    r
}

/// The decimal numeral of `n`, without leading zeros.
pub fn decimal(n: u64) -> (r: String)
    ensures
        r@ == decimal_text(n as nat),
    decreases n,
{
    let mut out: String = if n < 10 {
        String::new()
    } else {
        decimal(n / 10)
    };
    out.append(digit(n % 10));
    assert(out@ =~= decimal_text(n as nat));
    out
}

/// The value of a run of decimal digits, read from the left.
pub open spec fn digits_value(s: Seq<char>) -> nat
    decreases s.len(),
{
    if s.len() == 0 {
        0
    } else {
        digits_value(s.drop_last()) * 10 + (s.last() as nat - 48) as nat
    }
}

/// Whether every character is a decimal digit.
pub open spec fn all_digits(s: Seq<char>) -> bool {
    forall|i: int| 0 <= i < s.len() ==> '0' <= #[trigger] s[i] <= '9'
}

/// The digits of a numeral: what follows an optional leading `+`.
pub open spec fn numeral_digits(s: Seq<char>) -> Seq<char> {
    if s.len() > 0 && s[0] == '+' {
        s.drop_first()
    } else {
        s
    }
}

/// The number that a numeral stands for: an optional `+`, then one or more
/// decimal digits whose value is at most `max`.
pub open spec fn numeral_value(s: Seq<char>, max: nat) -> Option<nat> {
    let digits = numeral_digits(s);
    if digits.len() > 0 && all_digits(digits) && digits_value(digits) <= max {
        Some(digits_value(digits))
    } else {
        None
    }
}

/// More digits never make the value smaller.
proof fn lemma_digits_value_grows(s: Seq<char>, n: int)
    requires
        0 <= n <= s.len(),
        all_digits(s),
    ensures
        digits_value(s.take(n)) <= digits_value(s),
    decreases s.len() - n,
{
    if n < s.len() {
        lemma_digits_value_grows(s, n + 1);
        assert(s.take(n + 1).drop_last() =~= s.take(n));
    } else {
        assert(s.take(n) =~= s);
    }
}

/// Reads a numeral of at most `max`; `None` where `s` is none.
pub fn parse_number(s: &str, max: u64) -> (r: Option<u64>)
    ensures
        match r {
            Some(v) => numeral_value(s@, max as nat) == Some(v as nat),
            None => numeral_value(s@, max as nat) is None,
        },
{
    let chars: Vec<char> = chars_of(s);
    let start: usize = if chars.len() > 0 && chars[0] == '+' {
        1
    } else {
        0
    };
    let ghost digits = numeral_digits(s@);
    assert(digits =~= s@.subrange(start as int, s@.len() as int));
    if chars.len() == start {
        return None;
    }
    let mut value: u64 = 0;
    let mut i: usize = start;
    assert(digits.take(0) =~= Seq::<char>::empty());
    while i < chars.len()
        invariant
            chars@ == s@,
            start <= i <= chars.len(),
            digits == s@.subrange(start as int, s@.len() as int),
            digits == numeral_digits(s@),
            all_digits(digits.take(i - start)),
            value == digits_value(digits.take(i - start)),
            value <= max,
        decreases chars.len() - i,
    {
        let c: char = chars[i];
        assert(digits[i - start] == c);
        assert(digits.take(i - start + 1).drop_last() =~= digits.take(i - start));
        if c < '0' || c > '9' {
            return None;
        }
        let d: u64 = (c as u32 - 48) as u64;
        assert(all_digits(digits.take(i - start + 1))) by {
            assert forall|j: int| 0 <= j < i - start + 1 implies '0' <= #[trigger] digits.take(
                i - start + 1,
            )[j] <= '9' by {
                if j < i - start {
                    assert(digits.take(i - start)[j] == digits[j]);
                }
            }
        }
        if value > max / 10 || max - value * 10 < d {
            proof {
                if all_digits(digits) {
                    lemma_digits_value_grows(digits, i - start + 1);
                }
            }
            return None;
        }
        value = value * 10 + d;
        i += 1;
    }
    assert(digits.take(i - start) =~= digits);
    Some(value)
}

/// The number in a setting, or `default` where the setting is missing or holds no numeral
/// of at most `max`.
pub open spec fn setting_value(setting: Option<Seq<char>>, max: nat, default: nat) -> nat {
    match setting {
        Some(s) => match numeral_value(s, max) {
            Some(v) => v,
            None => default,
        },
        None => default,
    }
}

/// The number in a setting, or `default` where there is none to be had.
pub fn number_setting(setting: Option<&str>, max: u64, default: u64) -> (r: u64)
    ensures
        r == setting_value(
            match setting {
                Some(s) => Some(s@),
                None => None,
            },
            max as nat,
            default as nat,
        ),
{
    match setting {
        Some(s) => match parse_number(s, max) {
            Some(v) => v,
            None => default,
        },
        None => default,
    }
}

/// The encoding of a text is that of its pieces, end to end.
pub proof fn lemma_encode_utf8_concat(a: Seq<char>, b: Seq<char>)
    ensures
        encode_utf8(a + b) == encode_utf8(a) + encode_utf8(b),
    decreases a.len(),
{
    if a.len() == 0 {
        assert(a + b =~= b);
    } else {
        assert((a + b).drop_first() =~= a.drop_first() + b);
        lemma_encode_utf8_concat(a.drop_first(), b);
    }
}

/// A text ends, in the bytes of any longer text that begins with it, between
/// two characters.
proof fn lemma_prefix_ends_at_boundary(s: Seq<char>, n: int)
    requires
        0 <= n <= s.len(),
    ensures
        is_char_boundary(encode_utf8(s), encode_utf8(s.take(n)).len() as int),
        encode_utf8(s.take(n)).len() <= encode_utf8(s).len(),
    decreases n,
{
    broadcast use vstd::utf8::group_utf8_lib;

    let bytes = encode_utf8(s);
    assert(s =~= s.take(n) + s.skip(n));
    lemma_encode_utf8_concat(s.take(n), s.skip(n));
    if n > 0 {
        let rest = s.drop_first();
        assert(s.take(n).drop_first() =~= rest.take(n - 1));
        lemma_prefix_ends_at_boundary(rest, n - 1);
        vstd::utf8::encode_utf8_first_scalar(s);
        let width = encode_scalar(s[0] as u32).len();
        assert(vstd::utf8::length_of_first_scalar(bytes) == width);
        assert(vstd::utf8::pop_first_scalar(bytes) =~= encode_utf8(rest));
    }
}

/// The beginning of `s` that fits in `max_bytes` bytes of UTF-8, cut between
/// characters.
pub fn safe_slice(s: &str, max_bytes: usize) -> (r: &str)
    ensures
        r@.is_prefix_of(s@),
        encode_utf8(r@).len() <= max_bytes,
        r@.len() < s@.len() ==> encode_utf8(s@.take(r@.len() as int + 1)).len() > max_bytes,
{
    broadcast use vstd::utf8::group_utf8_lib;

    if s.as_bytes().len() <= max_bytes {
        assert(s@.is_prefix_of(s@));
        s
    } else {
        let ghost bytes = s.spec_bytes();
        let mut end: usize = max_bytes;
        while end > 0 && !s.is_char_boundary(end)
            invariant
                end <= max_bytes < bytes.len(),
                bytes == s.spec_bytes(),
                valid_utf8(bytes),
                forall|k: int| end < k <= max_bytes ==> !is_char_boundary(bytes, k),
            decreases end,
        {
            end -= 1;
        }
        let (head, tail) = s.split_at(end);
        proof {
            assert(decode_utf8(bytes) == s@);
            assert(decode_utf8(bytes.subrange(0, end as int)) == head@);
            assert(decode_utf8(bytes.subrange(end as int, bytes.len() as int)) == tail@);
            vstd::utf8::decode_utf8_split(bytes, end as int);
            assert(s@ == head@ + tail@);
            assert(s@.take(head@.len() as int) =~= head@);
            if head@.len() < s@.len() {
                let next = head@.len() as int + 1;
                lemma_prefix_ends_at_boundary(s@, next);
                assert(s@.take(next) =~= head@ + seq![s@[next - 1]]);
                lemma_encode_utf8_concat(head@, seq![s@[next - 1]]);
                assert(encode_utf8(seq![s@[next - 1]]).len() > 0);
            }
        }
        head
    }
}

/// A piece stands where it was put: at the beginning, at the end or in the middle.
pub proof fn law_pieces_are_found(a: Seq<char>, b: Seq<char>, c: Seq<char>)
    ensures
        begins(a + b, a),
        ends(a + b, b),
        holds(a + b + c, b),
{
    assert((a + b).subrange(0, a.len() as int) =~= a);
    assert((a + b).subrange((a + b).len() - b.len(), (a + b).len() as int) =~= b);
    assert((a + b + c).subrange(a.len() as int, (a.len() + b.len()) as int) =~= b);
    assert(occurs(a + b + c, b, a.len() as int));
}

/// A piece that is found can be taken off: what is left makes the text with it.
pub proof fn law_found_pieces_make_the_text(s: Seq<char>, p: Seq<char>)
    ensures
        begins(s, p) ==> s == p + s.skip(p.len() as int),
        ends(s, p) ==> s == s.take(s.len() - p.len()) + p,
        holds(s, p) ==> exists|a: Seq<char>, c: Seq<char>| #[trigger] (a + p + c) == s,
{
    if begins(s, p) {
        assert(s =~= s.subrange(0, p.len() as int) + s.skip(p.len() as int));
    }
    if ends(s, p) {
        let at = s.len() - p.len();
        assert(s =~= s.take(at) + s.subrange(at, at + p.len()));
    }
    if holds(s, p) {
        let at = choose|at: int| occurs(s, p, at);
        let a = s.take(at);
        let c = s.skip(at + p.len());
        assert(s =~= a + s.subrange(at, at + p.len()) + c);
        assert(a + p + c == s);
    }
}

/// Whether every character is white space.
pub open spec fn all_white(s: Seq<char>) -> bool {
    forall|i: int| 0 <= i < s.len() ==> white_space(#[trigger] s[i])
}

/// Trimming takes the white space at both ends off, all of it, and leaves what is between
/// as it is, with the white space inside it.
pub proof fn law_trimming(a: Seq<char>, middle: Seq<char>, b: Seq<char>)
    requires
        all_white(a),
        all_white(b),
        middle.len() > 0 ==> !white_space(middle[0]) && !white_space(middle.last()),
    ensures
        trimmed(a + middle + b) == middle,
    decreases a.len() + b.len(),
{
    let s = a + middle + b;
    if middle.len() == 0 {
        assert(middle =~= Seq::empty());
        assert(s =~= a + b);
        if a.len() > 0 {
            let rest = a.drop_first();
            assert forall|i: int| 0 <= i < rest.len() implies white_space(#[trigger] rest[i]) by {
                assert(rest[i] == a[i + 1]);
            }
            law_trimming(rest, middle, b);
            assert(s[0] == a[0]);
            assert(s.drop_first() =~= rest + middle + b);
        } else if b.len() > 0 {
            let rest = b.drop_first();
            assert forall|i: int| 0 <= i < rest.len() implies white_space(#[trigger] rest[i]) by {
                assert(rest[i] == b[i + 1]);
            }
            law_trimming(a, middle, rest);
            assert(s[0] == b[0]);
            assert(s.drop_first() =~= a + middle + rest);
        } else {
            assert(s =~= Seq::empty());
        }
    } else if a.len() > 0 {
        let rest = a.drop_first();
        assert forall|i: int| 0 <= i < rest.len() implies white_space(#[trigger] rest[i]) by {
            assert(rest[i] == a[i + 1]);
        }
        law_trimming(rest, middle, b);
        assert(s[0] == a[0]);
        assert(s.drop_first() =~= rest + middle + b);
    } else if b.len() > 0 {
        let rest = b.drop_last();
        assert forall|i: int| 0 <= i < rest.len() implies white_space(#[trigger] rest[i]) by {
            assert(rest[i] == b[i]);
        }
        law_trimming(a, middle, rest);
        assert(s[0] == middle[0]);
        assert(s.last() == b.last());
        assert(s.drop_last() =~= a + middle + rest);
    } else {
        assert(s =~= middle);
    }
}

/// Which characters are white space, by their code points.
pub proof fn law_white_space_code_points(c: char)
    ensures
        (c as u32) < 128 ==> (white_space(c) <==> c as u32 == 32 || 9 <= c as u32 <= 13),
        (c as u32) >= 128 ==> (white_space(c) <==> c as u32 == 0x85 || c as u32 == 0xa0 || c as u32
            == 0x1680 || 0x2000 <= c as u32 <= 0x200a || c as u32 == 0x2028 || c as u32 == 0x2029
            || c as u32 == 0x202f || c as u32 == 0x205f || c as u32 == 0x3000),
{
}

/// In ASCII text each capital letter becomes the small one, and every other character stays.
pub proof fn law_ascii_letters_become_small(s: Seq<char>, i: int)
    requires
        is_ascii_chars(s),
        0 <= i < s.len(),
    ensures
        lowered(s).len() == s.len(),
        'A' <= s[i] <= 'Z' ==> lowered(s)[i] as int == s[i] as int + 32,
        !('A' <= s[i] <= 'Z') ==> lowered(s)[i] == s[i],
{
}

/// A number is read back from its numeral, and the numeral has no zero in front.
pub proof fn law_numerals_read_back(n: nat, max: nat)
    requires
        n <= max,
    ensures
        numeral_value(decimal_text(n), max) == Some(n),
        numeral_value(seq!['+'] + decimal_text(n), max) == Some(n),
        decimal_text(n).len() > 0,
        all_digits(decimal_text(n)),
        n > 0 ==> decimal_text(n)[0] != '0',
{
    lemma_decimal_digits(n);
    let d = decimal_text(n);
    assert('0' <= d[0] <= '9');
    assert((seq!['+'] + d).drop_first() =~= d);
}

proof fn lemma_decimal_digits(n: nat)
    ensures
        decimal_text(n).len() > 0,
        all_digits(decimal_text(n)),
        digits_value(decimal_text(n)) == n,
        n > 0 ==> decimal_text(n)[0] != '0',
    decreases n,
{
    let d = decimal_text(n);
    reveal_with_fuel(digits_value, 2);
    if n < 10 {
        assert(d.drop_last() =~= Seq::empty());
    } else {
        lemma_decimal_digits(n / 10);
        assert(d.drop_last() =~= decimal_text(n / 10));
    }
}

/// A text with anything but digits behind an optional `+`, or with no digit, is no numeral,
/// and neither is one whose number is too large.
pub proof fn law_what_is_no_numeral(s: Seq<char>, max: nat, i: int)
    ensures
        s.len() == 0 ==> numeral_value(s, max) is None,
        s == seq!['+'] ==> numeral_value(s, max) is None,
        0 < i < s.len() && !('0' <= s[i] <= '9') ==> numeral_value(s, max) is None,
        s.len() > 0 && s[0] != '+' && !('0' <= s[0] <= '9') ==> numeral_value(s, max) is None,
        numeral_value(s, max) matches Some(v) ==> v <= max,
{
    let d = numeral_digits(s);
    if 0 < i < s.len() && !('0' <= s[i] <= '9') {
        if s[0] == '+' {
            assert(d[i - 1] == s[i]);
        } else {
            assert(d[i] == s[i]);
        }
    }
    if s.len() > 0 && s[0] != '+' && !('0' <= s[0] <= '9') {
        assert(d[0] == s[0]);
    }
}

/// One digit more makes a number ten times as large, and adds the digit.
pub proof fn law_digits_are_read_from_the_left(s: Seq<char>, d: nat)
    requires
        d < 10,
    ensures
        digits_value(s.push(digit_char(d))) == 10 * digits_value(s) + d,
        digits_value(Seq::empty()) == 0,
{
    assert(s.push(digit_char(d)).drop_last() =~= s);
}

/// A setting that holds a number counts; one that is missing or holds none gives way to the
/// default.
pub proof fn law_settings(s: Seq<char>, n: nat, max: nat, default: nat)
    requires
        n <= max,
    ensures
        setting_value(None, max, default) == default,
        setting_value(Some(decimal_text(n)), max, default) == n,
        numeral_value(s, max) is None ==> setting_value(Some(s), max, default) == default,
{
    law_numerals_read_back(n, max);
}

/// The first difference between two texts decides which stands before the other; a text
/// stands before every longer one that begins with it.
pub proof fn law_first_difference_decides(
    common: Seq<char>,
    x: char,
    y: char,
    a: Seq<char>,
    b: Seq<char>,
)
    ensures
        x < y ==> precedes(common.push(x) + a, common.push(y) + b),
        precedes(common, common.push(x) + a),
    decreases common.len(),
{
    let s = common.push(x) + a;
    let t = common.push(y) + b;
    if common.len() > 0 {
        law_first_difference_decides(common.drop_first(), x, y, a, b);
        assert(s.drop_first() =~= common.drop_first().push(x) + a);
        assert(t.drop_first() =~= common.drop_first().push(y) + b);
    } else {
        assert(s[0] == x && t[0] == y);
    }
}

/// The text of the bytes of a text is that text.
pub proof fn law_bytes_give_their_text(s: Seq<char>)
    ensures
        text_of_bytes(encode_utf8(s)) == s,
{
    broadcast use vstd::utf8::group_utf8_lib;

}

/// Strings are told one by one, in order.
pub proof fn law_strings_are_told_in_order(list: Seq<String>, i: int)
    requires
        0 <= i < list.len(),
    ensures
        texts(list).len() == list.len(),
        texts(list)[i] == list[i]@,
        opt_chars(Some(list[i])) == Some(list[i]@),
        opt_chars(None) is None,
{
}

/// A run of digits stands for its value, zeros in front included, unless that is too large;
/// a digit is the character that people write for it.
pub proof fn law_runs_of_digits_are_numerals(s: Seq<char>, max: nat, d: nat)
    requires
        s.len() > 0,
        all_digits(s),
        d < 10,
    ensures
        digits_value(s) <= max ==> numeral_value(s, max) == Some(digits_value(s)),
        digits_value(s) > max ==> numeral_value(s, max) is None,
        digit_char(d) as int == '0' as int + d,
{
    assert('0' <= s[0] <= '9');
}

/// Beyond ASCII the lower-case form is the one of Unicode, and bytes that are no UTF-8 are
/// read with replacements.
pub proof fn law_what_std_is_left_with(s: Seq<char>, bytes: Seq<u8>)
    ensures
        !is_ascii_chars(s) ==> lowered(s) == lowercase(s),
        valid_utf8(bytes) ==> text_of_bytes(bytes) == decode_utf8(bytes),
        !valid_utf8(bytes) ==> text_of_bytes(bytes) == utf8_lossy(bytes),
{
}

/// What was trimmed has nothing left to trim.
pub proof fn law_trimming_again_changes_nothing(s: Seq<char>)
    ensures
        trimmed(trimmed(s)) == trimmed(s),
        trimmed(s).len() > 0 ==> !white_space(trimmed(s)[0]) && !white_space(trimmed(s).last()),
        holds(s, trimmed(s)),
    decreases s.len(),
{
    if s.len() == 0 {
        assert(s.subrange(0, 0) =~= s);
        assert(occurs(s, trimmed(s), 0));
    } else if white_space(s[0]) {
        let t = s.drop_first();
        law_trimming_again_changes_nothing(t);
        let at = choose|at: int| occurs(t, trimmed(t), at);
        let n = trimmed(t).len();
        assert(s.subrange(at + 1, at + 1 + n) =~= t.subrange(at, at + n));
        assert(occurs(s, trimmed(s), at + 1));
    } else if white_space(s.last()) {
        let t = s.drop_last();
        law_trimming_again_changes_nothing(t);
        let at = choose|at: int| occurs(t, trimmed(t), at);
        let n = trimmed(t).len();
        assert(s.subrange(at, at + n) =~= t.subrange(at, at + n));
        assert(occurs(s, trimmed(s), at));
    } else {
        assert(s.subrange(0, s.len() as int) =~= s);
        assert(occurs(s, trimmed(s), 0));
    }
}

} // verus!
