//! Server-sent events: how one is written, and what a reader finds in a stream.

use vstd::prelude::*;
use vstd::string::*;

use crate::text::{begins, chars_of, one_line};

verus! {

/// A text with all its line breaks written alike: a carriage return, with or without a
/// line feed behind it, becomes a line feed.
pub open spec fn plain_breaks(s: Seq<char>) -> Seq<char>
    decreases s.len(),
{
    if s.len() == 0 {
        s
    } else if s[0] != '\r' {
        seq![s[0]] + plain_breaks(s.skip(1))
    } else if s.len() > 1 && s[1] == '\n' {
        seq!['\n'] + plain_breaks(s.skip(2))
    } else {
        seq!['\n'] + plain_breaks(s.skip(1))
    }
}

/// A text with `data: ` in front of each line but the first.
pub open spec fn marked_lines(s: Seq<char>) -> Seq<char>
    decreases s.len(),
{
    if s.len() == 0 {
        s
    } else if s.last() == '\n' {
        marked_lines(s.drop_last()) + "\ndata: "@
    } else {
        marked_lines(s.drop_last()).push(s.last())
    }
}

/// One server-sent event with the given data: each line of the data behind `data: `, and
/// an empty line at the end.
pub open spec fn sse_frame(data: Seq<char>) -> Seq<char> {
    "data: "@ + marked_lines(plain_breaks(data)) + "\n\n"@
}

fn unify_breaks(s: &str) -> (r: String)
    ensures
        r@ == plain_breaks(s@),
{
    let chars: Vec<char> = chars_of(s);
    let mut out: String = String::new();
    let mut from: usize = 0;
    let mut i: usize = 0;
    assert(s@.skip(0) =~= s@);
    assert(out@ + s@.subrange(0, 0) + plain_breaks(s@.skip(0)) =~= plain_breaks(s@));
    while i < chars.len()
        invariant
            chars@ == s@,
            from <= i <= chars.len(),
            out@ + s@.subrange(from as int, i as int) + plain_breaks(s@.skip(i as int))
                == plain_breaks(s@),
        decreases chars.len() - i,
    {
        let ghost rest = s@.skip(i as int);
        let ghost done = out@ + s@.subrange(from as int, i as int);
        assert(rest[0] == chars@[i as int]);
        assert(rest.skip(1) =~= s@.skip(i + 1));
        if chars[i] == '\r' {
            out.append(s.substring_char(from, i));
            out.append("\n");
            proof {
                reveal_strlit("\n");
                assert("\n"@ =~= seq!['\n']);
            }
            if i + 1 < chars.len() && chars[i + 1] == '\n' {
                assert(rest[1] == '\n');
                assert(rest.skip(2) =~= s@.skip(i + 2));
                i += 2;
            } else {
                i += 1;
            }
            from = i;
            assert(out@ + s@.subrange(from as int, i as int) =~= done + seq!['\n']);
            assert(done + seq!['\n'] + plain_breaks(s@.skip(i as int)) =~= done + (seq!['\n']
                + plain_breaks(s@.skip(i as int))));
        } else {
            i += 1;
            assert(out@ + s@.subrange(from as int, i as int) =~= done + seq![rest[0]]);
            assert(done + seq![rest[0]] + plain_breaks(s@.skip(i as int)) =~= done + (seq![rest[0]]
                + plain_breaks(s@.skip(i as int))));
        }
    }
    out.append(s.substring_char(from, i));
    assert(s@.skip(i as int) =~= Seq::empty());
    assert(out@ =~= plain_breaks(s@));
    out
}

fn mark_lines(s: &str) -> (r: String)
    ensures
        r@ == marked_lines(s@),
{
    let chars: Vec<char> = chars_of(s);
    let mut out: String = String::new();
    let mut from: usize = 0;
    assert(s@.take(0) =~= Seq::empty());
    assert(out@ + s@.subrange(0, 0) =~= marked_lines(s@.take(0)));
    for i in 0..chars.len()
        invariant
            chars@ == s@,
            from <= i,
            out@ + s@.subrange(from as int, i as int) == marked_lines(s@.take(i as int)),
    {
        let ghost done = out@ + s@.subrange(from as int, i as int);
        assert(s@.take(i + 1).drop_last() =~= s@.take(i as int));
        if chars[i] == '\n' {
            out.append(s.substring_char(from, i));
            out.append("\ndata: ");
            from = i + 1;
            assert(out@ + s@.subrange(from as int, i + 1) =~= done + "\ndata: "@);
        } else {
            assert(out@ + s@.subrange(from as int, i + 1) =~= done.push(s@[i as int]));
        }
    }
    assert(s@.take(s@.len() as int) =~= s@);
    out.append(s.substring_char(from, chars.len()));
    out
}

/// One server-sent event with the given data.
pub fn sse_event(data: &str) -> (r: String)
    ensures
        r@ == sse_frame(data@),
{
    let lines: String = mark_lines(unify_breaks(data).as_str());
    let mut frame: String = "data: ".to_owned();
    frame.append(lines.as_str());
    frame.append("\n\n");
    frame
}

/// A reader of a stream: the data of the events that are complete, the data of the one
/// that is being read, and the line that is being read.
#[verifier::ext_equal]
pub struct Reader {
    pub events: Seq<Seq<char>>,
    pub data: Option<Seq<char>>,
    pub line: Seq<char>,
}

/// The data of an event with one more line of data.
pub open spec fn with_line(data: Option<Seq<char>>, line: Seq<char>) -> Seq<char> {
    match data {
        Some(d) => d + "\n"@ + line,
        None => line,
    }
}

/// What a `data` field says: what stands behind the colon, but for one space.
pub open spec fn field_value(line: Seq<char>) -> Seq<char> {
    let value = line.skip(5);
    if value.len() > 0 && value[0] == ' ' {
        value.skip(1)
    } else {
        value
    }
}

impl Reader {
    /// A reader that has read nothing.
    pub open spec fn fresh() -> Reader {
        Reader { events: Seq::empty(), data: None, line: Seq::empty() }
    }

    /// The reader at the end of a line: an empty line completes the event, a line of data
    /// is added to it, and any other line is passed over.
    pub open spec fn line_read(self) -> Reader {
        if self.line.len() == 0 {
            match self.data {
                Some(d) => Reader { events: self.events.push(d), data: None, line: Seq::empty() },
                None => self,
            }
        } else if begins(self.line, "data:"@) {
            Reader {
                data: Some(with_line(self.data, field_value(self.line))),
                line: Seq::empty(),
                ..self
            }
        } else {
            Reader { line: Seq::empty(), ..self }
        }
    }

    /// The reader behind the next character.
    pub open spec fn char_read(self, c: char) -> Reader {
        if c == '\n' {
            self.line_read()
        } else {
            Reader { line: self.line.push(c), ..self }
        }
    }

    /// The reader behind a run of characters whose line breaks are line feeds.
    pub open spec fn after(self, s: Seq<char>) -> Reader
        decreases s.len(),
    {
        if s.len() == 0 {
            self
        } else {
            self.after(s.drop_last()).char_read(s.last())
        }
    }
}

/// The data of the events that a reader finds in a stream.
pub open spec fn events_in(stream: Seq<char>) -> Seq<Seq<char>> {
    Reader::fresh().after(plain_breaks(stream)).events
}

proof fn lemma_after_concat(reader: Reader, a: Seq<char>, b: Seq<char>)
    ensures
        reader.after(a + b) == reader.after(a).after(b),
    decreases b.len(),
{
    if b.len() == 0 {
        assert(a + b =~= a);
    } else {
        assert((a + b).drop_last() =~= a + b.drop_last());
        lemma_after_concat(reader, a, b.drop_last());
    }
}

/// The characters of a mark go into the line.
proof fn lemma_mark_read(reader: Reader)
    requires
        reader.line.len() == 0,
    ensures
        reader.after("data: "@) == (Reader { line: "data: "@, ..reader }),
{
    reveal_strlit("data: ");
    reveal_with_fuel(Reader::after, 7);
    let m = "data: "@;
    assert(m.drop_last().drop_last().drop_last().drop_last().drop_last().drop_last()
        =~= Seq::empty());
    assert(reader.after(m).line =~= m);
}

/// Behind the marked lines of `u` a reader stands in the last line, and with that line the
/// data is `u`.
proof fn lemma_lines_read(reader: Reader, u: Seq<char>)
    requires
        reader.line.len() == 0,
        reader.data is None,
    ensures
        ({
            let r = reader.after("data: "@ + marked_lines(u));
            &&& r.events == reader.events
            &&& begins(r.line, "data: "@)
            &&& with_line(r.data, r.line.skip(6)) == u
        }),
    decreases u.len(),
{
    reveal_strlit("data: ");
    reveal_strlit("\n");
    let mark = "data: "@;
    if u.len() == 0 {
        assert(mark + marked_lines(u) =~= mark);
        lemma_mark_read(reader);
        let r = reader.after(mark);
        assert(r.line.subrange(0, 6) =~= mark);
        assert(r.line.skip(6) =~= u);
    } else {
        let v = u.drop_last();
        let before = mark + marked_lines(v);
        let b = reader.after(before);
        lemma_lines_read(reader, v);
        if u.last() == '\n' {
            let nl = seq!['\n'];
            reveal_strlit("\ndata: ");
            assert("\ndata: "@ =~= nl + mark);
            assert(mark + marked_lines(u) =~= before + nl + mark);
            lemma_after_concat(reader, before + nl, mark);
            lemma_after_concat(reader, before, nl);
            assert((before + nl).drop_last() =~= before);
            lemma_line_ends(b, v);
            let ended = b.line_read();
            assert(reader.after(before + nl) == ended);
            lemma_mark_read(ended);
            let r = reader.after(mark + marked_lines(u));
            assert(r.line.subrange(0, 6) =~= mark);
            assert(r.line.skip(6) =~= Seq::empty());
            assert("\n"@ =~= nl);
            assert(v + "\n"@ + Seq::<char>::empty() =~= u);
        } else {
            assert(mark + marked_lines(u) =~= before.push(u.last()));
            assert(before.push(u.last()).drop_last() =~= before);
            let r = reader.after(mark + marked_lines(u));
            assert(r.line == b.line.push(u.last()));
            assert(r.line.subrange(0, 6) =~= b.line.subrange(0, 6));
            assert(r.line.skip(6) =~= b.line.skip(6).push(u.last()));
            assert(with_line(r.data, r.line.skip(6)) =~= with_line(b.data, b.line.skip(6)).push(
                u.last(),
            ));
            assert(v.push(u.last()) =~= u);
        }
    }
}

/// At the end of a line of data the data is what it is with that line.
proof fn lemma_line_ends(b: Reader, u: Seq<char>)
    requires
        begins(b.line, "data: "@),
        with_line(b.data, b.line.skip(6)) == u,
    ensures
        b.line_read() == (Reader { events: b.events, data: Some(u), line: Seq::empty() }),
{
    reveal_strlit("data: ");
    reveal_strlit("data:");
    let mark = "data: "@;
    assert(b.line.subrange(0, 6) == mark);
    assert(b.line[5] == mark[5]);
    assert(b.line.subrange(0, 5) =~= "data:"@) by {
        assert(forall|i: int| 0 <= i < 5 ==> b.line[i] == #[trigger] b.line.subrange(0, 6)[i]);
        assert(mark.subrange(0, 5) =~= "data:"@);
    }
    assert(b.line.skip(5)[0] == ' ');
    assert(b.line.skip(5).skip(1) =~= b.line.skip(6));
}

/// Whether a text holds no carriage return.
pub open spec fn no_returns(s: Seq<char>) -> bool {
    forall|i: int| 0 <= i < s.len() ==> #[trigger] s[i] != '\r'
}

proof fn lemma_breaks_already_plain(s: Seq<char>)
    requires
        no_returns(s),
    ensures
        plain_breaks(s) == s,
    decreases s.len(),
{
    if s.len() > 0 {
        lemma_breaks_already_plain(s.skip(1));
        assert(seq![s[0]] + s.skip(1) =~= s);
    }
}

proof fn lemma_plain_breaks_hold_no_returns(s: Seq<char>)
    ensures
        no_returns(plain_breaks(s)),
    decreases s.len(),
{
    if s.len() > 0 {
        lemma_plain_breaks_hold_no_returns(s.skip(1));
        if s.len() > 1 {
            lemma_plain_breaks_hold_no_returns(s.skip(2));
        }
    }
}

proof fn lemma_marked_lines_hold_no_returns(s: Seq<char>)
    requires
        no_returns(s),
    ensures
        no_returns(marked_lines(s)),
    decreases s.len(),
{
    if s.len() > 0 {
        reveal_strlit("\ndata: ");
        assert(forall|i: int| 0 <= i < s.len() - 1 ==> s.drop_last()[i] == #[trigger] s[i]);
        lemma_marked_lines_hold_no_returns(s.drop_last());
    }
}

proof fn lemma_frame_holds_no_returns(data: Seq<char>)
    ensures
        no_returns(sse_frame(data)),
{
    reveal_strlit("data: ");
    reveal_strlit("\n\n");
    lemma_plain_breaks_hold_no_returns(data);
    lemma_marked_lines_hold_no_returns(plain_breaks(data));
}

/// A reader between two events reads a frame as one event more, and is between two events
/// again.
proof fn lemma_frame_read(reader: Reader, data: Seq<char>)
    requires
        reader.line.len() == 0,
        reader.data is None,
    ensures
        reader.after(sse_frame(data)) == (Reader {
            events: reader.events.push(plain_breaks(data)),
            data: None,
            line: Seq::empty(),
        }),
{
    let u = plain_breaks(data);
    let head = "data: "@ + marked_lines(u);
    let frame = sse_frame(data);
    reveal_strlit("\n\n");
    lemma_lines_read(reader, u);
    let r = reader.after(head);
    assert(frame.drop_last().drop_last() =~= head);
    lemma_line_ends(r, u);
    assert(reader.after(frame.drop_last()) == r.line_read());
    assert(reader.after(frame) == r.line_read().line_read());
}

/// A reader finds exactly one event in what is written for one, whatever the data holds,
/// and finds the data in it, with its line breaks written as line feeds.
pub proof fn law_frame_is_one_event(data: Seq<char>)
    ensures
        events_in(sse_frame(data)) == seq![plain_breaks(data)],
{
    lemma_frame_holds_no_returns(data);
    lemma_breaks_already_plain(sse_frame(data));
    lemma_frame_read(Reader::fresh(), data);
    assert(events_in(sse_frame(data)) =~= seq![plain_breaks(data)]);
}

/// The events for the first `n` of the given data, end to end.
pub open spec fn frames_text(list: Seq<Seq<char>>, n: nat) -> Seq<char>
    decreases n,
{
    if n == 0 || n > list.len() {
        Seq::empty()
    } else {
        frames_text(list, (n - 1) as nat) + sse_frame(list[n - 1])
    }
}

proof fn lemma_frames_read(list: Seq<Seq<char>>, n: nat)
    requires
        n <= list.len(),
    ensures
        no_returns(frames_text(list, n)),
        Reader::fresh().after(frames_text(list, n)) == (Reader {
            events: Seq::new(n, |i: int| plain_breaks(list[i])),
            data: None,
            line: Seq::empty(),
        }),
    decreases n,
{
    let events = Seq::new(n, |i: int| plain_breaks(list[i]));
    if n == 0 {
        assert(events =~= Seq::empty());
    } else {
        let before = Reader::fresh().after(frames_text(list, (n - 1) as nat));
        lemma_frames_read(list, (n - 1) as nat);
        lemma_frame_holds_no_returns(list[n - 1]);
        lemma_after_concat(
            Reader::fresh(),
            frames_text(list, (n - 1) as nat),
            sse_frame(list[n - 1]),
        );
        lemma_frame_read(before, list[n - 1]);
        assert(events =~= before.events.push(plain_breaks(list[n - 1])));
    }
}

/// Events that are written end to end stay apart: a reader finds each of them, in order,
/// and nothing else.
pub proof fn law_frames_stay_apart(list: Seq<Seq<char>>)
    ensures
        events_in(frames_text(list, list.len())) == Seq::new(
            list.len(),
            |i: int| plain_breaks(list[i]),
        ),
{
    lemma_frames_read(list, list.len());
    lemma_breaks_already_plain(frames_text(list, list.len()));
}

/// Data without a carriage return is found as it is, line feeds included.
pub proof fn law_text_is_found_as_it_is(data: Seq<char>)
    requires
        no_returns(data),
    ensures
        events_in(sse_frame(data)) == seq![data],
{
    law_frame_is_one_event(data);
    lemma_breaks_already_plain(data);
}

/// Data without a line break is found as it is, and goes out on one line.
pub proof fn law_line_is_found_as_it_is(data: Seq<char>)
    requires
        one_line(data),
    ensures
        events_in(sse_frame(data)) == seq![data],
        sse_frame(data) == "data: "@ + data + "\n\n"@,
{
    law_text_is_found_as_it_is(data);
    lemma_breaks_already_plain(data);
    lemma_one_line_is_not_marked(data);
}

proof fn lemma_one_line_is_not_marked(s: Seq<char>)
    requires
        one_line(s),
    ensures
        marked_lines(s) == s,
    decreases s.len(),
{
    if s.len() > 0 {
        assert(forall|i: int| 0 <= i < s.len() - 1 ==> s.drop_last()[i] == #[trigger] s[i]);
        lemma_one_line_is_not_marked(s.drop_last());
        assert(s.drop_last().push(s.last()) =~= s);
    }
}

/// A line goes out behind its own mark, and the lines behind it as they would alone.
pub proof fn law_lines_go_out_one_by_one(line: Seq<char>, rest: Seq<char>)
    requires
        one_line(line),
    ensures
        sse_frame(line + "\n"@ + rest) == "data: "@ + line + "\n"@ + sse_frame(rest),
        sse_frame(line) == "data: "@ + line + "\n\n"@,
{
    reveal_strlit("\n");
    reveal_strlit("\ndata: ");
    reveal_strlit("data: ");
    let nl = seq!['\n'];
    let u = plain_breaks(rest);
    law_line_is_found_as_it_is(line);
    assert("\n"@ =~= nl);
    lemma_breaks_behind_line(line, nl + rest);
    assert((nl + rest).skip(1) =~= rest);
    assert(plain_breaks(nl + rest) =~= nl + u);
    assert(line + "\n"@ + rest =~= line + (nl + rest));
    lemma_one_line_is_not_marked(line);
    lemma_marks_behind_break(line, u);
    assert(line + (nl + u) =~= line + nl + u);
    assert("\ndata: "@ =~= nl + "data: "@);
    assert(sse_frame(line + "\n"@ + rest) =~= "data: "@ + line + "\n"@ + sse_frame(rest));
}

proof fn lemma_breaks_behind_line(line: Seq<char>, rest: Seq<char>)
    requires
        no_returns(line),
    ensures
        plain_breaks(line + rest) == line + plain_breaks(rest),
    decreases line.len(),
{
    if line.len() == 0 {
        assert(line + rest =~= rest);
        assert(line + plain_breaks(rest) =~= plain_breaks(rest));
    } else {
        let tail = line.skip(1);
        assert forall|i: int| 0 <= i < tail.len() implies #[trigger] tail[i] != '\r' by {
            assert(tail[i] == line[i + 1]);
        }
        lemma_breaks_behind_line(tail, rest);
        assert((line + rest).skip(1) =~= tail + rest);
        assert(seq![line[0]] + (tail + plain_breaks(rest)) =~= line + plain_breaks(rest));
    }
}

proof fn lemma_marks_behind_break(line: Seq<char>, u: Seq<char>)
    requires
        one_line(line),
    ensures
        marked_lines(line + seq!['\n'] + u) == line + "\ndata: "@ + marked_lines(u),
    decreases u.len(),
{
    let nl = seq!['\n'];
    let s = line + nl + u;
    lemma_one_line_is_not_marked(line);
    if u.len() == 0 {
        assert(s.drop_last() =~= line);
        assert(line + "\ndata: "@ + marked_lines(u) =~= line + "\ndata: "@);
    } else {
        lemma_marks_behind_break(line, u.drop_last());
        assert(s.drop_last() =~= line + nl + u.drop_last());
        assert(marked_lines(s) =~= line + "\ndata: "@ + marked_lines(u));
    }
}

/// A carriage return, alone or with a line feed, counts as one line break.
pub proof fn law_returns_are_line_breaks(line: Seq<char>, rest: Seq<char>)
    requires
        no_returns(line),
    ensures
        plain_breaks(line) == line,
        plain_breaks(line + "\r\n"@ + rest) == line + "\n"@ + plain_breaks(rest),
        rest.len() == 0 || rest[0] != '\n' ==> plain_breaks(line + "\r"@ + rest) == line + "\n"@
            + plain_breaks(rest),
{
    reveal_strlit("\n");
    reveal_strlit("\r");
    reveal_strlit("\r\n");
    lemma_breaks_already_plain(line);
    assert("\n"@ =~= seq!['\n']);
    lemma_breaks_behind_line(line, "\r\n"@ + rest);
    lemma_breaks_behind_line(line, "\r"@ + rest);
    assert(line + "\r\n"@ + rest =~= line + ("\r\n"@ + rest));
    assert(line + "\r"@ + rest =~= line + ("\r"@ + rest));
    assert(("\r\n"@ + rest).skip(2) =~= rest);
    assert(("\r"@ + rest).skip(1) =~= rest);
    assert(line + (seq!['\n'] + plain_breaks(rest)) =~= line + "\n"@ + plain_breaks(rest));
}

} // verus!
