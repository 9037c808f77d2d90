//! What holds of raw data files as a whole.

use super::line::{lemma_line_len, Line, MAX_LINE_BYTES, NEWLINE};
use super::stream::Opened;
use super::version::Version;
use vstd::prelude::*;

verus! {

/// Tells whether `text` can stand on a line of its own: it holds no newline, does
/// not end in a carriage return, and is short enough.
pub open spec fn fits_line(text: Seq<char>) -> bool {
    &&& forall|i: int| 0 <= i < text.len() ==> text[i] != '\n'
    &&& text.len() > 0 ==> text.last() != '\r'
    &&& vstd::utf8::encode_utf8(text).len() < MAX_LINE_BYTES
}

/// The texts of all stack traces in `s`, up to its end or to a line that is refused.
pub open spec fn records(s: Seq<u8>) -> Seq<Seq<char>>
    decreases s.len(),
{
    proof {
        super::laws::reading_advances(s);
    }
    let start = super::stream::skip_blank(s);
    match super::line::first_line(start) {
        Line::Text(text) => seq![text] + records(super::line::after_line(start)),
        _ => Seq::empty(),
    }
}

/// Every read but one at the end makes progress, so reading a file comes to an end.
pub proof fn reading_advances(s: Seq<u8>)
    ensures
        ({
            let start = super::stream::skip_blank(s);
            &&& start.len() <= s.len()
            &&& start.len() > 0 ==> super::line::after_line(start).len() < start.len()
            &&& start.len() == 0 ==> super::line::first_line(start) is End
        }),
    decreases s.len(),
{
    lemma_line_len(s, 0);
    if s.len() > 0 && super::line::first_line(s) == Line::Text(Seq::empty()) {
        reading_advances(super::line::after_line(s));
    }
}

/// No more than one byte over the maximum is ever held for a line, and a line that
/// is longer than the maximum is refused.
pub proof fn line_length_is_bounded(s: Seq<u8>)
    ensures
        super::line::taken_len(s) <= MAX_LINE_BYTES + 1,
        super::line::line_len(s) > MAX_LINE_BYTES ==> super::line::first_line(s) is TooLong,
{
    lemma_line_len(s, 0);
}

proof fn lemma_scalar_bytes(c: u32, b: u8)
    requires
        b < 128,
    ensures
        c == b ==> vstd::utf8::encode_scalar(c) == seq![b],
        c != b ==> forall|i: int|
            0 <= i < vstd::utf8::encode_scalar(c).len() ==> vstd::utf8::encode_scalar(c)[i] != b,
        vstd::utf8::encode_scalar(c).len() > 0,
{
    let b0 = vstd::utf8::leading_byte_width_1(c);
    let b1 = vstd::utf8::leading_byte_width_2(c);
    let b2 = vstd::utf8::leading_byte_width_3(c);
    let b3 = vstd::utf8::leading_byte_width_4(c);
    let b4 = vstd::utf8::last_continuation_byte(c);
    let b5 = vstd::utf8::second_last_continuation_byte(c);
    let b6 = vstd::utf8::third_last_continuation_byte(c);
    assert(c <= 127 ==> b0 == c) by {
        assert(c <= 127u32 ==> (c & 0x7F) as u8 == c) by (bit_vector);
    }
    assert(b1 >= 128) by {
        assert(0xC0u8 | ((c >> 6) & 0x1F) as u8 >= 128) by (bit_vector);
    }
    assert(b2 >= 128) by {
        assert(0xE0u8 | ((c >> 12) & 0x0F) as u8 >= 128) by (bit_vector);
    }
    assert(b3 >= 128) by {
        assert(0xF0u8 | ((c >> 18) & 0x7) as u8 >= 128) by (bit_vector);
    }
    assert(b4 >= 128) by {
        assert(0x80u8 | (c & 0x3F) as u8 >= 128) by (bit_vector);
    }
    assert(b5 >= 128) by {
        assert(0x80u8 | ((c >> 6) & 0x3F) as u8 >= 128) by (bit_vector);
    }
    assert(b6 >= 128) by {
        assert(0x80u8 | ((c >> 12) & 0x3F) as u8 >= 128) by (bit_vector);
    }
}

proof fn lemma_char_is_its_scalar(c: char, b: u8)
    requires
        b < 128,
    ensures
        c == b as char <==> c as u32 == b,
{
}

/// An ASCII byte stands in the encoding of a text exactly when its character stands
/// in the text, and at the end of the one exactly when at the end of the other.
proof fn lemma_ascii_bytes(text: Seq<char>, b: u8)
    requires
        b < 128,
    ensures
        vstd::utf8::encode_utf8(text).contains(b) <==> text.contains(b as char),
        text.len() == 0 <==> vstd::utf8::encode_utf8(text).len() == 0,
        text.len() > 0 && vstd::utf8::encode_utf8(text).last() == b ==> text.last() == b as char,
    decreases text.len(),
{
    let bytes = vstd::utf8::encode_utf8(text);
    if text.len() > 0 {
        let head = vstd::utf8::encode_scalar(text[0] as u32);
        let tail = vstd::utf8::encode_utf8(text.drop_first());
        lemma_char_is_its_scalar(text[0], b);
        lemma_scalar_bytes(text[0] as u32, b);
        lemma_ascii_bytes(text.drop_first(), b);
        assert(bytes == head + tail);
        assert(text == seq![text[0]] + text.drop_first());
        if text[0] == b as char {
            assert(bytes[0] == b);
            assert(text[0] == b as char);
        }
        if text.contains(b as char) && text[0] != b as char {
            let i = choose|i: int| 0 <= i < text.len() && text[i] == b as char;
            assert(text.drop_first()[i - 1] == b as char);
            let j = choose|j: int| 0 <= j < tail.len() && tail[j] == b;
            assert(bytes[head.len() + j] == b);
        }
        if bytes.contains(b) && text[0] != b as char {
            let j = choose|j: int| 0 <= j < bytes.len() && bytes[j] == b;
            if j < head.len() {
                assert(head[j] == b);
            } else {
                assert(tail[j - head.len()] == b);
                let i = choose|i: int|
                    0 <= i < text.drop_first().len() && text.drop_first()[i] == b as char;
                assert(text[i + 1] == b as char);
            }
        }
        if text.len() == 1 {
            assert(tail.len() == 0);
            assert(bytes =~= head);
        } else {
            assert(bytes.last() == tail.last());
            assert(text.last() == text.drop_first().last());
        }
    }
}

/// A line that is written is the line that is read, and reading goes on behind it.
pub proof fn line_reads_back(text: Seq<char>, tail: Seq<u8>)
    requires
        fits_line(text),
    ensures
        super::line::first_line(super::store::line_bytes(text) + tail) == Line::Text(text),
        super::line::after_line(super::store::line_bytes(text) + tail) == tail,
{
    let body = vstd::utf8::encode_utf8(text);
    let s = super::store::line_bytes(text) + tail;
    let n = body.len() as int;
    lemma_ascii_bytes(text, NEWLINE);
    lemma_ascii_bytes(text, super::line::CARRIAGE_RETURN);
    assert forall|i: int| 0 <= i < n implies s[i] != NEWLINE by {
        assert(s[i] == body[i]);
        assert(body[i] == NEWLINE ==> body.contains(NEWLINE));
    }
    assert(s[n] == NEWLINE);
    lemma_line_len(s, n);
    assert(s.take(n + 1) =~= super::store::line_bytes(text));
    assert(super::store::line_bytes(text).drop_last() =~= body);
    assert(super::line::without_terminator(super::store::line_bytes(text)) =~= body);
    vstd::utf8::encode_utf8_decode_utf8(text);
    vstd::utf8::encode_utf8_valid_utf8(text);
    assert(s.skip(n + 1) =~= tail);
}

/// The text of a line holds no newline.
pub proof fn text_holds_no_newline(s: Seq<u8>)
    ensures
        super::line::first_line(s) matches Line::Text(text) ==> forall|i: int|
            0 <= i < text.len() ==> text[i] != '\n',
{
    if let Line::Text(text) = super::line::first_line(s) {
        let raw = s.take(super::line::taken_len(s));
        let body = super::line::without_terminator(raw);
        lemma_only_last_is_newline(s);
        assert forall|i: int| 0 <= i < body.len() implies body[i] != NEWLINE by {
            assert(body[i] == s[i]);
            assert(body.len() <= raw.len());
        }
        vstd::utf8::decode_utf8_encode_utf8(body);
        lemma_ascii_bytes(text, NEWLINE);
        assert(!body.contains(NEWLINE));
        assert forall|i: int| 0 <= i < text.len() implies text[i] != '\n' by {
            assert(text[i] == '\n' ==> text.contains('\n'));
        }
    }
}

proof fn lemma_only_last_is_newline(s: Seq<u8>)
    ensures
        super::line::line_len(s) <= s.len(),
        forall|i: int| 0 <= i < super::line::line_len(s) - 1 ==> s[i] != NEWLINE,
    decreases s.len(),
{
    lemma_line_len(s, 0);
    if s.len() > 0 && s[0] != NEWLINE {
        lemma_only_last_is_newline(s.drop_first());
        assert forall|i: int| 0 <= i < super::line::line_len(s) - 1 implies s[i] != NEWLINE by {
            if i > 0 {
                assert(s[i] == s.drop_first()[i - 1]);
            }
        }
    }
}

/// Writing one more stack trace appends its line to the file.
pub proof fn file_grows_by_lines(header: Seq<char>, traces: Seq<Seq<char>>, trace: Seq<char>)
    ensures
        super::store::file_bytes(header, traces.push(trace)) == super::store::file_bytes(
            header,
            traces,
        ) + super::store::line_bytes(trace),
{
    assert(traces.push(trace).drop_last() == traces);
    assert(super::store::file_bytes(header, traces.push(trace)) =~= super::store::file_bytes(
        header,
        traces,
    ) + super::store::line_bytes(trace));
}

proof fn lemma_lines_from_front(traces: Seq<Seq<char>>)
    requires
        traces.len() > 0,
    ensures
        super::store::lines_bytes(traces) == super::store::line_bytes(traces[0])
            + super::store::lines_bytes(traces.drop_first()),
    decreases traces.len(),
{
    if traces.len() == 1 {
        assert(super::store::lines_bytes(traces.drop_last()) == Seq::<u8>::empty());
        assert(super::store::lines_bytes(traces.drop_first()) == Seq::<u8>::empty());
        assert(super::store::lines_bytes(traces) =~= super::store::line_bytes(traces[0])
            + super::store::lines_bytes(traces.drop_first()));
    } else {
        lemma_lines_from_front(traces.drop_last());
        let middle = traces.drop_first().drop_last();
        assert(traces.drop_last().drop_first() == middle);
        assert(traces.drop_last()[0] == traces[0]);
        assert(super::store::lines_bytes(traces) == super::store::lines_bytes(traces.drop_last())
            + super::store::line_bytes(traces.last()));
        assert(super::store::lines_bytes(traces.drop_first()) == super::store::lines_bytes(middle)
            + super::store::line_bytes(traces.last()));
        assert(super::store::lines_bytes(traces) =~= super::store::line_bytes(traces[0])
            + super::store::lines_bytes(traces.drop_first()));
    }
}

/// The stack traces that are written are those that are read, in their order.
pub proof fn traces_read_back(traces: Seq<Seq<char>>)
    requires
        forall|i: int| 0 <= i < traces.len() ==> fits_line(#[trigger] traces[i]),
        forall|i: int| 0 <= i < traces.len() ==> (#[trigger] traces[i]).len() > 0,
    ensures
        records(super::store::lines_bytes(traces)) == traces,
    decreases traces.len(),
{
    let s = super::store::lines_bytes(traces);
    if traces.len() == 0 {
        assert(records(s) =~= traces);
    } else {
        let rest = traces.drop_first();
        let tail = super::store::lines_bytes(rest);
        lemma_lines_from_front(traces);
        line_reads_back(traces[0], tail);
        assert forall|i: int| 0 <= i < rest.len() implies fits_line(#[trigger] rest[i])
            && rest[i].len() > 0 by {
            assert(rest[i] == traces[i + 1]);
        }
        traces_read_back(rest);
        assert(super::stream::skip_blank(s) == s);
        assert(records(s) == seq![traces[0]] + records(tail));
        assert(records(s) =~= traces);
    }
}

/// What is left of `s` once `n` stack traces have been read.
pub open spec fn after_records(s: Seq<u8>, n: nat) -> Seq<u8>
    decreases n,
{
    if n == 0 {
        s
    } else {
        after_records(
            super::line::after_line(super::stream::skip_blank(s)),
            (n - 1) as nat,
        )
    }
}

/// Each read gives the stack trace that was written at its place, and the read after the
/// last one finds the end.
pub proof fn traces_come_one_by_one(traces: Seq<Seq<char>>, i: nat)
    requires
        forall|j: int| 0 <= j < traces.len() ==> fits_line(#[trigger] traces[j]),
        forall|j: int| 0 <= j < traces.len() ==> (#[trigger] traces[j]).len() > 0,
        i <= traces.len(),
    ensures
        ({
            let rest = after_records(super::store::lines_bytes(traces), i);
            let line = super::line::first_line(super::stream::skip_blank(rest));
            if i < traces.len() {
                line == Line::Text(traces[i as int])
            } else {
                line is End
            }
        }),
    decreases i,
{
    let s = super::store::lines_bytes(traces);
    if traces.len() > 0 {
        let rest = traces.drop_first();
        let tail = super::store::lines_bytes(rest);
        lemma_lines_from_front(traces);
        line_reads_back(traces[0], tail);
        assert(super::stream::skip_blank(s) == s);
        if i > 0 {
            assert forall|j: int| 0 <= j < rest.len() implies fits_line(#[trigger] rest[j])
                && rest[j].len() > 0 by {
                assert(rest[j] == traces[j + 1]);
            }
            traces_come_one_by_one(rest, (i - 1) as nat);
            assert(after_records(s, i) == after_records(tail, (i - 1) as nat));
        }
    }
}

/// The texts of all lines in `s`, up to its end or to a line that is refused.
pub open spec fn lines(s: Seq<u8>) -> Seq<Seq<char>>
    decreases s.len(),
{
    proof {
        crate::storage::line::lemma_line_len(s, 0);
    }
    match super::line::first_line(s) {
        Line::Text(text) => seq![text] + lines(super::line::after_line(s)),
        _ => Seq::empty(),
    }
}

/// What is left of `s` once `n` lines have been read.
pub open spec fn after_lines(s: Seq<u8>, n: nat) -> Seq<u8>
    decreases n,
{
    if n == 0 {
        s
    } else {
        after_lines(super::line::after_line(s), (n - 1) as nat)
    }
}

/// Tells whether no line in `s` is longer than the maximum.
pub open spec fn lines_fit(s: Seq<u8>) -> bool
    decreases s.len(),
{
    proof {
        crate::storage::line::lemma_line_len(s, 0);
    }
    s.len() > 0 ==> super::line::line_len(s) <= MAX_LINE_BYTES && lines_fit(
        super::line::after_line(s),
    )
}

/// Lines joined by newlines.
pub open spec fn joined(lines: Seq<Seq<char>>) -> Seq<char>
    decreases lines.len(),
{
    if lines.len() == 0 {
        Seq::empty()
    } else if lines.len() == 1 {
        lines[0]
    } else {
        lines[0] + seq!['\n'] + joined(lines.drop_first())
    }
}

/// `text` without its last character, if that is a newline.
pub open spec fn without_final_newline(text: Seq<char>) -> Seq<char> {
    if text.len() > 0 && text.last() == '\n' {
        text.drop_last()
    } else {
        text
    }
}

/// The number of newlines in `text`.
pub open spec fn newlines(text: Seq<char>) -> nat
    decreases text.len(),
{
    if text.len() == 0 {
        0
    } else {
        newlines(text.drop_first()) + if text[0] == '\n' {
            1nat
        } else {
            0nat
        }
    }
}

/// Tells whether `ls` are the lines of `text`: they hold no newline, joined they are the
/// text less one final newline, and there is one for each newline and one for what follows
/// the last of these.
pub open spec fn are_lines_of(ls: Seq<Seq<char>>, text: Seq<char>) -> bool {
    &&& forall|i: int| 0 <= i < ls.len() ==> !(#[trigger] ls[i]).contains('\n')
    &&& joined(ls) == without_final_newline(text)
    &&& ls.len() == newlines(text) + if text.len() > 0 && text.last() != '\n' {
        1nat
    } else {
        0nat
    }
}

/// The lines of valid UTF-8 without carriage returns, none of them too long, are those of
/// its text, and behind the last one there is the end.
pub proof fn lines_make_up_the_input(s: Seq<u8>)
    requires
        vstd::utf8::valid_utf8(s),
        !s.contains(super::line::CARRIAGE_RETURN),
        lines_fit(s),
    ensures
        are_lines_of(lines(s), vstd::utf8::decode_utf8(s)),
        super::line::first_line(after_lines(s, lines(s).len())) is End,
{
    let text = vstd::utf8::decode_utf8(s);
    vstd::utf8::decode_utf8_encode_utf8(s);
    lemma_ascii_bytes(text, super::line::CARRIAGE_RETURN);
    lemma_lines_of_text(text);
}

/// Each read gives the line at its place.
pub proof fn lines_come_in_order(s: Seq<u8>, i: nat)
    requires
        i < lines(s).len(),
    ensures
        super::line::first_line(after_lines(s, i)) == Line::Text(lines(s)[i as int]),
    decreases i,
{
    let rest = super::line::after_line(s);
    assert(super::line::first_line(s) is Text);
    if i > 0 {
        assert(lines(s).drop_first() =~= lines(rest));
        lines_come_in_order(rest, (i - 1) as nat);
    }
}

proof fn lemma_encode_concat(a: Seq<char>, b: Seq<char>)
    ensures
        vstd::utf8::encode_utf8(a + b) == vstd::utf8::encode_utf8(a) + vstd::utf8::encode_utf8(b),
    decreases a.len(),
{
    if a.len() == 0 {
        assert(a + b =~= b);
        assert(vstd::utf8::encode_utf8(a + b) =~= vstd::utf8::encode_utf8(a)
            + vstd::utf8::encode_utf8(b));
    } else {
        lemma_encode_concat(a.drop_first(), b);
        assert((a + b).drop_first() =~= a.drop_first() + b);
        assert(vstd::utf8::encode_utf8(a + b) =~= vstd::utf8::encode_utf8(a)
            + vstd::utf8::encode_utf8(b));
    }
}

proof fn lemma_newlines(a: Seq<char>, b: Seq<char>)
    requires
        !a.contains('\n'),
    ensures
        newlines(a + b) == newlines(b),
    decreases a.len(),
{
    if a.len() == 0 {
        assert(a + b =~= b);
    } else {
        assert((a + b).drop_first() =~= a.drop_first() + b);
        assert(a.contains(a[0]));
        assert forall|i: int| 0 <= i < a.drop_first().len() implies a.drop_first()[i]
            != '\n' by {
            assert(a.contains(a[i + 1]));
        }
        lemma_newlines(a.drop_first(), b);
    }
}

proof fn lemma_last_line(text: Seq<char>)
    requires
        text.len() > 0,
        !text.contains('\n'),
        lines_fit(vstd::utf8::encode_utf8(text)),
    ensures
        super::line::first_line(vstd::utf8::encode_utf8(text)) == Line::Text(text),
        super::line::after_line(vstd::utf8::encode_utf8(text)).len() == 0,
{
    let s = vstd::utf8::encode_utf8(text);
    lemma_ascii_bytes(text, NEWLINE);
    assert forall|i: int| 0 <= i < s.len() implies s[i] != NEWLINE by {
        assert(s.contains(s[i]));
    }
    lemma_line_len(s, s.len() as int);
    assert(s.take(s.len() as int) =~= s);
    assert(s.contains(s.last()));
    vstd::utf8::encode_utf8_decode_utf8(text);
    vstd::utf8::encode_utf8_valid_utf8(text);
}

proof fn lemma_line_in_front(head: Seq<char>, tail: Seq<char>)
    requires
        !head.contains('\n'),
        !head.contains('\r'),
        lines_fit(vstd::utf8::encode_utf8(head + (seq!['\n'] + tail))),
    ensures
        ({
            let s = vstd::utf8::encode_utf8(head + (seq!['\n'] + tail));
            &&& super::line::first_line(s) == Line::Text(head)
            &&& super::line::after_line(s) == vstd::utf8::encode_utf8(tail)
            &&& lines_fit(vstd::utf8::encode_utf8(tail))
        }),
{
    let nl = seq!['\n'];
    let s = vstd::utf8::encode_utf8(head + (nl + tail));
    let body = vstd::utf8::encode_utf8(head);
    let rest = vstd::utf8::encode_utf8(tail);
    lemma_encode_concat(head, nl + tail);
    lemma_encode_concat(nl, tail);
    vstd::utf8::is_ascii_chars_encode_utf8(nl);
    assert(vstd::utf8::encode_utf8(nl) =~= seq![NEWLINE]);
    assert(s =~= super::store::line_bytes(head) + rest);
    assert forall|i: int| 0 <= i < head.len() implies head[i] != '\n' && head[i] != '\r' by {
        assert(head.contains(head[i]));
    }
    lemma_ascii_bytes(head, NEWLINE);
    let n = body.len() as int;
    assert forall|i: int| 0 <= i < n implies s[i] != NEWLINE by {
        assert(s[i] == body[i]);
        assert(body.contains(body[i]));
    }
    assert(s[n] == NEWLINE);
    lemma_line_len(s, n);
    line_reads_back(head, rest);
}

proof fn lemma_lines_in_front(head: Seq<char>, tail: Seq<char>, others: Seq<Seq<char>>)
    requires
        !head.contains('\n'),
        are_lines_of(others, tail),
        tail.len() > 0 ==> others.len() > 0,
    ensures
        are_lines_of(seq![head] + others, head + (seq!['\n'] + tail)),
{
    let nl = seq!['\n'];
    let text = head + (nl + tail);
    let all = seq![head] + others;
    assert(all.drop_first() =~= others);
    lemma_newlines(head, nl + tail);
    assert((nl + tail).drop_first() =~= tail);
    assert forall|i: int| 0 <= i < all.len() implies !(#[trigger] all[i]).contains('\n') by {
        if i > 0 {
            assert(all[i] == others[i - 1]);
        }
    }
    if tail.len() == 0 {
        assert(text.last() == '\n');
        assert(others.len() == 0);
        assert(joined(all) =~= without_final_newline(text));
    } else {
        assert(text.last() == tail.last());
        assert(joined(all) == head + nl + joined(others));
        assert(joined(all) =~= without_final_newline(text));
    }
}

proof fn lemma_single_line(text: Seq<char>)
    requires
        text.len() > 0,
        !text.contains('\n'),
    ensures
        are_lines_of(seq![text], text),
{
    assert(text.contains(text.last()));
    lemma_newlines(text, Seq::empty());
    assert(text + Seq::<char>::empty() =~= text);
}

proof fn lemma_lines_of_text(text: Seq<char>)
    requires
        !text.contains('\r'),
        lines_fit(vstd::utf8::encode_utf8(text)),
    ensures
        are_lines_of(lines(vstd::utf8::encode_utf8(text)), text),
        text.len() > 0 ==> lines(vstd::utf8::encode_utf8(text)).len() > 0,
        after_lines(
            vstd::utf8::encode_utf8(text),
            lines(vstd::utf8::encode_utf8(text)).len(),
        ).len() == 0,
    decreases text.len(),
{
    let s = vstd::utf8::encode_utf8(text);
    if text.len() == 0 {
        assert(lines(s) =~= Seq::empty());
        assert(joined(lines(s)) =~= without_final_newline(text));
    } else if !text.contains('\n') {
        let rest = super::line::after_line(s);
        lemma_last_line(text);
        assert(lines(rest) =~= Seq::empty());
        assert(lines(s) =~= seq![text]);
        lemma_single_line(text);
        assert(after_lines(s, 1) == after_lines(rest, 0));
    } else {
        let k = text.index_of_first('\n')->0;
        text.index_of_first_ensures('\n');
        let head = text.take(k);
        let tail = text.skip(k + 1);
        assert(text =~= head + (seq!['\n'] + tail));
        assert forall|i: int| 0 <= i < head.len() implies head[i] != '\r' by {
            assert(text.contains(text[i]));
        }
        assert forall|i: int| 0 <= i < tail.len() implies tail[i] != '\r' by {
            assert(text.contains(text[k + 1 + i]));
        }
        lemma_line_in_front(head, tail);
        lemma_lines_of_text(tail);
        let rest = vstd::utf8::encode_utf8(tail);
        assert(lines(s) == seq![head] + lines(rest));
        lemma_lines_in_front(head, tail, lines(rest));
        assert(after_lines(s, lines(s).len()) == after_lines(rest, lines(rest).len()));
    }
}

/// Stack traces come one by one: what is read next is the first of those that are left,
/// and behind it are the others.
pub proof fn records_come_in_order(s: Seq<u8>)
    ensures
        match super::line::first_line(super::stream::skip_blank(s)) {
            Line::Text(text) => {
                &&& records(s).len() > 0
                &&& records(s)[0] == text
                &&& records(super::line::after_line(super::stream::skip_blank(s)))
                    == records(s).drop_first()
            },
            _ => records(s).len() == 0,
        },
{
    let start = super::stream::skip_blank(s);
    if let Line::Text(text) = super::line::first_line(start) {
        let rest = records(super::line::after_line(start));
        assert(records(s) == seq![text] + rest);
        assert(records(s).drop_first() =~= rest);
    }
}

/// At the end of a file reading stays at the end.
pub proof fn end_is_final(s: Seq<u8>)
    requires
        super::line::first_line(super::stream::skip_blank(s)) is End,
    ensures
        super::line::first_line(
            super::stream::skip_blank(
                super::line::after_line(super::stream::skip_blank(s)),
            ),
        ) is End,
{
    let start = super::stream::skip_blank(s);
    assert(super::line::after_line(start) =~= start);
}

/// Empty lines make no difference, whether they end in a newline or in a carriage return
/// and a newline.
pub proof fn blank_lines_are_passed_over(s: Seq<u8>)
    ensures
        records(seq![NEWLINE] + s) == records(s),
        records(seq![super::line::CARRIAGE_RETURN, NEWLINE] + s) == records(s),
{
    let empty = Seq::<char>::empty();
    assert(vstd::utf8::encode_utf8(empty) =~= Seq::<u8>::empty());
    assert(super::store::line_bytes(empty) =~= seq![NEWLINE]);
    line_reads_back(empty, s);
    assert(super::stream::skip_blank(seq![NEWLINE] + s) == super::stream::skip_blank(s));
    carriage_return_is_dropped(empty, s);
    assert(vstd::utf8::encode_utf8(empty) + seq![super::line::CARRIAGE_RETURN, NEWLINE]
        =~= seq![super::line::CARRIAGE_RETURN, NEWLINE]);
    assert(super::stream::skip_blank(seq![super::line::CARRIAGE_RETURN, NEWLINE] + s)
        == super::stream::skip_blank(s));
}

/// A line that ends in a carriage return and a newline reads as its text alone.
pub proof fn carriage_return_is_dropped(text: Seq<char>, tail: Seq<u8>)
    requires
        forall|i: int| 0 <= i < text.len() ==> text[i] != '\n',
        vstd::utf8::encode_utf8(text).len() + 2 <= MAX_LINE_BYTES,
    ensures
        ({
            let s = vstd::utf8::encode_utf8(text) + seq![super::line::CARRIAGE_RETURN, NEWLINE]
                + tail;
            &&& super::line::first_line(s) == Line::Text(text)
            &&& super::line::after_line(s) == tail
        }),
{
    let body = vstd::utf8::encode_utf8(text);
    let line = body + seq![super::line::CARRIAGE_RETURN, NEWLINE];
    let s = line + tail;
    let n = body.len() as int + 1;
    lemma_ascii_bytes(text, NEWLINE);
    assert forall|i: int| 0 <= i < n implies s[i] != NEWLINE by {
        if i < body.len() {
            assert(s[i] == body[i]);
            assert(body[i] == NEWLINE ==> body.contains(NEWLINE));
        }
    }
    assert(s[n] == NEWLINE);
    lemma_line_len(s, n);
    assert(s.take(n + 1) =~= line);
    assert(line.drop_last() =~= body.push(super::line::CARRIAGE_RETURN));
    assert(super::line::without_terminator(line) =~= body);
    vstd::utf8::encode_utf8_decode_utf8(text);
    vstd::utf8::encode_utf8_valid_utf8(text);
    assert(s.skip(n + 1) =~= tail);
}

/// A file that was completed opens as one of version 2, with the header that was
/// written and with the stack traces that were written, in their order.
pub proof fn completed_file_reads_back(file: Seq<u8>, header: Seq<char>, traces: Seq<Seq<char>>)
    requires
        fits_line(header),
        forall|i: int| 0 <= i < traces.len() ==> fits_line(#[trigger] traces[i]),
        forall|i: int| 0 <= i < traces.len() ==> (#[trigger] traces[i]).len() > 0,
    ensures
        crate::gzip::gunzip(file).0 == super::store::file_bytes(header, traces) ==> {
            let rest = super::store::lines_bytes(traces);
            &&& super::stream::opened(crate::gzip::gunzip(file).0) == (Opened::Stream {
                version: Version(2),
                header: Some(header),
                rest,
            })
            &&& records(rest) == traces
        },
{
    let tail = super::store::lines_bytes(traces);
    let plain = super::store::file_bytes(header, traces);
    assert(plain.take(5) =~= super::version::magic());
    assert(plain.skip(5) =~= super::version::version_tag(2) + (super::store::line_bytes(header)
        + tail));
    lemma_tag(2, super::store::line_bytes(header) + tail);
    assert(plain.skip(8) =~= super::store::line_bytes(header) + tail);
    line_reads_back(header, tail);
    traces_read_back(traces);
}

/// What starts with a version tag numbers its version.
pub proof fn lemma_tag(version: u64, body: Seq<u8>)
    requires
        version <= 99,
    ensures
        super::version::numbered_version(super::version::version_tag(version) + body) == Some(
            Version(version),
        ),
{
    let b = super::version::version_tag(version) + body;
    assert(b[0] == 48 + version / 10);
    assert(b[1] == 48 + version % 10);
    assert(b[2] == NEWLINE);
}

/// A version that is numbered has a tag.
pub proof fn lemma_numbered(b: Seq<u8>)
    ensures
        super::version::numbered_version(b) matches Some(version) ==> version.0 <= 99 && b.take(3)
            == super::version::version_tag(version.0),
{
    if let Some(version) = super::version::numbered_version(b) {
        assert(version.0 / 10 == b[0] - 48);
        assert(version.0 % 10 == b[1] - 48);
        assert(b.take(3) =~= super::version::version_tag(version.0));
    }
}

/// Files of versions 0 and 1 open without a header.
pub proof fn old_versions_have_no_header(version: u64, body: Seq<u8>)
    requires
        version <= 1,
    ensures
        super::stream::opened(
            super::version::magic() + super::version::version_tag(version) + body,
        ) == (Opened::Stream { version: Version(version), header: None, rest: body }),
{
    let plain = super::version::magic() + super::version::version_tag(version) + body;
    lemma_tag(version, body);
    assert(plain.take(5) =~= super::version::magic());
    assert(plain.skip(5) =~= super::version::version_tag(version) + body);
    assert(plain.skip(8) =~= body);
}

/// Files of versions past 2 are refused as such.
pub proof fn later_versions_are_unknown(version: u64, body: Seq<u8>)
    requires
        2 < version <= 99,
    ensures
        super::stream::opened(
            super::version::magic() + super::version::version_tag(version) + body,
        ) == Opened::UnknownVersion(Version(version)),
{
    let plain = super::version::magic() + super::version::version_tag(version) + body;
    lemma_tag(version, body);
    assert(plain.take(5) =~= super::version::magic());
    assert(plain.skip(5) =~= super::version::version_tag(version) + body);
}

/// What does not start with the magic number and a version, which is two decimal digits
/// and a newline, is refused as invalid, and nothing else is.
pub proof fn other_files_are_invalid(plain: Seq<u8>)
    ensures
        super::stream::opened(plain) is Invalid <==> !exists|version: u64|
            version <= 99 && plain.len() >= 8 && plain.take(8) == super::version::magic()
                + #[trigger] super::version::version_tag(version),
{
    if plain.len() >= 8 {
        let start = plain.take(8);
        assert(start =~= plain.take(5) + plain.skip(5).take(3));
        assert forall|version: u64|
            version <= 99 && start == super::version::magic()
                + #[trigger] super::version::version_tag(version) implies super::stream::opened(
            plain,
        ) !is Invalid by {
            assert(plain.take(5) =~= start.take(5));
            assert(start.take(5) =~= super::version::magic());
            assert(plain.skip(5) =~= start.skip(5) + plain.skip(8));
            assert(start.skip(5) =~= super::version::version_tag(version));
            lemma_tag(version, plain.skip(8));
        }
        if super::stream::opened(plain) !is Invalid {
            lemma_numbered(plain.skip(5));
            let version = super::version::announced_version(plain)->0;
            assert(start == super::version::magic() + super::version::version_tag(version.0));
        }
    }
}

} // verus!
