//! Lines of bounded length.

use super::error::{StorageError, TraceError};
use crate::gzip;
use crate::system::{self, IoErrorKind};
use flate2::read::GzDecoder;
use vstd::prelude::*;

verus! {

/// The maximum length of a line, its terminator included. Raw data files are
/// compressed, so without a limit a small file could expand into an enormous line
/// and exhaust memory.
pub const MAX_LINE_BYTES: usize = 64 * 1024 * 1024;

/// The byte that ends a line.
pub const NEWLINE: u8 = 10;

/// The byte that may stand before the newline.
pub const CARRIAGE_RETURN: u8 = 13;

/// How many decompressed bytes are asked for at a time.
const CHUNK_BYTES: usize = 8192;

/// The length of the first line of `s`, its newline included if it has one.
pub open spec fn line_len(s: Seq<u8>) -> nat
    decreases s.len(),
{
    if s.len() == 0 {
        0
    } else if s[0] == NEWLINE {
        1
    } else {
        1 + line_len(s.drop_first())
    }
}

/// How much of `s` is taken for its first line: all of the line, or one byte more
/// than the maximum.
pub open spec fn taken_len(s: Seq<u8>) -> int {
    if line_len(s) > MAX_LINE_BYTES {
        MAX_LINE_BYTES + 1
    } else {
        line_len(s) as int
    }
}

/// A line without its terminator, which is a newline or a carriage return and a
/// newline.
pub open spec fn without_terminator(line: Seq<u8>) -> Seq<u8> {
    if line.len() > 0 && line.last() == NEWLINE {
        let body = line.drop_last();
        if body.len() > 0 && body.last() == CARRIAGE_RETURN {
            body.drop_last()
        } else {
            body
        }
    } else {
        line
    }
}

/// What there is to read at the start of a run of bytes.
pub enum Line {
    /// The bytes are at their end.
    End,
    /// A line that is longer than the maximum.
    TooLong,
    /// A line that is not valid UTF-8.
    NotUtf8,
    /// A line of text, without its terminator.
    Text(Seq<char>),
}

/// The first line of `s`.
pub open spec fn first_line(s: Seq<u8>) -> Line {
    let body = without_terminator(s.take(taken_len(s)));
    if s.len() == 0 {
        Line::End
    } else if line_len(s) > MAX_LINE_BYTES {
        Line::TooLong
    } else if !vstd::utf8::valid_utf8(body) {
        Line::NotUtf8
    } else {
        Line::Text(vstd::utf8::decode_utf8(body))
    }
}

/// What follows the first line of `s`.
pub open spec fn after_line(s: Seq<u8>) -> Seq<u8> {
    s.skip(taken_len(s))
}

/// Tells whether the first line of `s` ends for another reason than that `s` does.
pub open spec fn line_is_closed(s: Seq<u8>) -> bool {
    line_len(s) > MAX_LINE_BYTES || (line_len(s) > 0 && s[line_len(s) - 1] == NEWLINE)
}

/// Reads the decompressed bytes of a raw data file line by line.
pub struct LineReader<'a> {
    decoder: GzDecoder<&'a [u8]>,
    buffer: Vec<u8>,
    next: usize,
}

impl<'a> LineReader<'a> {
    /// The plain bytes that have been decompressed and have not been read yet.
    pub closed spec fn buffered(self) -> Seq<u8> {
        self.buffer@.skip(self.next as int)
    }

    /// The plain bytes that have not been read yet.
    pub closed spec fn rest(self) -> Seq<u8> {
        self.buffered() + gzip::unread(self.decoder)
    }

    /// The kind of failure that lies ahead, or `None` if what is read is an intact gzip
    /// member.
    pub closed spec fn damage(self) -> Option<IoErrorKind> {
        gzip::damage(self.decoder)
    }

    /// The decoder that the bytes come from.
    pub closed spec fn source(self) -> GzDecoder<&'a [u8]> {
        self.decoder
    }

    /// The reader's place lies within its buffer.
    pub closed spec fn wf(self) -> bool {
        self.next <= self.buffer@.len()
    }

    /// What has been decompressed is the next to be read.
    pub proof fn lemma_buffered_first(self)
        ensures
            self.rest() == self.buffered() + self.rest().skip(self.buffered().len() as int),
    {
        assert(self.rest() =~= self.buffered() + self.rest().skip(self.buffered().len() as int));
    }

    /// What is left to be read is what has been decompressed and then what the decoder
    /// still holds, and it fails as the decoder does.
    pub proof fn rest_is_buffered_then_unread(self)
        ensures
            self.rest() == self.buffered() + gzip::unread(self.source()),
            self.damage() == gzip::damage(self.source()),
    {
    }

    /// Starts to read lines where `decoder` stands.
    pub fn new(decoder: GzDecoder<&'a [u8]>) -> (r: LineReader<'a>)
        ensures
            r.wf(),
            r.source() == decoder,
            r.rest() == gzip::unread(decoder),
            r.buffered() == Seq::<u8>::empty(),
            r.damage() == gzip::damage(decoder),
    {
        let r = LineReader { decoder, buffer: Vec::new(), next: 0 };
        assert(r.buffered() =~= Seq::<u8>::empty());
        assert(r.rest() =~= gzip::unread(decoder));
        r
    }

    /// Makes sure that the buffer holds a byte to read, unless the bytes are at
    /// their end. Tells whether it holds one.
    fn fill(&mut self) -> (r: Result<bool, std::io::Error>)
        requires
            old(self).wf(),
        ensures
            final(self).wf(),
            match r {
                Ok(more) => {
                    &&& final(self).rest() == old(self).rest()
                    &&& final(self).damage() == old(self).damage()
                    &&& more == (final(self).next < final(self).buffer@.len())
                    &&& !more ==> old(self).rest().len() == 0 && old(self).damage() is None
                    &&& old(self).buffered().len() > 0 ==> final(self).buffered() == old(
                        self,
                    ).buffered()
                },
                Err(error) => {
                    &&& old(self).damage() == Some(system::io_error_kind(error))
                    &&& old(self).buffered().len() == 0
                },
            },
    {
        if self.next < self.buffer.len() {
            return Ok(true);
        }
        match gzip::read(&mut self.decoder, CHUNK_BYTES) {
            Ok(chunk) => {
                self.buffer = chunk;
                self.next = 0;
                assert(self.rest() =~= old(self).rest());
                Ok(self.buffer.len() > 0)
            },
            Err(error) => Err(error),
        }
    }

    /// Moves buffered bytes to the end of `line`: up to the first newline, and at
    /// most `room` of them. Tells whether the last one is a newline.
    fn take_buffered(&mut self, line: &mut Vec<u8>, room: usize) -> (closed: bool)
        requires
            old(self).wf(),
            old(self).next < old(self).buffer@.len(),
            room > 0,
        ensures
            final(self).wf(),
            final(self).damage() == old(self).damage(),
            final(line)@.len() > old(line)@.len(),
            final(line)@.len() <= old(line)@.len() + room,
            final(line)@.take(old(line)@.len() as int) == old(line)@,
            final(line)@ + final(self).rest() == old(line)@ + old(self).rest(),
            final(line)@ + final(self).buffered() == old(line)@ + old(self).buffered(),
            forall|i: int|
                old(line)@.len() <= i < final(line)@.len() - 1 ==> final(line)@[i] != NEWLINE,
            closed == (final(line)@.last() == NEWLINE),
    {
        let end: usize = self.buffer.len();
        let mut count: usize = 0;
        let mut closed: bool = false;
        while !closed && count < room && count < end - self.next
            invariant
                *self == *old(self),
                end == self.buffer@.len(),
                self.next < end,
                room > 0,
                count <= room,
                count <= self.buffer@.len() - self.next,
                closed ==> count > 0 && self.buffer@[self.next + count - 1] == NEWLINE,
                !closed ==> forall|i: int|
                    self.next <= i < self.next + count ==> self.buffer@[i] != NEWLINE,
                forall|i: int|
                    self.next <= i < self.next + count - 1 ==> self.buffer@[i] != NEWLINE,
            decreases self.buffer@.len() - self.next - count,
        {
            closed = self.buffer[self.next + count] == NEWLINE;
            count += 1;
        }
        let part: &[u8] = vstd::slice::slice_subrange(
            self.buffer.as_slice(),
            self.next,
            self.next + count,
        );
        line.extend_from_slice(part);
        self.next = self.next + count;
        assert(line@ =~= old(line)@ + old(self).buffer@.subrange(
            old(self).next as int,
            old(self).next + count,
        ));
        assert(line@.take(old(line)@.len() as int) =~= old(line)@);
        assert(line@ + self.buffered() =~= old(line)@ + old(self).buffered());
        assert(line@ + self.rest() =~= old(line)@ + old(self).rest());
        closed
    }
}

/// A line ends where its first newline stands.
pub proof fn lemma_line_len(s: Seq<u8>, n: int)
    requires
        0 <= n <= s.len(),
        forall|i: int| 0 <= i < n ==> s[i] != NEWLINE,
    ensures
        n < s.len() && s[n] == NEWLINE ==> line_len(s) == n + 1,
        n == s.len() ==> line_len(s) == n,
        n < s.len() ==> line_len(s) > n,
        line_len(s) <= s.len(),
    decreases s.len(),
{
    if s.len() > 0 {
        if n > 0 {
            assert forall|i: int| 0 <= i < n - 1 implies s.drop_first()[i] != NEWLINE by {
                assert(s.drop_first()[i] == s[i + 1]);
            }
            lemma_line_len(s.drop_first(), n - 1);
        } else {
            lemma_line_len(s.drop_first(), 0);
        }
    }
}

/// How far the first line of `s` goes does not depend on what follows it, once it is
/// closed.
proof fn lemma_line_len_stays(s: Seq<u8>, t: Seq<u8>)
    requires
        s.len() > 0,
    ensures
        0 < line_len(s) <= s.len(),
        s[line_len(s) - 1] == NEWLINE ==> line_len(s + t) == line_len(s),
        s[line_len(s) - 1] != NEWLINE ==> line_len(s) == s.len() && line_len(s + t) >= line_len(s),
    decreases s.len(),
{
    assert((s + t)[0] == s[0]);
    assert((s + t).drop_first() =~= s.drop_first() + t);
    if s[0] != NEWLINE {
        if s.len() == 1 {
            assert(line_len(s.drop_first()) == 0);
        } else {
            lemma_line_len_stays(s.drop_first(), t);
            let n = line_len(s) - 1;
            assert(s.drop_first()[n - 1] == s[n]);
        }
    }
}

/// A line that is closed reads the same whatever follows it.
pub proof fn closed_line_stays(s: Seq<u8>, t: Seq<u8>)
    requires
        line_is_closed(s),
    ensures
        line_is_closed(s + t),
        first_line(s + t) == first_line(s),
        after_line(s + t) == after_line(s) + t,
{
    if s.len() > 0 {
        lemma_line_len_stays(s, t);
        assert((s + t).take(taken_len(s)) =~= s.take(taken_len(s)));
        assert((s + t).skip(taken_len(s)) =~= s.skip(taken_len(s)) + t);
    }
}

/// An empty line is closed.
pub proof fn blank_line_is_closed(s: Seq<u8>)
    requires
        s.len() > 0,
        first_line(s) == Line::Text(Seq::empty()),
    ensures
        line_is_closed(s),
{
    lemma_line_len_stays(s, Seq::empty());
    let raw = s.take(taken_len(s));
    let body = without_terminator(raw);
    vstd::utf8::decode_utf8_encode_utf8(body);
    assert(body =~= vstd::utf8::encode_utf8(Seq::empty()));
    assert(body.len() == 0);
}

/// Reads one line, and refuses one that is too long or not valid UTF-8. There is
/// no line at the end of the bytes. A line that has been decompressed comes out before
/// reading can fail.
pub fn read_line_bounded(reader: &mut LineReader<'_>) -> (r: Result<Option<String>, TraceError>)
    requires
        old(reader).wf(),
    ensures
        final(reader).wf(),
        match r {
            Ok(None) => first_line(old(reader).rest()) is End,
            Ok(Some(text)) => first_line(old(reader).rest()) == Line::Text(text@),
            Err(TraceError::LineTooLong) => first_line(old(reader).rest()) is TooLong,
            Err(TraceError::NotUtf8) => first_line(old(reader).rest()) is NotUtf8,
            Err(error) => error.io_kind() is Some && error.io_kind() == old(reader).damage(),
        },
        !(r matches Err(error) && error.io_kind() is Some) ==> {
            &&& final(reader).rest() == after_line(old(reader).rest())
            &&& final(reader).damage() == old(reader).damage()
            &&& old(reader).damage() is None || line_is_closed(old(reader).rest())
        },
        line_is_closed(old(reader).buffered()) ==> {
            &&& !(r matches Err(error) && error.io_kind() is Some)
            &&& final(reader).buffered() == after_line(old(reader).buffered())
        },
{
    let ghost start = reader.rest();
    let ghost harm = reader.damage();
    let ghost ready = reader.buffered();
    let mut line: Vec<u8> = Vec::new();
    let mut open: bool = true;
    let mut more: bool = true;
    assert(line@ + reader.rest() =~= start);
    assert(line@ + reader.buffered() =~= ready);
    while open && more && line.len() <= MAX_LINE_BYTES
        invariant
            reader.wf(),
            start == old(reader).rest(),
            harm == old(reader).damage(),
            reader.damage() == harm,
            line@ + reader.rest() == start,
            ready == old(reader).buffered(),
            line_is_closed(ready) ==> line@ + reader.buffered() == ready,
            line@.len() <= MAX_LINE_BYTES + 1,
            forall|i: int| 0 <= i < line@.len() - 1 ==> line@[i] != NEWLINE,
            open == (line@.len() == 0 || line@.last() != NEWLINE),
            !more ==> open && reader.rest().len() == 0 && harm is None && !line_is_closed(ready),
        decreases MAX_LINE_BYTES + 1 - line@.len(), if more { 1int } else { 0int },
    {
        proof {
            if line_is_closed(ready) && reader.buffered().len() == 0 {
                assert(ready =~= line@);
                lemma_line_len(ready, ready.len() as int);
            }
        }
        match reader.fill() {
            Ok(true) => {
                let room: usize = MAX_LINE_BYTES + 1 - line.len();
                let ghost before = line@;
                open = !reader.take_buffered(&mut line, room);
                assert forall|i: int| 0 <= i < line@.len() - 1 implies line@[i] != NEWLINE by {
                    if i < before.len() {
                        assert(line@.take(before.len() as int)[i] == line@[i]);
                    }
                }
            },
            Ok(false) => {
                more = false;
            },
            Err(error) => {
                return Err(TraceError::Storage(StorageError::Io(error)));
            },
        }
    }
    proof {
        let n = line@.len() as int;
        assert(start.take(n) =~= line@);
        assert(start.skip(n) =~= reader.rest());
        assert forall|i: int| 0 <= i < n - 1 implies start[i] != NEWLINE by {
            assert(line@[i] == start[i]);
        }
        if open {
            assert forall|i: int| 0 <= i < n implies start[i] != NEWLINE by {
                assert(line@[i] == start[i]);
            }
            lemma_line_len(start, n);
        } else {
            lemma_line_len(start, n - 1);
        }
        assert(taken_len(start) == n);
        if line_is_closed(ready) {
            assert forall|i: int| 0 <= i < n implies ready[i] == start[i] by {
                assert(line@[i] == ready[i]);
            }
            lemma_line_len(ready, if open { n } else { n - 1 });
            assert(ready.skip(n) =~= reader.buffered());
        }
    }
    if line.len() == 0 {
        return Ok(None);
    }
    if line.len() > MAX_LINE_BYTES {
        return Err(TraceError::LineTooLong);
    }
    let ghost raw = line@;
    if line[line.len() - 1] == NEWLINE {
        let _ = line.pop();
        if line.len() > 0 && line[line.len() - 1] == CARRIAGE_RETURN {
            let _ = line.pop();
        }
    }
    assert(line@ =~= without_terminator(raw));
    match crate::text::string_from_utf8(line) {
        Some(text) => {
            proof {
                vstd::utf8::encode_utf8_decode_utf8(text@);
            }
            Ok(Some(text))
        },
        None => Err(TraceError::NotUtf8),
    }
}

} // verus!
