//! Raw data files byte by byte.

use super::error::{StorageError, TraceError};
use super::laws::{lemma_numbered, lemma_tag, line_reads_back};
use super::line::{blank_line_is_closed, lemma_line_len, Line};
use super::stream::{Opened, Record, TraceStream};
use super::version::Version;
use crate::system::IoErrorKind;
use vstd::prelude::*;

verus! {

/// A line that ends in a newline is the bytes before it, read as UTF-8, and behind it
/// follows all the rest.
pub proof fn line_is_the_bytes_before_its_newline(body: Seq<u8>, tail: Seq<u8>)
    requires
        forall|i: int| 0 <= i < body.len() ==> body[i] != 10,
        body.len() > 0 ==> body.last() != 13,
        body.len() + 1 <= 64 * 1024 * 1024,
    ensures
        ({
            let s = body + seq![10u8] + tail;
            &&& vstd::utf8::valid_utf8(body) ==> super::line::first_line(s) == Line::Text(
                vstd::utf8::decode_utf8(body),
            )
            &&& !vstd::utf8::valid_utf8(body) ==> super::line::first_line(s) is NotUtf8
            &&& super::line::after_line(s) == tail
        }),
{
    let line = body + seq![10u8];
    let s = line + tail;
    let n = body.len() as int;
    assert forall|i: int| 0 <= i < n implies s[i] != super::line::NEWLINE by {
        assert(s[i] == body[i]);
    }
    assert(s[n] == 10);
    lemma_line_len(s, n);
    assert(s.take(n + 1) =~= line);
    assert(line.drop_last() =~= body);
    assert(s.skip(n + 1) =~= tail);
}

/// A line that ends in a carriage return and a newline is the bytes before both.
pub proof fn line_is_the_bytes_before_its_carriage_return(body: Seq<u8>, tail: Seq<u8>)
    requires
        forall|i: int| 0 <= i < body.len() ==> body[i] != 10,
        body.len() + 2 <= 64 * 1024 * 1024,
    ensures
        ({
            let s = body + seq![13u8, 10u8] + tail;
            &&& vstd::utf8::valid_utf8(body) ==> super::line::first_line(s) == Line::Text(
                vstd::utf8::decode_utf8(body),
            )
            &&& !vstd::utf8::valid_utf8(body) ==> super::line::first_line(s) is NotUtf8
            &&& super::line::after_line(s) == tail
        }),
{
    let line = body + seq![13u8, 10u8];
    let s = line + tail;
    let n = body.len() as int + 1;
    assert forall|i: int| 0 <= i < n implies s[i] != super::line::NEWLINE by {
        if i < body.len() {
            assert(s[i] == body[i]);
        } else {
            assert(s[i] == 13);
        }
    }
    assert(s[n] == 10);
    lemma_line_len(s, n);
    assert(s.take(n + 1) =~= line);
    assert(line.drop_last() =~= body.push(13u8));
    assert(super::line::without_terminator(line) =~= body);
    assert(s.skip(n + 1) =~= tail);
}

/// The last line needs no newline: it is all the bytes that are left, a final carriage
/// return among them.
pub proof fn last_line_is_all_that_is_left(body: Seq<u8>)
    requires
        forall|i: int| 0 <= i < body.len() ==> body[i] != 10,
        0 < body.len() <= 64 * 1024 * 1024,
    ensures
        vstd::utf8::valid_utf8(body) ==> super::line::first_line(body) == Line::Text(
            vstd::utf8::decode_utf8(body),
        ),
        !vstd::utf8::valid_utf8(body) ==> super::line::first_line(body) is NotUtf8,
        super::line::after_line(body) == Seq::<u8>::empty(),
{
    lemma_line_len(body, body.len() as int);
    assert(body.take(body.len() as int) =~= body);
    assert(body.skip(body.len() as int) =~= Seq::<u8>::empty());
}

/// There is no line where there are no bytes.
pub proof fn no_bytes_hold_no_line()
    ensures
        super::line::first_line(Seq::empty()) is End,
        super::line::after_line(Seq::empty()) == Seq::<u8>::empty(),
        super::stream::skip_blank(Seq::empty()) == Seq::<u8>::empty(),
{
    assert(super::line::after_line(Seq::empty()) =~= Seq::<u8>::empty());
}

/// A line with more than 64 MiB, its newline included, is refused, and one byte more than
/// that is taken.
pub proof fn longer_line_is_refused(s: Seq<u8>)
    requires
        s.len() > 64 * 1024 * 1024,
        forall|i: int| 0 <= i < 64 * 1024 * 1024 ==> s[i] != 10,
    ensures
        super::line::first_line(s) is TooLong,
        super::line::after_line(s) == s.skip(67108865),
{
    lemma_line_len(s, 67108864);
}

/// A line is closed once its newline is there, or more bytes than it may have.
pub proof fn line_is_closed_by_a_newline_or_its_length(s: Seq<u8>)
    ensures
        super::line::line_is_closed(s) <==> s.contains(10u8) || s.len() > 64 * 1024 * 1024,
{
    if s.contains(10u8) {
        lemma_first_newline(s);
    } else {
        assert forall|i: int| 0 <= i < s.len() implies s[i] != super::line::NEWLINE by {
            assert(s.contains(s[i]));
        }
        lemma_line_len(s, s.len() as int);
    }
}

proof fn lemma_first_newline(s: Seq<u8>)
    requires
        s.contains(10u8),
    ensures
        0 < super::line::line_len(s) <= s.len(),
        s[super::line::line_len(s) - 1] == 10,
{
    let n = s.index_of_first(10u8)->0;
    s.index_of_first_ensures(10u8);
    assert forall|i: int| 0 <= i < n implies s[i] != super::line::NEWLINE by {}
    lemma_line_len(s, n);
}

/// Empty lines are passed over, and nothing else is.
pub proof fn only_empty_lines_are_passed_over(s: Seq<u8>)
    ensures
        super::stream::skip_blank(seq![10u8] + s) == super::stream::skip_blank(s),
        super::stream::skip_blank(seq![13u8, 10u8] + s) == super::stream::skip_blank(s),
        s.len() > 0 && s[0] != 10 && !(s.len() > 1 && s[0] == 13 && s[1] == 10)
            ==> super::stream::skip_blank(s) == s,
{
    let none = Seq::<u8>::empty();
    lemma_empty_text();
    assert(none + seq![10u8] + s =~= seq![10u8] + s);
    line_is_the_bytes_before_its_newline(none, s);
    assert(none + seq![13u8, 10u8] + s =~= seq![13u8, 10u8] + s);
    line_is_the_bytes_before_its_carriage_return(none, s);
    if s.len() > 0 && super::line::first_line(s) == Line::Text(Seq::empty()) {
        blank_line_is_closed(s);
        let n = super::line::line_len(s);
        let raw = s.take(super::line::taken_len(s));
        let body = super::line::without_terminator(raw);
        vstd::utf8::decode_utf8_encode_utf8(body);
        assert(body.len() == 0);
        lemma_line_len(s, 0);
        assert(raw.last() == s[n - 1]);
        assert(raw.len() <= 2);
        assert(raw[0] == s[0]);
        if raw.len() == 2 {
            assert(raw.drop_last().last() == s[0]);
        }
    }
}

proof fn lemma_empty_text()
    ensures
        vstd::utf8::valid_utf8(Seq::empty()),
        vstd::utf8::decode_utf8(Seq::empty()) == Seq::<char>::empty(),
{
    assert(vstd::utf8::decode_utf8(Seq::empty()) =~= Seq::<char>::empty());
}

/// A file announces version `v` exactly when it starts with `rbspy`, the two digits of `v`
/// and a newline.
pub proof fn version_stands_in_the_first_eight_bytes(plain: Seq<u8>, v: u64)
    ensures
        super::version::announced_version(plain) == Some(Version(v)) <==> {
            &&& plain.len() >= 8
            &&& v <= 99
            &&& plain.take(8) == seq![
                114u8,
                98,
                115,
                112,
                121,
                (48 + v / 10) as u8,
                (48 + v % 10) as u8,
                10,
            ]
        },
{
    let start = seq![114u8, 98, 115, 112, 121, (48 + v / 10) as u8, (48 + v % 10) as u8, 10];
    lemma_magic();
    if plain.len() >= 8 {
        assert(plain.take(8) =~= plain.take(5) + plain.skip(5).take(3));
        if super::version::announced_version(plain) == Some(Version(v)) {
            lemma_numbered(plain.skip(5));
            assert(plain.take(8) =~= start);
        }
        if v <= 99 && plain.take(8) == start {
            assert(plain.take(5) =~= start.take(5));
            assert(start.take(5) =~= super::version::magic());
            assert(plain.skip(5) =~= start.skip(5) + plain.skip(8));
            assert(start.skip(5) =~= super::version::version_tag(v));
            lemma_tag(v, plain.skip(8));
        }
    }
}

proof fn lemma_magic()
    ensures
        super::version::magic() == seq![114u8, 98, 115, 112, 121],
        super::store::start_bytes() == seq![114u8, 98, 115, 112, 121, 48, 50, 10],
{
    assert(super::version::magic() =~= seq![114u8, 98, 115, 112, 121]);
    assert(super::store::start_bytes() =~= seq![114u8, 98, 115, 112, 121, 48, 50, 10]);
}

/// The versions that can be handled are 0, 1 and 2, each written with two digits and a
/// newline.
pub proof fn known_versions_are_the_first_three(b: Seq<u8>, v: u64)
    ensures
        super::version::known_version(b) == Some(Version(v)) <==> {
            &&& b.len() >= 3
            &&& v <= 2
            &&& b[0] == 48
            &&& b[1] == 48 + v
            &&& b[2] == 10
        },
{
}

/// What is intact is an invalid start exactly when it announces no version, what is cut off
/// may always be one, and what is damaged otherwise only if the first eight bytes are there
/// and announce no version.
pub proof fn invalid_starts_are_told_apart(plain: Seq<u8>)
    ensures
        super::version::is_invalid_start(plain, None)
            <==> super::version::announced_version(plain) is None,
        super::version::is_invalid_start(plain, Some(IoErrorKind::UnexpectedEof)),
        super::version::is_invalid_start(plain, Some(IoErrorKind::Other)) <==> plain.len() >= 8
            && super::version::announced_version(plain) is None,
        super::version::is_invalid_start(plain, Some(IoErrorKind::PermissionDenied))
            <==> plain.len() >= 8 && super::version::announced_version(plain) is None,
{
}

/// A file is `rbspy02`, a newline, the header, a newline, and for each stack trace its text
/// and a newline, with nothing between.
pub proof fn file_is_its_lines(header: Seq<char>, traces: Seq<Seq<char>>, trace: Seq<char>)
    ensures
        super::store::file_bytes(header, Seq::empty()) == seq![
            114u8,
            98,
            115,
            112,
            121,
            48,
            50,
            10,
        ] + vstd::utf8::encode_utf8(header) + seq![10u8],
        super::store::file_bytes(header, traces.push(trace)) == super::store::file_bytes(
            header,
            traces,
        ) + vstd::utf8::encode_utf8(trace) + seq![10u8],
        super::store::line_bytes(trace) == vstd::utf8::encode_utf8(trace) + seq![10u8],
{
    lemma_magic();
    assert(super::store::line_bytes(header) =~= vstd::utf8::encode_utf8(header) + seq![10u8]);
    assert(super::store::line_bytes(trace) =~= vstd::utf8::encode_utf8(trace) + seq![10u8]);
    assert(super::store::lines_bytes(Seq::empty()) =~= Seq::<u8>::empty());
    assert(super::store::file_bytes(header, Seq::empty()) =~= seq![
        114u8, 98, 115, 112, 121, 48, 50, 10,
    ] + vstd::utf8::encode_utf8(header) + seq![10u8]);
    assert(traces.push(trace).drop_last() =~= traces);
    assert(super::store::file_bytes(header, traces.push(trace)) =~= super::store::file_bytes(
        header,
        traces,
    ) + vstd::utf8::encode_utf8(trace) + seq![10u8]);
}

/// A file of version 2 opens with the line behind its first eight bytes as its header, and
/// with every byte behind that line left to be read.
pub proof fn header_is_the_line_behind_the_version(header: Seq<char>, rest: Seq<u8>)
    requires
        forall|i: int| 0 <= i < header.len() ==> header[i] != '\n',
        header.len() > 0 ==> header.last() != '\r',
        vstd::utf8::encode_utf8(header).len() + 1 <= 64 * 1024 * 1024,
    ensures
        super::stream::opened(
            seq![114u8, 98, 115, 112, 121, 48, 50, 10] + vstd::utf8::encode_utf8(header)
                + seq![10u8] + rest,
        ) == (Opened::Stream { version: Version(2), header: Some(header), rest }),
{
    let start = seq![114u8, 98, 115, 112, 121, 48, 50, 10];
    let body = vstd::utf8::encode_utf8(header) + seq![10u8] + rest;
    let plain = start + vstd::utf8::encode_utf8(header) + seq![10u8] + rest;
    assert(plain =~= start + body);
    version_two_goes_by_its_first_line(body);
    line_reads_back(header, rest);
    assert(body =~= super::store::line_bytes(header) + rest);
}

/// How a file of version 2 opens goes by the line behind its first eight bytes: its text is
/// the header, and what follows it is left to be read.
pub proof fn version_two_goes_by_its_first_line(body: Seq<u8>)
    ensures
        ({
            let file = super::stream::opened(
                seq![114u8, 98, 115, 112, 121, 48, 50, 10] + body,
            );
            match super::line::first_line(body) {
                Line::End => file is MissingHeader,
                Line::TooLong => file is LineTooLong,
                Line::NotUtf8 => file is NotUtf8,
                Line::Text(header) => file == (Opened::Stream {
                    version: Version(2),
                    header: Some(header),
                    rest: super::line::after_line(body),
                }),
            }
        }),
{
    let start = seq![114u8, 98, 115, 112, 121, 48, 50, 10];
    let plain = start + body;
    assert(plain.take(8) =~= start);
    version_stands_in_the_first_eight_bytes(plain, 2);
    assert(plain.skip(8) =~= body);
}

/// A file of version 0 or 1 opens without a header, with every byte behind the first eight
/// left to be read; one of a later version is refused with its version.
pub proof fn other_versions_go_by_their_number(v: u64, body: Seq<u8>)
    requires
        v <= 99,
        v != 2,
    ensures
        ({
            let file = super::stream::opened(
                seq![114u8, 98, 115, 112, 121, (48 + v / 10) as u8, (48 + v % 10) as u8, 10]
                    + body,
            );
            &&& v < 2 ==> file == (Opened::Stream {
                version: Version(v),
                header: None,
                rest: body,
            })
            &&& v > 2 ==> file == Opened::UnknownVersion(Version(v))
        }),
{
    let start = seq![114u8, 98, 115, 112, 121, (48 + v / 10) as u8, (48 + v % 10) as u8, 10];
    let plain = start + body;
    assert(plain.take(8) =~= start);
    version_stands_in_the_first_eight_bytes(plain, v);
    assert(plain.skip(8) =~= body);
}

/// An intact file is reported as what it is: it opens if it can, with its version, its
/// header and the bytes behind, and each way to be refused has its own error.
pub proof fn intact_file_is_reported<'a>(r: Result<TraceStream<'a>, TraceError>, plain: Seq<u8>)
    requires
        TraceStream::reports(r, plain, None),
    ensures
        match super::stream::opened(plain) {
            Opened::Invalid => r matches Err(TraceError::Storage(StorageError::Invalid)),
            Opened::UnknownVersion(version) => r matches Err(
                TraceError::Storage(StorageError::UnknownVersion(v)),
            ) && v == version,
            Opened::MissingHeader => r matches Err(TraceError::MissingHeader),
            Opened::LineTooLong => r matches Err(TraceError::LineTooLong),
            Opened::NotUtf8 => r matches Err(TraceError::NotUtf8),
            Opened::Stream { version, header, rest } => {
                &&& r matches Ok(stream)
                &&& stream.version() == version
                &&& stream.header() == header
                &&& stream.rest() == rest
            },
        },
        super::stream::opened(plain) is Invalid <==> super::version::announced_version(
            plain,
        ) is None,
{
}

/// A damaged file that opens opens as the intact one would, and a failure to read it has the
/// kind that goes with the damage.
pub proof fn damaged_file_is_reported<'a>(
    r: Result<TraceStream<'a>, TraceError>,
    plain: Seq<u8>,
    kind: IoErrorKind,
)
    requires
        TraceStream::reports(r, plain, Some(kind)),
    ensures
        match r {
            Ok(stream) => super::stream::opened(plain) == (Opened::Stream {
                version: stream.version(),
                header: stream.header(),
                rest: stream.rest(),
            }),
            Err(TraceError::Storage(StorageError::Io(error))) => {
                &&& crate::system::io_error_kind(error) == kind
                &&& kind is UnexpectedEof ==> super::version::announced_version(plain) == Some(
                    Version(2),
                )
            },
            Err(TraceError::Storage(StorageError::Invalid)) => kind is UnexpectedEof || (
            plain.len() >= 8 && super::version::announced_version(plain) is None),
            Err(TraceError::Storage(StorageError::UnknownVersion(version))) =>
                super::version::announced_version(plain) == Some(version) && version.0 > 2,
            Err(TraceError::MissingHeader) => false,
            Err(TraceError::LineTooLong) => super::stream::opened(plain) is LineTooLong,
            Err(TraceError::NotUtf8) => super::stream::opened(plain) is NotUtf8,
        },
{
}

/// The text of a record is the string that it holds.
pub proof fn record_text_is_its_string(text: String)
    ensures
        Record::Frames(text).text() == text@,
        Record::Trace(text).text() == text@,
{
}

/// An error has the kind of the I/O error that it holds, and none if it holds none.
pub proof fn io_kind_is_that_of_the_io_error(error: std::io::Error, version: Version)
    ensures
        TraceError::Storage(StorageError::Io(error)).io_kind() == Some(
            crate::system::io_error_kind(error),
        ),
        TraceError::Storage(StorageError::Invalid).io_kind() is None,
        TraceError::Storage(StorageError::UnknownVersion(version)).io_kind() is None,
        TraceError::LineTooLong.io_kind() is None,
        TraceError::NotUtf8.io_kind() is None,
        TraceError::MissingHeader.io_kind() is None,
{
}

/// The message on a version that cannot be handled ends in its number, and that on an I/O
/// error starts by saying so; within a stream the messages are the same.
pub proof fn messages_hold_their_details(version: Version, error: std::io::Error, text: Seq<char>)
    ensures
        StorageError::UnknownVersion(version).has_text(text) <==> text
            == "Cannot handle rbspy format "@ + crate::text::numeral(version.0 as nat, 10),
        StorageError::Io(error).has_text(text) <==> "IO error "@.is_prefix_of(text),
        TraceError::Storage(StorageError::UnknownVersion(version)).has_text(text)
            <==> StorageError::UnknownVersion(version).has_text(text),
        TraceError::Storage(StorageError::Io(error)).has_text(text)
            <==> StorageError::Io(error).has_text(text),
{
}

} // verus!
