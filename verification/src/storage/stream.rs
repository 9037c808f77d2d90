//! Reading raw data files.

use super::error::{StorageError, TraceError};
use super::line::{read_line_bounded, Line, LineReader};
use super::version::{read_version, Version};
use crate::gzip;
use crate::system::IoErrorKind;
use flate2::read::GzDecoder;
use vstd::prelude::*;

verus! {

/// The text of one stack trace.
#[derive(Debug, PartialEq, Eq)]
pub enum Record {
    /// A bare list of frames, as version 0 files hold.
    Frames(String),
    /// A whole stack trace.
    Trace(String),
}

impl Record {
    /// The text of the record.
    pub open spec fn text(self) -> Seq<char> {
        match self {
            Record::Frames(text) => text@,
            Record::Trace(text) => text@,
        }
    }
}

/// What the plain bytes of a file are, taken as a raw data file.
pub enum Opened {
    /// They do not start with the magic number and a version.
    Invalid,
    /// They start with the magic number and a version that cannot be handled.
    UnknownVersion(Version),
    /// They end where the header line should be.
    MissingHeader,
    /// Their header line is longer than the maximum.
    LineTooLong,
    /// Their header line is not valid UTF-8.
    NotUtf8,
    /// A version, the header line if the version has one, and the bytes of the
    /// stack traces.
    Stream { version: Version, header: Option<Seq<char>>, rest: Seq<u8> },
}

/// What `plain` is, taken as a raw data file.
pub open spec fn opened(plain: Seq<u8>) -> Opened {
    match super::version::announced_version(plain) {
        None => Opened::Invalid,
        Some(version) => if version.0 > 2 {
            Opened::UnknownVersion(version)
        } else if version == Version(2) {
            match super::line::first_line(plain.skip(8)) {
                Line::End => Opened::MissingHeader,
                Line::TooLong => Opened::LineTooLong,
                Line::NotUtf8 => Opened::NotUtf8,
                Line::Text(header) => Opened::Stream {
                    version,
                    header: Some(header),
                    rest: super::line::after_line(plain.skip(8)),
                },
            }
        } else {
            Opened::Stream { version, header: None, rest: plain.skip(8) }
        },
    }
}

/// `s` from its first line that is not an empty one.
pub open spec fn skip_blank(s: Seq<u8>) -> Seq<u8>
    decreases s.len(),
{
    proof {
        crate::storage::line::lemma_line_len(s, 0);
    }
    if s.len() > 0 && super::line::first_line(s) == Line::Text(Seq::empty()) {
        skip_blank(super::line::after_line(s))
    } else {
        s
    }
}

/// A raw data file that is read one stack trace at a time, so that the profile need
/// not be held in memory decompressed.
pub struct TraceStream<'a> {
    version: Version,
    header: Option<String>,
    reader: LineReader<'a>,
}

impl<'a> TraceStream<'a> {
    /// The version of the file.
    pub closed spec fn version(self) -> Version {
        self.version
    }

    /// The header line of the file.
    pub closed spec fn header(self) -> Option<Seq<char>> {
        match self.header {
            Some(header) => Some(header@),
            None => None,
        }
    }

    /// The plain bytes that have not been read yet.
    pub closed spec fn rest(self) -> Seq<u8> {
        self.reader.rest()
    }

    /// The plain bytes that have been decompressed and have not been read yet.
    pub closed spec fn buffered(self) -> Seq<u8> {
        self.reader.buffered()
    }

    /// The kind of failure that lies ahead, or `None` if what is read is an intact gzip
    /// member.
    pub closed spec fn damage(self) -> Option<IoErrorKind> {
        self.reader.damage()
    }

    /// The decoder that the bytes come from.
    pub closed spec fn source(self) -> GzDecoder<&'a [u8]> {
        self.reader.source()
    }

    /// What is left to be read is what has been decompressed and then what the decoder
    /// still holds, and it fails as the decoder does.
    pub proof fn rest_is_buffered_then_unread(self)
        ensures
            self.rest() == self.buffered() + gzip::unread(self.source()),
            self.damage() == gzip::damage(self.source()),
    {
        self.reader.rest_is_buffered_then_unread();
    }

    /// The version is a known one, and a header is there if the version has one.
    pub closed spec fn wf(self) -> bool {
        &&& self.reader.wf()
        &&& self.version.0 <= 2
        &&& self.header is Some == (self.version.0 == 2)
    }

    /// Tells whether `r` reports what a file is whose plain bytes are `plain`, and whose
    /// reading fails as `damage` says.
    pub open spec fn reports(
        r: Result<TraceStream<'a>, TraceError>,
        plain: Seq<u8>,
        damage: Option<IoErrorKind>,
    ) -> bool {
        match r {
            Ok(stream) => opened(plain) == (Opened::Stream {
                version: stream.version(),
                header: stream.header(),
                rest: stream.rest(),
            }),
            Err(TraceError::Storage(StorageError::Invalid)) => super::version::is_invalid_start(
                plain,
                damage,
            ),
            Err(TraceError::Storage(StorageError::UnknownVersion(version))) => opened(plain)
                == Opened::UnknownVersion(version),
            Err(TraceError::Storage(StorageError::Io(error))) => {
                let kind = crate::system::io_error_kind(error);
                &&& damage == Some(kind)
                &&& kind is UnexpectedEof ==> super::version::announced_version(plain) == Some(
                    Version(2),
                )
            },
            Err(TraceError::MissingHeader) => opened(plain) is MissingHeader && damage is None,
            Err(TraceError::LineTooLong) => opened(plain) is LineTooLong,
            Err(TraceError::NotUtf8) => opened(plain) is NotUtf8,
        }
    }

    /// Opens the compressed raw data file `data`.
    pub fn new(data: &'a [u8]) -> (r: Result<TraceStream<'a>, TraceError>)
        ensures
            Self::reports(r, gzip::gunzip(data@).0, gzip::gunzip(data@).1),
            r matches Ok(stream) ==> stream.wf() && stream.damage() == gzip::gunzip(data@).1,
    {
        Self::from_decoder(gzip::decoder(data))
    }

    /// Opens the raw data file that `decoder` decompresses.
    pub fn from_decoder(decoder: GzDecoder<&'a [u8]>) -> (r: Result<TraceStream<'a>, TraceError>)
        ensures
            Self::reports(r, gzip::unread(decoder), gzip::damage(decoder)),
            r matches Ok(stream) ==> stream.wf() && stream.damage() == gzip::damage(decoder),
    {
        let mut decoder = decoder;
        let version: Version = match read_version(&mut decoder) {
            Ok(version) => version,
            Err(error) => {
                return Err(TraceError::Storage(error));
            },
        };
        let mut reader = LineReader::new(decoder);
        let header: Option<String> = if version.0 == 2 {
            match read_line_bounded(&mut reader) {
                Ok(Some(line)) => Some(line),
                Ok(None) => {
                    return Err(TraceError::MissingHeader);
                },
                Err(error) => {
                    return Err(error);
                },
            }
        } else {
            None
        };
        Ok(TraceStream { version, header, reader })
    }

    /// The header line, which version 0 and version 1 files do not have.
    pub fn header_line(&self) -> (r: Option<&str>)
        ensures
            match r {
                Some(line) => self.header() == Some(line@),
                None => self.header() is None,
            },
    {
        match &self.header {
            Some(line) => Some(line.as_str()),
            None => None,
        }
    }

    /// The text of the next stack trace; empty lines are passed over. A line that has been
    /// decompressed comes out before reading can fail.
    pub fn next(&mut self) -> (r: Option<Result<Record, TraceError>>)
        requires
            old(self).wf(),
        ensures
            final(self).wf(),
            final(self).version() == old(self).version(),
            final(self).header() == old(self).header(),
            match r {
                None => super::line::first_line(skip_blank(old(self).rest())) is End,
                Some(Ok(record)) => {
                    &&& super::line::first_line(skip_blank(old(self).rest())) == Line::Text(
                        record.text(),
                    )
                    &&& record is Frames == (old(self).version() == Version(0))
                },
                Some(Err(TraceError::LineTooLong)) => super::line::first_line(
                    skip_blank(old(self).rest()),
                ) is TooLong,
                Some(Err(TraceError::NotUtf8)) => super::line::first_line(
                    skip_blank(old(self).rest()),
                ) is NotUtf8,
                Some(Err(error)) => error.io_kind() is Some && error.io_kind()
                    == old(self).damage(),
            },
            !(r matches Some(Err(error)) && error.io_kind() is Some) ==> {
                &&& final(self).rest() == super::line::after_line(skip_blank(old(self).rest()))
                &&& final(self).damage() == old(self).damage()
                &&& old(self).damage() is None || super::line::line_is_closed(
                    skip_blank(old(self).rest()),
                )
            },
            super::line::line_is_closed(skip_blank(old(self).buffered())) ==> {
                &&& !(r matches Some(Err(error)) && error.io_kind() is Some)
                &&& final(self).buffered() == super::line::after_line(
                    skip_blank(old(self).buffered()),
                )
            },
    {
        let ghost start = self.rest();
        let ghost harm = self.damage();
        let ghost ready = skip_blank(self.buffered());
        loop
            invariant
                self.wf(),
                start == old(self).rest(),
                harm == old(self).damage(),
                self.version() == old(self).version(),
                self.header() == old(self).header(),
                self.damage() == harm,
                skip_blank(self.rest()) == skip_blank(start),
                ready == skip_blank(old(self).buffered()),
                super::line::line_is_closed(ready) ==> skip_blank(self.buffered()) == ready,
            decreases self.rest().len(),
        {
            let ghost here = self.rest();
            let ghost near = self.buffered();
            proof {
                super::line::lemma_line_len(here, 0);
                if super::line::line_is_closed(ready) {
                    if near.len() > 0 && super::line::first_line(near) == Line::Text(Seq::empty()) {
                        super::line::blank_line_is_closed(near);
                    }
                    self.reader.lemma_buffered_first();
                    super::line::closed_line_stays(near, here.skip(near.len() as int));
                }
            }
            match read_line_bounded(&mut self.reader) {
                Ok(Some(line)) => {
                    if !line.as_str().is_empty() {
                        return Some(
                            Ok(
                                if self.version.0 == 0 {
                                    Record::Frames(line)
                                } else {
                                    Record::Trace(line)
                                },
                            ),
                        );
                    }
                    assert(line@ =~= Seq::empty());
                },
                Ok(None) => {
                    return None;
                },
                Err(error) => {
                    return Some(Err(error));
                },
            }
        }
    }
}

} // verus!
