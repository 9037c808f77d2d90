//! Writing raw data files.

use super::line::NEWLINE;
use crate::gzip::{self, Compressor};
use vstd::prelude::*;

verus! {

/// The bytes of one line of text.
pub open spec fn line_bytes(text: Seq<char>) -> Seq<u8> {
    vstd::utf8::encode_utf8(text).push(NEWLINE)
}

/// The bytes of lines of text, one after the other.
pub open spec fn lines_bytes(lines: Seq<Seq<char>>) -> Seq<u8>
    decreases lines.len(),
{
    if lines.len() == 0 {
        Seq::empty()
    } else {
        lines_bytes(lines.drop_last()) + line_bytes(lines.last())
    }
}

/// The plain bytes of the raw data file that holds a header and stack traces.
pub open spec fn file_bytes(header: Seq<char>, traces: Seq<Seq<char>>) -> Seq<u8> {
    start_bytes() + line_bytes(header) + lines_bytes(traces)
}

/// The plain bytes that open a raw data file of the current version.
pub open spec fn start_bytes() -> Seq<u8> {
    super::version::magic() + super::version::version_tag(2)
}

/// A raw data file that is being written.
pub struct Store {
    compressor: Compressor,
}

impl Store {
    /// The plain bytes that the file holds so far.
    pub closed spec fn contents(self) -> Seq<u8> {
        gzip::accepted(self.compressor)
    }

    /// The compressed bytes of the file that have been handed out.
    pub closed spec fn handed_out(self) -> Seq<u8> {
        gzip::taken(self.compressor)
    }

    /// The compressed bytes of the file that are ready and have not been handed out.
    pub closed spec fn ready(self) -> Seq<u8> {
        gzip::ready(self.compressor)
    }

    /// The compressor behind the file.
    pub closed spec fn compressor(self) -> Compressor {
        self.compressor
    }

    /// The file holds what its compressor has been given, what has been taken out of that
    /// has been handed out, and what that has put out since is ready.
    pub proof fn file_is_what_is_compressed(self)
        ensures
            self.contents() == gzip::accepted(self.compressor()),
            self.handed_out() == gzip::taken(self.compressor()),
            self.ready() == gzip::ready(self.compressor()),
    {
    }

    /// Starts a file with a header line.
    pub fn new(header: &str) -> (r: Result<Store, std::io::Error>)
        ensures
            r is Ok,
            r matches Ok(store) ==> {
                &&& store.contents() == file_bytes(header@, Seq::empty())
                &&& store.handed_out() == Seq::<u8>::empty()
            },
    {
        let mut store = Store { compressor: gzip::compressor() };
        let start: &str = "rbspy02\n";
        proof {
            reveal_strlit("rbspy02\n");
            vstd::utf8::is_ascii_chars_encode_utf8(start@);
            assert(vstd::utf8::encode_utf8(start@) =~= start_bytes());
        }
        match gzip::write_all(&mut store.compressor, start.as_bytes()) {
            Ok(()) => {},
            Err(error) => {
                return Err(error);
            },
        }
        assert(store.contents() =~= start_bytes());
        match store.write(header) {
            Ok(()) => {},
            Err(error) => {
                return Err(error);
            },
        }
        assert(store.contents() =~= file_bytes(header@, Seq::empty()));
        Ok(store)
    }

    /// Appends the text of one stack trace.
    pub fn write(&mut self, trace: &str) -> (r: Result<(), std::io::Error>)
        ensures
            r is Ok,
            final(self).contents() == old(self).contents() + line_bytes(trace@),
            final(self).handed_out() == old(self).handed_out(),
            old(self).ready().is_prefix_of(final(self).ready()),
    {
        match gzip::write_all(&mut self.compressor, trace.as_bytes()) {
            Ok(()) => {},
            Err(error) => {
                return Err(error);
            },
        }
        let end: &str = "\n";
        proof {
            reveal_strlit("\n");
            vstd::utf8::is_ascii_chars_encode_utf8(end@);
            assert(vstd::utf8::encode_utf8(end@) =~= seq![NEWLINE]);
        }
        match gzip::write_all(&mut self.compressor, end.as_bytes()) {
            Ok(()) => {},
            Err(error) => {
                return Err(error);
            },
        }
        assert(self.contents() =~= old(self).contents() + line_bytes(trace@));
        Ok(())
    }

    /// Takes out all the compressed bytes that are ready.
    pub fn take_output(&mut self) -> (output: Vec<u8>)
        ensures
            output@ == old(self).ready(),
            final(self).ready() == Seq::<u8>::empty(),
            final(self).contents() == old(self).contents(),
            final(self).handed_out() == old(self).handed_out() + output@,
    {
        gzip::take_output(&mut self.compressor)
    }

    /// Ends the file and hands out its last compressed bytes. The file is not
    /// complete before: leaving this out would leave a truncated file.
    pub fn complete(self) -> (r: Result<Vec<u8>, std::io::Error>)
        ensures
            r is Ok,
            r matches Ok(output) ==> {
                &&& gzip::gunzip(self.handed_out() + output@).0 == self.contents()
                &&& gzip::gunzip(self.handed_out() + output@).1 is None
                &&& self.ready().is_prefix_of(output@)
            },
    {
        gzip::finish(self.compressor)
    }
}

} // verus!
