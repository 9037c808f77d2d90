//! What can go wrong with a raw data file.

use super::line::MAX_LINE_BYTES;
use super::version::Version;
use crate::system::{debug_text, IoErrorKind};
use crate::text::append_numeral;
use vstd::prelude::*;
use vstd::string::StringExecFns;

verus! {

/// Why the start of a raw data file is refused, or could not be read.
#[derive(Debug)]
pub enum StorageError {
    /// The file does not begin with the magic tag and a version number.
    Invalid,
    /// The version of the file cannot be handled.
    UnknownVersion(Version),
    /// An I/O error occurred.
    Io(std::io::Error),
}

impl StorageError {
    /// Tells whether `text` is the message of the error. That of an I/O error goes on
    /// with a description of it, which depends on the machine.
    pub open spec fn has_text(self, text: Seq<char>) -> bool {
        match self {
            StorageError::Invalid => text == "Invalid rbspy file"@,
            StorageError::UnknownVersion(version) => text == "Cannot handle rbspy format "@
                + crate::text::numeral(version.0 as nat, 10),
            StorageError::Io(_) => "IO error "@.is_prefix_of(text),
        }
    }

    /// The message of the error.
    pub fn to_string(&self) -> (text: String)
        ensures
            self.has_text(text@),
    {
        match self {
            StorageError::Invalid => "Invalid rbspy file".to_string(),
            StorageError::UnknownVersion(version) => {
                let mut text: String = "Cannot handle rbspy format ".to_string();
                text.append(version.to_string().as_str());
                text
            },
            StorageError::Io(error) => {
                let mut text: String = "IO error ".to_string();
                text.append(debug_text(error).as_str());
                text
            },
        }
    }
}

/// Why a raw data file, or a line of it, is refused.
#[derive(Debug)]
pub enum TraceError {
    /// The file could not be read, or does not start as a raw data file does.
    Storage(StorageError),
    /// A line is longer than the maximum.
    LineTooLong,
    /// A line is not valid UTF-8.
    NotUtf8,
    /// The file ends before its header line.
    MissingHeader,
}

impl TraceError {
    /// The kind of the I/O error, if the error is one of reading and not one of what was
    /// read.
    pub open spec fn io_kind(self) -> Option<IoErrorKind> {
        match self {
            TraceError::Storage(StorageError::Io(error)) => Some(
                crate::system::io_error_kind(error),
            ),
            _ => None,
        }
    }

    /// Tells whether `text` is the message of the error.
    pub open spec fn has_text(self, text: Seq<char>) -> bool {
        match self {
            TraceError::Storage(error) => error.has_text(text),
            TraceError::LineTooLong => text
                == "line in rbspy data file exceeds the maximum length of "@
                + crate::text::numeral(MAX_LINE_BYTES as nat, 10) + " bytes"@,
            TraceError::NotUtf8 => text
                == "rbspy data file contains a line that isn't valid UTF-8"@,
            TraceError::MissingHeader => text == "rbspy data file is missing its header"@,
        }
    }

    /// The message of the error.
    pub fn to_string(&self) -> (text: String)
        ensures
            self.has_text(text@),
    {
        match self {
            TraceError::Storage(error) => error.to_string(),
            TraceError::LineTooLong => {
                let mut text: String =
                    "line in rbspy data file exceeds the maximum length of ".to_string();
                append_numeral(&mut text, MAX_LINE_BYTES as u64, 10);
                text.append(" bytes");
                text
            },
            TraceError::NotUtf8 =>
                "rbspy data file contains a line that isn't valid UTF-8".to_string(),
            TraceError::MissingHeader => "rbspy data file is missing its header".to_string(),
        }
    }
}

} // verus!
