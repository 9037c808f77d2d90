//! The magic number and the version of a raw data file.

use super::error::StorageError;
use super::line::NEWLINE;
use crate::gzip;
use crate::system::{self, IoErrorKind};
use flate2::read::GzDecoder;
use vstd::prelude::*;

verus! {

/// The version of a raw data file.
#[derive(Clone, Copy, Debug, PartialEq, Eq, PartialOrd, Ord, Structural)]
pub struct Version(pub u64);

/// The bytes that open every raw data file.
pub open spec fn magic() -> Seq<u8> {
    seq!['r' as u8, 'b' as u8, 's' as u8, 'p' as u8, 'y' as u8]
}

/// The bytes that stand for version `v` after the magic number: two decimal digits and a
/// newline.
pub open spec fn version_tag(v: u64) -> Seq<u8> {
    seq![('0' as int + v / 10) as u8, ('0' as int + v % 10) as u8, NEWLINE]
}

/// Tells whether `b` is an ASCII decimal digit.
pub open spec fn is_digit_byte(b: u8) -> bool {
    '0' as u8 <= b <= '9' as u8
}

/// The version that the first three bytes of `b` number, if they are a version tag.
pub open spec fn numbered_version(b: Seq<u8>) -> Option<Version> {
    if b.len() >= 3 && is_digit_byte(b[0]) && is_digit_byte(b[1]) && b[2] == NEWLINE {
        Some(Version((10 * (b[0] - '0' as u8) + (b[1] - '0' as u8)) as u64))
    } else {
        None
    }
}

/// The version that the first three bytes of `b` number, if it can be handled.
pub open spec fn known_version(b: Seq<u8>) -> Option<Version> {
    match numbered_version(b) {
        Some(version) => if version.0 <= 2 {
            Some(version)
        } else {
            None
        },
        None => None,
    }
}

/// The version that the plain bytes of a file announce, if they announce one.
pub open spec fn announced_version(plain: Seq<u8>) -> Option<Version> {
    if plain.len() >= 8 && plain.take(5) == magic() {
        numbered_version(plain.skip(5))
    } else {
        None
    }
}

/// The number in the version tag that `b` starts with.
fn tag_number(b: &[u8]) -> (r: Option<u64>)
    ensures
        match r {
            Some(number) => numbered_version(b@) == Some(Version(number)),
            None => numbered_version(b@) is None,
        },
{
    if b.len() < 3 || b[2] != NEWLINE {
        return None;
    }
    if b[0] < '0' as u8 || b[0] > '9' as u8 || b[1] < '0' as u8 || b[1] > '9' as u8 {
        return None;
    }
    Some(10 * (b[0] as u64 - 48) + (b[1] as u64 - 48))
}

impl Version {
    /// Reads the version that the first three bytes of `b` stand for, if it is one that
    /// can be handled.
    pub fn try_from(b: &[u8]) -> (r: Result<Version, StorageError>)
        ensures
            match r {
                Ok(version) => known_version(b@) == Some(version),
                Err(error) => known_version(b@) is None && error is Invalid,
            },
    {
        match tag_number(b) {
            Some(number) => if number <= 2 {
                Ok(Version(number))
            } else {
                Err(StorageError::Invalid)
            },
            None => Err(StorageError::Invalid),
        }
    }

    /// The number of the version, in decimal.
    pub fn to_string(&self) -> (text: String)
        ensures
            text@ == crate::text::numeral(self.0 as nat, 10),
    {
        let mut text: String = String::new();
        crate::text::append_numeral(&mut text, self.0, 10);
        text
    }
}

/// Tells whether what starts with `plain` and then fails as `damage` says is refused as
/// invalid: it announces no version, or it is cut off.
pub open spec fn is_invalid_start(plain: Seq<u8>, damage: Option<IoErrorKind>) -> bool {
    match damage {
        None => announced_version(plain) is None,
        Some(IoErrorKind::UnexpectedEof) => true,
        Some(_) => plain.len() >= 8 && announced_version(plain) is None,
    }
}

/// What a failed read of the magic number says of the file. A file too short to
/// hold the magic number is no raw data file; any other failure is one of reading.
pub fn magic_read_failure(kind: IoErrorKind, error: std::io::Error) -> (r: StorageError)
    ensures
        r == if kind is UnexpectedEof {
            StorageError::Invalid
        } else {
            StorageError::Io(error)
        },
{
    match kind {
        IoErrorKind::UnexpectedEof => StorageError::Invalid,
        _ => StorageError::Io(error),
    }
}

/// Reads the magic number and the version, the first eight plain bytes. Refuses what does
/// not start with them, and a version that cannot be handled.
pub fn read_version(decoder: &mut GzDecoder<&[u8]>) -> (r: Result<Version, StorageError>)
    ensures
        match r {
            Ok(version) => {
                &&& announced_version(gzip::unread(*old(decoder))) == Some(version)
                &&& version.0 <= 2
            },
            Err(StorageError::UnknownVersion(version)) => {
                &&& announced_version(gzip::unread(*old(decoder))) == Some(version)
                &&& version.0 > 2
            },
            Err(StorageError::Invalid) => is_invalid_start(
                gzip::unread(*old(decoder)),
                gzip::damage(*old(decoder)),
            ),
            Err(StorageError::Io(error)) => {
                &&& gzip::damage(*old(decoder)) == Some(system::io_error_kind(error))
                &&& !(system::io_error_kind(error) is UnexpectedEof)
            },
        },
        r is Ok || (r matches Err(StorageError::UnknownVersion(_))) ==> {
            &&& gzip::unread(*final(decoder)) == gzip::unread(*old(decoder)).skip(8)
            &&& gzip::damage(*final(decoder)) == gzip::damage(*old(decoder))
        },
        gzip::damage(*old(decoder)) is None ==> {
            &&& gzip::damage(*final(decoder)) is None
            &&& gzip::unread(*final(decoder)) == if gzip::unread(*old(decoder)).len() >= 8 {
                gzip::unread(*old(decoder)).skip(8)
            } else {
                Seq::empty()
            }
        },
{
    let ghost plain = gzip::unread(*decoder);
    let ghost harm = gzip::damage(*decoder);
    let mut head: Vec<u8> = Vec::new();
    while head.len() < 8
        invariant
            head@.len() <= 8,
            plain == head@ + gzip::unread(*decoder),
            plain == gzip::unread(*old(decoder)),
            harm == gzip::damage(*old(decoder)),
            harm == gzip::damage(*decoder),
        decreases 8 - head@.len(),
    {
        match gzip::read(decoder, 8 - head.len()) {
            Ok(chunk) => {
                if chunk.len() == 0 {
                    assert(gzip::unread(*decoder) =~= Seq::empty());
                    return Err(StorageError::Invalid);
                }
                let mut chunk = chunk;
                head.append(&mut chunk);
                assert(plain =~= head@ + gzip::unread(*decoder));
            },
            Err(error) => {
                let kind = system::error_kind(&error);
                return Err(magic_read_failure(kind, error));
            },
        }
    }
    assert(gzip::unread(*decoder) =~= plain.skip(8));
    assert(plain.take(5) =~= head@.take(5));
    let ghost tag = head@.take(5);
    assert(tag == seq![head@[0], head@[1], head@[2], head@[3], head@[4]]);
    if head[0] == 'r' as u8 && head[1] == 'b' as u8 && head[2] == 's' as u8 && head[3] == 'p' as u8
        && head[4] == 'y' as u8 {
        let rest: &[u8] = vstd::slice::slice_subrange(head.as_slice(), 5, 8);
        assert(rest@[0] == plain.skip(5)[0] && rest@[1] == plain.skip(5)[1]);
        assert(rest@[2] == plain.skip(5)[2]);
        match Version::try_from(rest) {
            Ok(version) => Ok(version),
            Err(error) => match tag_number(rest) {
                Some(number) => Err(StorageError::UnknownVersion(Version(number))),
                None => Err(error),
            },
        }
    } else {
        proof {
            if tag == magic() {
                assert(tag[0] == 'r' as u8 && tag[1] == 'b' as u8 && tag[2] == 's' as u8);
                assert(tag[3] == 'p' as u8 && tag[4] == 'y' as u8);
            }
        }
        Err(StorageError::Invalid)
    }
}

} // verus!
