//! Values that come from the operating system: errors and points in time.

use vstd::prelude::*;

verus! {

/// Declares `std::io::Error`, an opaque value that is carried through.
#[verifier::external_type_specification]
#[verifier::external_body]
pub struct ExIoError(std::io::Error);

/// Declares `std::time::SystemTime`, an opaque value that is carried through.
#[verifier::external_type_specification]
#[verifier::external_body]
pub struct ExSystemTime(std::time::SystemTime);

/// The kinds of I/O errors that are told apart.
#[derive(Clone, Copy, Debug, PartialEq, Eq, Structural)]
pub enum IoErrorKind {
    PermissionDenied,
    UnexpectedEof,
    Other,
}

/// The kind that `std::io::Error::kind` reports of an error.
pub uninterp spec fn io_error_kind(error: std::io::Error) -> IoErrorKind;

/// The code that `std::io::Error::raw_os_error` reports of an error.
pub uninterp spec fn io_error_code(error: std::io::Error) -> Option<i32>;

/// Calls `std::io::Error::kind`. Claims that the kind is a function of the error;
/// every kind but the two that are told apart becomes `Other`.
#[verifier::external_body]
pub(crate) fn error_kind(error: &std::io::Error) -> (kind: IoErrorKind)
    ensures
        kind == io_error_kind(*error),
{
    match error.kind() {
        std::io::ErrorKind::PermissionDenied => IoErrorKind::PermissionDenied,
        std::io::ErrorKind::UnexpectedEof => IoErrorKind::UnexpectedEof,
        _ => IoErrorKind::Other,
    }
}

/// Calls `std::io::Error::raw_os_error`. Claims that the code is a function of the
/// error.
#[verifier::external_body]
pub(crate) fn error_code(error: &std::io::Error) -> (code: Option<i32>)
    ensures
        code == io_error_code(*error),
{
    error.raw_os_error()
}

/// Calls `std::io::Error::last_os_error`. The error depends on what the operating
/// system last reported to this thread; claimed is only that it carries a code.
#[verifier::external_body]
pub(crate) fn last_os_error() -> (error: std::io::Error)
    ensures
        io_error_code(error) is Some,
{
    std::io::Error::last_os_error()
}

/// Formats a `std::io::Error` with `{:?}`. The text depends on the machine and is left
/// open.
#[verifier::external_body]
pub(crate) fn debug_text(error: &std::io::Error) -> String {
    format!("{:?}", error)
}

} // verus!
