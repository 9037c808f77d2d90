//! Failures to copy memory out of another process.

use crate::system;
use crate::text::append_numeral;
use vstd::prelude::*;
use vstd::string::StringExecFns;

verus! {

/// Declares `anyhow::Error`, an opaque value that is carried through.
#[verifier::external_type_specification]
#[verifier::external_body]
pub struct ExAnyhowError(anyhow::Error);

/// The address that `anyhow::Error::downcast_ref` finds in an error.
pub uninterp spec fn carried_address(error: anyhow::Error) -> Option<usize>;

/// Calls `anyhow::Error::downcast_ref` for an address. Claims that the outcome is a
/// function of the error.
#[verifier::external_body]
fn address_of(error: &anyhow::Error) -> (address: Option<usize>)
    ensures
        address == carried_address(*error),
{
    error.downcast_ref::<usize>().copied()
}

/// Why memory of a process could not be copied.
#[derive(Debug)]
pub enum MemoryCopyError {
    OperationSucceeded,
    PermissionDenied,
    Io(usize, std::io::Error),
    ProcessEnded,
    Message(String),
    InvalidAddressError(usize),
}

impl MemoryCopyError {
    /// What an error of the operating system, of the given kind and code, says of a
    /// copy from `address`.
    pub open spec fn of_os_error(
        address: usize,
        denied: bool,
        code: Option<i32>,
        error: std::io::Error,
    ) -> MemoryCopyError {
        if denied {
            MemoryCopyError::PermissionDenied
        } else if code == Some(0i32) {
            MemoryCopyError::OperationSucceeded
        } else if code == Some(14i32) {
            MemoryCopyError::InvalidAddressError(address)
        } else {
            MemoryCopyError::Io(address, error)
        }
    }

    /// Judges a failed copy from `address` by the error of the operating system:
    /// whether it is a denied permission, and its code.
    pub fn from_os_error(
        address: usize,
        denied: bool,
        code: Option<i32>,
        error: std::io::Error,
    ) -> (r: MemoryCopyError)
        ensures
            r == MemoryCopyError::of_os_error(address, denied, code, error),
    {
        if denied {
            return MemoryCopyError::PermissionDenied;
        }
        match code {
            // Sometimes Windows returns this error code
            Some(0) => MemoryCopyError::OperationSucceeded,
            // On *nix EFAULT means that the address was invalid
            Some(14) => MemoryCopyError::InvalidAddressError(address),
            _ => MemoryCopyError::Io(address, error),
        }
    }

    /// The message of the error.
    pub open spec fn text(self) -> Seq<char> {
        match self {
            MemoryCopyError::OperationSucceeded => "The operation completed successfully"@,
            MemoryCopyError::PermissionDenied =>
                "Permission denied when reading from process. If you're not running as root, try again with sudo. If you're using Docker, try passing `--cap-add=SYS_PTRACE` to `docker run`"@,
            MemoryCopyError::Io(address, _) => "Failed to copy memory address "@
                + crate::text::numeral(address as nat, 16),
            MemoryCopyError::ProcessEnded => "Process isn't running"@,
            MemoryCopyError::Message(message) => "Copy error: "@ + message@,
            MemoryCopyError::InvalidAddressError(address) =>
                "Tried to read invalid memory address "@ + crate::text::numeral(
                address as nat,
                16,
            ),
        }
    }

    /// The message of the error.
    pub fn to_string(&self) -> (text: String)
        ensures
            text@ == self.text(),
    {
        match self {
            MemoryCopyError::OperationSucceeded =>
                "The operation completed successfully".to_string(),
            MemoryCopyError::PermissionDenied =>
                "Permission denied when reading from process. If you're not running as root, try again with sudo. If you're using Docker, try passing `--cap-add=SYS_PTRACE` to `docker run`".to_string(),
            MemoryCopyError::Io(address, _) => {
                let mut text: String = "Failed to copy memory address ".to_string();
                append_numeral(&mut text, *address as u64, 16);
                text
            },
            MemoryCopyError::ProcessEnded => "Process isn't running".to_string(),
            MemoryCopyError::Message(message) => {
                let mut text: String = "Copy error: ".to_string();
                text.append(message.as_str());
                text
            },
            MemoryCopyError::InvalidAddressError(address) => {
                let mut text: String = "Tried to read invalid memory address ".to_string();
                append_numeral(&mut text, *address as u64, 16);
                text
            },
        }
    }
}

/// The address that a failed copy was made from, as far as `error` tells: the one it
/// carries, or zero.
pub open spec fn failed_address(error: anyhow::Error) -> usize {
    match carried_address(error) {
        Some(address) => address,
        None => 0,
    }
}

impl From<anyhow::Error> for MemoryCopyError {
    /// Judges a failed copy by what the operating system last reported; the address
    /// is the one that `error` carries, or zero.
    fn from(error: anyhow::Error) -> (r: MemoryCopyError)
        ensures
            exists|os_error: std::io::Error| #[trigger]
                system::io_error_code(os_error) is Some && r == MemoryCopyError::of_os_error(
                    failed_address(error),
                    system::io_error_kind(os_error) is PermissionDenied,
                    system::io_error_code(os_error),
                    os_error,
                ),
    {
        let address: usize = match address_of(&error) {
            Some(address) => address,
            None => 0,
        };
        let os_error = system::last_os_error();
        let code = system::error_code(&os_error);
        let denied: bool = match system::error_kind(&os_error) {
            system::IoErrorKind::PermissionDenied => true,
            _ => false,
        };
        MemoryCopyError::from_os_error(address, denied, code, os_error)
    }
}

/// A denied permission is one whatever its code is; else code 0 is a success, code 14 an
/// invalid address, and every other error is kept with the address.
pub proof fn os_errors_are_told_apart(address: usize, code: Option<i32>, error: std::io::Error)
    ensures
        MemoryCopyError::of_os_error(address, true, code, error) is PermissionDenied,
        MemoryCopyError::of_os_error(address, false, Some(0i32), error) is OperationSucceeded,
        MemoryCopyError::of_os_error(address, false, Some(14i32), error)
            == MemoryCopyError::InvalidAddressError(address),
        code != Some(0i32) && code != Some(14i32) ==> MemoryCopyError::of_os_error(
            address,
            false,
            code,
            error,
        ) == MemoryCopyError::Io(address, error),
{
}

/// The address is the one that the error carries, and zero only if it carries none.
pub proof fn carried_address_is_kept(error: anyhow::Error)
    ensures
        carried_address(error) matches Some(address) ==> failed_address(error) == address,
        carried_address(error) is None ==> failed_address(error) == 0,
{
}

/// Messages hold the address in hexadecimal, or the text that they were made with, in full.
pub proof fn messages_hold_their_details(address: usize, error: std::io::Error, message: String)
    ensures
        MemoryCopyError::Io(address, error).text() == "Failed to copy memory address "@
            + crate::text::numeral(address as nat, 16),
        MemoryCopyError::InvalidAddressError(address).text()
            == "Tried to read invalid memory address "@ + crate::text::numeral(address as nat, 16),
        MemoryCopyError::Message(message).text() == "Copy error: "@ + message@,
{
}

/// What comes out depends on what the operating system last reported, so no function of
/// the argument says it.
impl vstd::std_specs::convert::FromSpecImpl<anyhow::Error> for MemoryCopyError {
    open spec fn obeys_from_spec() -> bool {
        false
    }

    open spec fn from_spec(error: anyhow::Error) -> MemoryCopyError {
        MemoryCopyError::OperationSucceeded
    }
}

} // verus!
