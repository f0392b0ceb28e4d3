use vstd::prelude::*;

verus! {

/// The kind of a failed file operation, as the operating system reported it.
#[derive(Clone, Copy, Debug, PartialEq, Eq, Structural)]
pub enum IoErrorKind {
    NotFound,
    PermissionDenied,
    Other,
}

/// A file that could not be read: its kind, and the OS error code where one
/// was given.
#[derive(Clone, Copy, Debug, PartialEq, Eq, Structural)]
pub struct FileFailure {
    pub kind: IoErrorKind,
    pub os_code: Option<i32>,
}

/// Why a file could not be analyzed.
#[derive(Clone, Copy, Debug, PartialEq, Eq, Structural)]
pub enum Error {
    /// The file could not be opened or read.
    FileError(FileFailure),
    /// The text is not valid Rust source.
    ParseError,
    /// The lock around the cache was poisoned by a panic.
    RwLockError,
}

/// The status reported for a parse failure.
pub const PARSE_ERROR_STATUS: i32 = -16;

/// Selects the generic I/O error number in `errno_code`.
pub const ERRNO_EIO: u8 = 1;

/// Selects the "no locks available" error number in `errno_code`.
pub const ERRNO_ENOLCK: u8 = 2;

/// Selects the "invalid argument" error number in `errno_code`.
pub const ERRNO_EINVAL: u8 = 3;

/// The platform's error number that `which` selects, as libc defines it.
pub uninterp spec fn errno_code(which: u8) -> i32;

/// Relies on the constant libc::EIO, the generic I/O error number: nonzero
/// and not -16 on every target libc defines it for.
#[verifier::external_body]
fn eio() -> (r: i32)
    ensures
        r == errno_code(ERRNO_EIO),
        r != 0 && r != PARSE_ERROR_STATUS,
{
    libc::EIO
}

/// Relies on the constant libc::ENOLCK, the "no locks available" error
/// number: nonzero and not -16 on every target libc defines it for.
#[verifier::external_body]
fn enolck() -> (r: i32)
    ensures
        r == errno_code(ERRNO_ENOLCK),
        r != 0 && r != PARSE_ERROR_STATUS,
{
    libc::ENOLCK
}

/// Relies on the constant libc::EINVAL, the "invalid argument" error number:
/// nonzero and not -16 on every target libc defines it for.
#[verifier::external_body]
fn einval() -> (r: i32)
    ensures
        r == errno_code(ERRNO_EINVAL),
        r != 0 && r != PARSE_ERROR_STATUS,
{
    libc::EINVAL
}

/// The status code reported for a null handle or a null pointer argument:
/// the platform's EINVAL.
pub fn invalid_argument_status() -> (r: i32)
    ensures
        r == errno_code(ERRNO_EINVAL),
        r != 0,
{
    einval()
}

/// The status code of an error: the OS error code of a file error (EIO when
/// there is none), a fixed negative code for a parse error, and ENOLCK for a
/// poisoned lock.
pub open spec fn error_status(e: Error) -> i32 {
    match e {
        Error::FileError(f) => match f.os_code {
            Some(c) => c,
            None => errno_code(ERRNO_EIO),
        },
        Error::ParseError => PARSE_ERROR_STATUS,
        Error::RwLockError => errno_code(ERRNO_ENOLCK),
    }
}

impl Error {
    /// The status code this error is reported with.
    pub fn status_code(&self) -> (r: i32)
        ensures
            r == error_status(*self),
            match *self {
                Error::FileError(f) => f.os_code is None ==> r != 0,
                _ => r != 0,
            },
    {
        match *self {
            Error::FileError(f) => match f.os_code {
                Some(c) => c,
                None => eio(),
            },
            Error::ParseError => PARSE_ERROR_STATUS,
            Error::RwLockError => enolck(),
        }
    }
}

/// The status code of an outcome: 0 on success, else the error's own code.
pub fn status_of<T>(outcome: &Result<T, Error>) -> (r: i32)
    ensures
        match outcome {
            Ok(_) => r == 0,
            Err(e) => r == error_status(*e) && match *e {
                Error::FileError(f) => f.os_code is None ==> r != 0,
                _ => r != 0,
            },
        },
{
    match outcome {
        Ok(_) => 0,
        Err(e) => e.status_code(),
    }
}

} // verus!
