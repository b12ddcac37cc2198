//! The errors of the readiness adapter: those of the protocol engine and
//! those of the socket.

use vstd::prelude::*;
use crate::text::copy_string;

verus! {

/// The code of an error of the protocol engine, as the engine numbers it: a
/// code of the session layer, or one of its file-transfer subsystem.
#[derive(Clone, Copy, Debug, PartialEq, Eq, Structural)]
pub enum ErrorCode {
    Session(i32),
    SFTP(i32),
}

/// The kinds of socket errors that the adapter tells apart.
#[derive(Clone, Copy, Debug, PartialEq, Eq, Structural)]
pub enum IoErrorKind {
    WouldBlock,
    TimedOut,
    NotFound,
    AlreadyExists,
    UnexpectedEof,
    Other,
}

/// An error of the socket: its kind and its message.
#[derive(Debug, PartialEq, Eq)]
pub struct IoFailure {
    pub kind: IoErrorKind,
    pub message: String,
}

/// An error of the protocol engine: its code and its message.
#[derive(Debug, PartialEq, Eq)]
pub struct Ssh2Failure {
    pub code: ErrorCode,
    pub message: String,
}

/// What an operation of the adapter fails with.
#[derive(Debug, PartialEq, Eq)]
pub enum Error {
    SSH2(Ssh2Failure),
    IO(IoFailure),
}

/// The mathematical content of an [`Error`] of the adapter.
pub enum ErrorView {
    SSH2 { code: ErrorCode, message: Seq<char> },
    IO { kind: IoErrorKind, message: Seq<char> },
}

impl View for IoFailure {
    type V = (IoErrorKind, Seq<char>);

    open spec fn view(&self) -> (IoErrorKind, Seq<char>) {
        (self.kind, self.message@)
    }
}

impl View for Ssh2Failure {
    type V = (ErrorCode, Seq<char>);

    open spec fn view(&self) -> (ErrorCode, Seq<char>) {
        (self.code, self.message@)
    }
}

impl View for Error {
    type V = ErrorView;

    open spec fn view(&self) -> ErrorView {
        match self {
            Error::SSH2(e) => ErrorView::SSH2 { code: e.code, message: e.message@ },
            Error::IO(e) => ErrorView::IO { kind: e.kind, message: e.message@ },
        }
    }
}

impl Clone for IoFailure {
    fn clone(&self) -> (r: Self)
        ensures
            r@ == self@,
    {
        IoFailure { kind: self.kind, message: copy_string(&self.message) }
    }
}

impl Clone for Ssh2Failure {
    fn clone(&self) -> (r: Self)
        ensures
            r@ == self@,
    {
        Ssh2Failure { code: self.code, message: copy_string(&self.message) }
    }
}

/// The code with which the engine says that an operation would block.
pub const EAGAIN: i32 = -37;

/// The code with which the engine says that an operation has timed out.
pub const TIMEOUT: i32 = -9;

/// The code of the file-transfer subsystem for a file that is not there.
pub const FX_NO_SUCH_FILE: i32 = 2;

/// The code of the file-transfer subsystem for a path that is not there.
pub const FX_NO_SUCH_PATH: i32 = 10;

/// The code of the file-transfer subsystem for a file that is there already.
pub const FX_FILE_ALREADY_EXISTS: i32 = 11;

/// The kind of socket error that an engine error of `code` turns into.
pub open spec fn io_kind(code: ErrorCode) -> IoErrorKind {
    match code {
        ErrorCode::Session(c) => if c == EAGAIN {
            IoErrorKind::WouldBlock
        } else if c == TIMEOUT {
            IoErrorKind::TimedOut
        } else {
            IoErrorKind::Other
        },
        ErrorCode::SFTP(c) => if c == FX_NO_SUCH_FILE || c == FX_NO_SUCH_PATH {
            IoErrorKind::NotFound
        } else if c == FX_FILE_ALREADY_EXISTS {
            IoErrorKind::AlreadyExists
        } else {
            IoErrorKind::Other
        },
    }
}

/// Asks the `ssh2` crate which kind of `std::io::Error` it makes of an
/// error with this code: `ssh2::Error::from_errno`, then the crate's
/// `From<ssh2::Error> for std::io::Error`, then `std::io::Error::kind`.
///
/// Trusted: the crate maps the session code -37 to `WouldBlock` and -9 to
/// `TimedOut`, the file-transfer codes 2 and 10 to `NotFound` and 11 to
/// `AlreadyExists`, and every other code to `Other`.
#[verifier::external_body]
pub(crate) fn ssh2_io_kind(code: ErrorCode) -> (r: IoErrorKind)
    ensures
        r == io_kind(code),
{
    let code = match code {
        ErrorCode::Session(c) => ssh2::ErrorCode::Session(c),
        ErrorCode::SFTP(c) => ssh2::ErrorCode::SFTP(c),
    };
    match std::io::Error::from(ssh2::Error::from_errno(code)).kind() {
        std::io::ErrorKind::WouldBlock => IoErrorKind::WouldBlock,
        std::io::ErrorKind::TimedOut => IoErrorKind::TimedOut,
        std::io::ErrorKind::NotFound => IoErrorKind::NotFound,
        std::io::ErrorKind::AlreadyExists => IoErrorKind::AlreadyExists,
        _ => IoErrorKind::Other,
    }
}

impl Ssh2Failure {
    /// The kind of socket error that this error turns into.
    pub fn io_kind(&self) -> (r: IoErrorKind)
        ensures
            r == io_kind(self.code),
    {
        ssh2_io_kind(self.code)
    }

    /// Whether the engine says that the operation would block.
    pub fn would_block(&self) -> (r: bool)
        ensures
            r == (self.code == ErrorCode::Session(EAGAIN)),
    {
        match ssh2_io_kind(self.code) {
            IoErrorKind::WouldBlock => true,
            _ => false,
        }
    }
}

impl Error {
    /// The error as one of the socket: an engine error with the kind that
    /// its code turns into and its own message, a socket error as it is.
    pub fn into_io(self) -> (r: IoFailure)
        ensures
            r@ == match self@ {
                ErrorView::SSH2 { code, message } => (io_kind(code), message),
                ErrorView::IO { kind, message } => (kind, message),
            },
    {
        match self {
            Error::SSH2(e) => IoFailure { kind: ssh2_io_kind(e.code), message: e.message },
            Error::IO(e) => e,
        }
    }
}

} // verus!
