//! The errors of the library.

use vstd::prelude::*;
use crate::text::copy_string;

verus! {

/// Everything that can go wrong between a request for a session and the last
/// byte of a stream.
///
/// Configuration errors are `ProfileNotFound` and `CyclicTransport`; protocol
/// errors are `SshError` and `NotSupported`; I/O errors are `StdIoError`,
/// `PpStreamError`, `WritePtyError` and `ReadPtyError`; the rest belong to
/// the local proxy. Errors of the socket layer and of the protocol engine
/// are carried as their message.
#[derive(Debug, PartialEq, Eq)]
pub enum Error {
    StdIoError(String),
    SshError(String),
    PpStreamError(String),
    WritePtyError(String),
    ReadPtyError(String),
    /// No profile is stored under this identity.
    ProfileNotFound(String),
    /// The transport chain comes back to this identity.
    CyclicTransport(String),
    /// The session does not offer the requested operation.
    NotSupported(String),
    UrlParseError(String),
    HttpProxyConnectionLost,
    HttpProxyServerError(String),
    HttpProxyRequestError(String),
}

/// The mathematical content of an [`Error`].
pub enum ErrorView {
    StdIoError(Seq<char>),
    SshError(Seq<char>),
    PpStreamError(Seq<char>),
    WritePtyError(Seq<char>),
    ReadPtyError(Seq<char>),
    ProfileNotFound(Seq<char>),
    CyclicTransport(Seq<char>),
    NotSupported(Seq<char>),
    UrlParseError(Seq<char>),
    HttpProxyConnectionLost,
    HttpProxyServerError(Seq<char>),
    HttpProxyRequestError(Seq<char>),
}

impl View for Error {
    type V = ErrorView;

    open spec fn view(&self) -> ErrorView {
        match self {
            Error::StdIoError(s) => ErrorView::StdIoError(s@),
            Error::SshError(s) => ErrorView::SshError(s@),
            Error::PpStreamError(s) => ErrorView::PpStreamError(s@),
            Error::WritePtyError(s) => ErrorView::WritePtyError(s@),
            Error::ReadPtyError(s) => ErrorView::ReadPtyError(s@),
            Error::ProfileNotFound(s) => ErrorView::ProfileNotFound(s@),
            Error::CyclicTransport(s) => ErrorView::CyclicTransport(s@),
            Error::NotSupported(s) => ErrorView::NotSupported(s@),
            Error::UrlParseError(s) => ErrorView::UrlParseError(s@),
            Error::HttpProxyConnectionLost => ErrorView::HttpProxyConnectionLost,
            Error::HttpProxyServerError(s) => ErrorView::HttpProxyServerError(s@),
            Error::HttpProxyRequestError(s) => ErrorView::HttpProxyRequestError(s@),
        }
    }
}

impl Clone for Error {
    fn clone(&self) -> (r: Self)
        ensures
            r@ == self@,
    {
        match self {
            Error::StdIoError(s) => Error::StdIoError(copy_string(s)),
            Error::SshError(s) => Error::SshError(copy_string(s)),
            Error::PpStreamError(s) => Error::PpStreamError(copy_string(s)),
            Error::WritePtyError(s) => Error::WritePtyError(copy_string(s)),
            Error::ReadPtyError(s) => Error::ReadPtyError(copy_string(s)),
            Error::ProfileNotFound(s) => Error::ProfileNotFound(copy_string(s)),
            Error::CyclicTransport(s) => Error::CyclicTransport(copy_string(s)),
            Error::NotSupported(s) => Error::NotSupported(copy_string(s)),
            Error::UrlParseError(s) => Error::UrlParseError(copy_string(s)),
            Error::HttpProxyConnectionLost => Error::HttpProxyConnectionLost,
            Error::HttpProxyServerError(s) => Error::HttpProxyServerError(copy_string(s)),
            Error::HttpProxyRequestError(s) => Error::HttpProxyRequestError(copy_string(s)),
        }
    }
}

/// The four families of errors.
#[derive(Clone, Copy, Debug, PartialEq, Eq, Structural)]
pub enum ErrorClass {
    Configuration,
    Protocol,
    Io,
    Proxy,
}

impl ErrorView {
    /// The family an error belongs to.
    pub open spec fn class(self) -> ErrorClass {
        match self {
            ErrorView::ProfileNotFound(_) | ErrorView::CyclicTransport(_) => {
                ErrorClass::Configuration
            },
            ErrorView::SshError(_) | ErrorView::NotSupported(_) => ErrorClass::Protocol,
            ErrorView::StdIoError(_)
            | ErrorView::PpStreamError(_)
            | ErrorView::WritePtyError(_)
            | ErrorView::ReadPtyError(_) => ErrorClass::Io,
            ErrorView::UrlParseError(_)
            | ErrorView::HttpProxyConnectionLost
            | ErrorView::HttpProxyServerError(_)
            | ErrorView::HttpProxyRequestError(_) => ErrorClass::Proxy,
        }
    }
}

impl Error {
    /// The family this error belongs to.
    pub fn class(&self) -> (r: ErrorClass)
        ensures
            r == self@.class(),
    {
        match self {
            Error::ProfileNotFound(_) | Error::CyclicTransport(_) => ErrorClass::Configuration,
            Error::SshError(_) | Error::NotSupported(_) => ErrorClass::Protocol,
            Error::StdIoError(_)
            | Error::PpStreamError(_)
            | Error::WritePtyError(_)
            | Error::ReadPtyError(_) => ErrorClass::Io,
            Error::UrlParseError(_)
            | Error::HttpProxyConnectionLost
            | Error::HttpProxyServerError(_)
            | Error::HttpProxyRequestError(_) => ErrorClass::Proxy,
        }
    }
}

} // verus!
