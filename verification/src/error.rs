//! The failures a call or a response handle can report.

use vstd::prelude::*;
use vstd::string::StringExecFns;

verus! {

/// The four kinds of failure, without their diagnostic text.
#[derive(Debug, Clone, Copy, PartialEq, Eq, Structural)]
pub enum ErrorKind {
    /// A header name or value was malformed; nothing was sent.
    InvalidHeader,
    /// The transport could not complete the exchange.
    RequestFailed,
    /// The body of the response had already been read.
    ResponseConsumed,
    /// A header value or the body could not be decoded as text.
    DecodeFailure,
}

/// A failure together with what the caller needs to tell it apart.
#[derive(Debug, PartialEq, Eq)]
pub enum Error {
    /// The header with this name, as the caller wrote it, is malformed.
    InvalidHeader(String),
    /// The transport failed; the text is its diagnostic.
    RequestFailed(String),
    /// The response body was read before.
    ResponseConsumed,
    /// The named header value, or the body, is not text.
    DecodeFailure(String),
}

impl Error {
    /// The kind of this failure.
    pub open spec fn spec_kind(&self) -> ErrorKind {
        match *self {
            Error::InvalidHeader(_) => ErrorKind::InvalidHeader,
            Error::RequestFailed(_) => ErrorKind::RequestFailed,
            Error::ResponseConsumed => ErrorKind::ResponseConsumed,
            Error::DecodeFailure(_) => ErrorKind::DecodeFailure,
        }
    }

    /// The diagnostic text carried by this failure; empty for a consumed response.
    pub open spec fn spec_detail(&self) -> Seq<char> {
        match *self {
            Error::InvalidHeader(name) => name@,
            Error::RequestFailed(text) => text@,
            Error::ResponseConsumed => Seq::empty(),
            Error::DecodeFailure(what) => what@,
        }
    }

    /// The fixed text that introduces the diagnostic of each kind.
    pub open spec fn spec_prefix(kind: ErrorKind) -> Seq<char> {
        match kind {
            ErrorKind::InvalidHeader => "invalid header: "@,
            ErrorKind::RequestFailed => "request failed: "@,
            ErrorKind::ResponseConsumed => "response already consumed"@,
            ErrorKind::DecodeFailure => "decode failure: "@,
        }
    }

    #[verifier::when_used_as_spec(spec_kind)]
    pub fn kind(&self) -> (kind: ErrorKind)
        ensures
            kind == self.spec_kind(),
    {
        match self {
            Error::InvalidHeader(_) => ErrorKind::InvalidHeader,
            Error::RequestFailed(_) => ErrorKind::RequestFailed,
            Error::ResponseConsumed => ErrorKind::ResponseConsumed,
            Error::DecodeFailure(_) => ErrorKind::DecodeFailure,
        }
    }

    /// The text shown to the caller: the kind's prefix followed by the diagnostic.
    pub fn message(&self) -> (text: String)
        ensures
            text@ == Error::spec_prefix(self.spec_kind()) + self.spec_detail(),
    {
        match self {
            Error::InvalidHeader(name) => String::from_str("invalid header: ").concat(
                name.as_str(),
            ),
            Error::RequestFailed(diagnostic) => String::from_str("request failed: ").concat(
                diagnostic.as_str(),
            ),
            Error::ResponseConsumed => String::from_str("response already consumed"),
            Error::DecodeFailure(what) => String::from_str("decode failure: ").concat(
                what.as_str(),
            ),
        }
    }
}

} // verus!
