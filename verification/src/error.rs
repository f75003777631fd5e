//! Unified failure kinds surfaced to callers.

use vstd::prelude::*;
use crate::protocol::backend_message::ErrorNoticeField;

verus! {

/// Kind of an I/O failure reported by a transport.
#[derive(Clone, Copy, Debug, PartialEq, Eq, Structural)]
pub enum IoErrorKind {
    /// The stream ended before the requested number of bytes arrived.
    UnexpectedEof,
    /// Any other read or write failure.
    Other,
}

/// Error produced by the protocol core.
///
/// Every failure mode is surfaced to the caller; nothing is retried.
#[derive(Clone, Debug)]
pub enum Error {
    /// A read or write on the underlying transport failed.
    Io(IoErrorKind),
    /// A byte string to be serialized contained an interior nul byte.
    Nul,
    /// A backend message body could not be decoded.
    BackendMessageParse,
    /// A backend message was decoded but its variant does not fit the
    /// current phase of the conversation.
    BackendMessageUnexpected,
    /// The declared frame length was below the minimum of 4.
    FramingLengthTooSmall,
    /// The server answered the SSL request with `N`.
    SslServerUnwilling,
    /// The server answered the SSL request with a byte that is neither
    /// `S` nor `N`.
    SslRequestGibberish(u8),
    /// The TLS handshake capability failed; the payload describes the
    /// underlying failure.
    SslHandshake(String),
    /// The server demanded an authentication method that the available
    /// capabilities cannot satisfy.
    AuthenticationUnsupported,
    /// The server sent `ErrorResponse` during the authentication
    /// dialogue; the fields are copied out of the message.
    AuthenticationFailed(Vec<ErrorNoticeField>),
    /// The server sent `ErrorResponse` while parameters were being
    /// collected; the fields are copied out of the message.
    StartupFailed(Vec<ErrorNoticeField>),
}

impl Error {
    /// A short description of the failure, for display by callers.
    pub fn message(&self) -> (r: &'static str)
        ensures
            r@.len() > 0,
    {
        let r = match self {
            Error::Io(IoErrorKind::UnexpectedEof) => "I/O: unexpected end of stream",
            Error::Io(IoErrorKind::Other) => "I/O: read or write failed",
            Error::Nul => "frontend message: string field contains nul",
            Error::BackendMessageParse => "backend message: invalid syntax",
            Error::BackendMessageUnexpected => "backend message: unexpected identifier",
            Error::FramingLengthTooSmall => "PostgreSQL backend message length is too small",
            Error::SslServerUnwilling => "SSL: server is unwilling to encrypt communications",
            Error::SslRequestGibberish(_) => "SSL: received gibberish in response to SSL request",
            Error::SslHandshake(_) => "SSL: handshake failed",
            Error::AuthenticationUnsupported => "authentication: method not supported by available capabilities",
            Error::AuthenticationFailed(_) => "authentication: server rejected the credentials",
            Error::StartupFailed(_) => "start-up: server reported an error",
        };
        proof {
            reveal_strlit("I/O: unexpected end of stream");
            reveal_strlit("I/O: read or write failed");
            reveal_strlit("frontend message: string field contains nul");
            reveal_strlit("backend message: invalid syntax");
            reveal_strlit("backend message: unexpected identifier");
            reveal_strlit("PostgreSQL backend message length is too small");
            reveal_strlit("SSL: server is unwilling to encrypt communications");
            reveal_strlit("SSL: received gibberish in response to SSL request");
            reveal_strlit("SSL: handshake failed");
            reveal_strlit("authentication: method not supported by available capabilities");
            reveal_strlit("authentication: server rejected the credentials");
            reveal_strlit("start-up: server reported an error");
        }
        r
    }
}

/// Result alias used throughout the protocol core.
pub type PgResult<T> = Result<T, Error>;

} // verus!
