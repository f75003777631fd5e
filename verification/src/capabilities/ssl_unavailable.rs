//! SSL capability that unconditionally fails to handshake.

use vstd::prelude::*;
use super::Ssl;
use crate::connectivity::Stream;
use crate::error::Error;
use crate::error::IoErrorKind;

verus! {

/// Implementation of the [`Ssl`] trait that unconditionally fails to
/// handshake, for builds that omit a TLS backend.
pub struct SslUnavailable;

/// Stream type used by [`SslUnavailable`].
///
/// No value of it is ever produced by a successful handshake, and
/// every operation on it fails.
pub struct SslUnavailableStream;

impl<S> Ssl<S> for SslUnavailable {
    type Stream = SslUnavailableStream;

    fn handshake(&self, _socket: S, _server_name: &str) -> (r: Result<SslUnavailableStream, Error>)
        ensures
            (r matches Err(Error::SslHandshake(_))),
    {
        Err(self.refusal())
    }
}

impl SslUnavailable {
    /// The error that every handshake attempt of this capability
    /// reports: unavailability is a first-class error value, never a
    /// panic, so builds that lack a TLS backend still link.
    pub fn refusal(&self) -> (r: Error)
        ensures
            (r matches Error::SslHandshake(_)),
    {
        Error::SslHandshake("no SSL capability is available".to_string())
    }
}

impl Stream for SslUnavailableStream {
    closed spec fn readable(&self) -> Seq<u8> {
        Seq::empty()
    }

    closed spec fn written(&self) -> Seq<u8> {
        Seq::empty()
    }

    fn read_exact_append(&mut self, _buf: &mut Vec<u8>, _count: u32) -> (r: Result<(), Error>) {
        Err(Error::Io(IoErrorKind::Other))
    }

    fn write_all(&mut self, _data: &[u8]) -> (r: Result<(), Error>) {
        Err(Error::Io(IoErrorKind::Other))
    }
}

} // verus!
