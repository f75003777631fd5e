//! Capability surfaces injected into the protocol core.
//!
//! MD5 hashing and the TLS handshake are behavior contracts, not
//! inheritance: each has a real implementation and an always-failing
//! one, so builds that lack a backend still link and produce a
//! meaningful runtime error.

pub mod md5_md5;
pub mod md5_unavailable;
pub mod ssl_unavailable;

use vstd::prelude::*;
use crate::error::Error;

verus! {

/// MD5 hashing capability, used for `md5` password authentication.
///
/// An implementation that hands back a digest must hand back the RFC
/// 1321 digest of the plaintext.  Returning `None` indicates a lack of
/// support for MD5, in which case `md5` password authentication fails
/// immediately.
pub trait Md5 {
    /// Whether this capability can hash at all.
    spec fn available(&self) -> bool;

    /// Hash a given plaintext using MD5.
    fn md5(&self, plaintext: &[u8]) -> (r: Option<[u8; 16]>)
        ensures
            r is Some <==> self.available(),
            match r {
                Some(d) => d@ == self::md5_md5::md5_of(plaintext@),
                None => true,
            },
    ;
}

/// TLS handshake capability: wraps an owned raw stream into an
/// encrypted stream.
///
/// An implementation that cannot perform the handshake reports
/// `SslHandshake`, carrying a description of the underlying failure.
pub trait Ssl<Socket> {
    /// The wrapped, encrypted stream type.
    type Stream;

    /// Perform the TLS handshake over `socket` for `server_name`.
    ///
    /// A failed handshake reports `SslHandshake` or, for transport
    /// failures underneath it, an I/O error; never anything else.
    fn handshake(&self, socket: Socket, server_name: &str) -> (r: Result<Self::Stream, Error>)
        ensures
            match r {
                Ok(_) => true,
                Err(e) => (e matches Error::SslHandshake(_)) || (e matches Error::Io(_)),
            },
    ;
}

} // verus!

pub use self::md5_md5::Md5Md5;
pub use self::md5_unavailable::Md5Unavailable;
pub use self::ssl_unavailable::SslUnavailable;
pub use self::ssl_unavailable::SslUnavailableStream;
