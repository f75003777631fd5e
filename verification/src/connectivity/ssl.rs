//! Initiating SSL session encryption on a connected stream.

use vstd::prelude::*;
use crate::connectivity::Stream;
use crate::error::Error;
use crate::error::IoErrorKind;
use crate::protocol::ssl_session_encryption::SSL_UNWILLING;
use crate::protocol::ssl_session_encryption::SSL_WILLING;
use crate::protocol::ssl_session_encryption::ssl_request_bytes;
use crate::protocol::ssl_session_encryption::ssl_session_encryption;

verus! {

/// Error returned by [`initiate_ssl`].
#[derive(Clone, Debug)]
pub enum InitiateSslError {
    /// A read or write on the stream failed.
    Io(IoErrorKind),
    /// The server is unwilling to encrypt communications using SSL.
    ServerUnwilling,
    /// The server answered the SSL request with a byte that is
    /// neither `S` nor `N`.
    ReceivedGibberish(u8),
}

/// Initiate SSL session encryption given a stream.
///
/// The stream must already be connected to the database cluster, and
/// no data may have been sent on it.  On `Ok` the caller can initiate
/// the SSL handshake, and should afterwards continue the conversation
/// through a stream wrapper that transparently implements SSL.
///
/// On `Err`, either an I/O error occurred, the server denied the SSL
/// request (meaning SSL is not available), or the server responded
/// with gibberish, which may be the result of a person-in-the-middle
/// attack, a malfunctioning connection, or a version of PostgreSQL
/// that predates SSL support.
pub fn initiate_ssl<S: Stream>(stream: &mut S) -> (r: Result<(), InitiateSslError>)
    ensures
        final(stream).reliable() == old(stream).reliable(),
        (old(stream).reliable() && old(stream).readable().len() >= 1) ==> !(r matches Err(
            InitiateSslError::Io(_),
        )),
        (old(stream).reliable() && old(stream).readable().len() == 0) ==> (r matches Err(
            InitiateSslError::Io(IoErrorKind::UnexpectedEof),
        )),
        (old(stream).reliable() && (r matches Err(InitiateSslError::Io(_))))
            ==> final(stream).written() == old(stream).written() + ssl_request_bytes(),
        match r {
            Ok(()) => {
                &&& final(stream).written() == old(stream).written() + ssl_request_bytes()
                &&& old(stream).readable().len() >= 1
                &&& old(stream).readable()[0] == SSL_WILLING
                &&& final(stream).readable() == old(stream).readable().skip(1)
            },
            Err(e) => match e {
                InitiateSslError::ServerUnwilling => {
                    &&& final(stream).written() == old(stream).written() + ssl_request_bytes()
                    &&& old(stream).readable().len() >= 1
                    &&& old(stream).readable()[0] == SSL_UNWILLING
                    &&& final(stream).readable() == old(stream).readable().skip(1)
                },
                InitiateSslError::ReceivedGibberish(b) => {
                    &&& final(stream).written() == old(stream).written() + ssl_request_bytes()
                    &&& old(stream).readable().len() >= 1
                    &&& old(stream).readable()[0] == b
                    &&& b != SSL_WILLING
                    &&& b != SSL_UNWILLING
                    &&& final(stream).readable() == old(stream).readable().skip(1)
                },
                InitiateSslError::Io(_) => true,
            },
        },
{
    match ssl_session_encryption(stream) {
        Ok(()) => Ok(()),
        Err(Error::SslServerUnwilling) => Err(InitiateSslError::ServerUnwilling),
        Err(Error::SslRequestGibberish(b)) => Err(InitiateSslError::ReceivedGibberish(b)),
        Err(Error::Io(kind)) => Err(InitiateSslError::Io(kind)),
        Err(_) => Err(InitiateSslError::Io(IoErrorKind::Other)),
    }
}

} // verus!
