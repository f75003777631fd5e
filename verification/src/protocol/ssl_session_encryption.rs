//! The SSL-request pre-exchange.

use vstd::prelude::*;
use crate::connectivity::Stream;
use crate::error::Error;
use crate::error::IoErrorKind;

verus! {

/// The reply byte that means the server is willing to use SSL.
pub const SSL_WILLING: u8 = 83;

/// The reply byte that means the server refuses SSL.
pub const SSL_UNWILLING: u8 = 78;

/// The eight magic bytes of `SSLRequest`: a frame of length 8 whose
/// protocol-version field holds 80877103.
pub open spec fn ssl_request_bytes() -> Seq<u8> {
    seq![0u8, 0u8, 0u8, 8u8, 4u8, 210u8, 22u8, 47u8]
}

/// Implementation of the SSL session encryption pre-exchange: write
/// the 8-byte `SSLRequest`, then read exactly one reply byte from the
/// same stream, with no additional I/O.
///
/// No data must be sent on the stream prior to calling this function.
///
/// On `Ok` the server is willing and the caller can initiate the TLS
/// handshake.  `SslServerUnwilling` means SSL is not available on the
/// server.  `SslRequestGibberish` carries any other reply byte, which
/// may be the result of a person-in-the-middle attack, a
/// malfunctioning connection, or a version of PostgreSQL that predates
/// SSL support.
pub fn ssl_session_encryption<S: Stream>(stream: &mut S) -> (r: Result<(), Error>)
    ensures
        final(stream).reliable() == old(stream).reliable(),
        (old(stream).reliable() && old(stream).readable().len() >= 1) ==> !(r matches Err(
            Error::Io(_),
        )),
        (old(stream).reliable() && old(stream).readable().len() == 0) ==> (r matches Err(
            Error::Io(IoErrorKind::UnexpectedEof),
        )),
        (old(stream).reliable() && (r matches Err(Error::Io(_)))) ==> final(stream).written()
            == old(stream).written() + ssl_request_bytes(),
        match r {
            Ok(()) => {
                &&& final(stream).written() == old(stream).written() + ssl_request_bytes()
                &&& old(stream).readable().len() >= 1
                &&& old(stream).readable()[0] == SSL_WILLING
                &&& final(stream).readable() == old(stream).readable().skip(1)
            },
            Err(e) => match e {
                Error::SslServerUnwilling => {
                    &&& final(stream).written() == old(stream).written() + ssl_request_bytes()
                    &&& old(stream).readable().len() >= 1
                    &&& old(stream).readable()[0] == SSL_UNWILLING
                    &&& final(stream).readable() == old(stream).readable().skip(1)
                },
                Error::SslRequestGibberish(b) => {
                    &&& final(stream).written() == old(stream).written() + ssl_request_bytes()
                    &&& old(stream).readable().len() >= 1
                    &&& old(stream).readable()[0] == b
                    &&& b != SSL_WILLING
                    &&& b != SSL_UNWILLING
                    &&& final(stream).readable() == old(stream).readable().skip(1)
                },
                Error::Io(_) => true,
                _ => false,
            },
        },
{
    let mut request: Vec<u8> = Vec::new();
    request.push(0);
    request.push(0);
    request.push(0);
    request.push(8);
    request.push(4);
    request.push(210);
    request.push(22);
    request.push(47);
    proof {
        assert(request@ =~= ssl_request_bytes());
    }
    match stream.write_all(request.as_slice()) {
        Ok(()) => {},
        Err(e) => {
            return Err(e);
        },
    }
    let mut reply: Vec<u8> = Vec::new();
    match stream.read_exact_append(&mut reply, 1) {
        Ok(()) => {},
        Err(e) => {
            return Err(e);
        },
    }
    let byte: u8 = reply[0];
    proof {
        assert(old(stream).readable().take(1)[0] == old(stream).readable()[0]);
    }
    if byte == SSL_WILLING {
        Ok(())
    } else if byte == SSL_UNWILLING {
        Err(Error::SslServerUnwilling)
    } else {
        Err(Error::SslRequestGibberish(byte))
    }
}

} // verus!
