//! Connecting to PostgreSQL databases: the byte-stream transport
//! contract that the protocol core consumes, an in-memory transport,
//! and the Unix-socket path convention.

pub mod ssl;
pub mod start_up;

pub use self::ssl::InitiateSslError;
pub use self::ssl::initiate_ssl;
pub use self::start_up::StartUpError;
pub use self::start_up::StartUpInfo;
pub use self::start_up::start_up;

use vstd::prelude::*;
use crate::error::Error;
use crate::error::IoErrorKind;
use crate::protocol::backend_message::copy_range;
use crate::usize_conversions::u32_to_usize;

verus! {

/// The port on which PostgreSQL listens by default.
pub const DEFAULT_PORT: u16 = 5432;

/// Byte-stream transport consumed by the protocol core.
///
/// `readable` models the bytes the peer will deliver and `written` the
/// bytes sent to it.  A successful exact read consumes exactly the
/// requested prefix of `readable`; any operation may instead fail with
/// an I/O error, which the core surfaces without retrying.  This crate
/// implements the contract for [`MemoryStream`]; callers wrap real
/// sockets in it outside the verified core.
pub trait Stream {
    /// The bytes that remain to be read from the peer.
    ///
    /// Unverified implementations around real sockets leave this
    /// default, which makes the model empty.  The contracts below
    /// then put such an implementation on its honor: a successful
    /// non-empty read would overrun the empty model, so meeting the
    /// contract is the unverified code's trusted obligation, not a
    /// checked fact.  What a real peer will send cannot be known from
    /// inside the process.
    open spec fn readable(&self) -> Seq<u8> {
        Seq::empty()
    }

    /// The bytes written to the peer so far.
    open spec fn written(&self) -> Seq<u8> {
        Seq::empty()
    }

    /// Whether this transport is certain to deliver `readable` in
    /// full and to accept every write: true for in-memory transports,
    /// whose operations then must succeed whenever enough modelled
    /// bytes remain; real sockets leave the default.
    open spec fn reliable(&self) -> bool {
        false
    }

    /// Read exactly `count` bytes, appending them onto `buf`.
    ///
    /// If the read fails, the contents of the buffer are unspecified.
    fn read_exact_append(&mut self, buf: &mut Vec<u8>, count: u32) -> (r: Result<(), Error>)
        ensures
            final(self).written() == old(self).written(),
            final(self).reliable() == old(self).reliable(),
            old(self).reliable() && count as int <= old(self).readable().len() ==> r is Ok,
            match r {
                Ok(()) => {
                    &&& count as int <= old(self).readable().len()
                    &&& final(self).readable() == old(self).readable().skip(count as int)
                    &&& final(buf)@ == old(buf)@ + old(self).readable().take(count as int)
                },
                Err(e) => {
                    &&& (e matches Error::Io(_))
                    &&& old(self).reliable() ==> (e matches Error::Io(
                        IoErrorKind::UnexpectedEof,
                    ))
                },
            },
    ;

    /// Write all of `data` to the peer.
    fn write_all(&mut self, data: &[u8]) -> (r: Result<(), Error>)
        ensures
            final(self).readable() == old(self).readable(),
            final(self).reliable() == old(self).reliable(),
            old(self).reliable() ==> r is Ok,
            match r {
                Ok(()) => final(self).written() == old(self).written() + data@,
                Err(e) => (e matches Error::Io(_)),
            },
    ;
}

/// In-memory duplex transport: reads consume a scripted input, writes
/// append to an output log.  It drives the protocol core in tests and
/// against peers that are not sockets.
#[derive(Debug)]
pub struct MemoryStream {
    input: Vec<u8>,
    cursor: usize,
    output: Vec<u8>,
}

impl MemoryStream {
    /// A stream that will deliver exactly `input` and has sent nothing.
    pub fn new(input: Vec<u8>) -> (r: Self)
        ensures
            r.readable() == input@,
            r.written() == Seq::<u8>::empty(),
            r.reliable(),
    {
        MemoryStream { input, cursor: 0, output: Vec::new() }
    }

    /// Copy of the bytes that reads have not consumed yet.
    pub fn remaining_input(&self) -> (r: Vec<u8>)
        ensures
            r@ == self.readable(),
    {
        if self.cursor <= self.input.len() {
            let r = copy_range(self.input.as_slice(), self.cursor, self.input.len());
            proof {
                assert(r@ =~= self.readable());
            }
            r
        } else {
            Vec::new()
        }
    }

    /// Copy of the bytes written so far.
    pub fn written_bytes(&self) -> (r: Vec<u8>)
        ensures
            r@ == self.written(),
    {
        let r = copy_range(self.output.as_slice(), 0, self.output.len());
        proof {
            assert(r@ =~= self.written());
        }
        r
    }
}

impl Stream for MemoryStream {
    closed spec fn readable(&self) -> Seq<u8> {
        if self.cursor as int <= self.input@.len() {
            self.input@.skip(self.cursor as int)
        } else {
            Seq::empty()
        }
    }

    closed spec fn written(&self) -> Seq<u8> {
        self.output@
    }

    closed spec fn reliable(&self) -> bool {
        true
    }

    fn read_exact_append(&mut self, buf: &mut Vec<u8>, count: u32) -> (r: Result<(), Error>) {
        let n: usize = u32_to_usize(count);
        if n == 0 {
            proof {
                assert(self.readable() =~= self.readable().skip(0));
                assert(buf@ =~= buf@ + self.readable().take(0));
            }
            return Ok(());
        }
        if self.cursor <= self.input.len() && self.input.len() - self.cursor >= n {
            let mut chunk = copy_range(self.input.as_slice(), self.cursor, self.cursor + n);
            buf.append(&mut chunk);
            proof {
                assert(old(self).readable().take(count as int) =~= self.input@.subrange(
                    self.cursor as int,
                    self.cursor + n,
                ));
            }
            self.cursor = self.cursor + n;
            proof {
                assert(self.readable() =~= old(self).readable().skip(count as int));
            }
            Ok(())
        } else {
            // An exact read consumes whatever was available before it
            // reports that the stream ended too early.
            self.cursor = self.input.len();
            Err(Error::Io(IoErrorKind::UnexpectedEof))
        }
    }

    fn write_all(&mut self, data: &[u8]) -> (r: Result<(), Error>) {
        self.output.extend_from_slice(data);
        Ok(())
    }
}

/// Decimal digits of `n`, most significant first, without sign.
pub open spec fn decimal_bytes(n: int) -> Seq<u8>
    decreases n,
{
    if n < 0 {
        Seq::empty()
    } else if n < 10 {
        seq![(48 + n) as u8]
    } else {
        decimal_bytes(n / 10) + seq![(48 + n % 10) as u8]
    }
}

/// Append the decimal rendering of `n`.
pub fn push_decimal_u16(buf: &mut Vec<u8>, n: u16)
    ensures
        final(buf)@ == old(buf)@ + decimal_bytes(n as int),
    decreases n,
{
    if n < 10 {
        buf.push(48 + (n as u8));
        proof {
            assert(buf@ =~= old(buf)@ + decimal_bytes(n as int));
        }
    } else {
        push_decimal_u16(buf, n / 10);
        buf.push(48 + ((n % 10) as u8));
        proof {
            assert(buf@ =~= old(buf)@ + decimal_bytes(n as int));
        }
    }
}

/// The conventional file name prefix of a PostgreSQL Unix socket,
/// `.s.PGSQL.`, as bytes.
pub open spec fn socket_file_prefix() -> Seq<u8> {
    seq![46u8, 115u8, 46u8, 80u8, 71u8, 83u8, 81u8, 76u8, 46u8]
}

/// The path of a PostgreSQL Unix socket: the socket directory, a `/`
/// separator unless one is already present, and `.s.PGSQL.<port>`.
pub open spec fn unix_socket_path_bytes(dir: Seq<u8>, port: u16) -> Seq<u8> {
    let sep: Seq<u8> = if dir.len() > 0 && dir[dir.len() - 1] == 47 {
        Seq::empty()
    } else {
        seq![47u8]
    };
    dir + sep + socket_file_prefix() + decimal_bytes(port as int)
}

/// The path to a PostgreSQL Unix socket given the socket directory and
/// port.
///
/// Unix sockets don't actually have port numbers, but PostgreSQL
/// pretends they do by naming the socket file `.s.PGSQL.<port>` inside
/// the socket directory.  This function implements that convention.
pub fn unix_socket_path(sockets_dir: &[u8], port: u16) -> (r: Vec<u8>)
    ensures
        r@ == unix_socket_path_bytes(sockets_dir@, port),
{
    let mut r: Vec<u8> = Vec::new();
    r.extend_from_slice(sockets_dir);
    if !(sockets_dir.len() > 0 && sockets_dir[sockets_dir.len() - 1] == 47) {
        r.push(47);
    }
    r.push(46);
    r.push(115);
    r.push(46);
    r.push(80);
    r.push(71);
    r.push(83);
    r.push(81);
    r.push(76);
    r.push(46);
    let ghost before_digits = r@;
    proof {
        assert(before_digits =~= sockets_dir@ + (if sockets_dir@.len() > 0 && sockets_dir@[
            sockets_dir@.len() - 1
        ] == 47 {
            Seq::<u8>::empty()
        } else {
            seq![47u8]
        }) + socket_file_prefix());
    }
    push_decimal_u16(&mut r, port);
    proof {
        assert(r@ =~= unix_socket_path_bytes(sockets_dir@, port));
    }
    r
}

} // verus!
