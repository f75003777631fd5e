//! Synchronous client core for the PostgreSQL frontend/backend wire
//! protocol (protocol version 3.0): a total decoder for backend
//! messages, a framed receiver that absorbs notices, the SSL-request
//! pre-exchange, and the start-up state machine.
//!
//! MD5 hashing and TLS are consumed through capability traits; see
//! [`capabilities`].  Unsupported protocol features: the streaming
//! replication protocol, Kerberos V5 authentication, SASL
//! authentication, and GSSAPI session encryption.

use vstd::prelude::*;

pub mod capabilities;
pub mod connectivity;
mod error;
pub mod protocol;
mod usize_conversions;

pub use crate::error::Error;
pub use crate::error::IoErrorKind;
pub use crate::error::PgResult;
pub use crate::usize_conversions::u32_to_usize;

use crate::capabilities::Md5;
use crate::capabilities::Ssl;
use crate::connectivity::Stream;
use crate::protocol::backend_message::opt_bytes_view;
use crate::protocol::frontend_message::has_nul;
use crate::protocol::receiver::NoticeSink;
use crate::protocol::receiver::Receiver;
use crate::protocol::ssl_session_encryption::SSL_UNWILLING;
use crate::protocol::ssl_session_encryption::SSL_WILLING;
use crate::protocol::ssl_session_encryption::ssl_session_encryption;
use crate::protocol::startup::AuthOutcome;
use crate::protocol::startup::InfoOutcome;
use crate::protocol::startup::auth_outcome;
use crate::protocol::startup::info_outcome;
use crate::protocol::startup::initial_start_up_model;
use crate::protocol::startup::startup_broken;
use crate::protocol::startup::startup_error_matches;
use crate::protocol::startup::startup_owed;
use crate::protocol::startup::startup;
use crate::protocol::startup::startup_message_bytes;
use crate::protocol::startup::user_database_params;

verus! {

/// Transport that is either a plain socket or a TLS-wrapped stream.
pub enum MaybeTls<P, E> {
    Plain(P),
    Tls(E),
}

impl<P: Stream, E: Stream> Stream for MaybeTls<P, E> {
    closed spec fn readable(&self) -> Seq<u8> {
        match self {
            MaybeTls::Plain(p) => p.readable(),
            MaybeTls::Tls(e) => e.readable(),
        }
    }

    closed spec fn written(&self) -> Seq<u8> {
        match self {
            MaybeTls::Plain(p) => p.written(),
            MaybeTls::Tls(e) => e.written(),
        }
    }

    closed spec fn reliable(&self) -> bool {
        match self {
            MaybeTls::Plain(p) => p.reliable(),
            MaybeTls::Tls(e) => e.reliable(),
        }
    }

    fn read_exact_append(&mut self, buf: &mut Vec<u8>, count: u32) -> (r: Result<(), Error>) {
        match self {
            MaybeTls::Plain(p) => p.read_exact_append(buf, count),
            MaybeTls::Tls(e) => e.read_exact_append(buf, count),
        }
    }

    fn write_all(&mut self, data: &[u8]) -> (r: Result<(), Error>) {
        match self {
            MaybeTls::Plain(p) => p.write_all(data),
            MaybeTls::Tls(e) => e.write_all(data),
        }
    }
}

/// Open connection to a database: the transport and the receiver that
/// parses backend messages from it.
pub struct Connection<T, N> {
    transport: T,
    receiver: Receiver<N>,
}

impl<T, N> Connection<T, N> {
    /// The transport the connection owns.
    pub closed spec fn transport(self) -> T {
        self.transport
    }

    /// The receiver the connection owns.
    pub closed spec fn receiver(self) -> Receiver<N> {
        self.receiver
    }
}

/// Whether to use plaintext or SSL encrypted communication.
///
/// This fulfills the same purpose as the `sslmode` setting of
/// PostgreSQL client libraries, but is more direct: the caller must
/// say whether it wants SSL or not.  The certificate verification
/// requirements are up to the `Ssl` capability's handshake.
pub enum Sslmode {
    Disable,
    Require,
}

/// Options describing a database connection.
pub struct ConnectionOptions {
    /// The database name.
    ///
    /// Technically, this is the `database` parameter included in the
    /// `StartupMessage` message.
    pub dbname: Vec<u8>,

    /// PostgreSQL user name to connect as.
    ///
    /// Technically, this is the `user` parameter included in the
    /// `StartupMessage` message.
    pub user: Vec<u8>,

    /// Password to be used if the server demands password
    /// authentication.
    pub password: Option<Vec<u8>>,

    /// Whether to use plaintext or SSL encrypted communication.
    pub sslmode: Sslmode,
}

impl<P: Stream, E: Stream, N: NoticeSink> Connection<MaybeTls<P, E>, N> {
    /// Open a connection over an already-connected socket.
    ///
    /// With `Sslmode::Require`, the SSL-request pre-exchange runs
    /// first on the raw socket and the `ssl` capability wraps it; with
    /// `Sslmode::Disable` the socket is used as it is.  The start-up
    /// flow then runs on the resulting transport: `StartupMessage`,
    /// the authentication dialogue, and parameter collection until
    /// `ReadyForQuery`.
    pub fn connect<M: Md5, L: Ssl<P, Stream = E>>(
        md5: &M,
        ssl: &L,
        on_notice: N,
        options: &ConnectionOptions,
        socket: P,
        server_name: &str,
    ) -> (r: Result<Connection<MaybeTls<P, E>, N>, Error>)
        requires
            options.user@.len() + options.dbname@.len() + 64 <= 0xFFFF_FFFF,
            match options.password {
                Some(p) => p@.len() + 5 <= 0xFFFF_FFFF,
                None => true,
            },
        ensures
            (match options.sslmode {
                Sslmode::Disable => socket.reliable() && startup_owed(
                    socket.readable(),
                    options.user@,
                    options.dbname@,
                    opt_bytes_view(options.password),
                    md5.available(),
                ),
                Sslmode::Require => false,
            }) ==> r is Ok,
            (match options.sslmode {
                Sslmode::Require => socket.reliable() && socket.readable().len() >= 1
                    && socket.readable()[0] == SSL_UNWILLING,
                Sslmode::Disable => false,
            }) ==> (r matches Err(Error::SslServerUnwilling)),
            (match options.sslmode {
                Sslmode::Require => socket.reliable() && socket.readable().len() >= 1
                    && socket.readable()[0] != SSL_WILLING && socket.readable()[0]
                    != SSL_UNWILLING,
                Sslmode::Disable => false,
            }) ==> (r matches Err(Error::SslRequestGibberish(_))),
            match r {
                Ok(conn) => match options.sslmode {
                    Sslmode::Disable => {
                        &&& !has_nul(options.user@)
                        &&& !has_nul(options.dbname@)
                        &&& match auth_outcome(
                            socket.readable(),
                            options.user@,
                            opt_bytes_view(options.password),
                            md5.available(),
                        ) {
                            AuthOutcome::Established { writes, used } => match info_outcome(
                                socket.readable().skip(used),
                                initial_start_up_model(),
                            ) {
                                InfoOutcome::Ready { model, status, used: info_used } => {
                                    &&& conn.transport().readable() == socket.readable().skip(
                                        used + info_used,
                                    )
                                    &&& conn.transport().written() == socket.written()
                                        + startup_message_bytes(
                                        user_database_params(options.user@, options.dbname@),
                                    ) + writes
                                },
                                _ => false,
                            },
                            _ => false,
                        }
                    },
                    Sslmode::Require => {
                        &&& socket.readable().len() >= 1
                        &&& socket.readable()[0] == SSL_WILLING
                    },
                },
                Err(e) => match options.sslmode {
                    // With `Disable` the pre-exchange is skipped, so
                    // no SSL-layer error can surface.
                    Sslmode::Disable => {
                        &&& startup_error_matches(
                            e,
                            socket.readable(),
                            options.user@,
                            options.dbname@,
                            opt_bytes_view(options.password),
                            md5.available(),
                        )
                        &&& (socket.reliable() && (e matches Error::Io(_))) ==> ((
                        e matches Error::Io(IoErrorKind::UnexpectedEof)) && startup_broken(
                            socket.readable(),
                            options.user@,
                            opt_bytes_view(options.password),
                            md5.available(),
                        ))
                    },
                    Sslmode::Require => match e {
                        Error::SslServerUnwilling => {
                            &&& socket.readable().len() >= 1
                            &&& socket.readable()[0] == SSL_UNWILLING
                        },
                        Error::SslRequestGibberish(b) => {
                            &&& socket.readable().len() >= 1
                            &&& socket.readable()[0] == b
                            &&& b != SSL_WILLING
                            &&& b != SSL_UNWILLING
                        },
                        Error::Io(_) => true,
                        // Every later failure, the TLS handshake
                        // included, presupposes a willing server.
                        _ => socket.readable().len() >= 1 && socket.readable()[0] == SSL_WILLING,
                    },
                },
            },
    {
        match options.sslmode {
            Sslmode::Disable => {
                let mut transport: MaybeTls<P, E> = MaybeTls::Plain(socket);
                let mut receiver = Receiver::new(on_notice);
                match startup(
                    md5,
                    &mut receiver,
                    &mut transport,
                    options.user.as_slice(),
                    options.dbname.as_slice(),
                    &options.password,
                ) {
                    Ok(_info) => Ok(Connection { transport, receiver }),
                    Err(e) => Err(e),
                }
            },
            Sslmode::Require => {
                let mut raw = socket;
                match ssl_session_encryption(&mut raw) {
                    Ok(()) => {},
                    Err(e) => {
                        return Err(e);
                    },
                }
                let tls = match ssl.handshake(raw, server_name) {
                    Ok(t) => t,
                    Err(e) => {
                        return Err(e);
                    },
                };
                let mut transport: MaybeTls<P, E> = MaybeTls::Tls(tls);
                let mut receiver = Receiver::new(on_notice);
                match startup(
                    md5,
                    &mut receiver,
                    &mut transport,
                    options.user.as_slice(),
                    options.dbname.as_slice(),
                    &options.password,
                ) {
                    Ok(_info) => Ok(Connection { transport, receiver }),
                    Err(e) => Err(e),
                }
            },
        }
    }
}

} // verus!
