//! Tests for the SSL pre-exchange and connection establishment.

use ck_pg_client::capabilities::Md5Unavailable;
use ck_pg_client::capabilities::SslUnavailable;
use ck_pg_client::capabilities::SslUnavailableStream;
use ck_pg_client::connectivity::MemoryStream;
use ck_pg_client::connectivity::initiate_ssl;
use ck_pg_client::connectivity::ssl::InitiateSslError;
use ck_pg_client::protocol::NoticeCollector;
use ck_pg_client::protocol::ssl_session_encryption;
use ck_pg_client::{Connection, ConnectionOptions, Error, MaybeTls, Sslmode};

#[test]
fn ssl_session_encryption_received_gibberish() {
    let mut stream = MemoryStream::new(b"XYZ".to_vec());
    let result = ssl_session_encryption(&mut stream).unwrap_err();
    assert!(matches!(result, Error::SslRequestGibberish(b'X')));
    // One byte was consumed, and exactly the request was written.
    let mut observed = stream.remaining_input();
    observed.extend_from_slice(&stream.written_bytes());
    assert_eq!(observed, *b"YZ\0\0\0\x08\x04\xD2\x16\x2F");
}

#[test]
fn ssl_session_encryption_server_unwilling() {
    let mut stream = MemoryStream::new(b"N".to_vec());
    let result = ssl_session_encryption(&mut stream).unwrap_err();
    assert!(matches!(result, Error::SslServerUnwilling));
    // The reply byte was fully consumed.
    assert_eq!(stream.remaining_input(), Vec::<u8>::new());
    assert_eq!(stream.written_bytes(), [0, 0, 0, 8, 4, 210, 22, 47]);
}

#[test]
fn ssl_session_encryption_server_willing() {
    let mut stream = MemoryStream::new(b"S".to_vec());
    ssl_session_encryption(&mut stream).unwrap();
    assert_eq!(stream.written_bytes(), [0, 0, 0, 8, 4, 210, 22, 47]);
}

#[test]
fn ssl_session_encryption_eof() {
    let mut stream = MemoryStream::new(Vec::new());
    let result = ssl_session_encryption(&mut stream).unwrap_err();
    assert!(matches!(result, Error::Io(_)));
}

#[test]
fn initiate_ssl_maps_outcomes() {
    let mut stream = MemoryStream::new(b"N".to_vec());
    assert!(matches!(initiate_ssl(&mut stream).unwrap_err(), InitiateSslError::ServerUnwilling));
    let mut stream = MemoryStream::new(b"?".to_vec());
    assert!(matches!(
        initiate_ssl(&mut stream).unwrap_err(),
        InitiateSslError::ReceivedGibberish(b'?')
    ));
    let mut stream = MemoryStream::new(b"S".to_vec());
    assert!(initiate_ssl(&mut stream).is_ok());
}

fn options(sslmode: Sslmode) -> ConnectionOptions {
    ConnectionOptions {
        dbname: b"postgres".to_vec(),
        user: b"postgres".to_vec(),
        password: None,
        sslmode,
    }
}

type TestConnection = Connection<MaybeTls<MemoryStream, SslUnavailableStream>, NoticeCollector>;

#[test]
fn connect_ssl_required_server_unwilling() {
    // A server without SSL support ("localhost" stands in as the
    // server name) answers the SSL request with `N`.
    let socket = MemoryStream::new(b"N".to_vec());
    let error = TestConnection::connect(
        &Md5Unavailable,
        &SslUnavailable,
        NoticeCollector::new(),
        &options(Sslmode::Require),
        socket,
        "localhost",
    )
    .map(|_| ())
    .unwrap_err();
    assert!(matches!(error, Error::SslServerUnwilling));
}

#[test]
fn connect_ssl_required_handshake_unavailable() {
    // The server is willing, but no TLS capability is present.
    let socket = MemoryStream::new(b"S".to_vec());
    let error = TestConnection::connect(
        &Md5Unavailable,
        &SslUnavailable,
        NoticeCollector::new(),
        &options(Sslmode::Require),
        socket,
        "localhost",
    )
    .map(|_| ())
    .unwrap_err();
    assert!(matches!(error, Error::SslHandshake(_)));
}

fn happy_server_input() -> Vec<u8> {
    let mut input = Vec::new();
    input.extend_from_slice(&[b'R', 0, 0, 0, 8, 0, 0, 0, 0]);
    let mut status = vec![b'S', 0, 0, 0, 0];
    status.extend_from_slice(b"server_version\014.5\0");
    let len = (status.len() - 1) as u32;
    status[1..5].copy_from_slice(&len.to_be_bytes());
    input.extend_from_slice(&status);
    input.extend_from_slice(&[b'K', 0, 0, 0, 12, 0, 0, 0, 9, 0, 0, 0, 7]);
    input.extend_from_slice(&[b'Z', 0, 0, 0, 5, b'I']);
    input
}

#[test]
fn connect_disabled_runs_start_up() {
    let socket = MemoryStream::new(happy_server_input());
    let connection = TestConnection::connect(
        &Md5Unavailable,
        &SslUnavailable,
        NoticeCollector::new(),
        &options(Sslmode::Disable),
        socket,
        "localhost",
    );
    assert!(connection.is_ok());
}

#[test]
fn connect_disabled_surfaces_unexpected_message() {
    // The server opens with `BindComplete`, which has no place in the
    // authentication dialogue.
    let socket = MemoryStream::new(vec![b'2', 0, 0, 0, 4]);
    let error = TestConnection::connect(
        &Md5Unavailable,
        &SslUnavailable,
        NoticeCollector::new(),
        &options(Sslmode::Disable),
        socket,
        "localhost",
    )
    .map(|_| ())
    .unwrap_err();
    assert!(matches!(error, Error::BackendMessageUnexpected));
}
