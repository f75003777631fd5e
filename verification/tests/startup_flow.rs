//! Tests for the start-up flow: message building, authentication, and
//! parameter collection.

use ck_pg_client::capabilities::{Md5Md5, Md5Unavailable};
use ck_pg_client::connectivity::MemoryStream;
use ck_pg_client::connectivity::start_up::{StartUpError, start_up};
use ck_pg_client::connectivity::unix_socket_path;
use ck_pg_client::protocol::NoticeCollector;
use ck_pg_client::protocol::Receiver;
use ck_pg_client::protocol::startup::{
    ParamMap, build_password_message, build_startup_message, build_startup_message_params,
    handle_authentication, handle_info, hex_lower, startup,
};
use ck_pg_client::protocol::{write_int32_u32, write_string_slice};
use ck_pg_client::{Error, u32_to_usize};

#[test]
fn startup_message_exact_bytes() {
    let message = build_startup_message(b"postgres", b"postgres").unwrap();
    let mut expected = vec![0, 0, 0, 0x29, 0, 3, 0, 0];
    expected.extend_from_slice(b"user\0postgres\0database\0postgres\0\0");
    assert_eq!(message, expected);
}

#[test]
fn startup_message_rejects_interior_nul() {
    let result = build_startup_message(b"post\0gres", b"db");
    assert!(matches!(result.unwrap_err(), Error::Nul));
    let result = build_startup_message(b"user", b"d\0b");
    assert!(matches!(result.unwrap_err(), Error::Nul));
}

#[test]
fn startup_message_params_general_pairs() {
    let params = vec![
        (b"user".to_vec(), b"alice".to_vec()),
        (b"application_name".to_vec(), b"test".to_vec()),
    ];
    let message = build_startup_message_params(&params).unwrap();
    let mut expected = Vec::new();
    expected.extend_from_slice(&[0, 3, 0, 0]);
    expected.extend_from_slice(b"user\0alice\0application_name\0test\0\0");
    let total = (expected.len() + 4) as u32;
    let mut framed = total.to_be_bytes().to_vec();
    framed.extend_from_slice(&expected);
    assert_eq!(message, framed);
}

#[test]
fn password_message_exact_bytes() {
    let message = build_password_message(b"hunter2").unwrap();
    let mut expected = vec![b'p', 0, 0, 0, 12];
    expected.extend_from_slice(b"hunter2\0");
    assert_eq!(message, expected);
    assert!(matches!(build_password_message(b"bad\0pw").unwrap_err(), Error::Nul));
}

#[test]
fn hex_lower_exact() {
    assert_eq!(hex_lower(&[0x00, 0xFF, 0x1A]), b"00ff1a");
    assert_eq!(hex_lower(&[]), b"");
}

#[test]
fn write_primitives() {
    let mut buf = Vec::new();
    write_int32_u32(&mut buf, 196608);
    assert_eq!(buf, [0, 3, 0, 0]);
    write_string_slice(&mut buf, b"ab").unwrap();
    assert_eq!(buf, [0, 3, 0, 0, b'a', b'b', 0]);
    let err = write_string_slice(&mut buf, b"a\0b").unwrap_err();
    assert!(matches!(err, Error::Nul));
    // A rejected write leaves the buffer untouched.
    assert_eq!(buf, [0, 3, 0, 0, b'a', b'b', 0]);
}

#[test]
fn u32_to_usize_is_lossless() {
    assert_eq!(u32_to_usize(0), 0);
    assert_eq!(u32_to_usize(u32::MAX), u32::MAX as usize);
}

#[test]
fn unix_socket_path_convention() {
    assert_eq!(unix_socket_path(b"/tmp", 5432), b"/tmp/.s.PGSQL.5432");
    assert_eq!(unix_socket_path(b"/run/postgresql/", 6000), b"/run/postgresql/.s.PGSQL.6000");
}

#[test]
fn param_map_last_write_wins() {
    let mut map = ParamMap::new();
    map.insert(b"TimeZone".to_vec(), b"UTC".to_vec());
    map.insert(b"server_version".to_vec(), b"14.5".to_vec());
    map.insert(b"TimeZone".to_vec(), b"Europe/Amsterdam".to_vec());
    assert_eq!(map.get(b"TimeZone").unwrap(), b"Europe/Amsterdam");
    assert_eq!(map.get(b"server_version").unwrap(), b"14.5");
    assert!(map.get(b"missing").is_none());
}

fn frame(tag: u8, body: &[u8]) -> Vec<u8> {
    let mut f = vec![tag, 0, 0, 0, 0];
    f.extend_from_slice(body);
    let len = (f.len() - 1) as u32;
    f[1..5].copy_from_slice(&len.to_be_bytes());
    f
}

#[test]
fn startup_collects_parameters_and_key_data() {
    let mut input = Vec::new();
    input.extend_from_slice(&frame(b'R', &[0, 0, 0, 0]));
    input.extend_from_slice(&frame(b'S', b"server_version\014.5\0"));
    input.extend_from_slice(&frame(b'S', b"TimeZone\0UTC\0"));
    input.extend_from_slice(&frame(b'K', &[0, 0, 4, 210, 222, 173, 190, 239]));
    input.extend_from_slice(&frame(b'Z', b"T"));
    let mut stream = MemoryStream::new(input);
    let mut receiver = Receiver::new(NoticeCollector::new());
    let info = startup(
        &Md5Unavailable,
        &mut receiver,
        &mut stream,
        b"alice",
        b"postgres",
        &None,
    )
    .unwrap();
    assert_eq!(info.backend_process_id, 1234);
    assert_eq!(info.backend_secret_key, 0xDEADBEEF);
    assert_eq!(info.transaction_status_indicator, b'T');
    assert_eq!(info.parameter_statuses.get(b"server_version").unwrap(), b"14.5");
    assert_eq!(info.parameter_statuses.get(b"TimeZone").unwrap(), b"UTC");
    // The startup message was the only write.
    assert_eq!(stream.written_bytes(), build_startup_message(b"alice", b"postgres").unwrap());
}

#[test]
fn startup_duplicate_parameter_status_last_wins() {
    let mut input = Vec::new();
    input.extend_from_slice(&frame(b'R', &[0, 0, 0, 0]));
    input.extend_from_slice(&frame(b'S', b"TimeZone\0UTC\0"));
    input.extend_from_slice(&frame(b'S', b"TimeZone\0Zulu\0"));
    input.extend_from_slice(&frame(b'Z', b"I"));
    let mut stream = MemoryStream::new(input);
    let mut receiver = Receiver::new(NoticeCollector::new());
    let info = startup(
        &Md5Unavailable,
        &mut receiver,
        &mut stream,
        b"alice",
        b"postgres",
        &None,
    )
    .unwrap();
    assert_eq!(info.parameter_statuses.get(b"TimeZone").unwrap(), b"Zulu");
}

#[test]
fn startup_cleartext_password_is_sent() {
    let mut input = Vec::new();
    input.extend_from_slice(&frame(b'R', &[0, 0, 0, 3]));
    input.extend_from_slice(&frame(b'R', &[0, 0, 0, 0]));
    input.extend_from_slice(&frame(b'Z', b"I"));
    let mut stream = MemoryStream::new(input);
    let mut receiver = Receiver::new(NoticeCollector::new());
    let info = startup(
        &Md5Unavailable,
        &mut receiver,
        &mut stream,
        b"alice",
        b"postgres",
        &Some(b"hunter2".to_vec()),
    )
    .unwrap();
    assert_eq!(info.transaction_status_indicator, b'I');
    let mut expected = build_startup_message(b"alice", b"postgres").unwrap();
    expected.extend_from_slice(&build_password_message(b"hunter2").unwrap());
    assert_eq!(stream.written_bytes(), expected);
}

#[test]
fn startup_md5_password_derivation() {
    let salt = [0x01, 0x02, 0x03, 0x04];
    let mut input = Vec::new();
    input.extend_from_slice(&frame(b'R', &[0, 0, 0, 5, 1, 2, 3, 4]));
    input.extend_from_slice(&frame(b'R', &[0, 0, 0, 0]));
    input.extend_from_slice(&frame(b'Z', b"I"));
    let mut stream = MemoryStream::new(input);
    let mut receiver = Receiver::new(NoticeCollector::new());
    startup(
        &Md5Md5,
        &mut receiver,
        &mut stream,
        b"alice",
        b"postgres",
        &Some(b"hunter2".to_vec()),
    )
    .unwrap();
    // Independently derive concat("md5",
    // hex(md5(concat(hex(md5(concat(password, user))), salt)))).
    let inner = md5::compute(b"hunter2alice");
    let inner_hex = format!("{inner:x}");
    let mut outer_input = inner_hex.into_bytes();
    outer_input.extend_from_slice(&salt);
    let outer = md5::compute(&outer_input);
    let payload = format!("md5{outer:x}");
    let mut expected = build_startup_message(b"alice", b"postgres").unwrap();
    expected.extend_from_slice(&build_password_message(payload.as_bytes()).unwrap());
    assert_eq!(stream.written_bytes(), expected);
}

#[test]
fn startup_md5_without_capability_unsupported() {
    let mut input = Vec::new();
    input.extend_from_slice(&frame(b'R', &[0, 0, 0, 5, 1, 2, 3, 4]));
    let mut stream = MemoryStream::new(input);
    let mut receiver = Receiver::new(NoticeCollector::new());
    let error = startup(
        &Md5Unavailable,
        &mut receiver,
        &mut stream,
        b"alice",
        b"postgres",
        &Some(b"hunter2".to_vec()),
    )
    .map(|_| ())
    .unwrap_err();
    assert!(matches!(error, Error::AuthenticationUnsupported));
    // No password bytes followed the startup message.
    assert_eq!(stream.written_bytes(), build_startup_message(b"alice", b"postgres").unwrap());
}

#[test]
fn startup_without_password_unsupported() {
    let mut input = Vec::new();
    input.extend_from_slice(&frame(b'R', &[0, 0, 0, 3]));
    let mut stream = MemoryStream::new(input);
    let mut receiver = Receiver::new(NoticeCollector::new());
    let error = startup(&Md5Md5, &mut receiver, &mut stream, b"alice", b"postgres", &None)
        .map(|_| ())
        .unwrap_err();
    assert!(matches!(error, Error::AuthenticationUnsupported));
}

#[test]
fn startup_sasl_demand_unsupported() {
    let mut input = Vec::new();
    input.extend_from_slice(&frame(b'R', b"\0\0\0\x0ASCRAM-SHA-256\0\0"));
    let mut stream = MemoryStream::new(input);
    let mut receiver = Receiver::new(NoticeCollector::new());
    let error = startup(
        &Md5Md5,
        &mut receiver,
        &mut stream,
        b"alice",
        b"postgres",
        &Some(b"pw".to_vec()),
    )
    .map(|_| ())
    .unwrap_err();
    assert!(matches!(error, Error::AuthenticationUnsupported));
}

#[test]
fn authentication_error_response_preserves_fields() {
    // The server rejects the credentials during the authentication
    // dialogue; the error carries the fields with their type codes.
    let mut input = Vec::new();
    input.extend_from_slice(&frame(b'E', b"SFATAL\0C28P01\0Mauth\0\0"));
    let mut stream = MemoryStream::new(input);
    let mut receiver = Receiver::new(NoticeCollector::new());
    let error = handle_authentication(
        &Md5Unavailable,
        &mut receiver,
        &mut stream,
        b"alice",
        &None,
    )
    .unwrap_err();
    match error {
        Error::AuthenticationFailed(fields) => {
            assert_eq!(fields.len(), 3);
            assert_eq!(fields[0].type_code, b'S');
            assert_eq!(fields[0].value, b"FATAL");
            assert_eq!(fields[1].type_code, b'C');
            assert_eq!(fields[1].value, b"28P01");
            assert_eq!(fields[2].type_code, b'M');
            assert_eq!(fields[2].value, b"auth");
        }
        other => panic!("wrong error: {other:?}"),
    }
}

#[test]
fn info_error_response_is_startup_failed() {
    let mut input = Vec::new();
    input.extend_from_slice(&frame(b'E', b"Mno such database\0\0"));
    let mut stream = MemoryStream::new(input);
    let mut receiver = Receiver::new(NoticeCollector::new());
    let error = handle_info(&mut receiver, &mut stream).map(|_| ()).unwrap_err();
    match error {
        Error::StartupFailed(fields) => {
            assert_eq!(fields.len(), 1);
            assert_eq!(fields[0].value, b"no such database");
        }
        other => panic!("wrong error: {other:?}"),
    }
}

#[test]
fn info_unexpected_message_rejected() {
    let mut input = Vec::new();
    input.extend_from_slice(&frame(b'2', b""));
    input.extend_from_slice(&frame(b'Z', b"I"));
    let mut stream = MemoryStream::new(input);
    let mut receiver = Receiver::new(NoticeCollector::new());
    let error = handle_info(&mut receiver, &mut stream).map(|_| ()).unwrap_err();
    assert!(matches!(error, Error::BackendMessageUnexpected));
    // Only the offending frame was consumed; no further frame is read.
    assert_eq!(stream.remaining_input(), frame(b'Z', b"I"));
}

#[test]
fn startup_ignores_negotiate_protocol_version() {
    let mut input = Vec::new();
    let mut negotiate = vec![0, 0, 0, 0, 0, 0, 0, 0];
    negotiate[3] = 0; // newest minor version 0, no unrecognized names
    input.extend_from_slice(&frame(b'v', &negotiate));
    input.extend_from_slice(&frame(b'R', &[0, 0, 0, 0]));
    input.extend_from_slice(&frame(b'Z', b"I"));
    let mut stream = MemoryStream::new(input);
    let mut receiver = Receiver::new(NoticeCollector::new());
    let info = startup(
        &Md5Unavailable,
        &mut receiver,
        &mut stream,
        b"alice",
        b"postgres",
        &None,
    )
    .unwrap();
    assert_eq!(info.transaction_status_indicator, b'I');
}

#[test]
fn startup_absorbs_notices_between_phases() {
    let mut input = Vec::new();
    input.extend_from_slice(&frame(b'N', b"Mheads up\0\0"));
    input.extend_from_slice(&frame(b'R', &[0, 0, 0, 0]));
    input.extend_from_slice(&frame(b'N', b"Manother\0\0"));
    input.extend_from_slice(&frame(b'Z', b"I"));
    let mut stream = MemoryStream::new(input);
    let mut receiver = Receiver::new(NoticeCollector::new());
    startup(
        &Md5Unavailable,
        &mut receiver,
        &mut stream,
        b"alice",
        b"postgres",
        &None,
    )
    .unwrap();
    let sink = receiver.into_sink();
    assert_eq!(sink.items().len(), 2);
    assert_eq!(sink.items()[0], b"Mheads up\0");
    assert_eq!(sink.items()[1], b"Manother\0");
}

#[test]
fn start_up_with_parameter_list() {
    let mut input = Vec::new();
    input.extend_from_slice(&frame(b'R', &[0, 0, 0, 0]));
    input.extend_from_slice(&frame(b'K', &[0, 0, 0, 1, 0, 0, 0, 2]));
    input.extend_from_slice(&frame(b'Z', b"I"));
    let mut stream = MemoryStream::new(input);
    let mut receiver = Receiver::new(NoticeCollector::new());
    let parameters = vec![
        (b"user".to_vec(), b"alice".to_vec()),
        (b"database".to_vec(), b"postgres".to_vec()),
    ];
    let info = start_up(&mut receiver, &mut stream, &parameters, &None, &Md5Unavailable).unwrap();
    assert_eq!(info.backend_process_id, 1);
    assert_eq!(info.backend_secret_key, 2);
    assert_eq!(stream.written_bytes(), build_startup_message_params(&parameters).unwrap());
}

#[test]
fn start_up_maps_nul_error() {
    let parameters = vec![(b"user".to_vec(), b"al\0ice".to_vec())];
    let mut stream = MemoryStream::new(Vec::new());
    let mut receiver = Receiver::new(NoticeCollector::new());
    let error = start_up(&mut receiver, &mut stream, &parameters, &None, &Md5Unavailable)
        .map(|_| ())
        .unwrap_err();
    assert!(matches!(error, StartUpError::Nul));
}
