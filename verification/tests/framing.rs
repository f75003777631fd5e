//! Tests for framed reading and the notice-absorbing receiver.

use ck_pg_client::connectivity::MemoryStream;
use ck_pg_client::protocol::BackendMessage;
use ck_pg_client::protocol::NoticeCollector;
use ck_pg_client::protocol::Receiver;
use ck_pg_client::protocol::read_backend_message::make_length_error;
use ck_pg_client::{Error, IoErrorKind};

#[test]
fn read_backend_message_example() {
    let mut buf = MemoryStream::new(vec![b'R', 0, 0, 0, 12, 0, 0, 0, 5, 9, 8, 7, 6, 0xFF]);
    let mut message = Vec::new();
    ck_pg_client::protocol::read_backend_message::read_backend_message(&mut buf, &mut message)
        .unwrap();
    assert_eq!(message, [b'R', 0, 0, 0, 12, 0, 0, 0, 5, 9, 8, 7, 6]);
    assert_eq!(buf.remaining_input(), [0xFF], "read_backend_message read too much");
}

#[test]
fn read_backend_message_bad_length() {
    for i in 0..4 {
        let mut buf = MemoryStream::new(vec![b'R', 0, 0, 0, i]);
        let result = ck_pg_client::protocol::read_backend_message::read_backend_message(
            &mut buf,
            &mut Vec::new(),
        );
        assert_eq!(result.unwrap_err().message(), make_length_error().message());
    }
}

#[test]
fn read_backend_message_unexpected_eof() {
    let mut buf = MemoryStream::new(vec![b'R', 0, 0, 0, 12, 0, 0, 0]);
    let result = ck_pg_client::protocol::read_backend_message::read_backend_message(
        &mut buf,
        &mut Vec::new(),
    );
    assert!(matches!(result.unwrap_err(), Error::Io(IoErrorKind::UnexpectedEof)));
}

#[test]
fn receiver_example() {
    let mut buf = MemoryStream::new(vec![b'R', 0, 0, 0, 12, 0, 0, 0, 5, 9, 8, 7, 6, 0xFF]);
    let mut message = Vec::new();
    ck_pg_client::protocol::receiver::read_backend_message(&mut buf, &mut message).unwrap();
    assert_eq!(message, [b'R', 0, 0, 0, 12, 0, 0, 0, 5, 9, 8, 7, 6]);
    assert_eq!(buf.remaining_input(), [0xFF], "read_backend_message read too much");
}

#[test]
fn receiver_bad_length() {
    for i in 0..4 {
        let mut buf = MemoryStream::new(vec![b'R', 0, 0, 0, i]);
        let result =
            ck_pg_client::protocol::receiver::read_backend_message(&mut buf, &mut Vec::new());
        assert!(matches!(result.unwrap_err(), Error::FramingLengthTooSmall));
    }
}

#[test]
fn receiver_unexpected_eof() {
    let mut buf = MemoryStream::new(vec![b'R', 0, 0, 0, 12, 0, 0, 0]);
    let result = ck_pg_client::protocol::receiver::read_backend_message(&mut buf, &mut Vec::new());
    assert!(matches!(result.unwrap_err(), Error::Io(IoErrorKind::UnexpectedEof)));
}

#[test]
fn receive_returns_message_without_over_read() {
    // A trailing byte follows the frame; it must stay unread.
    let mut stream = MemoryStream::new(vec![b'R', 0, 0, 0, 8, 0, 0, 0, 0, 0xFF]);
    let mut receiver = Receiver::new(NoticeCollector::new());
    let message = receiver.receive(&mut stream).unwrap();
    assert!(matches!(message, BackendMessage::AuthenticationOk));
    assert_eq!(stream.remaining_input(), [0xFF]);
}

#[test]
fn receive_rejects_short_length_before_body() {
    let mut stream = MemoryStream::new(vec![b'R', 0, 0, 0, 3]);
    let mut receiver = Receiver::new(NoticeCollector::new());
    let result = receiver.receive(&mut stream);
    assert!(matches!(result.unwrap_err(), Error::FramingLengthTooSmall));
    // The five header bytes were consumed, and nothing more was read.
    assert_eq!(stream.remaining_input(), Vec::<u8>::new());
}

#[test]
fn receive_rejects_undecodable_frame() {
    let mut stream = MemoryStream::new(vec![b'x', 0, 0, 0, 4]);
    let mut receiver = Receiver::new(NoticeCollector::new());
    let result = receiver.receive(&mut stream);
    assert!(matches!(result.unwrap_err(), Error::BackendMessageParse));
}

fn notice_frame(fields: &[u8]) -> Vec<u8> {
    let mut frame = vec![b'N', 0, 0, 0, 0];
    frame.extend_from_slice(fields);
    frame.push(0);
    let len = (frame.len() - 1) as u32;
    frame[1..5].copy_from_slice(&len.to_be_bytes());
    frame
}

#[test]
fn receive_absorbs_interleaved_notices_in_order() {
    // Three notices precede the first non-notice message: the sink
    // sees exactly those three, in order, before receive returns.
    let mut input = Vec::new();
    input.extend_from_slice(&notice_frame(b"Mone\0"));
    input.extend_from_slice(&notice_frame(b"Mtwo\0"));
    input.extend_from_slice(&notice_frame(b"Mthree\0"));
    input.extend_from_slice(&[b'Z', 0, 0, 0, 5, b'I']);
    let mut stream = MemoryStream::new(input);
    let mut receiver = Receiver::new(NoticeCollector::new());
    let message = receiver.receive(&mut stream).unwrap();
    assert!(matches!(message, BackendMessage::ReadyForQuery { transaction_status_indicator: b'I' }));
    let sink = receiver.into_sink();
    let items = sink.items();
    assert_eq!(items.len(), 3);
    assert_eq!(items[0], b"Mone\0");
    assert_eq!(items[1], b"Mtwo\0");
    assert_eq!(items[2], b"Mthree\0");
}

#[test]
fn receive_counts_notices_per_call() {
    // Two notices before each of two messages: each receive delivers
    // exactly the notices that preceded its message.
    let mut input = Vec::new();
    input.extend_from_slice(&notice_frame(b"Ma\0"));
    input.extend_from_slice(&notice_frame(b"Mb\0"));
    input.extend_from_slice(&[b'2', 0, 0, 0, 4]);
    input.extend_from_slice(&notice_frame(b"Mc\0"));
    input.extend_from_slice(&[b'3', 0, 0, 0, 4]);
    let mut stream = MemoryStream::new(input);
    let mut receiver = Receiver::new(NoticeCollector::new());
    let first = receiver.receive(&mut stream).unwrap();
    assert!(matches!(first, BackendMessage::BindComplete));
    let second = receiver.receive(&mut stream).unwrap();
    assert!(matches!(second, BackendMessage::CloseComplete));
    assert_eq!(stream.remaining_input(), Vec::<u8>::new());
    let sink = receiver.into_sink();
    assert_eq!(sink.items().len(), 3);
    assert_eq!(sink.items()[2], b"Mc\0");
}

#[test]
fn receive_propagates_eof_inside_notice_chain() {
    let mut input = Vec::new();
    input.extend_from_slice(&notice_frame(b"Ma\0"));
    input.extend_from_slice(&[b'Z', 0, 0, 0, 5]);
    let mut stream = MemoryStream::new(input);
    let mut receiver = Receiver::new(NoticeCollector::new());
    let result = receiver.receive(&mut stream);
    assert!(matches!(result.unwrap_err(), Error::Io(IoErrorKind::UnexpectedEof)));
    // The notice before the truncated frame was still delivered.
    assert_eq!(receiver.into_sink().items().len(), 1);
}
