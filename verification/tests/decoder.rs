//! Tests for the backend message decoder and its array cursors.

use ck_pg_client::protocol::BackendMessage;

#[test]
fn parse_authentication_ok_frame() {
    let frame = [b'R', 0, 0, 0, 8, 0, 0, 0, 0];
    let message = BackendMessage::parse(&frame).unwrap();
    assert!(matches!(message, BackendMessage::AuthenticationOk));
}

#[test]
fn parse_backend_key_data_frame() {
    let frame = [b'K', 0, 0, 0, 0x0C, 0, 0, 0x04, 0xD2, 0xDE, 0xAD, 0xBE, 0xEF];
    match BackendMessage::parse(&frame).unwrap() {
        BackendMessage::BackendKeyData { this_backend_process_id, this_backend_secret_key } => {
            assert_eq!(this_backend_process_id, 1234);
            assert_eq!(this_backend_secret_key, 0xDEADBEEF);
        }
        other => panic!("wrong variant: {other:?}"),
    }
}

#[test]
fn parse_parameter_status_frame() {
    let mut frame = vec![b'S', 0, 0, 0, 0x1A];
    frame.extend_from_slice(b"application_name\0psql\0");
    match BackendMessage::parse(&frame).unwrap() {
        BackendMessage::ParameterStatus { name, current_value } => {
            assert_eq!(name, b"application_name");
            assert_eq!(current_value, b"psql");
        }
        other => panic!("wrong variant: {other:?}"),
    }
}

#[test]
fn parse_data_row_with_null_and_empty() {
    // Three columns: "abc", NULL, "".
    let mut frame = vec![b'D', 0, 0, 0, 0];
    frame.extend_from_slice(&[0, 3]);
    frame.extend_from_slice(&[0, 0, 0, 3]);
    frame.extend_from_slice(b"abc");
    frame.extend_from_slice(&[0xFF, 0xFF, 0xFF, 0xFF]);
    frame.extend_from_slice(&[0, 0, 0, 0]);
    let len = (frame.len() - 1) as u32;
    frame[1..5].copy_from_slice(&len.to_be_bytes());
    match BackendMessage::parse(&frame).unwrap() {
        BackendMessage::DataRow { mut column_values } => {
            assert_eq!(column_values.next(), Some(Some(b"abc".to_vec())));
            assert_eq!(column_values.next(), Some(None));
            assert_eq!(column_values.next(), Some(Some(Vec::new())));
            assert_eq!(column_values.next(), None);
        }
        other => panic!("wrong variant: {other:?}"),
    }
}

#[test]
fn data_row_iteration_is_restartable() {
    let mut frame = vec![b'D', 0, 0, 0, 19, 0, 2];
    frame.extend_from_slice(&[0, 0, 0, 2]);
    frame.extend_from_slice(b"hi");
    frame.extend_from_slice(&[0, 0, 0, 2]);
    frame.extend_from_slice(b"ho");
    match BackendMessage::parse(&frame).unwrap() {
        BackendMessage::DataRow { column_values } => {
            let mut first = column_values.clone();
            let mut second = column_values;
            let mut a = Vec::new();
            while let Some(item) = first.next() {
                a.push(item);
            }
            let mut b = Vec::new();
            while let Some(item) = second.next() {
                b.push(item);
            }
            assert_eq!(a, b);
            assert_eq!(a.len(), 2);
        }
        other => panic!("wrong variant: {other:?}"),
    }
}

#[test]
fn parse_error_response_preserves_fields() {
    let mut frame = vec![b'E', 0, 0, 0, 0];
    frame.extend_from_slice(b"SFATAL\0C28P01\0Mauth\0\0");
    let len = (frame.len() - 1) as u32;
    frame[1..5].copy_from_slice(&len.to_be_bytes());
    match BackendMessage::parse(&frame).unwrap() {
        BackendMessage::ErrorResponse { fields } => {
            let collected = fields.collect();
            assert_eq!(collected.len(), 3);
            assert_eq!(collected[0].type_code, b'S');
            assert_eq!(collected[0].value, b"FATAL");
            assert_eq!(collected[1].type_code, b'C');
            assert_eq!(collected[1].value, b"28P01");
            assert_eq!(collected[2].type_code, b'M');
            assert_eq!(collected[2].value, b"auth");
        }
        other => panic!("wrong variant: {other:?}"),
    }
}

#[test]
fn error_response_duplicate_codes_kept_in_order() {
    let mut frame = vec![b'E', 0, 0, 0, 0];
    frame.extend_from_slice(b"Mfirst\0Msecond\0\0");
    let len = (frame.len() - 1) as u32;
    frame[1..5].copy_from_slice(&len.to_be_bytes());
    match BackendMessage::parse(&frame).unwrap() {
        BackendMessage::ErrorResponse { fields } => {
            let collected = fields.collect();
            assert_eq!(collected.len(), 2);
            assert_eq!(collected[0].value, b"first");
            assert_eq!(collected[1].value, b"second");
        }
        other => panic!("wrong variant: {other:?}"),
    }
}

#[test]
fn error_response_truncates_at_damage() {
    // The second field has no terminator: the cursor stops after the
    // first field instead of rejecting the message.
    let mut frame = vec![b'E', 0, 0, 0, 0];
    frame.extend_from_slice(b"Mgood\0Cbad\0");
    let len = (frame.len() - 1) as u32;
    frame[1..5].copy_from_slice(&len.to_be_bytes());
    // Dropping the final list terminator eats the last value's nul.
    match BackendMessage::parse(&frame).unwrap() {
        BackendMessage::ErrorResponse { fields } => {
            let collected = fields.collect();
            assert_eq!(collected.len(), 1);
            assert_eq!(collected[0].value, b"good");
        }
        other => panic!("wrong variant: {other:?}"),
    }
}

#[test]
fn parse_copy_in_response_ignores_declared_count() {
    // The declared count says one column, but two codes follow: both
    // are yielded.
    let frame = [b'G', 0, 0, 0, 12, 1, 0, 1, 0, 0, 0, 1];
    match BackendMessage::parse(&frame).unwrap() {
        BackendMessage::CopyInResponse { overall_copy_format, mut column_format_codes } => {
            assert_eq!(overall_copy_format, 1);
            assert_eq!(column_format_codes.next(), Some(0));
            assert_eq!(column_format_codes.next(), Some(1));
            assert_eq!(column_format_codes.next(), None);
        }
        other => panic!("wrong variant: {other:?}"),
    }
}

#[test]
fn parse_parameter_description_oids() {
    let frame = [b't', 0, 0, 0, 14, 0, 2, 0, 0, 0, 25, 0, 0, 0, 23];
    match BackendMessage::parse(&frame).unwrap() {
        BackendMessage::ParameterDescription { mut data_type_oids } => {
            assert_eq!(data_type_oids.next(), Some(25));
            assert_eq!(data_type_oids.next(), Some(23));
            assert_eq!(data_type_oids.next(), None);
        }
        other => panic!("wrong variant: {other:?}"),
    }
}

#[test]
fn parse_row_description_field_record() {
    let mut frame = vec![b'T', 0, 0, 0, 0, 0, 1];
    frame.extend_from_slice(b"id\0");
    frame.extend_from_slice(&[0, 0, 0x40, 0x01]); // table oid 16385
    frame.extend_from_slice(&[0, 1]); // attribute number 1
    frame.extend_from_slice(&[0, 0, 0, 23]); // type oid 23 (int4)
    frame.extend_from_slice(&[0xFF, 0xFF]); // type size -1
    frame.extend_from_slice(&[0xFF, 0xFF, 0xFF, 0xFF]); // modifier
    frame.extend_from_slice(&[0, 0]); // format code 0
    let len = (frame.len() - 1) as u32;
    frame[1..5].copy_from_slice(&len.to_be_bytes());
    match BackendMessage::parse(&frame).unwrap() {
        BackendMessage::RowDescription { mut fields } => {
            let field = fields.next().unwrap();
            assert_eq!(field.name, b"id");
            assert_eq!(field.table_oid, Some(16385));
            assert_eq!(field.attribute_number, Some(1));
            assert_eq!(field.data_type_oid, 23);
            assert_eq!(field.data_type_size, -1);
            assert_eq!(field.data_type_modifier, 0xFFFF_FFFF);
            assert_eq!(field.format_code, 0);
            assert!(fields.next().is_none());
        }
        other => panic!("wrong variant: {other:?}"),
    }
}

#[test]
fn row_description_zero_oids_mean_absent() {
    let mut frame = vec![b'T', 0, 0, 0, 0, 0, 1];
    frame.extend_from_slice(b"?column?\0");
    frame.extend_from_slice(&[0, 0, 0, 0]); // not a real table
    frame.extend_from_slice(&[0, 0]); // not a real column
    frame.extend_from_slice(&[0, 0, 0, 25]);
    frame.extend_from_slice(&[0xFF, 0xFF]);
    frame.extend_from_slice(&[0xFF, 0xFF, 0xFF, 0xFF]);
    frame.extend_from_slice(&[0, 0]);
    let len = (frame.len() - 1) as u32;
    frame[1..5].copy_from_slice(&len.to_be_bytes());
    match BackendMessage::parse(&frame).unwrap() {
        BackendMessage::RowDescription { mut fields } => {
            let field = fields.next().unwrap();
            assert_eq!(field.table_oid, None);
            assert_eq!(field.attribute_number, None);
        }
        other => panic!("wrong variant: {other:?}"),
    }
}

#[test]
fn parse_authentication_md5_password_salt() {
    let frame = [b'R', 0, 0, 0, 12, 0, 0, 0, 5, 1, 2, 3, 4];
    match BackendMessage::parse(&frame).unwrap() {
        BackendMessage::AuthenticationMD5Password { salt } => {
            assert_eq!(salt, [1, 2, 3, 4]);
        }
        other => panic!("wrong variant: {other:?}"),
    }
}

#[test]
fn parse_authentication_sasl_mechanisms() {
    let mut frame = vec![b'R', 0, 0, 0, 0, 0, 0, 0, 10];
    frame.extend_from_slice(b"SCRAM-SHA-256\0SCRAM-SHA-256-PLUS\0\0");
    let len = (frame.len() - 1) as u32;
    frame[1..5].copy_from_slice(&len.to_be_bytes());
    match BackendMessage::parse(&frame).unwrap() {
        BackendMessage::AuthenticationSASL { mut authentication_mechanism_names } => {
            assert_eq!(authentication_mechanism_names.next(), Some(b"SCRAM-SHA-256".to_vec()));
            assert_eq!(
                authentication_mechanism_names.next(),
                Some(b"SCRAM-SHA-256-PLUS".to_vec())
            );
            assert_eq!(authentication_mechanism_names.next(), Some(Vec::new()));
            assert_eq!(authentication_mechanism_names.next(), None);
        }
        other => panic!("wrong variant: {other:?}"),
    }
}

#[test]
fn parse_unknown_authentication_subtype_rejected() {
    let frame = [b'R', 0, 0, 0, 8, 0, 0, 0, 4];
    assert!(BackendMessage::parse(&frame).is_none());
}

#[test]
fn parse_unknown_tag_rejected() {
    let frame = [b'x', 0, 0, 0, 4];
    assert!(BackendMessage::parse(&frame).is_none());
}

#[test]
fn parse_short_frame_rejected() {
    assert!(BackendMessage::parse(&[b'R', 0, 0, 0]).is_none());
}

#[test]
fn parse_function_call_response_value_and_null() {
    let frame = [b'V', 0, 0, 0, 10, 0, 0, 0, 2, 0xAB, 0xCD];
    match BackendMessage::parse(&frame).unwrap() {
        BackendMessage::FunctionCallResponse { result_value } => {
            assert_eq!(result_value, Some(vec![0xAB, 0xCD]));
        }
        other => panic!("wrong variant: {other:?}"),
    }
    let null_frame = [b'V', 0, 0, 0, 8, 0xFF, 0xFF, 0xFF, 0xFF];
    match BackendMessage::parse(&null_frame).unwrap() {
        BackendMessage::FunctionCallResponse { result_value } => {
            assert_eq!(result_value, None);
        }
        other => panic!("wrong variant: {other:?}"),
    }
}

#[test]
fn parse_notification_response_strings() {
    let mut frame = vec![b'A', 0, 0, 0, 0];
    frame.extend_from_slice(&[0, 0, 0, 42]);
    frame.extend_from_slice(b"chan\0payload\0");
    let len = (frame.len() - 1) as u32;
    frame[1..5].copy_from_slice(&len.to_be_bytes());
    match BackendMessage::parse(&frame).unwrap() {
        BackendMessage::NotificationResponse {
            notifying_backend_process_id,
            channel_name,
            payload,
        } => {
            assert_eq!(notifying_backend_process_id, 42);
            assert_eq!(channel_name, b"chan");
            assert_eq!(payload, b"payload");
        }
        other => panic!("wrong variant: {other:?}"),
    }
}

#[test]
fn parse_command_complete_and_copy_data() {
    let mut frame = vec![b'C', 0, 0, 0, 13];
    frame.extend_from_slice(b"SELECT 1\0");
    match BackendMessage::parse(&frame).unwrap() {
        BackendMessage::CommandComplete { command_tag } => {
            assert_eq!(command_tag, b"SELECT 1");
        }
        other => panic!("wrong variant: {other:?}"),
    }
    let frame = [b'd', 0, 0, 0, 7, 9, 8, 7];
    match BackendMessage::parse(&frame).unwrap() {
        BackendMessage::CopyData { data } => {
            assert_eq!(data, [9, 8, 7]);
        }
        other => panic!("wrong variant: {other:?}"),
    }
}

#[test]
fn parse_ready_for_query_status() {
    let frame = [b'Z', 0, 0, 0, 5, b'I'];
    match BackendMessage::parse(&frame).unwrap() {
        BackendMessage::ReadyForQuery { transaction_status_indicator } => {
            assert_eq!(transaction_status_indicator, b'I');
        }
        other => panic!("wrong variant: {other:?}"),
    }
}

#[test]
fn parse_unit_variants() {
    assert!(matches!(
        BackendMessage::parse(&[b'2', 0, 0, 0, 4]).unwrap(),
        BackendMessage::BindComplete
    ));
    assert!(matches!(
        BackendMessage::parse(&[b'3', 0, 0, 0, 4]).unwrap(),
        BackendMessage::CloseComplete
    ));
    assert!(matches!(
        BackendMessage::parse(&[b'c', 0, 0, 0, 4]).unwrap(),
        BackendMessage::CopyDone
    ));
    assert!(matches!(
        BackendMessage::parse(&[b'I', 0, 0, 0, 4]).unwrap(),
        BackendMessage::EmptyQueryResponse
    ));
    assert!(matches!(
        BackendMessage::parse(&[b'n', 0, 0, 0, 4]).unwrap(),
        BackendMessage::NoData
    ));
    assert!(matches!(
        BackendMessage::parse(&[b'1', 0, 0, 0, 4]).unwrap(),
        BackendMessage::ParseComplete
    ));
    assert!(matches!(
        BackendMessage::parse(&[b's', 0, 0, 0, 4]).unwrap(),
        BackendMessage::PortalSuspended
    ));
}

#[test]
fn parse_negotiate_protocol_version() {
    let mut frame = vec![b'v', 0, 0, 0, 0];
    frame.extend_from_slice(&[0, 0, 0, 1]);
    frame.extend_from_slice(&[0, 0, 0, 1]);
    frame.extend_from_slice(b"_pq_.unknown\0");
    let len = (frame.len() - 1) as u32;
    frame[1..5].copy_from_slice(&len.to_be_bytes());
    match BackendMessage::parse(&frame).unwrap() {
        BackendMessage::NegotiateProtocolVersion {
            newest_minor_protocol_version,
            mut unrecognized_option_names,
        } => {
            assert_eq!(newest_minor_protocol_version, 1);
            assert_eq!(unrecognized_option_names.next(), Some(b"_pq_.unknown".to_vec()));
            assert_eq!(unrecognized_option_names.next(), None);
        }
        other => panic!("wrong variant: {other:?}"),
    }
}

#[test]
fn parse_error_response_with_no_fields() {
    // Just the list terminator: a well-formed, empty field list.
    let frame = [b'E', 0, 0, 0, 5, 0];
    match BackendMessage::parse(&frame).unwrap() {
        BackendMessage::ErrorResponse { fields } => {
            assert_eq!(fields.collect().len(), 0);
        }
        other => panic!("wrong variant: {other:?}"),
    }
}

#[test]
fn parse_data_row_with_no_columns() {
    let frame = [b'D', 0, 0, 0, 6, 0, 0];
    match BackendMessage::parse(&frame).unwrap() {
        BackendMessage::DataRow { mut column_values } => {
            assert_eq!(column_values.next(), None);
        }
        other => panic!("wrong variant: {other:?}"),
    }
}

#[test]
fn parse_parameter_status_empty_value() {
    let mut frame = vec![b'S', 0, 0, 0, 0];
    frame.extend_from_slice(b"application_name\0\0");
    let len = (frame.len() - 1) as u32;
    frame[1..5].copy_from_slice(&len.to_be_bytes());
    match BackendMessage::parse(&frame).unwrap() {
        BackendMessage::ParameterStatus { name, current_value } => {
            assert_eq!(name, b"application_name");
            assert_eq!(current_value, b"");
        }
        other => panic!("wrong variant: {other:?}"),
    }
}

#[test]
fn written_integer_parses_back() {
    let mut buf = Vec::new();
    ck_pg_client::protocol::write_int32_u32(&mut buf, 0xDEADBEEF);
    let (value, rest) =
        ck_pg_client::protocol::backend_message::parse_int32_u32(&buf, 0).unwrap();
    assert_eq!(value, 0xDEADBEEF);
    assert_eq!(rest, 4);
}

#[test]
fn parse_int16_i16_two_complement() {
    let buf = [0xFF, 0xFF, 0x7F, 0xFF, 0x80, 0x00];
    let (a, _) = ck_pg_client::protocol::backend_message::parse_int16_i16(&buf, 0).unwrap();
    let (b, _) = ck_pg_client::protocol::backend_message::parse_int16_i16(&buf, 2).unwrap();
    let (c, _) = ck_pg_client::protocol::backend_message::parse_int16_i16(&buf, 4).unwrap();
    assert_eq!(a, -1);
    assert_eq!(b, 32767);
    assert_eq!(c, -32768);
}
