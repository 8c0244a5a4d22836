//! End-to-end decoding tests over hand-built byte buffers.

use ulog::{
    header, message, message_add_logged, message_data, message_dropout, message_flag_bits,
    message_format, message_header, message_info, message_info_multiple, message_logging,
    message_logging_tagged, message_parameter, message_parameter_default, message_remove_logged,
    message_sync, parse_ulog, ulog, DecodeError, Message,
};

fn le16(v: u16) -> Vec<u8> {
    vec![(v & 0xff) as u8, (v >> 8) as u8]
}

fn le64(v: u64) -> Vec<u8> {
    let mut out = Vec::new();
    for i in 0..8 {
        out.push(((v >> (8 * i)) & 0xff) as u8);
    }
    out
}

/// `magic + version + timestamp`, the 16 header bytes.
fn file_header(version: u8, timestamp: u64) -> Vec<u8> {
    let mut out = vec![0x55, 0x4c, 0x6f, 0x67, 0x01, 0x12, 0x35, version];
    out.extend(le64(timestamp));
    out
}

/// A record frame: declared size, tag, body.
fn record(tag: u8, body: &[u8]) -> Vec<u8> {
    let mut out = le16(body.len() as u16);
    out.push(tag);
    out.extend_from_slice(body);
    out
}

/// A flag-bits record with all 19 body bytes zero.
fn zero_flag_bits() -> Vec<u8> {
    record(b'B', &[0u8; 19])
}

#[test]
fn header_decodes_version_and_timestamp() {
    let bytes = file_header(3, 0x0102030405060708);
    let (h, end) = header(&bytes, 0).unwrap();
    assert_eq!(h.version, 3);
    assert_eq!(h.timestamp, 0x0102030405060708);
    assert_eq!(end, 16);
}

#[test]
fn header_rejects_wrong_magic() {
    let mut bytes = file_header(1, 0);
    bytes[3] = 0x00;
    assert_eq!(header(&bytes, 0), Err(DecodeError::MalformedMagic));
}

#[test]
fn header_rejects_short_buffer() {
    let bytes = [0x55, 0x4c, 0x6f];
    assert_eq!(header(&bytes, 0), Err(DecodeError::TruncatedInput));
    let bytes = file_header(1, 0);
    assert_eq!(header(&bytes[..10], 0), Err(DecodeError::TruncatedInput));
}

#[test]
fn message_header_reads_size_and_tag() {
    let bytes = [0x34, 0x12, b'D'];
    let (h, end) = message_header(&bytes, 0, b'D').unwrap();
    assert_eq!(h.msg_size, 0x1234);
    assert_eq!(h.msg_type, b'D');
    assert_eq!(end, 3);
}

#[test]
fn message_header_rejects_other_tag() {
    let bytes = [0x02, 0x00, b'D'];
    assert_eq!(message_header(&bytes, 0, b'F'), Err(DecodeError::UnexpectedTag));
}

#[test]
fn flag_bits_carves_fixed_fields() {
    let mut body = Vec::new();
    body.extend_from_slice(&[1, 2, 3, 4, 5, 6, 7, 8]);
    body.extend_from_slice(&[9, 10, 11, 12, 13, 14, 15, 16]);
    body.extend_from_slice(&[17, 18, 19]);
    let bytes = record(b'B', &body);
    let (fb, end) = message_flag_bits(&bytes, 0).unwrap();
    assert_eq!(fb.header.msg_size, 19);
    assert_eq!(fb.compat_flags, [1, 2, 3, 4, 5, 6, 7, 8]);
    assert_eq!(fb.incompat_flags, [9, 10, 11, 12, 13, 14, 15, 16]);
    assert_eq!(fb.appended_offsets, [17, 18, 19]);
    assert_eq!(end, bytes.len());
}

#[test]
fn flag_bits_skips_declared_body_past_nineteen() {
    let mut body = vec![0u8; 21];
    body[20] = 0xaa;
    let bytes = record(b'B', &body);
    let (fb, end) = message_flag_bits(&bytes, 0).unwrap();
    assert_eq!(fb.header.msg_size, 21);
    assert_eq!(end, bytes.len());
}

#[test]
fn flag_bits_rejects_short_body() {
    let bytes = record(b'B', &[0u8; 18]);
    assert_eq!(message_flag_bits(&bytes, 0), Err(DecodeError::TruncatedInput));
}

#[test]
fn format_decodes_body_as_text() {
    let bytes = record(b'F', b"uint64_t timestamp;");
    let (m, end) = message_format(&bytes, 0).unwrap();
    match m {
        Message::Format(f) => {
            assert_eq!(f.header.msg_size, 19);
            assert_eq!(f.format, "uint64_t timestamp;");
        }
        other => panic!("wrong variant: {:?}", other),
    }
    assert_eq!(end, bytes.len());
}

#[test]
fn format_decodes_multibyte_text() {
    let body = [0x61, 0xc3, 0xa9];
    let bytes = record(b'F', &body);
    let (m, _) = message_format(&bytes, 0).unwrap();
    match m {
        Message::Format(f) => assert_eq!(f.format, "a\u{e9}"),
        other => panic!("wrong variant: {:?}", other),
    }
}

#[test]
fn format_rejects_declared_size_past_buffer() {
    let mut bytes = le16(5);
    bytes.push(b'F');
    bytes.extend_from_slice(b"a:b;");
    assert_eq!(message_format(&bytes, 0), Err(DecodeError::TruncatedInput));
}

#[test]
fn info_splits_key_and_value() {
    let mut body = vec![3u8];
    body.extend_from_slice(b"key");
    body.extend_from_slice(&[0xde, 0xad]);
    let bytes = record(b'I', &body);
    let (m, end) = message_info(&bytes, 0).unwrap();
    match m {
        Message::Info(i) => {
            assert_eq!(i.key_len, 3);
            assert_eq!(i.key, "key");
            assert_eq!(i.value, vec![0xde, 0xad]);
        }
        other => panic!("wrong variant: {:?}", other),
    }
    assert_eq!(end, bytes.len());
}

#[test]
fn info_rejects_invalid_utf8_key() {
    let mut body = vec![2u8, 0xff, 0xfe];
    body.push(0x00);
    let bytes = record(b'I', &body);
    assert_eq!(message_info(&bytes, 0), Err(DecodeError::InvalidText));
}

#[test]
fn info_rejects_size_smaller_than_key() {
    // Declared size 2 cannot hold the length byte plus a 4-byte key.
    let mut bytes = le16(2);
    bytes.push(b'I');
    bytes.push(4);
    bytes.extend_from_slice(b"abcd");
    assert_eq!(message_info(&bytes, 0), Err(DecodeError::InvalidLength));
}

#[test]
fn info_multiple_keeps_continuation_flag() {
    let mut body = vec![1u8, 2u8];
    body.extend_from_slice(b"ab");
    body.extend_from_slice(b"rest");
    let bytes = record(b'M', &body);
    let (m, _) = message_info_multiple(&bytes, 0).unwrap();
    match m {
        Message::InfoMultiple(i) => {
            assert_eq!(i.is_continued, 1);
            assert_eq!(i.key_len, 2);
            assert_eq!(i.key, "ab");
            assert_eq!(i.value, b"rest".to_vec());
        }
        other => panic!("wrong variant: {:?}", other),
    }
}

#[test]
fn parameter_splits_key_and_value() {
    let mut body = vec![5u8];
    body.extend_from_slice(b"MC_P1");
    body.extend_from_slice(&[0x00, 0x00, 0x80, 0x3f]);
    let bytes = record(b'P', &body);
    let (m, _) = message_parameter(&bytes, 0).unwrap();
    match m {
        Message::Parameter(p) => {
            assert_eq!(p.key_len, 5);
            assert_eq!(p.key, "MC_P1");
            assert_eq!(p.value, vec![0x00, 0x00, 0x80, 0x3f]);
        }
        other => panic!("wrong variant: {:?}", other),
    }
}

#[test]
fn parameter_default_keeps_bitmask() {
    let mut body = vec![3u8, 2u8];
    body.extend_from_slice(b"pq");
    body.extend_from_slice(&[7]);
    let bytes = record(b'Q', &body);
    let (m, _) = message_parameter_default(&bytes, 0).unwrap();
    match m {
        Message::ParameterDefault(p) => {
            assert_eq!(p.default_types, 3);
            assert_eq!(p.key_len, 2);
            assert_eq!(p.key, "pq");
            assert_eq!(p.value, vec![7]);
        }
        other => panic!("wrong variant: {:?}", other),
    }
}

#[test]
fn add_logged_reads_ids_and_name() {
    let mut body = vec![2u8];
    body.extend(le16(0x0201));
    body.extend_from_slice(b"vehicle_status");
    let bytes = record(b'A', &body);
    let (m, end) = message_add_logged(&bytes, 0).unwrap();
    match m {
        Message::AddLogged(a) => {
            assert_eq!(a.multi_id, 2);
            assert_eq!(a.msg_id, 0x0201);
            assert_eq!(a.message_name, "vehicle_status");
        }
        other => panic!("wrong variant: {:?}", other),
    }
    assert_eq!(end, bytes.len());
}

#[test]
fn add_logged_rejects_undersized_declaration() {
    let mut bytes = le16(2);
    bytes.push(b'A');
    bytes.extend_from_slice(&[1, 2, 3]);
    assert_eq!(message_add_logged(&bytes, 0), Err(DecodeError::InvalidLength));
}

#[test]
fn remove_logged_reads_id_only() {
    let bytes = record(b'R', &le16(0x00ff));
    let (m, end) = message_remove_logged(&bytes, 0).unwrap();
    match m {
        Message::RemoveLogged(r) => assert_eq!(r.msg_id, 0x00ff),
        other => panic!("wrong variant: {:?}", other),
    }
    assert_eq!(end, bytes.len());
}

#[test]
fn data_round_trips_id_and_payload() {
    let payload = [9u8, 8, 7, 6, 5];
    let mut body = le16(0x002a);
    body.extend_from_slice(&payload);
    let bytes = record(b'D', &body);
    assert_eq!(bytes[0], (payload.len() + 2) as u8);
    let (m, end) = message_data(&bytes, 0).unwrap();
    match m {
        Message::Data(d) => {
            assert_eq!(d.header.msg_size as usize, payload.len() + 2);
            assert_eq!(d.msg_id, 0x002a);
            assert_eq!(d.data, payload.to_vec());
        }
        other => panic!("wrong variant: {:?}", other),
    }
    assert_eq!(end, bytes.len());
}

#[test]
fn data_rejects_body_past_buffer() {
    let mut bytes = le16(6);
    bytes.push(b'D');
    bytes.extend(le16(1));
    bytes.push(0xaa);
    assert_eq!(message_data(&bytes, 0), Err(DecodeError::TruncatedInput));
}

#[test]
fn logging_reads_level_time_and_text() {
    let mut body = vec![4u8];
    body.extend(le64(123456));
    body.extend_from_slice(b"hello");
    let bytes = record(b'L', &body);
    let (m, _) = message_logging(&bytes, 0).unwrap();
    match m {
        Message::Logging(l) => {
            assert_eq!(l.log_level, 4);
            assert_eq!(l.timestamp, 123456);
            assert_eq!(l.message, "hello");
        }
        other => panic!("wrong variant: {:?}", other),
    }
}

#[test]
fn logging_rejects_size_below_prefix() {
    let mut bytes = le16(5);
    bytes.push(b'L');
    bytes.push(0);
    bytes.extend(le64(0));
    assert_eq!(message_logging(&bytes, 0), Err(DecodeError::InvalidLength));
}

#[test]
fn logging_tagged_reads_tag_too() {
    let mut body = vec![2u8];
    body.extend(le16(0x0042));
    body.extend(le64(99));
    body.extend_from_slice(b"warn");
    let bytes = record(b'C', &body);
    let (m, _) = message_logging_tagged(&bytes, 0).unwrap();
    match m {
        Message::LoggingTagged(l) => {
            assert_eq!(l.log_level, 2);
            assert_eq!(l.tag, 0x0042);
            assert_eq!(l.timestamp, 99);
            assert_eq!(l.message, "warn");
        }
        other => panic!("wrong variant: {:?}", other),
    }
}

#[test]
fn sync_reads_one_magic_byte() {
    let bytes = [0x01, 0x00, b'S', 0x81];
    let (m, end) = message_sync(&bytes, 0).unwrap();
    match m {
        Message::Sync(s) => assert_eq!(s.sync_magic, 0x81),
        other => panic!("wrong variant: {:?}", other),
    }
    assert_eq!(end, 4);
    // The declared size plays no part in a sync record's fixed shape.
    let oversized = [0x02, 0x00, b'S', 0x81];
    let (m, end) = message_sync(&oversized, 0).unwrap();
    match m {
        Message::Sync(s) => {
            assert_eq!(s.sync_magic, 0x81);
            assert_eq!(s.header.msg_size, 2);
        }
        other => panic!("wrong variant: {:?}", other),
    }
    assert_eq!(end, 4);
}

#[test]
fn dropout_reads_duration() {
    let bytes = record(b'O', &le16(250));
    let (m, _) = message_dropout(&bytes, 0).unwrap();
    match m {
        Message::Dropout(d) => assert_eq!(d.duration, 250),
        other => panic!("wrong variant: {:?}", other),
    }
}

#[test]
fn dispatch_picks_decoder_by_tag() {
    let bytes = record(b'O', &le16(9));
    let (m, _) = message(&bytes, 0).unwrap();
    assert!(matches!(m, Message::Dropout(_)));
    let bytes = record(b'F', b"x");
    let (m, _) = message(&bytes, 0).unwrap();
    assert!(matches!(m, Message::Format(_)));
}

#[test]
fn dispatch_rejects_unknown_tag() {
    let bytes = record(b'Z', &[]);
    assert_eq!(message(&bytes, 0), Err(DecodeError::UnexpectedTag));
}

#[test]
fn dispatch_rejects_missing_record_header() {
    let bytes = [0x00];
    assert_eq!(message(&bytes, 0), Err(DecodeError::TruncatedInput));
}

#[test]
fn minimal_file_decodes_with_zero_records() {
    let mut bytes = file_header(1, 0);
    bytes.extend(zero_flag_bits());
    assert_eq!(bytes[..16], [0x55, 0x4c, 0x6f, 0x67, 0x01, 0x12, 0x35, 0x01, 0, 0, 0, 0, 0, 0, 0, 0]);
    assert_eq!(bytes[16..19], [0x13, 0x00, 0x42]);
    let log = parse_ulog(&bytes).unwrap();
    assert_eq!(log.header.version, 1);
    assert_eq!(log.header.timestamp, 0);
    assert_eq!(log.message_flag_bits.compat_flags, [0u8; 8]);
    assert_eq!(log.message_flag_bits.incompat_flags, [0u8; 8]);
    assert_eq!(log.message_flag_bits.appended_offsets, [0u8; 3]);
    assert_eq!(log.messages.len(), 0);
}

#[test]
fn mixed_records_decode_in_order() {
    let mut bytes = file_header(1, 77);
    bytes.extend(zero_flag_bits());
    let mut info_body = vec![3u8];
    info_body.extend_from_slice(b"ver");
    info_body.extend_from_slice(b"1.0");
    bytes.extend(record(b'I', &info_body));
    let mut data_body = le16(7);
    data_body.extend_from_slice(&[1, 2, 3]);
    bytes.extend(record(b'D', &data_body));
    bytes.extend(record(b'S', &[0x2f]));
    let log = ulog(&bytes).unwrap();
    assert_eq!(log.messages.len(), 3);
    assert!(matches!(log.messages[0], Message::Info(_)));
    assert!(matches!(log.messages[1], Message::Data(_)));
    assert!(matches!(log.messages[2], Message::Sync(_)));
    match &log.messages[1] {
        Message::Data(d) => {
            assert_eq!(d.msg_id, 7);
            assert_eq!(d.data, vec![1, 2, 3]);
        }
        other => panic!("wrong variant: {:?}", other),
    }
}

#[test]
fn bad_record_fails_whole_file() {
    let mut bytes = file_header(1, 0);
    bytes.extend(zero_flag_bits());
    bytes.extend(record(b'S', &[0x2f]));
    // A data record that declares more body than the buffer holds.
    let mut tail = le16(100);
    tail.push(b'D');
    tail.extend(le16(1));
    tail.push(0);
    bytes.extend(tail);
    assert_eq!(ulog(&bytes), Err(DecodeError::TruncatedInput));
    assert_eq!(parse_ulog(&bytes), None);
}

#[test]
fn file_without_flag_bits_fails() {
    let mut bytes = file_header(1, 0);
    bytes.extend(record(b'S', &[0x2f]));
    assert_eq!(ulog(&bytes), Err(DecodeError::UnexpectedTag));
}

#[test]
fn trailing_garbage_fails_file() {
    let mut bytes = file_header(1, 0);
    bytes.extend(zero_flag_bits());
    bytes.push(0x00);
    assert_eq!(ulog(&bytes), Err(DecodeError::TruncatedInput));
}

#[test]
fn empty_buffer_fails_everywhere() {
    let bytes: [u8; 0] = [];
    assert_eq!(header(&bytes, 0), Err(DecodeError::TruncatedInput));
    assert_eq!(message(&bytes, 0), Err(DecodeError::TruncatedInput));
    assert_eq!(ulog(&bytes), Err(DecodeError::TruncatedInput));
    assert_eq!(parse_ulog(&bytes), None);
}

#[test]
fn format_with_empty_body_decodes_to_empty_text() {
    let bytes = record(b'F', b"");
    let (m, end) = message_format(&bytes, 0).unwrap();
    match m {
        Message::Format(f) => assert_eq!(f.format, ""),
        other => panic!("wrong variant: {:?}", other),
    }
    assert_eq!(end, 3);
}

#[test]
fn data_with_empty_payload_decodes() {
    let bytes = record(b'D', &le16(5));
    let (m, end) = message_data(&bytes, 0).unwrap();
    match m {
        Message::Data(d) => {
            assert_eq!(d.msg_id, 5);
            assert_eq!(d.data, Vec::<u8>::new());
        }
        other => panic!("wrong variant: {:?}", other),
    }
    assert_eq!(end, bytes.len());
}

#[test]
fn info_with_empty_key_and_value_decodes() {
    let bytes = record(b'I', &[0u8]);
    let (m, _) = message_info(&bytes, 0).unwrap();
    match m {
        Message::Info(i) => {
            assert_eq!(i.key_len, 0);
            assert_eq!(i.key, "");
            assert_eq!(i.value, Vec::<u8>::new());
        }
        other => panic!("wrong variant: {:?}", other),
    }
}
