use pg2parquet::logical::{decode_logical_message, ColumnDef, LogicalMessage};
use pg2parquet::pglsn::Lsn;
use pg2parquet::pgtime::Pgtime;
use pg2parquet::pgxid::Xid;
use pg2parquet::replication_protocol::{
    create_keepalive, decode_frame, decode_status_update, encode_status_update, parse_keepalive,
    parse_xlogdata, Frame, ParseError, StatusUpdate, XLogData,
};
use pg2parquet::tuple::{decode_tuple_data, ColumnValue};

fn envelope() -> Vec<u8> {
    let mut v = vec![b'w'];
    v.extend_from_slice(&[0, 0, 0, 1, 0, 0, 0, 0x10]);
    v.extend_from_slice(&[0, 0, 0, 1, 0, 0, 0, 0x20]);
    v.extend_from_slice(&[0, 0, 0, 0, 0, 0, 0, 0x05]);
    v
}

fn keepalive(len: usize) -> Vec<u8> {
    let mut v = vec![b'k'];
    v.extend_from_slice(&[0, 0, 0, 0, 0x0a, 0x0b, 0x0c, 0x0d]);
    v.extend_from_slice(&[0, 0, 0, 0, 0, 0, 0x01, 0x00]);
    v.push(1);
    v.resize(len, 0);
    v
}

#[test]
fn keepalive_frame_fields() {
    let frame = decode_frame(&keepalive(18), false);
    assert_eq!(
        frame,
        Ok(Frame::Keepalive {
            wal_end: Lsn(0x0a0b_0c0d),
            server_time: Pgtime(256),
            reply_requested: true,
        })
    );
    let mut quiet = keepalive(18);
    quiet[17] = 0;
    assert_eq!(
        parse_keepalive(&quiet),
        Ok((Lsn(0x0a0b_0c0d), Pgtime(256), false))
    );
}

#[test]
fn keepalive_frame_wrong_length() {
    assert_eq!(decode_frame(&keepalive(17), false), Err(ParseError::Truncated));
    assert_eq!(
        decode_frame(&keepalive(19), false),
        Err(ParseError::MalformedMessage(b'k'))
    );
}

#[test]
fn empty_and_unknown_frames() {
    assert_eq!(decode_frame(&[], false), Err(ParseError::EmptyFrame));
    let raw = [b'z', 1, 2, 3];
    assert_eq!(decode_frame(&raw, true), Err(ParseError::UnknownFrameType(b'z')));
    assert_eq!(raw, [b'z', 1, 2, 3]);
}

#[test]
fn tuple_text_and_null() {
    let buf = [0, 2, b't', 0, 0, 0, 3, b'a', b'b', b'c', b'n', 0xee];
    let (cols, end) = decode_tuple_data(&buf, 0).unwrap();
    assert_eq!(cols, vec![ColumnValue::Text("abc".to_string()), ColumnValue::Null]);
    assert_eq!(end, 2 + 1 + 4 + 3 + 1);
}

#[test]
fn tuple_binary_and_toast() {
    let buf = [9, 0, 2, b'b', 0, 0, 0, 2, 0xff, 0x00, b'u'];
    let (cols, end) = decode_tuple_data(&buf, 1).unwrap();
    assert_eq!(
        cols,
        vec![ColumnValue::Binary(vec![0xff, 0x00]), ColumnValue::UnchangedToast]
    );
    assert_eq!(end, 11);
}

#[test]
fn tuple_errors() {
    assert_eq!(
        decode_tuple_data(&[0, 1, b'x'], 0),
        Err(ParseError::UnknownColumnKind(b'x'))
    );
    assert_eq!(
        decode_tuple_data(&[0, 1, b't', 0, 0, 0, 2, 0xc3, 0x28], 0),
        Err(ParseError::InvalidUtf8)
    );
    assert_eq!(
        decode_tuple_data(&[0, 1, b't', 0, 0, 0, 4, b'a'], 0),
        Err(ParseError::Truncated)
    );
    assert_eq!(
        decode_tuple_data(&[0, 1, b'b', 0xff, 0xff, 0xff, 0xff], 0),
        Err(ParseError::Truncated)
    );
    assert_eq!(
        decode_tuple_data(&[0, 1, b't', 0x80, 0, 0, 0], 0),
        Err(ParseError::Truncated)
    );
    assert_eq!(decode_tuple_data(&[0, 2, b'n'], 0), Err(ParseError::Truncated));
    assert_eq!(decode_tuple_data(&[0], 0), Err(ParseError::Truncated));
}

fn insert_body() -> Vec<u8> {
    vec![0, 0, 0x40, 0x01, b'N', 0, 1, b't', 0, 0, 0, 2, b'h', b'i']
}

#[test]
fn insert_without_streaming() {
    let mut frame = envelope();
    frame.push(b'I');
    frame.extend_from_slice(&insert_body());
    frame.extend_from_slice(&[0xde, 0xad]);
    let (msg, end) = decode_logical_message(&frame, 25, false).unwrap();
    let expected = LogicalMessage::Insert {
        xid: None,
        relation_oid: 0x4001,
        new_tuple: vec![ColumnValue::Text("hi".to_string())],
    };
    assert_eq!(msg, expected);
    assert_eq!(end - 26, 4 + 1 + (2 + 1 + 4 + 2));
    assert_eq!(
        parse_xlogdata(&frame, false),
        Ok(XLogData {
            start_lsn: Lsn(0x1_0000_0010),
            end_lsn: Lsn(0x1_0000_0020),
            server_time: Pgtime(5),
            body: expected,
        })
    );
}

#[test]
fn insert_with_streaming() {
    let mut frame = envelope();
    frame.push(b'I');
    frame.extend_from_slice(&[0, 0, 0x03, 0xe8]);
    frame.extend_from_slice(&insert_body());
    let (msg, end) = decode_logical_message(&frame, 25, true).unwrap();
    assert_eq!(
        msg,
        LogicalMessage::Insert {
            xid: Some(Xid(1000)),
            relation_oid: 0x4001,
            new_tuple: vec![ColumnValue::Text("hi".to_string())],
        }
    );
    assert_eq!(end, frame.len());
}

#[test]
fn insert_wrong_tag() {
    let mut frame = envelope();
    frame.extend_from_slice(&[b'I', 0, 0, 0, 1, b'K', 0, 0]);
    assert_eq!(
        parse_xlogdata(&frame, false),
        Err(ParseError::MalformedMessage(b'K'))
    );
}

#[test]
fn update_with_old_tuple() {
    let mut frame = envelope();
    frame.extend_from_slice(&[b'U', 0, 0, 0, 7, b'O', 0, 1, b'n', b'N', 0, 1]);
    frame.extend_from_slice(&[b't', 0, 0, 0, 1, b'x']);
    let x = parse_xlogdata(&frame, false).unwrap();
    assert_eq!(
        x.body,
        LogicalMessage::Update {
            xid: None,
            relation_oid: 7,
            old_tuple: Some(vec![ColumnValue::Null]),
            old_tuple_kind: Some(b'O'),
            new_tuple: vec![ColumnValue::Text("x".to_string())],
        }
    );
}

#[test]
fn update_new_tuple_only_and_errors() {
    let mut frame = envelope();
    frame.extend_from_slice(&[b'U', 0, 0, 0, 7, b'N', 0, 1, b'u']);
    assert_eq!(
        parse_xlogdata(&frame, false).unwrap().body,
        LogicalMessage::Update {
            xid: None,
            relation_oid: 7,
            old_tuple: None,
            old_tuple_kind: None,
            new_tuple: vec![ColumnValue::UnchangedToast],
        }
    );
    let mut bad = envelope();
    bad.extend_from_slice(&[b'U', 0, 0, 0, 7, b'K', 0, 0, b'X', 0, 0]);
    assert_eq!(
        parse_xlogdata(&bad, false),
        Err(ParseError::MalformedMessage(b'X'))
    );
    let mut short = envelope();
    short.extend_from_slice(&[b'U', 0, 0, 0, 7, b'K', 0, 0]);
    assert_eq!(parse_xlogdata(&short, false), Err(ParseError::Truncated));
    let mut odd = envelope();
    odd.extend_from_slice(&[b'U', 0, 0, 0, 7, b'Q']);
    assert_eq!(
        parse_xlogdata(&odd, false),
        Err(ParseError::MalformedMessage(b'Q'))
    );
}

#[test]
fn delete_by_key() {
    let mut frame = envelope();
    frame.extend_from_slice(&[b'D', 0, 0, 0, 9, 0, 0, 0, 7, b'K', 0, 1, b'n']);
    assert_eq!(
        parse_xlogdata(&frame, true).unwrap().body,
        LogicalMessage::Delete {
            xid: Some(Xid(9)),
            relation_oid: 7,
            old_tuple: vec![ColumnValue::Null],
            old_tuple_kind: b'K',
        }
    );
    let mut bad = envelope();
    bad.extend_from_slice(&[b'D', 0, 0, 0, 7, b'N', 0, 0]);
    assert_eq!(
        parse_xlogdata(&bad, false),
        Err(ParseError::MalformedMessage(b'N'))
    );
}

#[test]
fn relation_message() {
    let mut frame = envelope();
    frame.extend_from_slice(&[b'R', 0, 0, 0x40, 0x01]);
    frame.extend_from_slice(b"public\0teste\0");
    frame.extend_from_slice(&[b'd', 0, 2]);
    frame.extend_from_slice(&[1]);
    frame.extend_from_slice(b"id\0");
    frame.extend_from_slice(&[0, 0, 0, 23, 0xff, 0xff, 0xff, 0xff]);
    frame.extend_from_slice(&[0]);
    frame.extend_from_slice(b"t\0");
    frame.extend_from_slice(&[0, 0, 0, 25, 0xff, 0xff, 0xff, 0xff]);
    let (msg, end) = decode_logical_message(&frame, 25, false).unwrap();
    assert_eq!(end, frame.len());
    assert_eq!(
        msg,
        LogicalMessage::Relation {
            oid: 0x4001,
            namespace: "public".to_string(),
            name: "teste".to_string(),
            replica_identity: b'd',
            columns: vec![
                ColumnDef { flags: 1, name: "id".to_string(), type_oid: 23, type_modifier: -1 },
                ColumnDef { flags: 0, name: "t".to_string(), type_oid: 25, type_modifier: -1 },
            ],
        }
    );
    frame.truncate(frame.len() - 1);
    assert_eq!(parse_xlogdata(&frame, false), Err(ParseError::Truncated));
}

#[test]
fn begin_message() {
    let mut frame = envelope();
    frame.extend_from_slice(&[b'B', 0, 0, 0, 0, 0, 0, 0x01, 0x00]);
    frame.extend_from_slice(&[0xff, 0xff, 0xff, 0xff, 0xff, 0xff, 0xff, 0xfe]);
    frame.extend_from_slice(&[0, 0, 0, 42]);
    assert_eq!(
        parse_xlogdata(&frame, true).unwrap().body,
        LogicalMessage::Begin {
            final_lsn: Lsn(256),
            transaction_start: Pgtime(-2),
            xid: Xid(42),
        }
    );
    frame.pop();
    assert_eq!(parse_xlogdata(&frame, true), Err(ParseError::Truncated));
}

#[test]
fn bodiless_and_unsupported_messages() {
    for (tag, msg) in [
        (b'C', LogicalMessage::Commit),
        (b'O', LogicalMessage::Origin),
        (b'Y', LogicalMessage::Type),
        (b'M', LogicalMessage::Message),
        (b'T', LogicalMessage::Truncate),
        (b'S', LogicalMessage::Unsupported { tag: b'S' }),
        (b'p', LogicalMessage::Unsupported { tag: b'p' }),
        (b'?', LogicalMessage::Unsupported { tag: b'?' }),
    ] {
        let mut frame = envelope();
        frame.extend_from_slice(&[tag, 1, 2, 3]);
        assert_eq!(decode_logical_message(&frame, 25, false), Ok((msg, 26)));
    }
}

#[test]
fn xlogdata_header_too_short() {
    let frame = envelope();
    assert_eq!(parse_xlogdata(&frame[..20], false), Err(ParseError::Truncated));
    assert_eq!(decode_frame(&frame, false), Err(ParseError::Truncated));
}

#[test]
fn status_update_layout_and_round_trip() {
    let reply = StatusUpdate {
        write_lsn: Lsn(0x0102_0304_0506_0708),
        flush_lsn: Lsn(0x10),
        apply_lsn: Lsn(0x0f),
        client_time: Pgtime(-2),
        reply_requested: true,
    };
    let bytes = encode_status_update(&reply);
    let mut expected = vec![b'r', 1, 2, 3, 4, 5, 6, 7, 8];
    expected.extend_from_slice(&[0, 0, 0, 0, 0, 0, 0, 0x10]);
    expected.extend_from_slice(&[0, 0, 0, 0, 0, 0, 0, 0x0f]);
    expected.extend_from_slice(&[0xff, 0xff, 0xff, 0xff, 0xff, 0xff, 0xff, 0xfe]);
    expected.push(1);
    assert_eq!(bytes.to_vec(), expected);
    assert_eq!(decode_status_update(&bytes), Ok(reply));
    let quiet = StatusUpdate { reply_requested: false, ..reply };
    assert_eq!(encode_status_update(&quiet)[33], 0);
    assert_eq!(decode_status_update(&encode_status_update(&quiet)), Ok(quiet));
}

#[test]
fn status_update_decode_errors() {
    assert_eq!(decode_status_update(&[b'r'; 33]), Err(ParseError::Truncated));
    assert_eq!(
        decode_status_update(&[b'k'; 34]),
        Err(ParseError::MalformedMessage(b'k'))
    );
}

#[test]
fn keepalive_reply_carries_positions() {
    let bytes = create_keepalive(Lsn(3), Lsn(2), Lsn(1), true).expect("clock in range");
    let reply = decode_status_update(&bytes).unwrap();
    assert_eq!(reply.write_lsn, Lsn(3));
    assert_eq!(reply.flush_lsn, Lsn(2));
    assert_eq!(reply.apply_lsn, Lsn(1));
    assert!(reply.reply_requested);
    assert!(reply.client_time.0 > 0);
}
