use nakadion::model::StreamId;
use nakadion::wire::batch_from_line;
use nakadion::wire::is_utf8;
use nakadion::wire::parse_batch_line;
use nakadion::wire::take_line;

fn happy_line() -> Vec<u8> {
    b"{\"cursor\":{\"partition\":\"0\",\"offset\":\"001\",\"event_type\":\"order.created\",\"cursor_token\":\"tok-1\"},\"events\":[{\"a\":1},{\"b\":2}]}".to_vec()
}

#[test]
fn parses_cursor_fields_verbatim() {
    let bl = parse_batch_line(&happy_line()).expect("line must parse");
    assert_eq!(bl.cursor.partition, b"0".to_vec());
    assert_eq!(bl.cursor.offset, b"001".to_vec());
    assert_eq!(bl.cursor.event_type, b"order.created".to_vec());
    assert_eq!(bl.cursor.cursor_token, b"tok-1".to_vec());
}

#[test]
fn parses_events_with_count() {
    let bl = parse_batch_line(&happy_line()).expect("line must parse");
    assert_eq!(bl.events, Some(b"[{\"a\":1},{\"b\":2}]".to_vec()));
    assert_eq!(bl.num_events, 2);
    assert!(!bl.is_keep_alive());
}

#[test]
fn absent_events_is_keep_alive() {
    let line = b"{\"cursor\":{\"partition\":\"0\",\"offset\":\"9\",\"event_type\":\"e\",\"cursor_token\":\"t\"}}".to_vec();
    let bl = parse_batch_line(&line).expect("line must parse");
    assert!(bl.events.is_none());
    assert!(bl.is_keep_alive());
}

#[test]
fn empty_events_is_keep_alive() {
    let line = b"{\"cursor\":{\"partition\":\"0\",\"offset\":\"9\",\"event_type\":\"e\",\"cursor_token\":\"t\"},\"events\":[]}".to_vec();
    let bl = parse_batch_line(&line).expect("line must parse");
    assert_eq!(bl.events, Some(b"[]".to_vec()));
    assert_eq!(bl.num_events, 0);
    assert!(bl.is_keep_alive());
}

#[test]
fn null_events_is_keep_alive() {
    let line = b"{\"cursor\":{\"partition\":\"0\",\"offset\":\"9\",\"event_type\":\"e\",\"cursor_token\":\"t\"},\"events\":null}".to_vec();
    let bl = parse_batch_line(&line).expect("line must parse");
    assert!(bl.events.is_none());
    assert!(bl.is_keep_alive());
}

#[test]
fn unknown_members_are_skipped() {
    let line = b"{\"info\":{\"debug\":\"x\"},\"cursor\":{\"partition\":\"p1\",\"offset\":\"5\",\"event_type\":\"e\",\"cursor_token\":\"t\"},\"extra\":[1,2,3]}".to_vec();
    let bl = parse_batch_line(&line).expect("line must parse");
    assert_eq!(bl.cursor.partition, b"p1".to_vec());
}

#[test]
fn member_order_does_not_matter() {
    let line = b"{\"events\":[{}],\"cursor\":{\"cursor_token\":\"t\",\"offset\":\"5\",\"partition\":\"2\",\"event_type\":\"e\"}}".to_vec();
    let bl = parse_batch_line(&line).expect("line must parse");
    assert_eq!(bl.cursor.partition, b"2".to_vec());
    assert_eq!(bl.num_events, 1);
}

#[test]
fn whitespace_is_tolerated() {
    let line =
        b" { \"cursor\" : { \"partition\" : \"0\" , \"offset\" : \"1\" , \"event_type\" : \"e\" , \"cursor_token\" : \"t\" } , \"events\" : [ {} , {} ] } ".to_vec();
    let bl = parse_batch_line(&line).expect("line must parse");
    assert_eq!(bl.num_events, 2);
}

#[test]
fn escapes_are_kept_raw() {
    let line = b"{\"cursor\":{\"partition\":\"0\",\"offset\":\"1\",\"event_type\":\"e\",\"cursor_token\":\"a\\\"b\\\\c\"}}".to_vec();
    let bl = parse_batch_line(&line).expect("line must parse");
    assert_eq!(bl.cursor.cursor_token, b"a\\\"b\\\\c".to_vec());
}

#[test]
fn garbage_does_not_parse() {
    assert!(parse_batch_line(b"<garbage>").is_none());
    assert!(parse_batch_line(b"").is_none());
    assert!(parse_batch_line(b"   ").is_none());
    assert!(parse_batch_line(b"[]").is_none());
}

#[test]
fn missing_cursor_member_does_not_parse() {
    assert!(parse_batch_line(b"{\"events\":[{}]}").is_none());
}

#[test]
fn missing_cursor_field_does_not_parse() {
    let line = b"{\"cursor\":{\"partition\":\"0\",\"offset\":\"1\",\"event_type\":\"e\"}}";
    assert!(parse_batch_line(line).is_none());
}

#[test]
fn non_string_cursor_field_does_not_parse() {
    let line =
        b"{\"cursor\":{\"partition\":0,\"offset\":\"1\",\"event_type\":\"e\",\"cursor_token\":\"t\"}}";
    assert!(parse_batch_line(line).is_none());
}

#[test]
fn trailing_junk_does_not_parse() {
    let line = b"{\"cursor\":{\"partition\":\"0\",\"offset\":\"1\",\"event_type\":\"e\",\"cursor_token\":\"t\"}}x";
    assert!(parse_batch_line(line).is_none());
}

#[test]
fn unterminated_object_does_not_parse() {
    let line = b"{\"cursor\":{\"partition\":\"0\",\"offset\":\"1\"";
    assert!(parse_batch_line(line).is_none());
}

#[test]
fn utf8_check_accepts_well_formed_sequences() {
    assert!(is_utf8(b""));
    assert!(is_utf8(b"plain ascii 0123"));
    assert!(is_utf8("zwei B\u{e4}che".as_bytes()));
    assert!(is_utf8("\u{7ac6}\u{10348}".as_bytes()));
}

#[test]
fn utf8_check_refuses_malformed_sequences() {
    assert!(!is_utf8(&[0xFF]));
    assert!(!is_utf8(&[0xC3]));
    assert!(!is_utf8(&[0xC3, 0x28]));
    assert!(!is_utf8(&[0xC0, 0xAF]));
    assert!(!is_utf8(&[0xE0, 0x80, 0x80]));
    assert!(!is_utf8(&[0xED, 0xA0, 0x80]));
    assert!(!is_utf8(&[0xF4, 0x90, 0x80, 0x80]));
    assert!(!is_utf8(&[0x80]));
}

#[test]
fn take_line_splits_at_first_newline() {
    let mut buf = b"first\nsecond\nrest".to_vec();
    assert_eq!(take_line(&mut buf), Some(b"first".to_vec()));
    assert_eq!(buf, b"second\nrest".to_vec());
    assert_eq!(take_line(&mut buf), Some(b"second".to_vec()));
    assert_eq!(buf, b"rest".to_vec());
    assert_eq!(take_line(&mut buf), None);
    assert_eq!(buf, b"rest".to_vec());
}

#[test]
fn batch_from_line_carries_provenance() {
    let sid = StreamId::from_bytes(b"stream-7".to_vec());
    let b = batch_from_line(&happy_line(), &sid, 42).expect("line must parse");
    assert_eq!(b.stream_id.as_bytes(), &b"stream-7".to_vec());
    assert_eq!(b.received_at, 42);
    assert_eq!(b.line.cursor.offset, b"001".to_vec());
}

#[test]
fn batch_from_line_reports_the_bad_line() {
    let sid = StreamId::from_bytes(b"stream-7".to_vec());
    let err = batch_from_line(&b"<garbage>".to_vec(), &sid, 0).err().expect("must fail");
    match err {
        nakadion::model::ClientError::UnparsableBatch(m) => assert_eq!(m, b"<garbage>".to_vec()),
        _ => panic!("wrong error kind"),
    }
}
