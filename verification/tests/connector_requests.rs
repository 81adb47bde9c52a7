use nakadion::connector::ConnectorSettings;
use nakadion::connector::ConnectorSettingsBuilder;
use nakadion::connector::build_commit_request;
use nakadion::connector::bearer_header_value;
use nakadion::connector::commit_body;
use nakadion::connector::commit_response_outcome;
use nakadion::connector::cursors_url;
use nakadion::connector::dec_bytes;
use nakadion::connector::events_url;
use nakadion::connector::parse_u64;
use nakadion::connector::read_response_outcome;
use nakadion::connector::settings_builder_from_pairs;
use nakadion::connector::stats_response_outcome;
use nakadion::connector::stats_url;
use nakadion::connector::stream_query;
use nakadion::connector::Token;
use nakadion::model::ClientError;
use nakadion::model::ClientErrorKind;
use nakadion::model::Cursor;
use nakadion::model::SubscriptionId;

fn settings(host: &str) -> ConnectorSettings {
    ConnectorSettingsBuilder::new()
        .nakadi_host(host.as_bytes().to_vec())
        .build()
        .ok()
        .expect("host is set")
}

#[test]
fn dec_bytes_writes_decimal() {
    assert_eq!(dec_bytes(0), b"0".to_vec());
    assert_eq!(dec_bytes(7), b"7".to_vec());
    assert_eq!(dec_bytes(1234567890), b"1234567890".to_vec());
    assert_eq!(dec_bytes(u64::MAX), b"18446744073709551615".to_vec());
}

#[test]
fn parse_u64_accepts_exactly_decimals_that_fit() {
    assert_eq!(parse_u64(b"0"), Some(0));
    assert_eq!(parse_u64(b"42"), Some(42));
    assert_eq!(parse_u64(b"18446744073709551615"), Some(u64::MAX));
    assert_eq!(parse_u64(b"18446744073709551616"), None);
    assert_eq!(parse_u64(b""), None);
    assert_eq!(parse_u64(b"12a"), None);
    assert_eq!(parse_u64(b"-1"), None);
}

#[test]
fn unset_settings_are_left_out_of_the_query() {
    let s = settings("https://broker.example");
    assert_eq!(stream_query(&s), b"".to_vec());
    let sub = SubscriptionId::from_bytes(b"sub-1".to_vec());
    assert_eq!(
        events_url(&s, &sub),
        b"https://broker.example/subscriptions/sub-1/events".to_vec()
    );
}

#[test]
fn enabled_settings_join_the_query_in_order() {
    let s = ConnectorSettingsBuilder::new()
        .stream_limit(100)
        .batch_limit(25)
        .nakadi_host(b"https://broker.example".to_vec())
        .build()
        .ok()
        .expect("host is set");
    assert_eq!(stream_query(&s), b"stream_limit=100&batch_limit=25".to_vec());
    let sub = SubscriptionId::from_bytes(b"sub-1".to_vec());
    assert_eq!(
        events_url(&s, &sub),
        b"https://broker.example/subscriptions/sub-1/events?stream_limit=100&batch_limit=25"
            .to_vec()
    );
}

#[test]
fn every_setting_appears_in_the_query_once() {
    let s = ConnectorSettingsBuilder::new()
        .stream_keep_alive_limit(5)
        .stream_limit(100)
        .stream_timeout_secs(60)
        .batch_flush_timeout_secs(30)
        .batch_limit(25)
        .max_uncommitted_events(1000)
        .nakadi_host(b"http://h".to_vec())
        .build()
        .ok()
        .expect("host is set");
    assert_eq!(
        stream_query(&s),
        b"stream_keep_alive_limit=5&stream_limit=100&stream_timeout=60&batch_flush_timeout=30&batch_limit=25&max_uncommitted_events=1000"
            .to_vec()
    );
}

#[test]
fn commit_and_stats_urls() {
    let sub = SubscriptionId::from_bytes(b"sub-1".to_vec());
    let host = b"https://broker.example".to_vec();
    assert_eq!(
        cursors_url(&host, &sub),
        b"https://broker.example/subscriptions/sub-1/cursors".to_vec()
    );
    assert_eq!(
        stats_url(&host, &sub),
        b"https://broker.example/subscriptions/sub-1/stats".to_vec()
    );
}

#[test]
fn read_outcome_needs_the_stream_id_header() {
    let ok = read_response_outcome(200, Some(b"sid-1".to_vec()), Vec::new());
    assert_eq!(ok.ok().expect("must succeed").as_bytes(), &b"sid-1".to_vec());
    let missing = read_response_outcome(200, None, b"body".to_vec());
    assert_eq!(missing.err().expect("must fail").kind(), ClientErrorKind::InvalidResponse);
}

#[test]
fn read_outcome_maps_statuses() {
    let cases: [(u16, ClientErrorKind); 5] = [
        (400, ClientErrorKind::Request),
        (403, ClientErrorKind::Forbidden),
        (404, ClientErrorKind::NoSubscription),
        (409, ClientErrorKind::Conflict),
        (500, ClientErrorKind::Internal),
    ];
    for (status, kind) in cases {
        let r = read_response_outcome(status, None, b"why".to_vec());
        assert_eq!(r.err().expect("must fail").kind(), kind);
    }
}

#[test]
fn commit_outcome_maps_statuses() {
    assert!(commit_response_outcome(200, Vec::new()).is_ok());
    assert!(commit_response_outcome(204, Vec::new()).is_ok());
    let unprocessable = commit_response_outcome(422, b"bad cursor".to_vec());
    match unprocessable.err().expect("must fail") {
        ClientError::CursorUnprocessable(m) => assert_eq!(m, b"bad cursor".to_vec()),
        _ => panic!("wrong error kind"),
    }
    let r = commit_response_outcome(404, Vec::new());
    assert_eq!(r.err().expect("must fail").kind(), ClientErrorKind::NoSubscription);
    let r = commit_response_outcome(503, Vec::new());
    assert_eq!(r.err().expect("must fail").kind(), ClientErrorKind::Internal);
}

#[test]
fn stats_outcome_hands_the_body_over() {
    let info = stats_response_outcome(200, b"{\"partitions\":[]}".to_vec())
        .ok()
        .expect("must succeed");
    assert_eq!(info.raw, b"{\"partitions\":[]}".to_vec());
    let r = stats_response_outcome(403, Vec::new());
    assert_eq!(r.err().expect("must fail").kind(), ClientErrorKind::Forbidden);
}

#[test]
fn connection_error_kind_is_reported() {
    let e = ClientError::Connection(b"broken pipe".to_vec());
    assert_eq!(e.kind(), ClientErrorKind::Connection);
}

#[test]
fn commit_body_is_the_items_array() {
    let c1 = Cursor::new(b"et".to_vec(), b"0".to_vec(), b"001".to_vec(), b"t1".to_vec());
    let c2 = Cursor::new(b"et".to_vec(), b"1".to_vec(), b"002".to_vec(), b"t2".to_vec());
    assert_eq!(commit_body(&Vec::new()), b"{\"items\":[]}".to_vec());
    assert_eq!(
        commit_body(&vec![c1, c2]),
        b"{\"items\":[{\"event_type\":\"et\",\"partition\":\"0\",\"offset\":\"001\",\"cursor_token\":\"t1\"},{\"event_type\":\"et\",\"partition\":\"1\",\"offset\":\"002\",\"cursor_token\":\"t2\"}]}"
            .to_vec()
    );
}

#[test]
fn commit_request_carries_its_stream_id() {
    let sub = SubscriptionId::from_bytes(b"sub-1".to_vec());
    let sid = nakadion::model::StreamId::from_bytes(b"sid-9".to_vec());
    let c = Cursor::new(b"et".to_vec(), b"0".to_vec(), b"5".to_vec(), b"t".to_vec());
    let req = build_commit_request(&b"https://broker.example".to_vec(), &sid, &sub, vec![c]);
    assert_eq!(req.stream_id.as_bytes(), &b"sid-9".to_vec());
    assert_eq!(req.url, b"https://broker.example/subscriptions/sub-1/cursors".to_vec());
    assert_eq!(
        req.body,
        b"{\"items\":[{\"event_type\":\"et\",\"partition\":\"0\",\"offset\":\"5\",\"cursor_token\":\"t\"}]}"
            .to_vec()
    );
}

#[test]
fn bearer_header_prefixes_the_token() {
    let t = Token(b"secret".to_vec());
    assert_eq!(bearer_header_value(&t), b"Bearer secret".to_vec());
}

#[test]
fn builder_requires_a_host() {
    let r = ConnectorSettingsBuilder::new().build();
    assert_eq!(r.err().expect("must fail"), b"no broker host was given".to_vec());
}

#[test]
fn a_bad_host_fails_at_construction() {
    let bad: [&[u8]; 5] = [
        b"broker.example",
        b"ftp://broker.example",
        b"https://",
        b"https://broker.example/",
        b"https://bro ker.example",
    ];
    for host in bad {
        let r = ConnectorSettingsBuilder::new().nakadi_host(host.to_vec()).build();
        assert!(r.is_err(), "host must be refused");
    }
    let good = ConnectorSettingsBuilder::new()
        .nakadi_host(b"http://broker.example:8080".to_vec())
        .build();
    assert!(good.is_ok());
}

#[test]
fn settings_come_from_environment_pairs() {
    let pairs: Vec<(Vec<u8>, Vec<u8>)> = vec![
        (b"NAKADION_STREAM_LIMIT".to_vec(), b"100".to_vec()),
        (b"NAKADION_BATCH_LIMIT".to_vec(), b"25".to_vec()),
        (b"NAKADION_STREAM_TIMEOUT_SECS".to_vec(), b"60".to_vec()),
        (b"NAKADION_NAKADI_HOST".to_vec(), b"https://broker.example".to_vec()),
        (b"IRRELEVANT".to_vec(), b"x".to_vec()),
    ];
    let b = settings_builder_from_pairs(&pairs).ok().expect("all values parse");
    let s = b.build().ok().expect("host is set");
    assert_eq!(s.stream_limit, 100);
    assert_eq!(s.batch_limit, 25);
    assert_eq!(s.stream_timeout_secs, 60);
    assert_eq!(s.stream_keep_alive_limit, 0);
    assert_eq!(s.nakadi_host, b"https://broker.example".to_vec());
}

#[test]
fn a_later_pair_overrides_an_earlier_one() {
    let pairs: Vec<(Vec<u8>, Vec<u8>)> = vec![
        (b"NAKADION_STREAM_LIMIT".to_vec(), b"1".to_vec()),
        (b"NAKADION_STREAM_LIMIT".to_vec(), b"2".to_vec()),
    ];
    let b = settings_builder_from_pairs(&pairs).ok().expect("all values parse");
    assert_eq!(b.stream_limit, 2);
}

#[test]
fn an_unparsable_value_names_its_variable() {
    let pairs: Vec<(Vec<u8>, Vec<u8>)> =
        vec![(b"NAKADION_MAX_UNCOMMITED_EVENTS".to_vec(), b"lots".to_vec())];
    let e = settings_builder_from_pairs(&pairs).err().expect("must fail");
    assert_eq!(e, b"NAKADION_MAX_UNCOMMITED_EVENTS".to_vec());
}

#[test]
fn the_first_unparsable_variable_is_the_one_named() {
    let pairs: Vec<(Vec<u8>, Vec<u8>)> = vec![
        (b"NAKADION_STREAM_LIMIT".to_vec(), b"50".to_vec()),
        (b"NAKADION_BATCH_LIMIT".to_vec(), b"many".to_vec()),
        (b"NAKADION_STREAM_TIMEOUT_SECS".to_vec(), b"soon".to_vec()),
    ];
    let e = settings_builder_from_pairs(&pairs).err().expect("must fail");
    assert_eq!(e, b"NAKADION_BATCH_LIMIT".to_vec());
}
