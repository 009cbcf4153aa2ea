use sophon::filter::PayloadRecord;
use sophon::filter::inspect;
use sophon::race::plan_race;

fn text_plain(body: &[u8]) -> PayloadRecord {
    PayloadRecord {
        content_type: Some(b"text/plain;charset=utf-8".to_vec()),
        body: Some(body.to_vec()),
    }
}

#[test]
fn mempool_deploy_scenario_is_corrected_and_raced() {
    // One pending transaction carrying a text/plain deployment of 21000000
    // units: the filter yields the single-unit correction, and the race is
    // planned at 3/2 of the original transaction's fee rate.
    let body = br#"{"p":"brc-20","op":"deploy","tick":"ordi","max":"21000000","lim":"1000"}"#;
    let records = vec![text_plain(body)];
    let corrected = inspect(&records).unwrap();
    assert_eq!(corrected.p, b"brc-20".to_vec());
    assert_eq!(corrected.op, b"deploy".to_vec());
    assert_eq!(corrected.tick, b"ordi".to_vec());
    assert_eq!(corrected.max, b"1".to_vec());
    assert_eq!(corrected.lim, b"1".to_vec());

    let original_rate = 10_000u64;  // 10 sat/vB measured on the original
    let request = plan_race(&corrected, original_rate).unwrap();
    assert_eq!(request.fee_rate.millisats_per_vbyte, 15_000);
    assert_eq!(request.filename, b"ordi.txt".to_vec());
    assert_eq!(
        request.content,
        br#"{"p":"brc-20","op":"deploy","tick":"ordi","max":"1","lim":"1"}"#.to_vec()
    );
}

#[test]
fn content_type_comparison_is_case_insensitive() {
    let rec = PayloadRecord {
        content_type: Some(b"TEXT/Plain;Charset=UTF-8".to_vec()),
        body: Some(br#"{"p":"brc-20","op":"deploy","tick":"ordi","max":"5","lim":"5"}"#.to_vec()),
    };
    let corrected = inspect(&vec![rec]).unwrap();
    assert_eq!(corrected.tick, b"ordi".to_vec());
    assert_eq!(corrected.max, b"1".to_vec());
}

#[test]
fn uppercase_ticker_is_preserved() {
    // Only the content type is compared case-insensitively: the body is
    // parsed as it stands and the ticker comes back byte-for-byte.
    let body = br#"{"p":"brc-20","op":"deploy","tick":"ORDI","max":"21000000","lim":"1000"}"#;
    let corrected = inspect(&vec![text_plain(body)]).unwrap();
    assert_eq!(corrected.p, b"brc-20".to_vec());
    assert_eq!(corrected.tick, b"ORDI".to_vec());
    assert_eq!(corrected.max, b"1".to_vec());
    assert_eq!(corrected.lim, b"1".to_vec());
}

#[test]
fn uppercase_schema_text_is_not_a_match() {
    // The schema's keys and the correction condition are exact: an
    // uppercase operation is not a deployment, and uppercase keys are
    // unknown fields (leaving the schema fields missing).
    let upper_op = text_plain(br#"{"p":"brc-20","op":"DEPLOY","tick":"t","max":"5","lim":"5"}"#);
    assert!(inspect(&vec![upper_op]).is_none());
    let upper_keys = text_plain(br#"{"P":"brc-20","OP":"deploy","TICK":"t","MAX":"5","LIM":"5"}"#);
    assert!(inspect(&vec![upper_keys]).is_none());
}

#[test]
fn single_unit_deploy_is_not_raced() {
    let body = br#"{"p":"brc-20","op":"deploy","tick":"ordi","max":"1","lim":"1000"}"#;
    assert!(inspect(&vec![text_plain(body)]).is_none());
}

#[test]
fn mint_is_not_raced() {
    let body = br#"{"p":"brc-20","op":"mint","tick":"ordi","max":"21000000","lim":"1000"}"#;
    assert!(inspect(&vec![text_plain(body)]).is_none());
}

#[test]
fn wrong_marker_is_not_raced() {
    let body = br#"{"p":"brc-99","op":"deploy","tick":"ordi","max":"21000000","lim":"1000"}"#;
    assert!(inspect(&vec![text_plain(body)]).is_none());
}

#[test]
fn wrong_content_type_is_skipped() {
    let rec = PayloadRecord {
        content_type: Some(b"application/octet-stream".to_vec()),
        body: Some(br#"{"p":"brc-20","op":"deploy","tick":"t","max":"9","lim":"9"}"#.to_vec()),
    };
    assert!(inspect(&vec![rec]).is_none());
}

#[test]
fn missing_content_type_or_body_is_skipped() {
    let no_type = PayloadRecord { content_type: None, body: Some(b"{}".to_vec()) };
    let no_body = PayloadRecord {
        content_type: Some(b"text/plain;charset=utf-8".to_vec()),
        body: None,
    };
    assert!(inspect(&vec![no_type, no_body]).is_none());
}

#[test]
fn first_qualifying_record_wins() {
    let first = text_plain(br#"{"p":"brc-20","op":"deploy","tick":"aaaa","max":"10","lim":"1"}"#);
    let second = text_plain(br#"{"p":"brc-20","op":"deploy","tick":"bbbb","max":"10","lim":"1"}"#);
    let corrected = inspect(&vec![first, second]).unwrap();
    assert_eq!(corrected.tick, b"aaaa".to_vec());
}

#[test]
fn skipped_records_do_not_shadow_later_matches() {
    let unparseable = text_plain(b"not a record");
    let no_body = PayloadRecord {
        content_type: Some(b"text/plain;charset=utf-8".to_vec()),
        body: None,
    };
    let good = text_plain(br#"{"p":"brc-20","op":"deploy","tick":"cccc","max":"10","lim":"1"}"#);
    let corrected = inspect(&vec![unparseable, no_body, good]).unwrap();
    assert_eq!(corrected.tick, b"cccc".to_vec());
}

#[test]
fn inspection_twice_yields_the_same_outcome() {
    let records = vec![
        text_plain(br#"{"p":"brc-20","op":"deploy","tick":"dddd","max":"10","lim":"1"}"#),
    ];
    let first = inspect(&records);
    let second = inspect(&records);
    assert_eq!(first.is_some(), second.is_some());
    let (a, b) = (first.unwrap(), second.unwrap());
    assert_eq!(a.p, b.p);
    assert_eq!(a.op, b.op);
    assert_eq!(a.tick, b.tick);
    assert_eq!(a.max, b.max);
    assert_eq!(a.lim, b.lim);

    let empty: Vec<PayloadRecord> = vec![];
    assert!(inspect(&empty).is_none());
    assert!(inspect(&empty).is_none());
}
