use sophon::protocol::Brc20;
use sophon::protocol::corrected;
use sophon::protocol::needs_correction;
use sophon::protocol::parse_record;
use sophon::protocol::serialize_record;

fn record(p: &str, op: &str, tick: &str, max: &str, lim: &str) -> Brc20 {
    Brc20 {
        p: p.as_bytes().to_vec(),
        lim: lim.as_bytes().to_vec(),
        op: op.as_bytes().to_vec(),
        tick: tick.as_bytes().to_vec(),
        max: max.as_bytes().to_vec(),
    }
}

#[test]
fn deploy_with_large_supply_is_corrected() {
    let r = record("brc-20", "deploy", "ordi", "21000000", "1000");
    assert!(needs_correction(&r));
    let c = corrected(r);
    assert_eq!(c.p, b"brc-20".to_vec());
    assert_eq!(c.op, b"deploy".to_vec());
    assert_eq!(c.tick, b"ordi".to_vec());
    assert_eq!(c.max, b"1".to_vec());
    assert_eq!(c.lim, b"1".to_vec());
}

#[test]
fn single_unit_deploy_passes_through() {
    let r = record("brc-20", "deploy", "ordi", "1", "1000");
    assert!(!needs_correction(&r));
    let c = corrected(r);
    assert_eq!(c.max, b"1".to_vec());
    assert_eq!(c.lim, b"1000".to_vec());
}

#[test]
fn other_operations_pass_through() {
    let r = record("brc-20", "mint", "ordi", "21000000", "1000");
    assert!(!needs_correction(&r));
    let c = corrected(r);
    assert_eq!(c.op, b"mint".to_vec());
    assert_eq!(c.max, b"21000000".to_vec());
    assert_eq!(c.lim, b"1000".to_vec());
}

#[test]
fn parse_accepts_a_plain_record() {
    let body = br#"{"p":"brc-20","op":"deploy","tick":"ordi","max":"21000000","lim":"1000"}"#;
    let r = parse_record(&body.to_vec()).unwrap();
    assert_eq!(r.p, b"brc-20".to_vec());
    assert_eq!(r.op, b"deploy".to_vec());
    assert_eq!(r.tick, b"ordi".to_vec());
    assert_eq!(r.max, b"21000000".to_vec());
    assert_eq!(r.lim, b"1000".to_vec());
}

#[test]
fn parse_ignores_unknown_fields() {
    let body = br#" { "p" : "brc-20" , "note" : [1, {"a": "}"}, true] , "op":"deploy", "tick":"x", "max":"5", "lim":"5", "extra": null } "#;
    let r = parse_record(&body.to_vec()).unwrap();
    assert_eq!(r.tick, b"x".to_vec());
}

#[test]
fn parse_decodes_escapes() {
    let body = br#"{"p":"brc-20","op":"deploy","tick":"a\"b\\c\n","max":"2","lim":"2"}"#;
    let r = parse_record(&body.to_vec()).unwrap();
    assert_eq!(r.tick, b"a\"b\\c\n".to_vec());
}

#[test]
fn parse_rejects_missing_field() {
    let body = br#"{"p":"brc-20","op":"deploy","tick":"ordi","max":"21000000"}"#;
    assert!(parse_record(&body.to_vec()).is_none());
}

#[test]
fn parse_rejects_duplicate_schema_field() {
    let body = br#"{"p":"brc-20","op":"deploy","op":"mint","tick":"t","max":"1","lim":"1"}"#;
    assert!(parse_record(&body.to_vec()).is_none());
}

#[test]
fn parse_rejects_non_string_schema_field() {
    let body = br#"{"p":"brc-20","op":"deploy","tick":"t","max":1,"lim":"1"}"#;
    assert!(parse_record(&body.to_vec()).is_none());
}

#[test]
fn parse_rejects_trailing_garbage() {
    let body = br#"{"p":"brc-20","op":"deploy","tick":"t","max":"1","lim":"1"} x"#;
    assert!(parse_record(&body.to_vec()).is_none());
}

#[test]
fn parse_rejects_empty_object_and_non_objects() {
    assert!(parse_record(&b"{}".to_vec()).is_none());
    assert!(parse_record(&b"  ".to_vec()).is_none());
    assert!(parse_record(&b"[1]".to_vec()).is_none());
    assert!(parse_record(&b"".to_vec()).is_none());
}

#[test]
fn parse_rejects_invalid_utf8() {
    let mut body = br#"{"p":"brc-20","op":"deploy","tick":""#.to_vec();
    body.push(0xFF);
    body.extend_from_slice(br#"","max":"2","lim":"1"}"#);
    assert!(parse_record(&body).is_none());
}

#[test]
fn parse_decodes_unicode_escapes() {
    let body = br#"{"p":"brc-20","op":"deploy","tick":"\u0074\u00e9\u20AC","max":"2","lim":"1"}"#;
    let r = parse_record(&body.to_vec()).unwrap();
    // t, then e-acute and the euro sign as UTF-8.
    assert_eq!(r.tick, vec![0x74, 0xC3, 0xA9, 0xE2, 0x82, 0xAC]);
}

#[test]
fn parse_decodes_surrogate_pairs() {
    let body = br#"{"p":"brc-20","op":"deploy","tick":"\ud83d\ude00","max":"2","lim":"1"}"#;
    let r = parse_record(&body.to_vec()).unwrap();
    assert_eq!(r.tick, vec![0xF0, 0x9F, 0x98, 0x80]);
    assert_eq!(String::from_utf8(r.tick).unwrap(), "\u{1F600}");
}

#[test]
fn parse_rejects_bad_unicode_escapes() {
    // A lone high surrogate, a lone low surrogate, a non-hex digit and a
    // truncated escape all reject the record.
    for tick in [r"\ud83d", r"\ude00", r"\u00zz", r"\u00"] {
        let body = format!(
            "{{\"p\":\"brc-20\",\"op\":\"deploy\",\"tick\":\"{tick}\",\"max\":\"2\",\"lim\":\"1\"}}"
        );
        assert!(parse_record(&body.into_bytes()).is_none());
    }
}

#[test]
fn parse_rejects_unterminated_string() {
    let body = br#"{"p":"brc-20","op":"deploy","tick":"t","max":"2","lim":"1"#;
    assert!(parse_record(&body.to_vec()).is_none());
}

#[test]
fn serialization_is_canonical() {
    let r = record("brc-20", "deploy", "ordi", "1", "1");
    let s = serialize_record(&r);
    assert_eq!(
        s,
        br#"{"p":"brc-20","op":"deploy","tick":"ordi","max":"1","lim":"1"}"#.to_vec()
    );
}

#[test]
fn serialization_escapes_values() {
    let r = record("brc-20", "deploy", "a\"b\\c\n\x01", "1", "1");
    let s = serialize_record(&r);
    assert_eq!(
        s,
        br#"{"p":"brc-20","op":"deploy","tick":"a\"b\\c\n\u0001","max":"1","lim":"1"}"#.to_vec()
    );
}

#[test]
fn serialized_record_is_valid_json_to_another_reader() {
    let r = record("brc-20", "deploy", "or\"di\n", "1", "1");
    let s = serialize_record(&r);
    let v: serde_json::Value = serde_json::from_slice(&s).unwrap();
    assert_eq!(v["p"], "brc-20");
    assert_eq!(v["op"], "deploy");
    assert_eq!(v["tick"], "or\"di\n");
    assert_eq!(v["max"], "1");
    assert_eq!(v["lim"], "1");
}

#[test]
fn serialized_record_parses_back() {
    let r = record("brc-20", "deploy", "a\"b\\c\td\x01", "7", "3");
    let s = serialize_record(&r);
    let back = parse_record(&s).unwrap();
    assert_eq!(back.p, r.p);
    assert_eq!(back.op, r.op);
    assert_eq!(back.tick, r.tick);
    assert_eq!(back.max, r.max);
    assert_eq!(back.lim, r.lim);
}

#[test]
fn parser_agrees_with_another_reader_on_plain_records() {
    let bodies: Vec<&[u8]> = vec![
        br#"{"p":"brc-20","op":"deploy","tick":"ordi","max":"21000000","lim":"1000"}"#,
        br#"{"p":"brc-20","op":"mint","tick":"x","max":"5","lim":"5","amt":"1"}"#,
        br#"{"p":"brc-20","op":"deploy","tick":"\u0041\ud83d\ude00","max":"5","lim":"5"}"#,
        br#"{"p":"brc-20","op":"deploy","tick":"t","max":1,"lim":"1"}"#,
        br#"{"p":"brc-20"}"#,
        br#"not a record"#,
    ];
    for body in bodies {
        let mine = parse_record(&body.to_vec());
        let theirs: Result<serde_json::Value, _> = serde_json::from_slice(body);
        match mine {
            Some(rec) => {
                let v = theirs.unwrap();
                assert_eq!(v["p"].as_str().unwrap().as_bytes(), rec.p.as_slice());
                assert_eq!(v["op"].as_str().unwrap().as_bytes(), rec.op.as_slice());
                assert_eq!(v["tick"].as_str().unwrap().as_bytes(), rec.tick.as_slice());
                assert_eq!(v["max"].as_str().unwrap().as_bytes(), rec.max.as_slice());
                assert_eq!(v["lim"].as_str().unwrap().as_bytes(), rec.lim.as_slice());
            }
            None => {
                // The record grammar is stricter than general JSON: nothing
                // it rejects carries all five fields as strings.
                let all_strings = theirs
                    .map(|v| {
                        ["p", "op", "tick", "max", "lim"]
                            .iter()
                            .all(|k| v[*k].is_string())
                    })
                    .unwrap_or(false);
                assert!(!all_strings);
            }
        }
    }
}
