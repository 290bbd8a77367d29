use rollout::json::Json;
use rollout::record::{
    classify, decode_line, encode_event, encode_meta, encode_response, same_document, Event,
    LineRecord, RecordKind, ResponseItem, RolloutItem,
};
use rollout::session::{
    header_from_members, same_meta, same_optional_text, SessionMeta, SessionMetaWithGit,
};

fn doc(text: &str) -> Json {
    Json::parse(text).expect("valid JSON")
}

fn sample_meta() -> SessionMeta {
    SessionMeta {
        id: 0x5973b6c0_94b8_487b_a530_2aeb6098ae0e,
        timestamp: "2025-05-07T15:24:21.123Z".to_string(),
        cwd: "/work".to_string(),
        originator: "cli".to_string(),
        cli_version: "0.1.0".to_string(),
        instructions: None,
    }
}

#[test]
fn json_parse_gives_compact_text() {
    assert_eq!(doc(" { \"b\" : [ 1 , 2 ] ,\n \"a\" : null } ").as_str(), "{\"a\":null,\"b\":[1,2]}");
    assert_eq!(Json::parse("not-json"), None);
    assert_eq!(Json::parse(""), None);
    assert_eq!(Json::parse("{\"a\":1} trailing"), None);
}

#[test]
fn json_from_text_keeps_the_text() {
    let text = "{\"type\":\"message\",\"role\":\"user\",\"content\":[]}";
    assert_eq!(Json::from_text(text).unwrap().as_str(), text);
    assert_eq!(Json::from_text("{\"b\": 1, \"a\": 2}").unwrap().as_str(), "{\"b\": 1, \"a\": 2}");
    assert_eq!(Json::from_text("not-json"), None);
    assert_eq!(Json::from_text(""), None);
    assert_eq!(Json::from_text("{\"a\":1}\n"), None);
    assert_eq!(Json::from_text("{\n\"a\": 1\n}"), None);
    assert_eq!(Json::from_text("[1,\r2]"), None);
    assert_ne!(Json::from_text("{\"b\":1,\"a\":2}"), Json::parse("{\"b\":1,\"a\":2}"));
}

#[test]
fn event_given_as_text_keeps_the_order_of_its_members() {
    let body = Json::from_text("{\"id\":\"1\",\"alpha\":true}").unwrap();
    let event = Event { body, persisted: true };
    assert_eq!(
        encode_event(&event),
        Some("{\"record_type\":\"event\",\"id\":\"1\",\"alpha\":true}".to_string())
    );
    let item = ResponseItem { body: Json::from_text("{\"z\":0,\"a\":1}").unwrap(), persisted: true };
    assert_eq!(encode_response(&item), Some("{\"z\":0,\"a\":1}".to_string()));
    let padded = Event { body: Json::from_text(" {\"a\":1} ").unwrap(), persisted: true };
    assert_eq!(
        encode_event(&padded),
        Some("{\"record_type\":\"event\",\"a\":1}".to_string())
    );
}

#[test]
fn empty_event_object_with_white_space_is_tagged_without_a_comma() {
    for text in ["{}", "{ }", "{\t}", " {} ", "\t{  \t }  ", "{   }"] {
        let event = Event { body: Json::from_text(text).unwrap(), persisted: true };
        let line = encode_event(&event).unwrap();
        assert_eq!(line, "{\"record_type\":\"event\"}");
        assert!(serde_json::from_str::<serde_json::Value>(&line).is_ok());
        assert_eq!(decode_line(&line), LineRecord::Event(doc("{}")));
    }
}

#[test]
fn event_with_white_space_inside_stays_json() {
    let cases = [
        ("{ \"a\" : 1 }", "{\"record_type\":\"event\", \"a\" : 1 }"),
        ("  {\"a\":[1, 2],\t\"b\":{ }}\t", "{\"record_type\":\"event\",\"a\":[1, 2],\t\"b\":{ }}"),
        ("{\"a\":\"}\"}", "{\"record_type\":\"event\",\"a\":\"}\"}"),
    ];
    for (text, expected) in cases {
        let event = Event { body: Json::from_text(text).unwrap(), persisted: true };
        let line = encode_event(&event).unwrap();
        assert_eq!(line, expected);
        let written: serde_json::Value = serde_json::from_str(&line).unwrap();
        assert_eq!(written.get("record_type").and_then(|tag| tag.as_str()), Some("event"));
        assert_eq!(decode_line(&line), LineRecord::Event(doc(text)));
    }
}

fn nested(depth: usize) -> Json {
    let mut value = serde_json::Value::Null;
    for _ in 0..depth {
        value = serde_json::Value::Array(vec![value]);
    }
    Json::from_value(&value)
}

#[test]
fn record_that_the_reader_cannot_read_is_not_written() {
    let shallow = ResponseItem { body: nested(100), persisted: true };
    let line = encode_response(&shallow).unwrap();
    assert!(serde_json::from_str::<serde_json::Value>(&line).is_ok());
    let deep = ResponseItem { body: nested(200), persisted: true };
    assert_eq!(encode_response(&deep), None);
    let mut value = serde_json::Value::Object(serde_json::Map::new());
    for _ in 0..200 {
        let mut outer = serde_json::Map::new();
        outer.insert("k".to_string(), value);
        value = serde_json::Value::Object(outer);
    }
    let event = Event { body: Json::from_value(&value), persisted: true };
    assert_eq!(encode_event(&event), None);
    let header = SessionMetaWithGit { meta: sample_meta(), git: Some(nested(200)) };
    assert_eq!(encode_meta("session_meta", &header), None);
}

#[test]
fn record_that_would_be_read_as_another_is_not_written() {
    for text in [
        "{\"record_type\":\"event\",\"id\":\"1\"}",
        "{\"record_type\":\"state\"}",
        "{\"record_type\":\"session_meta\"}",
        "{\"record_type\":\"anything\"}",
    ] {
        let item = ResponseItem { body: doc(text), persisted: true };
        assert_eq!(encode_response(&item), None);
    }
    let tagged = ResponseItem { body: doc("{\"record_type\":\"response\",\"a\":1}"), persisted: true };
    assert!(encode_response(&tagged).is_some());
    let odd = ResponseItem { body: doc("{\"record_type\":7}"), persisted: true };
    assert!(encode_response(&odd).is_some());
    for text in ["{\"record_type\":\"state\"}", "{\"record_type\":\"event\"}", "{\"record_type\":1}"] {
        let event = Event { body: doc(text), persisted: true };
        assert_eq!(encode_event(&event), None);
    }
}

#[test]
fn every_written_line_reads_back_as_its_record() {
    let bodies = ["{}", "{ \"z\" : [1, 2.5, null], \"a\" : \"\\u00e9\\n\" }", "{\"id\":\"1\",\"msg\":{\"k\":{}}}"];
    for text in bodies {
        let body = Json::from_text(text).unwrap();
        let item = ResponseItem { body: body.clone(), persisted: true };
        let line = encode_response(&item).unwrap();
        assert_eq!(decode_line(&line), LineRecord::Response(doc(text)));
        let event = Event { body, persisted: true };
        let line = encode_event(&event).unwrap();
        assert_eq!(decode_line(&line), LineRecord::Event(doc(text)));
    }
    let mut meta = sample_meta();
    meta.instructions = Some("tab\there".to_string());
    let header = SessionMetaWithGit {
        meta,
        git: Some(Json::from_text("{\"commit_hash\": \"abc\", \"branch\": \"main\"}").unwrap()),
    };
    let read = SessionMetaWithGit {
        meta: header.meta.clone(),
        git: Some(doc("{\"branch\":\"main\",\"commit_hash\":\"abc\"}")),
    };
    let line = encode_meta("session_meta", &header).unwrap();
    assert_eq!(decode_line(&line), LineRecord::SessionMeta { prior: false, header: read.clone() });
    let line = encode_meta("prior_session_meta", &header).unwrap();
    assert_eq!(decode_line(&line), LineRecord::SessionMeta { prior: true, header: read });
    assert_eq!(encode_meta("event", &header), None);
    assert_eq!(encode_meta("other", &header), None);
}

#[test]
fn metadata_is_compared_field_by_field() {
    let a = sample_meta();
    let mut b = sample_meta();
    assert!(same_meta(&a, &b));
    b.cwd.push('x');
    assert!(!same_meta(&a, &b));
    let mut c = sample_meta();
    c.id += 1;
    assert!(!same_meta(&a, &c));
    let mut d = sample_meta();
    d.instructions = Some(String::new());
    assert!(!same_meta(&a, &d));
    assert!(same_optional_text(&None, &None));
    assert!(same_optional_text(&Some("a".to_string()), &Some("a".to_string())));
    assert!(!same_optional_text(&Some("a".to_string()), &None));
    assert!(!same_optional_text(&Some("a".to_string()), &Some("b".to_string())));
    assert!(same_document(&None, &None));
    assert!(same_document(&Some(doc("{}")), &Some(doc(" { } "))));
    assert!(!same_document(&Some(doc("{}")), &None));
    assert!(!same_document(&Some(doc("1")), &Some(doc("2"))));
}

#[test]
fn every_event_line_is_json() {
    for text in ["{}", "{ }", "{\"type\":\"x\"}", "{\"a\":{\"b\":[{}]}}", " { \"k\" : null } "] {
        let event = Event { body: Json::from_text(text).unwrap(), persisted: true };
        let line = encode_event(&event).unwrap();
        assert!(serde_json::from_str::<serde_json::Value>(&line).is_ok());
        assert!(!line.contains('\n'));
    }
}

#[test]
fn header_is_made_of_its_members() {
    let text = |s: &str| Some(s.to_string());
    let id = "5973b6c0-94b8-487b-a530-2aeb6098ae0e";
    let header = header_from_members(
        text(id),
        text("t"),
        text("c"),
        text("o"),
        text("v"),
        Some(Some("be brief".to_string())),
        Some(doc("{\"branch\":\"main\"}")),
    );
    assert_eq!(
        header,
        Some(SessionMetaWithGit {
            meta: SessionMeta {
                id: 0x5973b6c0_94b8_487b_a530_2aeb6098ae0e,
                timestamp: "t".to_string(),
                cwd: "c".to_string(),
                originator: "o".to_string(),
                cli_version: "v".to_string(),
                instructions: Some("be brief".to_string()),
            },
            git: Some(doc("{\"branch\":\"main\"}")),
        })
    );
    let plain =
        header_from_members(text(id), text("t"), text("c"), text("o"), text("v"), Some(None), None)
            .unwrap();
    assert_eq!(plain.meta.instructions, None);
    assert_eq!(plain.git, None);
}

#[test]
fn header_needs_every_member_it_names() {
    let text = |s: &str| Some(s.to_string());
    let id = "5973b6c0-94b8-487b-a530-2aeb6098ae0e";
    let none = None;
    assert_eq!(
        header_from_members(none.clone(), text("t"), text("c"), text("o"), text("v"), Some(None), None),
        None
    );
    assert_eq!(
        header_from_members(text(id), none.clone(), text("c"), text("o"), text("v"), Some(None), None),
        None
    );
    assert_eq!(
        header_from_members(text(id), text("t"), none.clone(), text("o"), text("v"), Some(None), None),
        None
    );
    assert_eq!(
        header_from_members(text(id), text("t"), text("c"), none.clone(), text("v"), Some(None), None),
        None
    );
    assert_eq!(
        header_from_members(text(id), text("t"), text("c"), text("o"), none.clone(), Some(None), None),
        None
    );
    assert_eq!(
        header_from_members(text(id), text("t"), text("c"), text("o"), text("v"), None, None),
        None
    );
    assert_eq!(
        header_from_members(text("no-id"), text("t"), text("c"), text("o"), text("v"), Some(None), None),
        None
    );
}


#[test]
fn json_string_quotes_and_escapes() {
    assert_eq!(Json::string("plain").as_str(), "\"plain\"");
    assert_eq!(Json::string("two\nlines\r\"q\"").as_str(), "\"two\\nlines\\r\\\"q\\\"\"");
}

#[test]
fn json_from_value_prints_the_document() {
    let value: serde_json::Value = serde_json::from_str("[1, {\"k\": \"v\"}]").unwrap();
    assert_eq!(Json::from_value(&value).as_str(), "[1,{\"k\":\"v\"}]");
}

#[test]
fn json_text_never_spans_lines() {
    let body = doc("{\"text\":\"first\\nsecond\\r\"}");
    assert!(!body.as_str().contains('\n'));
    assert!(!body.as_str().contains('\r'));
}

#[test]
fn payloads_become_records() {
    let item = ResponseItem { body: doc("{\"a\":1}"), persisted: true };
    assert_eq!(RolloutItem::from(item.clone()), RolloutItem::ResponseItem(item));
    let event = Event { body: doc("{\"b\":2}"), persisted: false };
    let record: RolloutItem = event.clone().into();
    assert_eq!(record, RolloutItem::Event(event));
}

#[test]
fn classify_knows_each_record_type() {
    assert_eq!(classify(None), RecordKind::Response);
    assert_eq!(classify(Some("response")), RecordKind::Response);
    assert_eq!(classify(Some("event")), RecordKind::Event);
    assert_eq!(classify(Some("session_meta")), RecordKind::SessionMeta);
    assert_eq!(classify(Some("prior_session_meta")), RecordKind::PriorSessionMeta);
    assert_eq!(classify(Some("state")), RecordKind::State);
    assert_eq!(classify(Some("")), RecordKind::Unknown);
    assert_eq!(classify(Some("Event")), RecordKind::Unknown);
    assert_eq!(classify(Some("prev_session_meta")), RecordKind::Unknown);
}

#[test]
fn response_item_is_written_as_its_document() {
    let item = ResponseItem { body: doc("{\"type\":\"message\",\"role\":\"user\"}"), persisted: true };
    assert_eq!(
        encode_response(&item),
        Some("{\"role\":\"user\",\"type\":\"message\"}".to_string())
    );
}

#[test]
fn event_takes_its_record_type_first() {
    let event = Event { body: doc("{\"id\":\"1\",\"msg\":{\"type\":\"done\"}}"), persisted: true };
    assert_eq!(
        encode_event(&event),
        Some("{\"record_type\":\"event\",\"id\":\"1\",\"msg\":{\"type\":\"done\"}}".to_string())
    );
}

#[test]
fn empty_event_object_is_tagged_without_a_comma() {
    let event = Event { body: doc("{}"), persisted: true };
    assert_eq!(encode_event(&event), Some("{\"record_type\":\"event\"}".to_string()));
}

#[test]
fn event_that_is_no_object_cannot_be_written() {
    for text in ["[1,2]", "\"text\"", "42", "null", "true"] {
        let event = Event { body: doc(text), persisted: true };
        assert_eq!(encode_event(&event), None);
    }
}

#[test]
fn header_line_holds_the_fields_flat() {
    let header = SessionMetaWithGit { meta: sample_meta(), git: None };
    assert_eq!(
        encode_meta("session_meta", &header).unwrap(),
        "{\"record_type\":\"session_meta\",\"id\":\"5973b6c0-94b8-487b-a530-2aeb6098ae0e\",\
         \"timestamp\":\"2025-05-07T15:24:21.123Z\",\"cwd\":\"/work\",\"originator\":\"cli\",\
         \"cli_version\":\"0.1.0\",\"instructions\":null}"
    );
}

#[test]
fn header_line_holds_instructions_and_git() {
    let mut meta = sample_meta();
    meta.instructions = Some("be \"kind\"\nalways".to_string());
    let header = SessionMetaWithGit { meta, git: Some(doc("{\"branch\":\"main\"}")) };
    let line = encode_meta("prior_session_meta", &header).unwrap();
    assert_eq!(
        line,
        "{\"record_type\":\"prior_session_meta\",\"id\":\"5973b6c0-94b8-487b-a530-2aeb6098ae0e\",\
         \"timestamp\":\"2025-05-07T15:24:21.123Z\",\"cwd\":\"/work\",\"originator\":\"cli\",\
         \"cli_version\":\"0.1.0\",\"instructions\":\"be \\\"kind\\\"\\nalways\",\
         \"git\":{\"branch\":\"main\"}}"
    );
    assert!(!line.contains('\n'));
}

#[test]
fn header_line_is_read_back_as_written() {
    let mut meta = sample_meta();
    meta.instructions = Some("line one\nline two".to_string());
    meta.cwd = "C:\\work \"dir\"".to_string();
    let header = SessionMetaWithGit { meta, git: Some(doc("{\"commit_hash\":\"abc\"}")) };
    let line = encode_meta("session_meta", &header).unwrap();
    assert_eq!(decode_line(&line), LineRecord::SessionMeta { prior: false, header });
    let header = SessionMetaWithGit { meta: sample_meta(), git: None };
    let line = encode_meta("prior_session_meta", &header).unwrap();
    assert_eq!(decode_line(&line), LineRecord::SessionMeta { prior: true, header });
}

#[test]
fn written_records_are_read_back() {
    let item = ResponseItem { body: doc("{\"type\":\"message\",\"content\":[]}"), persisted: true };
    assert_eq!(
        decode_line(&encode_response(&item).unwrap()),
        LineRecord::Response(item.body.clone())
    );
    let event = Event { body: doc("{\"id\":\"7\",\"msg\":\"hi\"}"), persisted: true };
    let line = encode_event(&event).unwrap();
    assert_eq!(decode_line(&line), LineRecord::Event(event.body.clone()));
}

#[test]
fn blank_lines_are_blank() {
    assert_eq!(decode_line(""), LineRecord::Blank);
    assert_eq!(decode_line("  \t "), LineRecord::Blank);
    assert_eq!(decode_line("\u{a0}\u{2003}\u{3000}"), LineRecord::Blank);
}

#[test]
fn broken_lines_are_malformed() {
    assert_eq!(decode_line("not-json"), LineRecord::Malformed);
    assert_eq!(decode_line("{\"record_type\":\"event\""), LineRecord::Malformed);
    assert_eq!(decode_line("{} {}"), LineRecord::Malformed);
    assert_eq!(decode_line("\u{200b}"), LineRecord::Malformed);
}

#[test]
fn state_and_unknown_lines_are_told_apart() {
    assert_eq!(decode_line("{\"record_type\":\"state\"}"), LineRecord::State);
    assert_eq!(decode_line(" {\"record_type\" : \"state\", \"x\": 1} "), LineRecord::State);
    assert_eq!(
        decode_line("{\"record_type\":\"compacted\"}"),
        LineRecord::Unknown("compacted".to_string())
    );
    assert_eq!(
        decode_line("{\"record_type\":\"prev_session_meta\"}"),
        LineRecord::Unknown("prev_session_meta".to_string())
    );
}

#[test]
fn line_without_a_string_record_type_is_a_response() {
    assert_eq!(decode_line("{\"a\":1}"), LineRecord::Response(doc("{\"a\":1}")));
    assert_eq!(
        decode_line("{\"record_type\":7,\"a\":1}"),
        LineRecord::Response(doc("{\"a\":1,\"record_type\":7}"))
    );
    assert_eq!(decode_line("[1,2]"), LineRecord::Response(doc("[1,2]")));
    assert_eq!(decode_line("42"), LineRecord::Response(doc("42")));
    assert_eq!(
        decode_line("{\"record_type\":\"response\",\"a\":1}"),
        LineRecord::Response(doc("{\"a\":1,\"record_type\":\"response\"}"))
    );
}

#[test]
fn event_body_is_the_line_without_record_type() {
    assert_eq!(
        decode_line("{\"id\":\"1\",\"record_type\":\"event\",\"msg\":{}}"),
        LineRecord::Event(doc("{\"id\":\"1\",\"msg\":{}}"))
    );
    assert_eq!(decode_line("{\"record_type\":\"event\"}"), LineRecord::Event(doc("{}")));
}

#[test]
fn session_header_needs_its_fields() {
    let full = "{\"record_type\":\"session_meta\",\"id\":\"5973b6c0-94b8-487b-a530-2aeb6098ae0e\",\
                \"timestamp\":\"t\",\"cwd\":\"c\",\"originator\":\"o\",\"cli_version\":\"v\"}";
    let expected = SessionMetaWithGit {
        meta: SessionMeta {
            id: 0x5973b6c0_94b8_487b_a530_2aeb6098ae0e,
            timestamp: "t".to_string(),
            cwd: "c".to_string(),
            originator: "o".to_string(),
            cli_version: "v".to_string(),
            instructions: None,
        },
        git: None,
    };
    assert_eq!(decode_line(full), LineRecord::SessionMeta { prior: false, header: expected });
    for missing in ["id", "timestamp", "cwd", "originator", "cli_version"] {
        let mut value: serde_json::Value = serde_json::from_str(full).unwrap();
        value.as_object_mut().unwrap().remove(missing);
        assert_eq!(decode_line(&value.to_string()), LineRecord::InvalidMeta);
    }
}

#[test]
fn session_header_checks_the_kinds_of_its_fields() {
    let bad_id = "{\"record_type\":\"session_meta\",\"id\":\"not-a-uuid\",\"timestamp\":\"t\",\
                  \"cwd\":\"c\",\"originator\":\"o\",\"cli_version\":\"v\"}";
    assert_eq!(decode_line(bad_id), LineRecord::InvalidMeta);
    let bad_instructions = "{\"record_type\":\"prior_session_meta\",\
                            \"id\":\"5973b6c0-94b8-487b-a530-2aeb6098ae0e\",\"timestamp\":\"t\",\
                            \"cwd\":\"c\",\"originator\":\"o\",\"cli_version\":\"v\",\
                            \"instructions\":5}";
    assert_eq!(decode_line(bad_instructions), LineRecord::InvalidMeta);
    let number_cwd = "{\"record_type\":\"session_meta\",\
                      \"id\":\"5973b6c0-94b8-487b-a530-2aeb6098ae0e\",\"timestamp\":\"t\",\
                      \"cwd\":1,\"originator\":\"o\",\"cli_version\":\"v\"}";
    assert_eq!(decode_line(number_cwd), LineRecord::InvalidMeta);
}

#[test]
fn session_header_takes_null_for_nothing() {
    let line = "{\"record_type\":\"session_meta\",\"id\":\"5973B6C094B8487BA5302AEB6098AE0E\",\
                \"timestamp\":\"t\",\"cwd\":\"c\",\"originator\":\"o\",\"cli_version\":\"v\",\
                \"instructions\":null,\"git\":null,\"extra\":[1]}";
    match decode_line(line) {
        LineRecord::SessionMeta { prior, header } => {
            assert!(!prior);
            assert_eq!(header.meta.id, 0x5973b6c0_94b8_487b_a530_2aeb6098ae0e);
            assert_eq!(header.meta.instructions, None);
            assert_eq!(header.git, None);
        }
        other => panic!("not a header: {:?}", other),
    }
}
