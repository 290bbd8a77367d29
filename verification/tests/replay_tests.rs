use rollout::json::Json;
use rollout::record::{Event, LineRecord, ResponseItem, RolloutItem};
use rollout::recorder::RolloutRecorder;
use rollout::replay::{read_records, resume, InitialHistory};
use rollout::session::{SessionMeta, SessionMetaWithGit};
use rollout::text::{
    fits_one_line, is_blank, is_json_blank, is_whitespace, json_span, same_text, split_lines,
};

fn doc(text: &str) -> Json {
    Json::parse(text).expect("valid JSON")
}

fn response(text: &str) -> RolloutItem {
    RolloutItem::ResponseItem(ResponseItem { body: doc(text), persisted: true })
}

fn event(text: &str) -> RolloutItem {
    RolloutItem::Event(Event { body: doc(text), persisted: true })
}

const HEADER: &str = "{\"record_type\":\"session_meta\",\
                      \"id\":\"00000000-0000-0000-0000-00000000002a\",\"timestamp\":\"t\",\
                      \"cwd\":\"c\",\"originator\":\"o\",\"cli_version\":\"v\",\
                      \"instructions\":null}";

fn header() -> SessionMetaWithGit {
    SessionMetaWithGit {
        meta: SessionMeta {
            id: 42,
            timestamp: "t".to_string(),
            cwd: "c".to_string(),
            originator: "o".to_string(),
            cli_version: "v".to_string(),
            instructions: None,
        },
        git: None,
    }
}

#[test]
fn lines_are_cut_at_line_feeds() {
    assert_eq!(split_lines(""), Vec::<String>::new());
    assert_eq!(split_lines("a"), vec!["a"]);
    assert_eq!(split_lines("a\n"), vec!["a"]);
    assert_eq!(split_lines("a\nb"), vec!["a", "b"]);
    assert_eq!(split_lines("\n"), vec![""]);
    assert_eq!(split_lines("a\n\nb\n"), vec!["a", "", "b"]);
}

#[test]
fn carriage_return_before_line_feed_is_dropped() {
    assert_eq!(split_lines("a\r\nb\r\n"), vec!["a", "b"]);
    assert_eq!(split_lines("a\r"), vec!["a\r"]);
    assert_eq!(split_lines("a\r\r\n"), vec!["a\r"]);
    assert_eq!(split_lines("a\rb\n"), vec!["a\rb"]);
    assert_eq!(split_lines("\r\n\r\n"), vec!["", ""]);
}

#[test]
fn lines_agree_with_the_standard_library() {
    for text in ["", "x", "x\n", "\n\n", "a\r\nb", "a\r", "a\r\r\n\rb\n\r", "é\nü\r\n", "\r"] {
        let expected: Vec<String> = text.lines().map(|line| line.to_string()).collect();
        assert_eq!(split_lines(text), expected);
    }
}

#[test]
fn white_space_is_the_unicode_property() {
    for code in 0u32..0x3100 {
        if let Some(c) = char::from_u32(code) {
            assert_eq!(is_whitespace(c), c.is_whitespace());
        }
    }
    assert!(is_blank(""));
    assert!(is_blank(" \t\u{a0}"));
    assert!(!is_blank(" x "));
}

#[test]
fn one_line_holds_no_line_break() {
    assert!(fits_one_line(""));
    assert!(fits_one_line("{\"a\": 1}\t"));
    assert!(!fits_one_line("a\nb"));
    assert!(!fits_one_line("a\r"));
    assert!(!fits_one_line("\n"));
}

#[test]
fn json_white_space_is_found_at_both_ends() {
    assert_eq!(json_span(""), (0, 0));
    assert_eq!(json_span("   "), (3, 0));
    assert_eq!(json_span("{}"), (0, 2));
    assert_eq!(json_span(" \t{ }\r\n"), (2, 5));
    assert_eq!(json_span("a"), (0, 1));
    assert_eq!(json_span("\u{a0}x "), (0, 2));
    assert!(is_json_blank(""));
    assert!(is_json_blank(" \t\r\n"));
    assert!(!is_json_blank("\u{a0}"));
    assert!(!is_json_blank(" , "));
}

#[test]
fn same_text_compares_characters() {
    assert!(same_text("event", "event"));
    assert!(!same_text("event", "events"));
    assert!(!same_text("state", "event"));
}

#[test]
fn empty_file_has_no_history() {
    assert_eq!(RolloutRecorder::get_rollout_history("", &vec![]), InitialHistory::New);
    assert_eq!(read_records(""), Vec::<LineRecord>::new());
}

#[test]
fn blank_and_state_lines_hold_nothing() {
    let text = "\n   \n{\"record_type\":\"state\"}\n{\"record_type\":\"mystery\"}\nnot-json\n";
    let keep = vec![true; 5];
    assert_eq!(RolloutRecorder::get_rollout_history(text, &keep), InitialHistory::New);
    assert_eq!(
        read_records(text),
        vec![
            LineRecord::Blank,
            LineRecord::Blank,
            LineRecord::State,
            LineRecord::Unknown("mystery".to_string()),
            LineRecord::Malformed,
        ]
    );
}

#[test]
fn history_keeps_file_order() {
    let text = "{\"a\":1}\n{\"record_type\":\"event\",\"b\":2}\n{\"c\":3}\n";
    assert_eq!(
        RolloutRecorder::get_rollout_history(text, &vec![true, true, true]),
        InitialHistory::Resumed(vec![
            response("{\"a\":1}"),
            event("{\"b\":2}"),
            response("{\"c\":3}"),
        ])
    );
}

#[test]
fn unkept_lines_stay_out_of_the_history() {
    let text = "{\"a\":1}\n{\"record_type\":\"event\",\"b\":2}\n{\"c\":3}\n";
    assert_eq!(
        RolloutRecorder::get_rollout_history(text, &vec![false, true, true]),
        InitialHistory::Resumed(vec![event("{\"b\":2}"), response("{\"c\":3}")])
    );
    assert_eq!(
        RolloutRecorder::get_rollout_history(text, &vec![true, false, false]),
        InitialHistory::Resumed(vec![response("{\"a\":1}")])
    );
    assert_eq!(
        RolloutRecorder::get_rollout_history(text, &vec![false, false, false]),
        InitialHistory::New
    );
}

#[test]
fn a_line_without_a_word_is_not_kept() {
    let text = "{\"a\":1}\n{\"b\":2}\n";
    assert_eq!(
        RolloutRecorder::get_rollout_history(text, &vec![true]),
        InitialHistory::Resumed(vec![response("{\"a\":1}")])
    );
    assert_eq!(RolloutRecorder::get_rollout_history(text, &vec![]), InitialHistory::New);
}

#[test]
fn session_headers_are_always_kept() {
    let text = format!("{}\n{{\"a\":1}}\n", HEADER);
    assert_eq!(
        RolloutRecorder::get_rollout_history(&text, &vec![false, false]),
        InitialHistory::Resumed(vec![RolloutItem::SessionMeta(header())])
    );
    assert_eq!(
        RolloutRecorder::get_rollout_history(&text, &vec![]),
        InitialHistory::Resumed(vec![RolloutItem::SessionMeta(header())])
    );
}

#[test]
fn invalid_line_anywhere_is_skipped() {
    let lines = [HEADER, "{\"a\":1}", "{\"record_type\":\"event\",\"b\":2}", "{\"c\":3}"];
    let whole: String = lines.iter().map(|line| format!("{}\n", line)).collect();
    let expected = RolloutRecorder::get_rollout_history(&whole, &vec![true; 4]);
    assert_eq!(
        expected,
        InitialHistory::Resumed(vec![
            RolloutItem::SessionMeta(header()),
            response("{\"a\":1}"),
            event("{\"b\":2}"),
            response("{\"c\":3}"),
        ])
    );
    for at in 0..=lines.len() {
        for bad in ["not-json", "{\"unterminated\":", "}{", "{\"a\":1}}"] {
            let mut text = String::new();
            for (i, line) in lines.iter().enumerate() {
                if i == at {
                    text.push_str(bad);
                    text.push('\n');
                }
                text.push_str(line);
                text.push('\n');
            }
            if at == lines.len() {
                text.push_str(bad);
                text.push('\n');
            }
            assert_eq!(RolloutRecorder::get_rollout_history(&text, &vec![true; 5]), expected);
        }
    }
}

#[test]
fn half_written_last_line_is_skipped() {
    let text = "{\"a\":1}\n{\"record_type\":\"event\",\"b\"";
    assert_eq!(
        RolloutRecorder::get_rollout_history(text, &vec![true, true]),
        InitialHistory::Resumed(vec![response("{\"a\":1}")])
    );
}

#[test]
fn resume_follows_the_records() {
    let records = vec![
        LineRecord::Malformed,
        LineRecord::Response(doc("1")),
        LineRecord::InvalidMeta,
        LineRecord::Event(doc("{}")),
        LineRecord::SessionMeta { prior: true, header: header() },
        LineRecord::Unknown("x".to_string()),
    ];
    assert_eq!(
        resume(&records, &vec![true; 6]),
        InitialHistory::Resumed(vec![
            response("1"),
            event("{}"),
            RolloutItem::SessionMeta(header()),
        ])
    );
    assert_eq!(resume(&Vec::new(), &vec![true]), InitialHistory::New);
}

#[test]
fn windows_line_endings_are_read() {
    let text = "{\"a\":1}\r\n{\"record_type\":\"state\"}\r\n{\"b\":2}\r\n";
    assert_eq!(
        RolloutRecorder::get_rollout_history(text, &vec![true, true, true]),
        InitialHistory::Resumed(vec![response("{\"a\":1}"), response("{\"b\":2}")])
    );
}
