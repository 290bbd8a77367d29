use rollout::clock::DateTime;
use rollout::json::Json;
use rollout::record::{Event, ResponseItem, RolloutItem};
use rollout::recorder::{
    create_log_file, Config, RecorderError, RolloutRecorder, MAILBOX_CAPACITY,
};
use rollout::session::{SessionMeta, SessionMetaWithGit, SessionStateSnapshot};
use rollout::writer::RolloutCmd;

const ID: u128 = 0x5973b6c0_94b8_487b_a530_2aeb6098ae0e;

fn config(home: &str) -> Config {
    Config {
        codex_home: home.to_string(),
        cwd: "/work/project".to_string(),
        responses_originator_header: "codex_cli_rs".to_string(),
        cli_version: "0.42.0".to_string(),
    }
}

fn at(year: i32, month: u8, day: u8, hour: u8, minute: u8, second: u8, ms: u16) -> DateTime {
    DateTime { year, month, day, hour, minute, second, millisecond: ms }
}

fn item(text: &str, persisted: bool) -> ResponseItem {
    ResponseItem { body: Json::parse(text).unwrap(), persisted }
}

fn event(text: &str, persisted: bool) -> Event {
    Event { body: Json::parse(text).unwrap(), persisted }
}

fn instant(local: DateTime, offset_hours: i8) -> time::OffsetDateTime {
    let month = time::Month::try_from(local.month).unwrap();
    let date = time::Date::from_calendar_date(local.year, month, local.day).unwrap();
    let clock =
        time::Time::from_hms_milli(local.hour, local.minute, local.second, local.millisecond)
            .unwrap();
    let offset = time::UtcOffset::from_hms(offset_hours, 0, 0).unwrap();
    time::OffsetDateTime::new_in_offset(date, clock, offset)
}

fn recorder() -> RolloutRecorder {
    let now = at(2025, 5, 7, 17, 24, 21, 0);
    RolloutRecorder::new_at(&config("/home"), ID, None, &now, &now).unwrap().recorder
}

#[test]
fn mailbox_holds_256_commands() {
    assert_eq!(MAILBOX_CAPACITY, 256);
}

#[test]
fn timestamps_are_formatted_in_fixed_width() {
    let t = at(2025, 5, 7, 17, 24, 21, 123);
    assert_eq!(t.format_timestamp(), Some("2025-05-07T17:24:21.123Z".to_string()));
    assert_eq!(t.format_file_stamp(), Some("2025-05-07T17-24-21".to_string()));
    let early = at(7, 1, 2, 3, 4, 5, 6);
    assert_eq!(early.format_timestamp(), Some("0007-01-02T03:04:05.006Z".to_string()));
    assert_eq!(early.format_file_stamp(), Some("0007-01-02T03-04-05".to_string()));
    let late = at(9999, 12, 31, 23, 59, 59, 999);
    assert_eq!(late.format_timestamp(), Some("9999-12-31T23:59:59.999Z".to_string()));
}

#[test]
fn only_dates_of_the_calendar_are_valid() {
    assert!(at(2024, 2, 29, 0, 0, 0, 0).is_valid());
    assert!(at(2000, 2, 29, 0, 0, 0, 0).is_valid());
    assert!(!at(2023, 2, 29, 0, 0, 0, 0).is_valid());
    assert!(!at(1900, 2, 29, 0, 0, 0, 0).is_valid());
    assert!(at(2025, 4, 30, 0, 0, 0, 0).is_valid());
    assert!(!at(2025, 4, 31, 0, 0, 0, 0).is_valid());
    assert!(at(2025, 12, 31, 0, 0, 0, 0).is_valid());
    assert!(!at(2025, 13, 1, 0, 0, 0, 0).is_valid());
    assert!(!at(2025, 0, 1, 0, 0, 0, 0).is_valid());
    assert!(!at(2025, 1, 0, 0, 0, 0, 0).is_valid());
    assert!(!at(2025, 1, 1, 24, 0, 0, 0).is_valid());
    assert!(!at(2025, 1, 1, 0, 60, 0, 0).is_valid());
    assert!(!at(2025, 1, 1, 0, 0, 60, 0).is_valid());
    assert!(!at(2025, 1, 1, 0, 0, 0, 1000).is_valid());
    assert!(!at(-1, 1, 1, 0, 0, 0, 0).is_valid());
    assert!(!at(10000, 1, 1, 0, 0, 0, 0).is_valid());
    assert_eq!(at(2023, 2, 29, 0, 0, 0, 0).format_timestamp(), None);
    assert_eq!(at(2023, 2, 29, 0, 0, 0, 0).format_file_stamp(), None);
}

#[test]
fn journal_is_filed_by_local_date() {
    let info = create_log_file(&config("/home/u/.codex"), ID, &at(2025, 5, 7, 17, 24, 21, 9))
        .unwrap();
    assert_eq!(info.dir, "/home/u/.codex/sessions/2025/05/07");
    assert_eq!(
        info.path,
        "/home/u/.codex/sessions/2025/05/07/\
         rollout-2025-05-07T17-24-21-5973b6c0-94b8-487b-a530-2aeb6098ae0e.jsonl"
    );
    assert_eq!(info.session_id, ID);
    assert_eq!(info.timestamp, at(2025, 5, 7, 17, 24, 21, 9));
}

#[test]
fn home_directory_may_end_with_a_slash_or_be_empty() {
    let now = at(2025, 12, 1, 0, 0, 0, 0);
    assert_eq!(create_log_file(&config("/"), 1, &now).unwrap().dir, "/sessions/2025/12/01");
    assert_eq!(create_log_file(&config("data/"), 1, &now).unwrap().dir, "data/sessions/2025/12/01");
    let info = create_log_file(&config(""), 1, &now).unwrap();
    assert_eq!(info.dir, "sessions/2025/12/01");
    assert_eq!(
        info.path,
        "sessions/2025/12/01/rollout-2025-12-01T00-00-00-00000000-0000-0000-0000-000000000001.jsonl"
    );
}

#[test]
fn identifier_is_written_in_hex_digits_with_hyphens() {
    let now = at(2025, 5, 7, 17, 24, 21, 0);
    let ids = [
        0u128,
        1,
        u128::MAX,
        ID,
        0x0123_4567_89ab_cdef_fedc_ba98_7654_3210,
        0xf000_0000_0000_0000_0000_0000_0000_000a,
    ];
    for id in ids {
        let mut expected = String::new();
        for place in 0..32u32 {
            if place == 8 || place == 12 || place == 16 || place == 20 {
                expected.push('-');
            }
            let digit = ((id >> (4 * (31 - place))) & 0xf) as u32;
            expected.push(char::from_digit(digit, 16).unwrap());
        }
        let info = create_log_file(&config("/h"), id, &now).unwrap();
        assert_eq!(
            info.path,
            format!("/h/sessions/2025/05/07/rollout-2025-05-07T17-24-21-{}.jsonl", expected)
        );
        assert!(!info.path["/h/sessions/2025/05/07/".len()..].contains(':'));
        assert!(!info.path["/h/sessions/2025/05/07/".len()..].contains('/'));
    }
}

#[test]
fn different_identifiers_are_filed_apart() {
    let now = at(2025, 5, 7, 17, 24, 21, 0);
    let one = create_log_file(&config("/h"), ID, &now).unwrap();
    let other = create_log_file(&config("/h"), ID + 1, &now).unwrap();
    assert_eq!(one.dir, other.dir);
    assert_ne!(one.path, other.path);
}

#[test]
fn journal_cannot_be_filed_without_a_valid_time() {
    assert_eq!(
        create_log_file(&config("/home"), ID, &at(2025, 2, 30, 0, 0, 0, 0)),
        Err(RecorderError::Timestamp)
    );
}

#[test]
fn new_session_holds_utc_in_its_header() {
    let start = RolloutRecorder::new_at(
        &config("/home/u/.codex"),
        ID,
        Some("be brief".to_string()),
        &at(2025, 5, 7, 17, 24, 21, 123),
        &at(2025, 5, 7, 15, 24, 21, 123),
    )
    .unwrap();
    assert_eq!(start.dir, "/home/u/.codex/sessions/2025/05/07");
    assert_eq!(
        start.recorder.path(),
        "/home/u/.codex/sessions/2025/05/07/\
         rollout-2025-05-07T17-24-21-5973b6c0-94b8-487b-a530-2aeb6098ae0e.jsonl"
    );
    assert_eq!(
        start.meta,
        SessionMeta {
            id: ID,
            timestamp: "2025-05-07T15:24:21.123Z".to_string(),
            cwd: "/work/project".to_string(),
            originator: "codex_cli_rs".to_string(),
            cli_version: "0.42.0".to_string(),
            instructions: Some("be brief".to_string()),
        }
    );
}

#[test]
fn new_session_at_an_instant_is_filed_by_local_time() {
    let now = instant(at(2025, 5, 7, 17, 24, 21, 123), 2);
    let start =
        RolloutRecorder::new(&config("/home/u/.codex"), ID, Some("be brief".to_string()), &now)
            .unwrap();
    let same = RolloutRecorder::new_at(
        &config("/home/u/.codex"),
        ID,
        Some("be brief".to_string()),
        &at(2025, 5, 7, 17, 24, 21, 123),
        &at(2025, 5, 7, 15, 24, 21, 123),
    )
    .unwrap();
    assert_eq!(start, same);
    assert_eq!(start.meta.timestamp, "2025-05-07T15:24:21.123Z");
    assert_eq!(start.dir, "/home/u/.codex/sessions/2025/05/07");
}

#[test]
fn utc_may_fall_on_another_day_than_local_time() {
    let now = instant(at(2025, 1, 1, 0, 30, 0, 0), 1);
    let start = RolloutRecorder::new(&config("/h"), ID, None, &now).unwrap();
    assert_eq!(start.dir, "/h/sessions/2025/01/01");
    assert_eq!(start.meta.timestamp, "2024-12-31T23:30:00.000Z");
    let now = instant(at(2024, 2, 28, 20, 0, 0, 5), -5);
    let start = RolloutRecorder::new(&config("/h"), ID, None, &now).unwrap();
    assert_eq!(start.dir, "/h/sessions/2024/02/28");
    assert_eq!(start.meta.timestamp, "2024-02-29T01:00:00.005Z");
}

#[test]
fn new_session_fails_without_a_time_to_format() {
    let ok = at(2025, 5, 7, 17, 24, 21, 0);
    let bad = at(2025, 2, 29, 0, 0, 0, 0);
    assert_eq!(
        RolloutRecorder::new_at(&config("/h"), ID, None, &bad, &ok),
        Err(RecorderError::Timestamp)
    );
    assert_eq!(
        RolloutRecorder::new_at(&config("/h"), ID, None, &ok, &bad),
        Err(RecorderError::Timestamp)
    );
    assert_eq!(
        RolloutRecorder::new_at(&config("/h"), ID, None, &ok, &at(-1, 12, 31, 23, 0, 0, 0)),
        Err(RecorderError::Timestamp)
    );
    assert!(RolloutRecorder::new_at(&config("/h"), ID, None, &ok, &ok).is_ok());
    let before_year_zero = instant(at(0, 1, 1, 0, 0, 0, 0), 1);
    assert_eq!(
        RolloutRecorder::new(&config("/h"), ID, None, &before_year_zero),
        Err(RecorderError::Timestamp)
    );
    let past_the_last_year = instant(at(9999, 12, 31, 23, 30, 0, 0), -1);
    assert_eq!(
        RolloutRecorder::new(&config("/h"), ID, None, &past_the_last_year),
        Err(RecorderError::Timestamp)
    );
}

#[test]
fn wanted_records_are_queued_one_by_one() {
    let recorder = recorder();
    assert_eq!(
        recorder.record_response_item(&item("{\"a\":1}", true)),
        Some(RolloutCmd::AddResponseItems(vec![item("{\"a\":1}", true)]))
    );
    assert_eq!(
        recorder.record_event(&event("{\"a\":1}", true)),
        Some(RolloutCmd::AddEvents(vec![event("{\"a\":1}", true)]))
    );
    assert_eq!(
        recorder.record_items(RolloutItem::ResponseItem(item("[]", true))),
        Some(RolloutCmd::AddResponseItems(vec![item("[]", true)]))
    );
    assert_eq!(
        recorder.record_items(RolloutItem::Event(event("{}", true))),
        Some(RolloutCmd::AddEvents(vec![event("{}", true)]))
    );
}

#[test]
fn unwanted_records_are_not_queued() {
    let recorder = recorder();
    assert_eq!(recorder.record_response_item(&item("{\"a\":1}", false)), None);
    assert_eq!(recorder.record_event(&event("{\"a\":1}", false)), None);
    assert_eq!(recorder.record_items(RolloutItem::ResponseItem(item("1", false))), None);
    assert_eq!(recorder.record_items(RolloutItem::Event(event("{}", false))), None);
}

#[test]
fn prior_session_header_is_always_queued() {
    let recorder = recorder();
    let header = SessionMetaWithGit {
        meta: SessionMeta {
            id: 7,
            timestamp: "t".to_string(),
            cwd: "c".to_string(),
            originator: "o".to_string(),
            cli_version: "v".to_string(),
            instructions: None,
        },
        git: None,
    };
    assert_eq!(
        recorder.record_session_meta(&header),
        RolloutCmd::AddSessionMeta(header.clone())
    );
    assert_eq!(
        recorder.record_items(RolloutItem::SessionMeta(header.clone())),
        Some(RolloutCmd::AddSessionMeta(header))
    );
}

#[test]
fn closed_queue_is_an_error_of_the_command() {
    let items = RolloutCmd::AddResponseItems(vec![]);
    let events = RolloutCmd::AddEvents(vec![]);
    assert_eq!(RolloutRecorder::queued(&items, true), Ok(()));
    assert_eq!(RolloutRecorder::queued(&items, false), Err(RecorderError::QueueItems));
    assert_eq!(RolloutRecorder::queued(&events, false), Err(RecorderError::QueueEvent));
    assert_eq!(
        RolloutRecorder::queued(&RolloutCmd::Shutdown, false),
        Err(RecorderError::SendShutdown)
    );
    assert_eq!(RolloutRecorder::queued(&RolloutCmd::Shutdown, true), Ok(()));
    let header = SessionMetaWithGit {
        meta: SessionMeta {
            id: 7,
            timestamp: String::new(),
            cwd: String::new(),
            originator: String::new(),
            cli_version: String::new(),
            instructions: None,
        },
        git: None,
    };
    assert_eq!(
        RolloutRecorder::queued(&RolloutCmd::AddSessionMeta(header), false),
        Err(RecorderError::QueueSessionMeta)
    );
}

#[test]
fn shutdown_reports_the_step_that_failed() {
    assert_eq!(recorder().shutdown(), RolloutCmd::Shutdown);
    assert_eq!(RolloutRecorder::shutdown_result(true, true), Ok(()));
    assert_eq!(RolloutRecorder::shutdown_result(true, false), Err(RecorderError::AwaitShutdown));
    assert_eq!(RolloutRecorder::shutdown_result(false, false), Err(RecorderError::SendShutdown));
    assert_eq!(RolloutRecorder::shutdown_result(false, true), Err(RecorderError::SendShutdown));
}

#[test]
fn errors_say_what_failed() {
    assert_eq!(RecorderError::Timestamp.message(), "failed to format timestamp");
    assert_eq!(RecorderError::QueueItems.message(), "failed to queue rollout items");
    assert_eq!(RecorderError::QueueEvent.message(), "failed to queue rollout event");
    assert_eq!(RecorderError::QueueSessionMeta.message(), "failed to queue rollout session meta");
    assert_eq!(
        RecorderError::SendShutdown.message(),
        "failed to send rollout shutdown command"
    );
    assert_eq!(RecorderError::AwaitShutdown.message(), "failed waiting for rollout shutdown");
}

#[test]
fn recorder_keeps_its_path() {
    let recorder = recorder();
    let copy = recorder.clone();
    assert_eq!(recorder.path(), copy.path());
    assert_eq!(
        recorder.path(),
        "/home/sessions/2025/05/07/\
         rollout-2025-05-07T17-24-21-5973b6c0-94b8-487b-a530-2aeb6098ae0e.jsonl"
    );
}

#[test]
fn state_snapshot_holds_nothing() {
    assert_eq!(SessionStateSnapshot::default(), SessionStateSnapshot {});
}
