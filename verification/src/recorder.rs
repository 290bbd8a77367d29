//! The recorder: where a session's journal goes, what its header says, and
//! what a producer queues for the writer. The caller owns the queue and the
//! file.

use vstd::prelude::*;
use crate::clock::{
    fields_of, four_digits, instant_fields, instant_utc, push_four, push_two, to_utc, two_digits,
    DateTime,
};
use crate::model::{view_of, views};
use crate::record::{Event, ResponseItem, RolloutItem, RolloutItemView};
use crate::replay::{read_records, replay, resume, InitialHistory};
use crate::session::{
    lemma_uuid_text_tells_apart, print_uuid, uuid_text, SessionMeta, SessionMetaView,
    SessionMetaWithGit,
};
use crate::writer::{RolloutCmd, RolloutCmdView};

verus! {

/// How many commands the queue between the producers and the writer holds
/// before a producer has to wait.
pub const MAILBOX_CAPACITY: usize = 256;

/// What the recorder is told of its surroundings.
#[derive(Debug, PartialEq, Eq)]
pub struct Config {
    /// The directory under which sessions are kept.
    pub codex_home: String,
    /// The working directory of the session.
    pub cwd: String,
    /// Who starts the session.
    pub responses_originator_header: String,
    /// The version of the program, as the build gave it.
    pub cli_version: String,
}

/// Why the recorder could not do what was asked.
#[derive(Clone, Copy, Debug, PartialEq, Eq, Structural)]
pub enum RecorderError {
    /// The time could not be formatted.
    Timestamp,
    /// Response items could not be queued: the writer is gone.
    QueueItems,
    /// An event could not be queued: the writer is gone.
    QueueEvent,
    /// A session header could not be queued: the writer is gone.
    QueueSessionMeta,
    /// The shutdown could not be queued: the writer is gone.
    SendShutdown,
    /// The shutdown was queued and never acknowledged.
    AwaitShutdown,
}

impl RecorderError {
    /// The error in words.
    pub open spec fn message_text(self) -> Seq<char> {
        match self {
            RecorderError::Timestamp => "failed to format timestamp"@,
            RecorderError::QueueItems => "failed to queue rollout items"@,
            RecorderError::QueueEvent => "failed to queue rollout event"@,
            RecorderError::QueueSessionMeta => "failed to queue rollout session meta"@,
            RecorderError::SendShutdown => "failed to send rollout shutdown command"@,
            RecorderError::AwaitShutdown => "failed waiting for rollout shutdown"@,
        }
    }

    /// The error in words.
    pub fn message(&self) -> (text: String)
        ensures
            text@ == self.message_text(),
    {
        match self {
            RecorderError::Timestamp => String::from_str("failed to format timestamp"),
            RecorderError::QueueItems => String::from_str("failed to queue rollout items"),
            RecorderError::QueueEvent => String::from_str("failed to queue rollout event"),
            RecorderError::QueueSessionMeta => String::from_str(
                "failed to queue rollout session meta",
            ),
            RecorderError::SendShutdown => String::from_str(
                "failed to send rollout shutdown command",
            ),
            RecorderError::AwaitShutdown => String::from_str("failed waiting for rollout shutdown"),
        }
    }
}

/// `name` under the directory `base`.
pub open spec fn join(base: Seq<char>, name: Seq<char>) -> Seq<char> {
    if base.len() == 0 || base.last() == '/' {
        base + name
    } else {
        base + seq!['/'] + name
    }
}

/// The directory of the sessions of one day: `sessions/YYYY/MM/DD` under
/// `root`.
pub open spec fn session_dir(root: Seq<char>, now: DateTime) -> Seq<char> {
    join(
        join(
            join(join(root, "sessions"@), four_digits(now.year as int)),
            two_digits(now.month as int),
        ),
        two_digits(now.day as int),
    )
}

/// The name of a journal's file: `rollout-YYYY-MM-DDThh-mm-ss-` and the
/// session's identifier, with the extension `.jsonl`.
pub open spec fn file_name(now: DateTime, session_id: u128) -> Seq<char> {
    "rollout-"@ + now.file_stamp_text() + seq!['-'] + uuid_text(session_id) + ".jsonl"@
}

/// Whether a text can stand as one level of a path on every file system: it
/// holds no slash, and no colon.
pub open spec fn plain_name(text: Seq<char>) -> bool {
    forall|i: int| 0 <= i < text.len() ==> (#[trigger] text[i]) != ':' && text[i] != '/'
}

/// Two plain names, one after the other, are a plain name.
proof fn lemma_plain_concat(a: Seq<char>, b: Seq<char>)
    requires
        plain_name(a),
        plain_name(b),
    ensures
        plain_name(a + b),
{
    assert forall|i: int| 0 <= i < (a + b).len() implies (#[trigger] (a + b)[i]) != ':' && (a
        + b)[i] != '/' by {
        if i < a.len() {
            assert((a + b)[i] == a[i]);
        } else {
            assert((a + b)[i] == b[i - a.len()]);
        }
    }
}

/// A number written in digits is a plain name.
proof fn lemma_digits_are_plain(n: int)
    ensures
        plain_name(two_digits(n)),
        plain_name(four_digits(n)),
        plain_name(seq!['-']),
        plain_name(seq!['T']),
{
}

/// The text of an identifier is a plain name.
proof fn lemma_uuid_text_is_plain(id: u128)
    ensures
        plain_name(uuid_text(id)),
{
}

/// The time in a file's name is a plain name.
proof fn lemma_file_stamp_is_plain(now: DateTime)
    ensures
        plain_name(now.file_stamp_text()),
{
    let dash = seq!['-'];
    let mark = seq!['T'];
    let year = four_digits(now.year as int);
    let month = two_digits(now.month as int);
    let day = two_digits(now.day as int);
    let hour = two_digits(now.hour as int);
    let minute = two_digits(now.minute as int);
    let second = two_digits(now.second as int);
    lemma_digits_are_plain(now.year as int);
    lemma_digits_are_plain(now.month as int);
    lemma_digits_are_plain(now.day as int);
    lemma_digits_are_plain(now.hour as int);
    lemma_digits_are_plain(now.minute as int);
    lemma_digits_are_plain(now.second as int);
    lemma_plain_concat(year, dash);
    lemma_plain_concat(year + dash, month);
    lemma_plain_concat(year + dash + month, dash);
    lemma_plain_concat(year + dash + month + dash, day);
    let date = now.date_text();
    lemma_plain_concat(date, mark);
    lemma_plain_concat(date + mark, hour);
    lemma_plain_concat(date + mark + hour, dash);
    lemma_plain_concat(date + mark + hour + dash, minute);
    lemma_plain_concat(date + mark + hour + dash + minute, dash);
    lemma_plain_concat(date + mark + hour + dash + minute + dash, second);
}

/// The name of a journal's file holds neither a colon nor a slash, whatever
/// the time and the identifier: it is one level of a path, on file systems
/// that take no colon too.
pub proof fn lemma_file_name_is_plain(now: DateTime, session_id: u128)
    ensures
        plain_name(file_name(now, session_id)),
{
    let stamp = now.file_stamp_text();
    let id = uuid_text(session_id);
    let dash = seq!['-'];
    assert(plain_name("rollout-"@)) by {
        reveal_strlit("rollout-");
    }
    assert(plain_name(".jsonl"@)) by {
        reveal_strlit(".jsonl");
    }
    lemma_file_stamp_is_plain(now);
    lemma_uuid_text_is_plain(session_id);
    lemma_digits_are_plain(0);
    lemma_plain_concat("rollout-"@, stamp);
    lemma_plain_concat("rollout-"@ + stamp, dash);
    lemma_plain_concat("rollout-"@ + stamp + dash, id);
    lemma_plain_concat("rollout-"@ + stamp + dash + id, ".jsonl"@);
}

/// Uniqueness: sessions begun under the same home directory at the same
/// time are filed under different paths where their identifiers differ.
pub proof fn lemma_paths_tell_sessions_apart(root: Seq<char>, now: DateTime, a: u128, b: u128)
    requires
        join(session_dir(root, now), file_name(now, a)) == join(
            session_dir(root, now),
            file_name(now, b),
        ),
    ensures
        a == b,
{
    let dir = session_dir(root, now);
    let above = if dir.len() == 0 || dir.last() == '/' {
        dir
    } else {
        dir + seq!['/']
    };
    let before = "rollout-"@ + now.file_stamp_text() + seq!['-'];
    let start = (above.len() + before.len()) as int;
    assert(join(dir, file_name(now, a)) =~= above + file_name(now, a));
    assert(join(dir, file_name(now, b)) =~= above + file_name(now, b));
    assert(uuid_text(a) =~= (above + file_name(now, a)).subrange(start, start + 36));
    assert(uuid_text(b) =~= (above + file_name(now, b)).subrange(start, start + 36));
    lemma_uuid_text_tells_apart(a, b);
}

/// Appends `name` as one more level of a path.
fn push_level(path: &mut String, name: &str)
    ensures
        final(path)@ == join(old(path)@, name@),
{
    let ghost before = path@;
    let len = path.as_str().unicode_len();
    if len > 0 && path.as_str().get_char(len - 1) != '/' {
        path.push('/');
        proof {
            assert(before.push('/') =~= before + seq!['/']);
        }
    }
    path.append(name);
}

/// Where a new journal goes.
#[derive(Debug, PartialEq, Eq)]
pub struct LogFileInfo {
    /// The directory to create, with all that is missing above it.
    pub dir: String,
    /// The file to open for appending.
    pub path: String,
    /// The session's identifier, which the file's name holds too.
    pub session_id: u128,
    /// The time at which the session began.
    pub timestamp: DateTime,
}

/// Says where the journal of the session `session_id`, begun at the local
/// time `now`, goes under the home directory of `config`.
pub fn create_log_file(config: &Config, session_id: u128, now: &DateTime) -> (r: Result<
    LogFileInfo,
    RecorderError,
>)
    ensures
        match r {
            Ok(info) => {
                &&& now.valid()
                &&& info.dir@ == session_dir(config.codex_home@, *now)
                &&& info.path@ == join(info.dir@, file_name(*now, session_id))
                &&& info.session_id == session_id
                &&& info.timestamp == *now
            },
            Err(e) => !now.valid() && e == RecorderError::Timestamp,
        },
{
    let stamp = match now.format_file_stamp() {
        Some(stamp) => stamp,
        None => {
            return Err(RecorderError::Timestamp);
        },
    };
    let mut dir = config.codex_home.clone();
    push_level(&mut dir, "sessions");
    let mut year = String::new();
    push_four(&mut year, now.year as u32);
    let mut month = String::new();
    push_two(&mut month, now.month as u32);
    let mut day = String::new();
    push_two(&mut day, now.day as u32);
    proof {
        assert(year@ =~= four_digits(now.year as int));
        assert(month@ =~= two_digits(now.month as int));
        assert(day@ =~= two_digits(now.day as int));
    }
    push_level(&mut dir, year.as_str());
    push_level(&mut dir, month.as_str());
    push_level(&mut dir, day.as_str());
    let mut name = String::from_str("rollout-");
    name.append(stamp.as_str());
    name.push('-');
    let id = print_uuid(session_id);
    name.append(id.as_str());
    name.append(".jsonl");
    proof {
        assert(name@ =~= file_name(*now, session_id));
    }
    let mut path = dir.clone();
    push_level(&mut path, name.as_str());
    Ok(LogFileInfo { dir, path, session_id, timestamp: *now })
}

/// The command that a producer queues for a record, if any: a response item
/// or an event that the persistence policy does not want is dropped at once.
pub open spec fn command_for(item: RolloutItemView) -> Option<RolloutCmdView> {
    match item {
        RolloutItemView::ResponseItem(item) => if item.persisted {
            Some(RolloutCmdView::AddResponseItems(seq![item]))
        } else {
            None
        },
        RolloutItemView::Event(event) => if event.persisted {
            Some(RolloutCmdView::AddEvents(seq![event]))
        } else {
            None
        },
        RolloutItemView::SessionMeta(header) => Some(RolloutCmdView::AddSessionMeta(header)),
    }
}

/// The producers' side of a journal.
#[derive(Debug, PartialEq, Eq)]
pub struct RolloutRecorder {
    path: String,
}

/// What a new session begins with.
#[derive(Debug, PartialEq, Eq)]
pub struct SessionStart {
    /// The producers' handle.
    pub recorder: RolloutRecorder,
    /// The header that the writer begins the journal with.
    pub meta: SessionMeta,
    /// The directory to create before the file is opened.
    pub dir: String,
}

/// A `SessionStart` as contracts see it.
pub struct SessionStartView {
    pub path: Seq<char>,
    pub meta: SessionMetaView,
    pub dir: Seq<char>,
}

impl View for SessionStart {
    type V = SessionStartView;

    open spec fn view(&self) -> SessionStartView {
        SessionStartView { path: self.recorder.path_text(), meta: self.meta@, dir: self.dir@ }
    }
}

/// What a session begins with, where it is begun at the local time `local`,
/// which is `utc` in UTC: the journal goes under the directory of the local
/// day, in a file named by the local time and the session's identifier, and
/// the header holds the identifier, the time in UTC and what `config` and
/// the caller say. `None` where one of the two times is not valid.
pub open spec fn session_start(
    config: Config,
    uuid: u128,
    instructions: Option<Seq<char>>,
    local: DateTime,
    utc: DateTime,
) -> Option<SessionStartView> {
    if local.valid() && utc.valid() {
        Some(
            SessionStartView {
                path: join(session_dir(config.codex_home@, local), file_name(local, uuid)),
                meta: SessionMetaView {
                    id: uuid,
                    timestamp: utc.timestamp_text(),
                    cwd: config.cwd@,
                    originator: config.responses_originator_header@,
                    cli_version: config.cli_version@,
                    instructions,
                },
                dir: session_dir(config.codex_home@, local),
            },
        )
    } else {
        None
    }
}

/// What a session begins with, where it is begun at the instant `now`: what
/// `session_start` gives for the fields of `now` at its own offset and the
/// fields of the same instant in UTC. `None` where the instant has no time in
/// UTC or one of the two times is not valid.
pub open spec fn session_at(
    config: Config,
    uuid: u128,
    instructions: Option<Seq<char>>,
    now: time::OffsetDateTime,
) -> Option<SessionStartView> {
    match instant_utc(now) {
        Some(instant) => session_start(
            config,
            uuid,
            instructions,
            instant_fields(now),
            instant_fields(instant),
        ),
        None => None,
    }
}

impl Clone for RolloutRecorder {
    fn clone(&self) -> (copy: Self)
        ensures
            copy.path_text() == self.path_text(),
    {
        RolloutRecorder { path: self.path.clone() }
    }
}

impl RolloutRecorder {
    /// The path of the journal's file.
    pub closed spec fn path_text(&self) -> Seq<char> {
        self.path@
    }

    /// Begins a session at the instant `now`: the journal is filed by the
    /// date and time of `now` at its own offset, which is the local one, and
    /// the header holds the same instant in UTC. The session is the one that
    /// `new_at` begins with those two times. Fails where the instant has no
    /// time in UTC or a time cannot be formatted.
    pub fn new(
        config: &Config,
        uuid: u128,
        instructions: Option<String>,
        now: &time::OffsetDateTime,
    ) -> (r: Result<SessionStart, RecorderError>)
        ensures
            match r {
                Ok(start) => session_at(*config, uuid, instructions.deep_view(), *now) == Some(
                    start@,
                ),
                Err(e) => {
                    &&& e == RecorderError::Timestamp
                    &&& session_at(*config, uuid, instructions.deep_view(), *now) is None
                },
            },
    {
        let local = fields_of(now);
        match to_utc(now) {
            Some(instant) => {
                let utc = fields_of(&instant);
                RolloutRecorder::new_at(config, uuid, instructions, &local, &utc)
            },
            None => Err(RecorderError::Timestamp),
        }
    }

    /// Begins a session: says where its journal goes and what its header
    /// holds. `local` is the local time, by which the journal is filed;
    /// `utc` is the same instant in UTC, which the header holds. Fails where
    /// one of them cannot be formatted.
    pub fn new_at(
        config: &Config,
        uuid: u128,
        instructions: Option<String>,
        local: &DateTime,
        utc: &DateTime,
    ) -> (r: Result<SessionStart, RecorderError>)
        ensures
            match r {
                Ok(start) => session_start(*config, uuid, instructions.deep_view(), *local, *utc)
                    == Some(start@),
                Err(e) => {
                    &&& e == RecorderError::Timestamp
                    &&& session_start(*config, uuid, instructions.deep_view(), *local, *utc)
                        is None
                },
            },
    {
        let info = match create_log_file(config, uuid, local) {
            Ok(info) => info,
            Err(e) => {
                return Err(e);
            },
        };
        let timestamp = match utc.format_timestamp() {
            Some(text) => text,
            None => {
                return Err(RecorderError::Timestamp);
            },
        };
        let meta = SessionMeta {
            id: info.session_id,
            timestamp,
            cwd: config.cwd.clone(),
            originator: config.responses_originator_header.clone(),
            cli_version: config.cli_version.clone(),
            instructions,
        };
        Ok(SessionStart { recorder: RolloutRecorder { path: info.path }, meta, dir: info.dir })
    }

    /// What to queue for a record; `None` where nothing is to be queued.
    pub fn record_items(&self, item: RolloutItem) -> (cmd: Option<RolloutCmd>)
        ensures
            view_of(cmd) == command_for(item@),
    {
        match item {
            RolloutItem::ResponseItem(item) => self.record_response_item(&item),
            RolloutItem::Event(event) => self.record_event(&event),
            RolloutItem::SessionMeta(header) => Some(self.record_session_meta(&header)),
        }
    }

    /// What to queue for a response item: nothing where the persistence
    /// policy does not want it.
    pub fn record_response_item(&self, item: &ResponseItem) -> (cmd: Option<RolloutCmd>)
        ensures
            view_of(cmd) == command_for(RolloutItemView::ResponseItem(item@)),
    {
        if !item.persisted {
            return None;
        }
        let mut items: Vec<ResponseItem> = Vec::new();
        items.push(item.clone());
        proof {
            assert(views(items@) =~= seq![item@]);
        }
        Some(RolloutCmd::AddResponseItems(items))
    }

    /// What to queue for an event: nothing where the persistence policy does
    /// not want it.
    pub fn record_event(&self, event: &Event) -> (cmd: Option<RolloutCmd>)
        ensures
            view_of(cmd) == command_for(RolloutItemView::Event(event@)),
    {
        if !event.persisted {
            return None;
        }
        let mut events: Vec<Event> = Vec::new();
        events.push(event.clone());
        proof {
            assert(views(events@) =~= seq![event@]);
        }
        Some(RolloutCmd::AddEvents(events))
    }

    /// What to queue for the header of an earlier session.
    pub fn record_session_meta(&self, meta: &SessionMetaWithGit) -> (cmd: RolloutCmd)
        ensures
            cmd@ == RolloutCmdView::AddSessionMeta(meta@),
    {
        RolloutCmd::AddSessionMeta(meta.clone())
    }

    /// How queueing a command ended: well where it was queued; where the
    /// queue was closed, with the error for that command.
    pub fn queued(cmd: &RolloutCmd, sent: bool) -> (r: Result<(), RecorderError>)
        ensures
            r is Ok <==> sent,
            !sent ==> r == Err::<(), RecorderError>(
                match cmd@ {
                    RolloutCmdView::AddResponseItems(_) => RecorderError::QueueItems,
                    RolloutCmdView::AddEvents(_) => RecorderError::QueueEvent,
                    RolloutCmdView::AddSessionMeta(_) => RecorderError::QueueSessionMeta,
                    RolloutCmdView::Shutdown => RecorderError::SendShutdown,
                },
            ),
    {
        if sent {
            return Ok(());
        }
        match cmd {
            RolloutCmd::AddResponseItems(_) => Err(RecorderError::QueueItems),
            RolloutCmd::AddEvents(_) => Err(RecorderError::QueueEvent),
            RolloutCmd::AddSessionMeta(_) => Err(RecorderError::QueueSessionMeta),
            RolloutCmd::Shutdown => Err(RecorderError::SendShutdown),
        }
    }

    /// What to queue to end the session. The caller queues it with a signal
    /// of its own, waits for the signal, and hands what happened to
    /// `shutdown_result`.
    pub fn shutdown(&self) -> (cmd: RolloutCmd)
        ensures
            cmd@ == RolloutCmdView::Shutdown,
    {
        RolloutCmd::Shutdown
    }

    /// How a shutdown ended: well where the command was queued and the
    /// writer acknowledged it; else with the step that failed.
    pub fn shutdown_result(sent: bool, acknowledged: bool) -> (r: Result<(), RecorderError>)
        ensures
            r == (if !sent {
                Err::<(), RecorderError>(RecorderError::SendShutdown)
            } else if !acknowledged {
                Err::<(), RecorderError>(RecorderError::AwaitShutdown)
            } else {
                Ok::<(), RecorderError>(())
            }),
    {
        if !sent {
            Err(RecorderError::SendShutdown)
        } else if !acknowledged {
            Err(RecorderError::AwaitShutdown)
        } else {
            Ok(())
        }
    }

    /// The path of the journal's file.
    pub fn path(&self) -> (path: &str)
        ensures
            path@ == self.path_text(),
    {
        self.path.as_str()
    }

    /// Replays the text of a journal. `keep[i]` is the caller's word on line
    /// `i`, where `read_records` finds a response item or an event there:
    /// whether the document reads as one and, for a response item, whether
    /// the persistence policy wants it.
    pub fn get_rollout_history(text: &str, keep: &Vec<bool>) -> (history: InitialHistory)
        ensures
            history@ == replay(text@, keep@),
            history is New <==> replay(text@, keep@).len() == 0,
    {
        let records = read_records(text);
        resume(&records, keep)
    }
}

} // verus!
