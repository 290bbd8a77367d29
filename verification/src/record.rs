//! The line codec: how each record becomes one line of the journal, and what
//! record a line of the journal holds. A line is handed out for writing only
//! after it was read back as the record it stands for.

use vstd::prelude::*;
use vstd::std_specs::convert::FromSpecImpl;
use crate::json::{json_parse, json_quote, json_without, parse_value, remove_member, Json};
use crate::model::view_of;
use crate::session::{
    decode_header, header_of, meta_line, read_str_member, same_meta, str_member,
    write_meta_text, SessionMetaWithGit, SessionMetaWithGitView,
};
use crate::text::{
    blank, is_blank, is_json_blank, json_blank, json_span, json_trimmed, lemma_single_line_part,
    push_piece, same_text, single_line,
};

verus! {

/// A response item: a unit of conversation or tool output that the caller
/// defines. The journal knows two things of it: the document it is written
/// as, and whether the persistence policy wants it kept.
#[derive(Debug, PartialEq, Eq)]
pub struct ResponseItem {
    pub body: Json,
    pub persisted: bool,
}

/// An event: something that happened in the session, as the caller defines
/// it. The journal knows two things of it: the document it is written as,
/// and whether the persistence policy wants it kept.
#[derive(Debug, PartialEq, Eq)]
pub struct Event {
    pub body: Json,
    pub persisted: bool,
}

/// A response item or an event as contracts see it.
pub struct PayloadView {
    pub body: Seq<char>,
    pub persisted: bool,
}

impl View for ResponseItem {
    type V = PayloadView;

    open spec fn view(&self) -> PayloadView {
        PayloadView { body: self.body@, persisted: self.persisted }
    }
}

impl Clone for ResponseItem {
    fn clone(&self) -> (copy: Self)
        ensures
            copy@ == self@,
    {
        ResponseItem { body: self.body.clone(), persisted: self.persisted }
    }
}

impl View for Event {
    type V = PayloadView;

    open spec fn view(&self) -> PayloadView {
        PayloadView { body: self.body@, persisted: self.persisted }
    }
}

impl Clone for Event {
    fn clone(&self) -> (copy: Self)
        ensures
            copy@ == self@,
    {
        Event { body: self.body.clone(), persisted: self.persisted }
    }
}

/// One record of a session.
#[derive(Debug, PartialEq, Eq)]
pub enum RolloutItem {
    ResponseItem(ResponseItem),
    Event(Event),
    SessionMeta(SessionMetaWithGit),
}

impl From<ResponseItem> for RolloutItem {
    fn from(item: ResponseItem) -> (record: Self) {
        RolloutItem::ResponseItem(item)
    }
}

impl FromSpecImpl<ResponseItem> for RolloutItem {
    open spec fn obeys_from_spec() -> bool {
        true
    }

    open spec fn from_spec(item: ResponseItem) -> Self {
        RolloutItem::ResponseItem(item)
    }
}

impl From<Event> for RolloutItem {
    fn from(event: Event) -> (record: Self) {
        RolloutItem::Event(event)
    }
}

impl FromSpecImpl<Event> for RolloutItem {
    open spec fn obeys_from_spec() -> bool {
        true
    }

    open spec fn from_spec(event: Event) -> Self {
        RolloutItem::Event(event)
    }
}

/// A `RolloutItem` as contracts see it.
pub enum RolloutItemView {
    ResponseItem(PayloadView),
    Event(PayloadView),
    SessionMeta(SessionMetaWithGitView),
}

impl View for RolloutItem {
    type V = RolloutItemView;

    open spec fn view(&self) -> RolloutItemView {
        match self {
            RolloutItem::ResponseItem(item) => RolloutItemView::ResponseItem(item@),
            RolloutItem::Event(event) => RolloutItemView::Event(event@),
            RolloutItem::SessionMeta(header) => RolloutItemView::SessionMeta(header@),
        }
    }
}

impl Clone for RolloutItem {
    fn clone(&self) -> (copy: Self)
        ensures
            copy@ == self@,
    {
        match self {
            RolloutItem::ResponseItem(item) => RolloutItem::ResponseItem(item.clone()),
            RolloutItem::Event(event) => RolloutItem::Event(event.clone()),
            RolloutItem::SessionMeta(header) => RolloutItem::SessionMeta(header.clone()),
        }
    }
}

/// What the record type of a line says the line is.
#[derive(Clone, Copy, Debug, PartialEq, Eq, Structural)]
pub enum RecordKind {
    Response,
    Event,
    SessionMeta,
    PriorSessionMeta,
    State,
    Unknown,
}

/// The record kind for a record type: none, or `response`, is a response
/// item.
pub open spec fn kind_of(tag: Option<Seq<char>>) -> RecordKind {
    match tag {
        None => RecordKind::Response,
        Some(tag) => if tag == "state"@ {
            RecordKind::State
        } else if tag == "event"@ {
            RecordKind::Event
        } else if tag == "session_meta"@ {
            RecordKind::SessionMeta
        } else if tag == "prior_session_meta"@ {
            RecordKind::PriorSessionMeta
        } else if tag == "response"@ {
            RecordKind::Response
        } else {
            RecordKind::Unknown
        },
    }
}

/// A record type that may be missing, as contracts see it.
pub open spec fn tag_view(tag: Option<&str>) -> Option<Seq<char>> {
    match tag {
        Some(tag) => Some(tag@),
        None => None,
    }
}

/// Tells what kind of record a record type stands for.
pub fn classify(tag: Option<&str>) -> (kind: RecordKind)
    ensures
        kind == kind_of(tag_view(tag)),
{
    match tag {
        None => RecordKind::Response,
        Some(tag) => {
            if same_text(tag, "state") {
                RecordKind::State
            } else if same_text(tag, "event") {
                RecordKind::Event
            } else if same_text(tag, "session_meta") {
                RecordKind::SessionMeta
            } else if same_text(tag, "prior_session_meta") {
                RecordKind::PriorSessionMeta
            } else if same_text(tag, "response") {
                RecordKind::Response
            } else {
                RecordKind::Unknown
            }
        },
    }
}

/// Whether a line is fit for the journal: it fits on one line, and it is a
/// JSON document to the reader.
pub open spec fn journal_line(line: Seq<char>) -> bool {
    single_line(line) && json_parse(line) is Some
}

/// Whether a text is written as an object: braces around it, and nothing
/// but white space outside them.
pub open spec fn is_object_text(doc: Seq<char>) -> bool {
    let text = json_trimmed(doc);
    text.len() >= 2 && text[0] == '{' && text.last() == '}'
}

/// What stands between the braces of a text that is written as an object.
pub open spec fn members_text(doc: Seq<char>) -> Seq<char> {
    let text = json_trimmed(doc);
    text.subrange(1, text.len() - 1)
}

/// The object `body` with the record type `tag` put before its members: the
/// record type alone where nothing but white space stands between the braces
/// of `body`, else the record type, a comma, and what stands between them.
pub open spec fn tagged_line(tag: Seq<char>, body: Seq<char>) -> Seq<char> {
    "{\"record_type\":"@ + json_quote(tag) + (if json_blank(members_text(body)) {
        Seq::empty()
    } else {
        seq![','] + members_text(body)
    }) + seq!['}']
}

/// A document in the form in which it is read back: the compact text of
/// what the reader makes of `text`.
pub open spec fn canonical(text: Seq<char>) -> Seq<char> {
    json_parse(text).unwrap()
}

/// The line of a response item: its document, as it is. `None` where that
/// text is not fit for the journal, or would not be read back as a response
/// item: such an item cannot be written.
pub open spec fn response_line(body: Seq<char>) -> Option<Seq<char>> {
    if journal_line(body) && record_of(body) is Response {
        Some(body)
    } else {
        None
    }
}

/// The line of an event: its document tagged `event`. `None` where the
/// event's document is not written as an object, or the tagged text is not
/// fit for the journal, or would not be read back as this event: such an
/// event cannot be written.
pub open spec fn event_line(body: Seq<char>) -> Option<Seq<char>> {
    let line = tagged_line("event"@, body);
    if is_object_text(body) && json_parse(body) is Some && journal_line(line) && record_of(line)
        == LineRecordView::Event(canonical(body)) {
        Some(line)
    } else {
        None
    }
}

/// A session header in the form in which it is read back: with its
/// repository snapshot in compact text. `None` where the snapshot is not
/// JSON to the reader.
pub open spec fn canonical_header(header: SessionMetaWithGitView) -> Option<
    SessionMetaWithGitView,
> {
    match header.git {
        None => Some(header),
        Some(git) => match json_parse(git) {
            Some(compact) => Some(
                SessionMetaWithGitView { meta: header.meta, git: Some(compact) },
            ),
            None => None,
        },
    }
}

/// The line of a session header under the record type `tag`. `None` where
/// the header's text is not fit for the journal, or would not be read back
/// as this header, of this session or of an earlier one as `tag` says: such
/// a header cannot be written.
pub open spec fn header_line(tag: Seq<char>, header: SessionMetaWithGitView) -> Option<Seq<char>> {
    let line = meta_line(tag, header);
    match canonical_header(header) {
        Some(read) => if journal_line(line) && record_of(line) == (LineRecordView::SessionMeta {
            prior: tag == "prior_session_meta"@,
            header: read,
        }) {
            Some(line)
        } else {
            None
        },
        None => None,
    }
}

/// Writes a response item as one line, without its terminator. The line is
/// read back before it is handed out, so that what is written is what
/// replay will find.
pub fn encode_response(item: &ResponseItem) -> (line: Option<String>)
    ensures
        line.deep_view() == response_line(item@.body),
        line matches Some(line) ==> journal_line(line@),
{
    let body = item.body.as_str();
    match decode_line(body) {
        LineRecord::Response(_) => Some(body.to_owned()),
        _ => None,
    }
}

/// Writes an event as one line, without its terminator. The line is read
/// back before it is handed out, so that what is written is what replay will
/// find.
pub fn encode_event(event: &Event) -> (line: Option<String>)
    ensures
        line.deep_view() == event_line(event@.body),
        line matches Some(line) ==> journal_line(line@),
{
    let body = event.body.as_str();
    let (from, to) = json_span(body);
    if to < 2 || from > to - 2 {
        return None;
    }
    if body.get_char(from) != '{' || body.get_char(to - 1) != '}' {
        return None;
    }
    let compact = match Json::parse(body) {
        Some(compact) => compact,
        None => {
            return None;
        },
    };
    let members = body.substring_char(from + 1, to - 1);
    proof {
        reveal_strlit("{\"record_type\":");
        reveal_strlit(",");
        reveal_strlit("}");
        assert(members@ =~= members_text(body@));
        lemma_single_line_part(body@, from + 1, to - 1);
    }
    let mut line = String::from_str("{\"record_type\":");
    let tag = Json::string("event");
    push_piece(&mut line, tag.as_str());
    let ghost before = line@;
    if is_json_blank(members) {
        proof {
            assert(line@ =~= before + Seq::<char>::empty());
        }
    } else {
        push_piece(&mut line, ",");
        push_piece(&mut line, members);
        proof {
            assert(","@ =~= seq![',']);
            assert(line@ =~= before + (seq![','] + members@));
        }
    }
    push_piece(&mut line, "}");
    proof {
        assert("}"@ =~= seq!['}']);
    }
    match decode_line(line.as_str()) {
        LineRecord::Event(read) => {
            if same_text(read.as_str(), compact.as_str()) {
                Some(line)
            } else {
                None
            }
        },
        _ => None,
    }
}

/// Whether two documents that may be missing have the same text.
pub fn same_document(a: &Option<Json>, b: &Option<Json>) -> (same: bool)
    ensures
        same == (view_of(*a) == view_of(*b)),
{
    match (a, b) {
        (Some(a), Some(b)) => same_text(a.as_str(), b.as_str()),
        (None, None) => true,
        _ => false,
    }
}

/// Writes a session header as one line, without its terminator, under the
/// record type `tag`. The line is read back before it is handed out, so
/// that what is written is what replay will find.
pub fn encode_meta(tag: &str, header: &SessionMetaWithGit) -> (line: Option<String>)
    ensures
        line.deep_view() == header_line(tag@, header@),
        line matches Some(line) ==> journal_line(line@),
{
    let compact = match &header.git {
        Some(git) => match Json::parse(git.as_str()) {
            Some(compact) => Some(compact),
            None => {
                return None;
            },
        },
        None => None,
    };
    let line = write_meta_text(tag, header);
    let prior = same_text(tag, "prior_session_meta");
    match decode_line(line.as_str()) {
        LineRecord::SessionMeta { prior: read_prior, header: read } => {
            if read_prior == prior && same_meta(&read.meta, &header.meta) && same_document(
                &read.git,
                &compact,
            ) {
                Some(line)
            } else {
                None
            }
        },
        _ => None,
    }
}

/// What one line of a journal holds.
#[derive(Debug, PartialEq, Eq)]
pub enum LineRecord {
    /// Nothing but white space.
    Blank,
    /// Not a JSON document.
    Malformed,
    /// A state snapshot: reserved, and passed over.
    State,
    /// A record type that is not known, which the line names.
    Unknown(String),
    /// Tagged as a session header, and not one.
    InvalidMeta,
    /// A document to be read as a response item.
    Response(Json),
    /// A document to be read as an event: the line without its record type.
    Event(Json),
    /// A session header: that of this journal, or that of an earlier
    /// session where `prior` is set.
    SessionMeta { prior: bool, header: SessionMetaWithGit },
}

/// A `LineRecord` as contracts see it.
pub enum LineRecordView {
    Blank,
    Malformed,
    State,
    Unknown(Seq<char>),
    InvalidMeta,
    Response(Seq<char>),
    Event(Seq<char>),
    SessionMeta { prior: bool, header: SessionMetaWithGitView },
}

impl View for LineRecord {
    type V = LineRecordView;

    open spec fn view(&self) -> LineRecordView {
        match self {
            LineRecord::Blank => LineRecordView::Blank,
            LineRecord::Malformed => LineRecordView::Malformed,
            LineRecord::State => LineRecordView::State,
            LineRecord::Unknown(tag) => LineRecordView::Unknown(tag@),
            LineRecord::InvalidMeta => LineRecordView::InvalidMeta,
            LineRecord::Response(doc) => LineRecordView::Response(doc@),
            LineRecord::Event(doc) => LineRecordView::Event(doc@),
            LineRecord::SessionMeta { prior, header } => LineRecordView::SessionMeta {
                prior: *prior,
                header: header@,
            },
        }
    }
}

/// The record type of a document: its member `record_type`, where that is a
/// string.
pub open spec fn record_type_of(doc: Seq<char>) -> Option<Seq<char>> {
    str_member(doc, "record_type"@)
}

/// What a session header line holds, given the compact text of its document.
pub open spec fn meta_record(doc: Seq<char>, prior: bool) -> LineRecordView {
    match header_of(doc) {
        Some(header) => LineRecordView::SessionMeta { prior, header },
        None => LineRecordView::InvalidMeta,
    }
}

/// What the document with the compact text `doc` holds.
pub open spec fn record_of_doc(doc: Seq<char>) -> LineRecordView {
    match kind_of(record_type_of(doc)) {
        RecordKind::Response => LineRecordView::Response(doc),
        RecordKind::Event => LineRecordView::Event(json_without(doc, "record_type"@)),
        RecordKind::SessionMeta => meta_record(doc, false),
        RecordKind::PriorSessionMeta => meta_record(doc, true),
        RecordKind::State => LineRecordView::State,
        RecordKind::Unknown => LineRecordView::Unknown(record_type_of(doc).unwrap()),
    }
}

/// What a line holds.
pub open spec fn record_of(line: Seq<char>) -> LineRecordView {
    if blank(line) {
        LineRecordView::Blank
    } else {
        match json_parse(line) {
            Some(doc) => record_of_doc(doc),
            None => LineRecordView::Malformed,
        }
    }
}

/// Reads one line of a journal.
pub fn decode_line(line: &str) -> (record: LineRecord)
    ensures
        record@ == record_of(line@),
{
    if is_blank(line) {
        return LineRecord::Blank;
    }
    let doc = match parse_value(line) {
        Ok(doc) => doc,
        Err(_) => {
            return LineRecord::Malformed;
        },
    };
    let tag = read_str_member(&doc, "record_type");
    let kind = match &tag {
        Some(tag) => classify(Some(tag.as_str())),
        None => classify(None),
    };
    match kind {
        RecordKind::Response => LineRecord::Response(Json::from_value(&doc)),
        RecordKind::Event => {
            let body = remove_member(doc, "record_type");
            LineRecord::Event(Json::from_value(&body))
        },
        RecordKind::SessionMeta => match decode_header(&doc) {
            Some(header) => LineRecord::SessionMeta { prior: false, header },
            None => LineRecord::InvalidMeta,
        },
        RecordKind::PriorSessionMeta => match decode_header(&doc) {
            Some(header) => LineRecord::SessionMeta { prior: true, header },
            None => LineRecord::InvalidMeta,
        },
        RecordKind::State => LineRecord::State,
        RecordKind::Unknown => match tag {
            Some(tag) => LineRecord::Unknown(tag),
            None => LineRecord::Malformed,
        },
    }
}

} // verus!
