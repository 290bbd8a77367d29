//! Session metadata: the header of a journal, and how it is written to and
//! read from a JSON object.

use vstd::prelude::*;
use crate::json::{
    as_string, get_member, is_null, json_member, json_quote, json_str, json_text, Json,
};
use crate::model::view_of;
use crate::record::ResponseItem;
use crate::text::{push_piece, same_text, single_line};

verus! {

/// The character of a hexadecimal digit, in lower case.
pub open spec fn hex_digit(n: int) -> char {
    if n < 10 {
        crate::clock::digit(n)
    } else if n == 10 {
        'a'
    } else if n == 11 {
        'b'
    } else if n == 12 {
        'c'
    } else if n == 13 {
        'd'
    } else if n == 14 {
        'e'
    } else {
        'f'
    }
}

/// 16 to the power of `n`.
pub open spec fn pow16(n: nat) -> int
    decreases n,
{
    if n == 0 {
        1
    } else {
        16 * pow16((n - 1) as nat)
    }
}

/// The hexadecimal digit of `id` at place `k` of its 32, counted from the
/// most significant.
pub open spec fn uuid_digit(id: u128, k: int) -> char {
    hex_digit((id as int / pow16((31 - k) as nat)) % 16)
}

/// The text of the identifier with the value `id`: its 32 hexadecimal digits
/// in lower case, most significant first, with a hyphen after the 8th, the
/// 12th, the 16th and the 20th.
pub open spec fn uuid_text(id: u128) -> Seq<char> {
    Seq::new(
        36,
        |i: int|
            if i == 8 || i == 13 || i == 18 || i == 23 {
                '-'
            } else if i < 8 {
                uuid_digit(id, i)
            } else if i < 13 {
                uuid_digit(id, i - 1)
            } else if i < 18 {
                uuid_digit(id, i - 2)
            } else if i < 23 {
                uuid_digit(id, i - 3)
            } else {
                uuid_digit(id, i - 4)
            },
    )
}

/// A power of 16 is positive.
proof fn lemma_pow16_positive(n: nat)
    ensures
        pow16(n) > 0,
    decreases n,
{
    if n > 0 {
        lemma_pow16_positive((n - 1) as nat);
    }
}

/// Different digits are written as different characters.
proof fn lemma_hex_digit_tells_apart(x: int, y: int)
    requires
        0 <= x < 16,
        0 <= y < 16,
        hex_digit(x) == hex_digit(y),
    ensures
        x == y,
{
}

/// Numbers with the same last `n` hexadecimal digits leave the same
/// remainder by the `n`th power of 16.
proof fn lemma_same_digits_same_remainder(a: int, b: int, n: nat)
    requires
        0 <= a,
        0 <= b,
        forall|m: nat| m < n ==> (a / pow16(m)) % 16 == (b / #[trigger] pow16(m)) % 16,
    ensures
        a % pow16(n) == b % pow16(n),
    decreases n,
{
    if n > 0 {
        let m = (n - 1) as nat;
        lemma_same_digits_same_remainder(a, b, m);
        lemma_pow16_positive(m);
        let unit = pow16(m);
        vstd::arithmetic::div_mod::lemma_breakdown(a, unit, 16);
        vstd::arithmetic::div_mod::lemma_breakdown(b, unit, 16);
        assert(pow16(n) == unit * 16) by (nonlinear_arith)
            requires
                pow16(n) == 16 * unit,
        ;
        assert((a / pow16(m)) % 16 == (b / pow16(m)) % 16);
    }
}

/// Uniqueness: different identifiers have different texts.
pub proof fn lemma_uuid_text_tells_apart(a: u128, b: u128)
    requires
        uuid_text(a) == uuid_text(b),
    ensures
        a == b,
{
    assert forall|m: nat| m < 32 implies (a as int / pow16(m)) % 16 == (b as int / #[trigger] pow16(
        m,
    )) % 16 by {
        let k = 31 - m;
        let i = if k < 8 {
            k
        } else if k < 12 {
            k + 1
        } else if k < 16 {
            k + 2
        } else if k < 20 {
            k + 3
        } else {
            k + 4
        };
        assert(uuid_text(a)[i] == uuid_digit(a, k));
        assert(uuid_text(b)[i] == uuid_digit(b, k));
        lemma_pow16_positive(m);
        vstd::arithmetic::div_mod::lemma_div_pos_is_pos(a as int, pow16(m));
        vstd::arithmetic::div_mod::lemma_div_pos_is_pos(b as int, pow16(m));
        vstd::arithmetic::div_mod::lemma_mod_pos_bound(a as int / pow16(m), 16);
        vstd::arithmetic::div_mod::lemma_mod_pos_bound(b as int / pow16(m), 16);
        lemma_hex_digit_tells_apart((a as int / pow16(m)) % 16, (b as int / pow16(m)) % 16);
    }
    lemma_same_digits_same_remainder(a as int, b as int, 32);
    assert(pow16(32) == 0x1_0000_0000_0000_0000_0000_0000_0000_0000) by {
        reveal_with_fuel(pow16, 33);
    }
    vstd::arithmetic::div_mod::lemma_small_mod(a as nat, pow16(32) as nat);
    vstd::arithmetic::div_mod::lemma_small_mod(b as nat, pow16(32) as nat);
}

/// The value of the identifier that `uuid` reads from `text`, or `None`
/// where it reads none.
pub uninterp spec fn uuid_parse(text: Seq<char>) -> Option<u128>;

/// `Uuid::from_u128`, then `Display` of `Uuid`, which prints the hyphenated
/// form in lower case.
#[verifier::external_body]
pub(crate) fn print_uuid(id: u128) -> (text: String)
    ensures
        text@ == uuid_text(id),
{
    uuid::Uuid::from_u128(id).to_string()
}

/// `Uuid::parse_str`, then `Uuid::as_u128`. Nothing is claimed of the error.
#[verifier::external_body]
pub(crate) fn parse_uuid(text: &str) -> (id: Option<u128>)
    ensures
        id == uuid_parse(text@),
{
    match uuid::Uuid::parse_str(text) {
        Ok(id) => Some(id.as_u128()),
        Err(_) => None,
    }
}

/// What identifies a session and where it ran.
#[derive(Debug, PartialEq, Eq)]
pub struct SessionMeta {
    /// The value of the session's unique identifier.
    pub id: u128,
    /// When the session began, as UTC with milliseconds.
    pub timestamp: String,
    /// The working directory.
    pub cwd: String,
    /// Who started the session.
    pub originator: String,
    /// The version of the program that wrote the journal.
    pub cli_version: String,
    /// Free-text instructions, if there were any.
    pub instructions: Option<String>,
}

/// A `SessionMeta` as contracts see it.
pub struct SessionMetaView {
    pub id: u128,
    pub timestamp: Seq<char>,
    pub cwd: Seq<char>,
    pub originator: Seq<char>,
    pub cli_version: Seq<char>,
    pub instructions: Option<Seq<char>>,
}

impl View for SessionMeta {
    type V = SessionMetaView;

    open spec fn view(&self) -> SessionMetaView {
        SessionMetaView {
            id: self.id,
            timestamp: self.timestamp@,
            cwd: self.cwd@,
            originator: self.originator@,
            cli_version: self.cli_version@,
            instructions: self.instructions.deep_view(),
        }
    }
}

impl Clone for SessionMeta {
    fn clone(&self) -> (copy: Self)
        ensures
            copy@ == self@,
    {
        let instructions = match &self.instructions {
            Some(text) => Some(text.clone()),
            None => None,
        };
        SessionMeta {
            id: self.id,
            timestamp: self.timestamp.clone(),
            cwd: self.cwd.clone(),
            originator: self.originator.clone(),
            cli_version: self.cli_version.clone(),
            instructions,
        }
    }
}

/// Session metadata with the repository snapshot taken when the journal was
/// begun, if one could be had. The snapshot is carried as the document it is
/// written as.
#[derive(Debug, PartialEq, Eq)]
pub struct SessionMetaWithGit {
    pub meta: SessionMeta,
    pub git: Option<Json>,
}

/// A `SessionMetaWithGit` as contracts see it.
pub struct SessionMetaWithGitView {
    pub meta: SessionMetaView,
    pub git: Option<Seq<char>>,
}

impl View for SessionMetaWithGit {
    type V = SessionMetaWithGitView;

    open spec fn view(&self) -> SessionMetaWithGitView {
        SessionMetaWithGitView {
            meta: self.meta@,
            git: view_of(self.git),
        }
    }
}

impl Clone for SessionMetaWithGit {
    fn clone(&self) -> (copy: Self)
        ensures
            copy@ == self@,
    {
        let git = match &self.git {
            Some(doc) => Some(doc.clone()),
            None => None,
        };
        SessionMetaWithGit { meta: self.meta.clone(), git }
    }
}

/// Reserved session state; it holds nothing yet.
#[derive(Clone, Copy, Debug, Default, PartialEq, Eq)]
pub struct SessionStateSnapshot {}

/// A session as it was once saved whole: its metadata, its response items
/// and its state.
#[derive(Debug, PartialEq, Eq)]
pub struct SavedSession {
    pub session: SessionMeta,
    pub items: Vec<ResponseItem>,
    pub state: SessionStateSnapshot,
    pub session_id: u128,
}

/// How an optional text is written: the JSON string that holds it, or `null`.
pub open spec fn optional_text(text: Option<Seq<char>>) -> Seq<char> {
    match text {
        Some(text) => json_quote(text),
        None => "null"@,
    }
}

/// How the repository snapshot is written: as the member `git`, or not at
/// all where there is none.
pub open spec fn git_text(git: Option<Seq<char>>) -> Seq<char> {
    match git {
        Some(doc) => ",\"git\":"@ + doc,
        None => Seq::empty(),
    }
}

/// The line of a session header: one JSON object that holds the record type
/// `tag` first and then the metadata's fields beside it, not nested.
pub open spec fn meta_line(tag: Seq<char>, header: SessionMetaWithGitView) -> Seq<char> {
    "{\"record_type\":"@ + json_quote(tag) + ",\"id\":"@ + json_quote(uuid_text(header.meta.id))
        + ",\"timestamp\":"@ + json_quote(header.meta.timestamp) + ",\"cwd\":"@ + json_quote(
        header.meta.cwd,
    ) + ",\"originator\":"@ + json_quote(header.meta.originator) + ",\"cli_version\":"@
        + json_quote(header.meta.cli_version) + ",\"instructions\":"@ + optional_text(
        header.meta.instructions,
    ) + git_text(header.git) + "}"@
}

/// Appends the JSON string that holds `text`.
fn push_quoted(line: &mut String, text: &str)
    requires
        single_line(old(line)@),
    ensures
        final(line)@ == old(line)@ + json_quote(text@),
        single_line(final(line)@),
{
    let quoted = Json::string(text);
    push_piece(line, quoted.as_str());
}

/// Makes the text of a session header's line. Whether it is fit for the
/// journal is for the line codec to find out.
pub(crate) fn write_meta_text(tag: &str, header: &SessionMetaWithGit) -> (line: String)
    ensures
        line@ == meta_line(tag@, header@),
        single_line(line@),
{
    proof {
        reveal_strlit("{\"record_type\":");
        reveal_strlit(",\"id\":");
        reveal_strlit(",\"timestamp\":");
        reveal_strlit(",\"cwd\":");
        reveal_strlit(",\"originator\":");
        reveal_strlit(",\"cli_version\":");
        reveal_strlit(",\"instructions\":");
        reveal_strlit(",\"git\":");
        reveal_strlit("null");
        reveal_strlit("}");
    }
    let mut line = String::from_str("{\"record_type\":");
    push_quoted(&mut line, tag);
    push_piece(&mut line, ",\"id\":");
    let id = print_uuid(header.meta.id);
    push_quoted(&mut line, id.as_str());
    push_piece(&mut line, ",\"timestamp\":");
    push_quoted(&mut line, header.meta.timestamp.as_str());
    push_piece(&mut line, ",\"cwd\":");
    push_quoted(&mut line, header.meta.cwd.as_str());
    push_piece(&mut line, ",\"originator\":");
    push_quoted(&mut line, header.meta.originator.as_str());
    push_piece(&mut line, ",\"cli_version\":");
    push_quoted(&mut line, header.meta.cli_version.as_str());
    push_piece(&mut line, ",\"instructions\":");
    match &header.meta.instructions {
        Some(text) => {
            push_quoted(&mut line, text.as_str());
        },
        None => {
            push_piece(&mut line, "null");
        },
    }
    let ghost before = line@;
    match &header.git {
        Some(doc) => {
            push_piece(&mut line, ",\"git\":");
            push_piece(&mut line, doc.as_str());
            proof {
                assert(line@ =~= before + (",\"git\":"@ + doc@));
            }
        },
        None => {
            proof {
                assert(line@ =~= before + Seq::<char>::empty());
            }
        },
    }
    push_piece(&mut line, "}");
    line
}

/// Whether two texts that may be missing are the same.
pub fn same_optional_text(a: &Option<String>, b: &Option<String>) -> (same: bool)
    ensures
        same == (a.deep_view() == b.deep_view()),
{
    match (a, b) {
        (Some(a), Some(b)) => same_text(a.as_str(), b.as_str()),
        (None, None) => true,
        _ => false,
    }
}

/// Whether two session metadata hold the same.
pub fn same_meta(a: &SessionMeta, b: &SessionMeta) -> (same: bool)
    ensures
        same == (a@ == b@),
{
    a.id == b.id && same_text(a.timestamp.as_str(), b.timestamp.as_str()) && same_text(
        a.cwd.as_str(),
        b.cwd.as_str(),
    ) && same_text(a.originator.as_str(), b.originator.as_str()) && same_text(
        a.cli_version.as_str(),
        b.cli_version.as_str(),
    ) && same_optional_text(&a.instructions, &b.instructions)
}

/// The string that the member `key` of a document is.
pub open spec fn str_member(doc: Seq<char>, key: Seq<char>) -> Option<Seq<char>> {
    match json_member(doc, key) {
        Some(member) => json_str(member),
        None => None,
    }
}

/// What an optional string member holds: nothing where the member is missing
/// or `null`, its string where it is one. `None` where the member is of
/// another kind.
pub open spec fn optional_str_member(doc: Seq<char>, key: Seq<char>) -> Option<
    Option<Seq<char>>,
> {
    match json_member(doc, key) {
        None => Some(None),
        Some(member) => if member == "null"@ {
            Some(None)
        } else {
            match json_str(member) {
                Some(text) => Some(Some(text)),
                None => None,
            }
        },
    }
}

/// What an optional member holds: nothing where it is missing or `null`.
pub open spec fn optional_member(doc: Seq<char>, key: Seq<char>) -> Option<Seq<char>> {
    match json_member(doc, key) {
        None => None,
        Some(member) => if member == "null"@ {
            None
        } else {
            Some(member)
        },
    }
}

/// The session header that members found in an object make. `id`,
/// `timestamp`, `cwd`, `originator` and `cli_version` are the strings that
/// the members of those names are, each `None` where the member is missing
/// or no string; all five are needed, and `id` has to read as an identifier.
/// `instructions` is `None` where that member is neither a string nor `null`
/// nor missing, which spoils the header; else it holds the string, if there
/// is one. `git` is the document of that member, `None` where it is missing
/// or `null`, and is taken as it is.
pub open spec fn header_from(
    id: Option<Seq<char>>,
    timestamp: Option<Seq<char>>,
    cwd: Option<Seq<char>>,
    originator: Option<Seq<char>>,
    cli_version: Option<Seq<char>>,
    instructions: Option<Option<Seq<char>>>,
    git: Option<Seq<char>>,
) -> Option<SessionMetaWithGitView> {
    match (id, timestamp, cwd, originator, cli_version, instructions) {
        (Some(id), Some(timestamp), Some(cwd), Some(originator), Some(cli_version), Some(
            instructions,
        )) => match uuid_parse(id) {
            Some(id) => Some(
                SessionMetaWithGitView {
                    meta: SessionMetaView {
                        id,
                        timestamp,
                        cwd,
                        originator,
                        cli_version,
                        instructions,
                    },
                    git,
                },
            ),
            None => None,
        },
        _ => None,
    }
}

/// The session header that the object with the compact text `doc` holds:
/// `id` is a string that reads as an identifier; `timestamp`, `cwd`,
/// `originator` and `cli_version` are strings; `instructions` is a string,
/// `null` or missing; `git` is any document, `null` or missing. Other
/// members are not looked at. `None` where one of these fails.
pub open spec fn header_of(doc: Seq<char>) -> Option<SessionMetaWithGitView> {
    header_from(
        str_member(doc, "id"@),
        str_member(doc, "timestamp"@),
        str_member(doc, "cwd"@),
        str_member(doc, "originator"@),
        str_member(doc, "cli_version"@),
        optional_str_member(doc, "instructions"@),
        optional_member(doc, "git"@),
    )
}

/// Makes a session header of members found in an object; see `header_from`
/// for what each argument stands for.
pub fn header_from_members(
    id: Option<String>,
    timestamp: Option<String>,
    cwd: Option<String>,
    originator: Option<String>,
    cli_version: Option<String>,
    instructions: Option<Option<String>>,
    git: Option<Json>,
) -> (header: Option<SessionMetaWithGit>)
    ensures
        view_of(header) == header_from(
            id.deep_view(),
            timestamp.deep_view(),
            cwd.deep_view(),
            originator.deep_view(),
            cli_version.deep_view(),
            instructions.deep_view(),
            view_of(git),
        ),
{
    match (id, timestamp, cwd, originator, cli_version, instructions) {
        (Some(id), Some(timestamp), Some(cwd), Some(originator), Some(cli_version), Some(
            instructions,
        )) => match parse_uuid(id.as_str()) {
            Some(id) => Some(
                SessionMetaWithGit {
                    meta: SessionMeta { id, timestamp, cwd, originator, cli_version, instructions },
                    git,
                },
            ),
            None => None,
        },
        _ => None,
    }
}

/// Reads the string member `key` of a document.
pub(crate) fn read_str_member(doc: &serde_json::Value, key: &str) -> (text: Option<String>)
    ensures
        text.deep_view() == str_member(json_text(*doc), key@),
{
    match get_member(doc, key) {
        Some(member) => match as_string(member) {
            Some(text) => Some(text.to_owned()),
            None => None,
        },
        None => None,
    }
}

/// Reads a session header from a document: finds the members, and makes the
/// header of them.
pub(crate) fn decode_header(doc: &serde_json::Value) -> (header: Option<SessionMetaWithGit>)
    ensures
        view_of(header) == header_of(json_text(*doc)),
{
    let id = read_str_member(doc, "id");
    let timestamp = read_str_member(doc, "timestamp");
    let cwd = read_str_member(doc, "cwd");
    let originator = read_str_member(doc, "originator");
    let cli_version = read_str_member(doc, "cli_version");
    let instructions = match get_member(doc, "instructions") {
        None => Some(None),
        Some(member) => if is_null(member) {
            Some(None)
        } else {
            match as_string(member) {
                Some(text) => Some(Some(text.to_owned())),
                None => None,
            }
        },
    };
    let git = match get_member(doc, "git") {
        None => None,
        Some(member) => if is_null(member) {
            None
        } else {
            Some(Json::from_value(member))
        },
    };
    header_from_members(id, timestamp, cwd, originator, cli_version, instructions, git)
}

} // verus!
