//! The boundary to `serde_json`. That crate reads, inspects and prints JSON
//! documents; this module gives each call a contract, which is trusted, and
//! builds `Json`, a document held as text on one line, on top of them.

use vstd::prelude::*;
use crate::text::{fits_one_line, single_line};

verus! {

/// `serde_json::Value`, a JSON document. Nothing of its inside is seen here.
#[verifier::external_type_specification]
#[verifier::external_body]
pub struct ExValue(serde_json::Value);

/// `serde_json::Error`, which is carried and never looked into.
#[verifier::external_type_specification]
#[verifier::external_body]
pub struct ExJsonError(serde_json::Error);

/// What a document holds, as the compact text that `serde_json` prints for
/// it: no white space between tokens, control characters in strings escaped.
pub uninterp spec fn json_text(doc: serde_json::Value) -> Seq<char>;

/// The compact text of the document that `serde_json` reads from `text`, or
/// `None` where `text` is not one JSON document.
pub uninterp spec fn json_parse(text: Seq<char>) -> Option<Seq<char>>;

/// The compact text of the member `key` of the document with the compact
/// text `doc`, or `None` where that document is no object or has no such
/// member.
pub uninterp spec fn json_member(doc: Seq<char>, key: Seq<char>) -> Option<Seq<char>>;

/// The string that the document with the compact text `doc` is, or `None`
/// where it is not a string.
pub uninterp spec fn json_str(doc: Seq<char>) -> Option<Seq<char>>;

/// The compact text of the document with the compact text `doc` once its
/// member `key` is taken out; `doc` itself where there is nothing to take.
pub uninterp spec fn json_without(doc: Seq<char>, key: Seq<char>) -> Seq<char>;

/// The compact text of the JSON string that holds `s`: `s` in double quotes,
/// escaped.
pub uninterp spec fn json_quote(s: Seq<char>) -> Seq<char>;

/// `serde_json::from_str` at `Value`: whether `text` is a JSON document, and
/// which. Nothing is claimed of the error.
#[verifier::external_body]
pub(crate) fn parse_value(text: &str) -> (r: Result<serde_json::Value, serde_json::Error>)
    ensures
        match r {
            Ok(doc) => json_parse(text@) == Some(json_text(doc)),
            Err(_) => json_parse(text@) is None,
        },
{
    serde_json::from_str::<serde_json::Value>(text)
}

/// `Display` of `serde_json::Value`, unadorned: the compact text. It holds
/// neither a line feed nor a carriage return, as the printer writes no white
/// space of its own and escapes every control character of a string.
#[verifier::external_body]
pub(crate) fn print_value(doc: &serde_json::Value) -> (r: String)
    ensures
        r@ == json_text(*doc),
        single_line(r@),
{
    doc.to_string()
}

/// `Value::get` with a string index: the member of an object by its key.
#[verifier::external_body]
pub(crate) fn get_member<'a>(doc: &'a serde_json::Value, key: &str) -> (r: Option<
    &'a serde_json::Value,
>)
    ensures
        match r {
            Some(member) => json_member(json_text(*doc), key@) == Some(json_text(*member)),
            None => json_member(json_text(*doc), key@) is None,
        },
{
    doc.get(key)
}

/// `Value::as_str`: the string that a document is, if it is one.
#[verifier::external_body]
pub(crate) fn as_string<'a>(doc: &'a serde_json::Value) -> (r: Option<&'a str>)
    ensures
        match r {
            Some(s) => json_str(json_text(*doc)) == Some(s@),
            None => json_str(json_text(*doc)) is None,
        },
{
    doc.as_str()
}

/// `Value::is_null`: whether a document is `null`, which alone prints as
/// those four letters.
#[verifier::external_body]
pub(crate) fn is_null(doc: &serde_json::Value) -> (r: bool)
    ensures
        r == (json_text(*doc) == "null"@),
{
    doc.is_null()
}

/// `Map::remove` on the members of an object; any other document is handed
/// back as it came.
#[verifier::external_body]
pub(crate) fn remove_member(doc: serde_json::Value, key: &str) -> (r: serde_json::Value)
    ensures
        json_text(r) == json_without(json_text(doc), key@),
{
    let mut doc = doc;
    if let serde_json::Value::Object(members) = &mut doc {
        members.remove(key);
    }
    doc
}

/// `From<&str>` for `Value`: the JSON string that holds `s`.
#[verifier::external_body]
pub(crate) fn string_value(s: &str) -> (doc: serde_json::Value)
    ensures
        json_text(doc) == json_quote(s@),
{
    serde_json::Value::from(s)
}

/// A JSON document, held as text on one line: the compact text that
/// `serde_json` prints for it, or the text it was given as.
#[derive(Debug, PartialEq, Eq)]
pub struct Json {
    text: String,
}

impl View for Json {
    type V = Seq<char>;

    closed spec fn view(&self) -> Seq<char> {
        self.text@
    }
}

impl Clone for Json {
    fn clone(&self) -> (copy: Self)
        ensures
            copy@ == self@,
    {
        proof {
            use_type_invariant(self);
        }
        Json { text: self.text.clone() }
    }
}

impl Json {
    #[verifier::type_invariant]
    /// What always holds of a document: its text fits on one line.
    spec fn fits_one_line(&self) -> bool {
        single_line(self.text@)
    }

    /// Reads one document from `text`; `None` where `text` is not JSON.
    pub fn parse(text: &str) -> (r: Option<Json>)
        ensures
            match r {
                Some(doc) => json_parse(text@) == Some(doc@),
                None => json_parse(text@) is None,
            },
    {
        match parse_value(text) {
            Ok(doc) => Some(Json::from_value(&doc)),
            Err(_) => None,
        }
    }

    /// Takes `text` for the document that it is, letter for letter, so that
    /// the members of an object stay in the order in which they were
    /// written. `None` where `text` is not JSON or does not fit on one line.
    pub fn from_text(text: &str) -> (r: Option<Json>)
        ensures
            match r {
                Some(doc) => doc@ == text@ && json_parse(text@) is Some && single_line(text@),
                None => json_parse(text@) is None || !single_line(text@),
            },
    {
        if !fits_one_line(text) {
            return None;
        }
        match parse_value(text) {
            Ok(_) => Some(Json { text: text.to_owned() }),
            Err(_) => None,
        }
    }

    /// The document that `doc` is.
    pub fn from_value(doc: &serde_json::Value) -> (r: Json)
        ensures
            r@ == json_text(*doc),
    {
        Json { text: print_value(doc) }
    }

    /// The JSON string that holds `s`.
    pub fn string(s: &str) -> (r: Json)
        ensures
            r@ == json_quote(s@),
    {
        let doc = string_value(s);
        Json { text: print_value(&doc) }
    }

    /// The document's text, which fits on one line.
    pub fn as_str(&self) -> (text: &str)
        ensures
            text@ == self@,
            single_line(text@),
    {
        proof {
            use_type_invariant(self);
        }
        self.text.as_str()
    }
}

} // verus!
