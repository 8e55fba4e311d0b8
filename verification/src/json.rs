//! JSON objects as the protocol reads and writes them.
//!
//! Every message travels as one JSON object whose members are strings. This
//! module holds the part of a JSON document that decoding looks at, and the
//! two calls into `serde_json` that turn text into such a document and back.

use serde_json::Value;
use vstd::prelude::*;
use crate::error::{option_view, ErrorView, ProtocolError};

verus! {

/// The value of one member of a JSON object, as far as the protocol reads
/// it: `null`, a string, or anything else.
#[derive(Clone, Debug, PartialEq, Eq)]
pub enum JsonValue {
    Null,
    Text(String),
    /// A boolean, a number, an array or an object.
    Other,
}

/// The mathematical value of a [`JsonValue`].
pub enum JsonValueView {
    Null,
    Text(Seq<char>),
    Other,
}

impl View for JsonValue {
    type V = JsonValueView;

    open spec fn view(&self) -> JsonValueView {
        match self {
            JsonValue::Null => JsonValueView::Null,
            JsonValue::Text(s) => JsonValueView::Text(s@),
            JsonValue::Other => JsonValueView::Other,
        }
    }
}

/// One member of a JSON object.
#[derive(Clone, Debug, PartialEq, Eq)]
pub struct Member {
    pub key: String,
    pub value: JsonValue,
}

/// The mathematical value of a [`Member`].
pub struct MemberView {
    pub key: Seq<char>,
    pub value: JsonValueView,
}

impl View for Member {
    type V = MemberView;

    open spec fn view(&self) -> MemberView {
        MemberView { key: self.key@, value: self.value@ }
    }
}

/// The members of an object, each by its view, in the order of the object.
pub open spec fn members_view(members: Seq<Member>) -> Seq<MemberView> {
    Seq::new(members.len(), |i: int| members[i]@)
}

/// A JSON document: an object with its members in the order of the text, or
/// any other JSON value.
#[derive(Clone, Debug, PartialEq, Eq)]
pub enum Document {
    Object(Vec<Member>),
    Other,
}

/// The mathematical value of a [`Document`].
pub enum DocumentView {
    Object(Seq<MemberView>),
    Other,
}

impl View for Document {
    type V = DocumentView;

    open spec fn view(&self) -> DocumentView {
        match self {
            Document::Object(members) => DocumentView::Object(members_view(members@)),
            Document::Other => DocumentView::Other,
        }
    }
}

/// No two members have the same key.
pub open spec fn distinct_keys(members: Seq<MemberView>) -> bool {
    forall|i: int, j: int| 0 <= i < j < members.len() ==> members[i].key != members[j].key
}

/// Every member is `null` or a string, so that its value can be written out.
pub open spec fn writable(members: Seq<MemberView>) -> bool {
    forall|i: int| 0 <= i < members.len() ==> !((#[trigger] members[i]).value is Other)
}

/// The document that `serde_json` reads from `text`: `None` where `text` is
/// not one JSON value, else the value, reduced to what [`Document`] holds.
pub uninterp spec fn document_of(text: Seq<u8>) -> Option<DocumentView>;

/// The text that `serde_json` writes for the object with these members, in
/// this order.
pub uninterp spec fn text_of(members: Seq<MemberView>) -> Seq<u8>;

/// Parses `text` with `serde_json::from_slice` into a `serde_json::Value`.
///
/// Nothing is claimed of the outcome beyond its name, [`document_of`]: the
/// result is `None` where `serde_json` reports an error, and otherwise the
/// parsed value with its top-level members in the order of the text
/// (`serde_json` is built with its insertion-ordered map), strings and
/// `null` kept and every other member value reduced to `Other`. A key that
/// the text repeats comes once, where it first stood, with the value that it
/// was given last.
#[verifier::external_body]
pub(crate) fn read_document(text: &[u8]) -> (doc: Option<Document>)
    ensures
        option_view(doc) == document_of(text@),
{
    match serde_json::from_slice::<Value>(text) {
        Ok(Value::Object(map)) => Some(Document::Object(
            map.into_iter().map(|(key, value)| Member { key, value: match value {
                Value::Null => JsonValue::Null,
                Value::String(s) => JsonValue::Text(s),
                Value::Bool(_) | Value::Number(_) => JsonValue::Other,
                Value::Array(_) | Value::Object(_) => JsonValue::Other,
            } }).collect(),
        )),
        Ok(_) => Some(Document::Other),
        Err(_) => None,
    }
}

/// Writes the object with these members, in this order, with
/// `serde_json::to_vec`, from a `serde_json::Value` that holds them. A member
/// that is `Other` stands for a value that is not kept, so there is nothing
/// to write for it, and the contract leaves it out.
///
/// The text is named [`text_of`]. Beyond the name, one fact is claimed:
/// where no key occurs twice, `serde_json` reads the text it has written back
/// as an object with the same members in the same order. (It writes the
/// entries of its map in the order in which they were put in, every key and
/// every string through one and the same routine, and its parser undoes
/// exactly the escapes that this routine makes.) Writing a
/// `serde_json::Value` into a `Vec` does not fail.
#[verifier::external_body]
pub(crate) fn write_object(members: &Vec<Member>) -> (text: Vec<u8>)
    requires
        writable(members_view(members@)),
    ensures
        text@ == text_of(members_view(members@)),
        distinct_keys(members_view(members@)) ==> document_of(text@) == Some(
            DocumentView::Object(members_view(members@)),
        ),
{
    let mut map = serde_json::Map::new();
    for m in members.iter() {
        map.insert(m.key.clone(), match &m.value {
            JsonValue::Text(s) => Value::String(s.clone()),
            JsonValue::Null => Value::Null,
            JsonValue::Other => Value::Null,
        });
    }
    serde_json::to_vec(&Value::Object(map)).unwrap_or_default()
}

/// The members of a document, or the reason why it has none: text that is
/// not JSON is a framing error, JSON that is not an object a schema error.
pub open spec fn members_in(doc: Option<DocumentView>) -> Result<Seq<MemberView>, ErrorView> {
    match doc {
        None => Err(ErrorView::Framing),
        Some(DocumentView::Other) => Err(ErrorView::Schema),
        Some(DocumentView::Object(members)) => Ok(members),
    }
}

/// The view of the outcome of [`parse_members`].
pub open spec fn parsed_view(r: Result<Vec<Member>, ProtocolError>) -> Result<
    Seq<MemberView>,
    ErrorView,
> {
    match r {
        Ok(members) => Ok(members_view(members@)),
        Err(e) => Err(e@),
    }
}

/// Reads the members of the JSON object that `text` spells.
pub fn parse_members(text: &[u8]) -> (r: Result<Vec<Member>, ProtocolError>)
    ensures
        parsed_view(r) == members_in(document_of(text@)),
{
    match read_document(text) {
        None => Err(ProtocolError::Framing),
        Some(Document::Other) => Err(ProtocolError::Schema),
        Some(Document::Object(members)) => Ok(members),
    }
}

/// The first member whose key is `a` or `b`.
pub open spec fn first_among(members: Seq<MemberView>, a: Seq<char>, b: Seq<char>) -> Option<
    MemberView,
>
    decreases members.len(),
{
    if members.len() == 0 {
        None
    } else if members[0].key == a || members[0].key == b {
        Some(members[0])
    } else {
        first_among(members.drop_first(), a, b)
    }
}

/// The value of the first member whose key is `key`.
pub open spec fn member(members: Seq<MemberView>, key: Seq<char>) -> Option<JsonValueView> {
    match first_among(members, key, key) {
        Some(m) => Some(m.value),
        None => None,
    }
}

/// Finds the first member whose key is `a` or `b`.
pub fn find_either<'a>(members: &'a Vec<Member>, a: &str, b: &str) -> (r: Option<&'a Member>)
    ensures
        option_view(r) == first_among(members_view(members@), a@, b@),
{
    let a_key: String = a.to_owned();
    let b_key: String = b.to_owned();
    let ghost all = members_view(members@);
    let mut i: usize = 0;
    assert(all.subrange(0, all.len() as int) =~= all);
    while i < members.len()
        invariant
            i <= members@.len(),
            all == members_view(members@),
            a_key@ == a@,
            b_key@ == b@,
            first_among(all, a@, b@) == first_among(all.subrange(i as int, all.len() as int), a@, b@),
        decreases members@.len() - i,
    {
        let ghost tail = all.subrange(i as int, all.len() as int);
        assert(tail.drop_first() =~= all.subrange(i + 1, all.len() as int));
        if members[i].key == a_key || members[i].key == b_key {
            return Some(&members[i]);
        }
        i += 1;
    }
    None
}

/// Finds the value of the first member whose key is `key`.
pub fn find<'a>(members: &'a Vec<Member>, key: &str) -> (r: Option<&'a JsonValue>)
    ensures
        option_view(r) == member(members_view(members@), key@),
{
    match find_either(members, key, key) {
        Some(m) => Some(&m.value),
        None => None,
    }
}

/// The string that the first member with the key `key` holds, if it holds
/// one.
pub open spec fn text_at(members: Seq<MemberView>, key: Seq<char>) -> Option<Seq<char>> {
    match member(members, key) {
        Some(JsonValueView::Text(text)) => Some(text),
        _ => None,
    }
}

/// The view of a string that may be missing.
pub open spec fn text_view(text: Option<String>) -> Option<Seq<char>> {
    match text {
        Some(s) => Some(s@),
        None => None,
    }
}

/// Reads the string that the first member with the key `key` holds.
pub fn find_text(members: &Vec<Member>, key: &str) -> (r: Option<String>)
    ensures
        text_view(r) == text_at(members_view(members@), key@),
{
    match find(members, key) {
        Some(JsonValue::Text(text)) => Some(text.clone()),
        _ => None,
    }
}

/// Tells whether the first member with the key `key` holds the string
/// `text`.
pub fn has_text(members: &Vec<Member>, key: &str, text: &str) -> (r: bool)
    ensures
        r == (text_at(members_view(members@), key@) == Some(text@)),
{
    let wanted: String = text.to_owned();
    match find(members, key) {
        Some(JsonValue::Text(found)) => *found == wanted,
        _ => false,
    }
}

/// A member whose value is the string `text`.
pub open spec fn text_member(key: Seq<char>, text: Seq<char>) -> MemberView {
    MemberView { key, value: JsonValueView::Text(text) }
}

/// Makes a member whose value is a string.
pub fn new_text_member(key: &str, text: &str) -> (m: Member)
    ensures
        m@ == text_member(key@, text@),
{
    Member { key: key.to_owned(), value: JsonValue::Text(text.to_owned()) }
}

} // verus!
