//! Decoding one line of input into a record, and reading the record.

use crate::date::{
    day_of_digits, fixed_form, parse_timestamp, timestamp_of_text, DateKey, Timestamp,
};
use vstd::prelude::*;

verus! {

/// Why a line could not be given a date.
#[derive(Clone, Copy, Debug, PartialEq, Eq, Structural)]
pub enum LineError {
    /// The line is not well-formed JSON.
    Decode,
    /// The line is JSON, but not an object.
    NotAnObject,
    /// The object has no member `asctime` that is a string.
    MissingField,
    /// The member `asctime` is not in the timestamp format.
    BadFormat,
}

/// What a member of a record holds, as far as a record is read: a string, or
/// anything else.
#[derive(Debug)]
pub enum Field {
    Text(String),
    Other,
}

/// One member of an object: its name and what it holds.
#[derive(Debug)]
pub struct Member {
    pub name: String,
    pub value: Field,
}

/// A decoded line: an object with its members, or any other JSON value.
#[derive(Debug)]
pub enum Record {
    Object(Vec<Member>),
    Other,
}

/// The mathematical value of a [`Field`].
pub enum FieldModel {
    Text(Seq<char>),
    Other,
}

/// The mathematical value of a [`Member`].
pub struct MemberModel {
    pub name: Seq<char>,
    pub value: FieldModel,
}

/// The mathematical value of a [`Record`].
pub enum Document {
    Object(Seq<MemberModel>),
    Other,
}

impl View for Field {
    type V = FieldModel;

    open spec fn view(&self) -> FieldModel {
        match self {
            Field::Text(text) => FieldModel::Text(text@),
            Field::Other => FieldModel::Other,
        }
    }
}

impl View for Member {
    type V = MemberModel;

    open spec fn view(&self) -> MemberModel {
        MemberModel { name: self.name@, value: self.value@ }
    }
}

/// The members of an object, each by its mathematical value.
pub open spec fn member_models(members: Seq<Member>) -> Seq<MemberModel> {
    members.map_values(|m: Member| m@)
}

impl View for Record {
    type V = Document;

    open spec fn view(&self) -> Document {
        match self {
            Record::Object(members) => Document::Object(member_models(members@)),
            Record::Other => Document::Other,
        }
    }
}

/// What the first member called `name` holds, if there is such a member.
pub open spec fn lookup(members: Seq<MemberModel>, name: Seq<char>) -> Option<FieldModel>
    decreases members.len(),
{
    if members.len() == 0 {
        None
    } else if members[0].name == name {
        Some(members[0].value)
    } else {
        lookup(members.drop_first(), name)
    }
}

/// The string that the member called `name` holds: `None` where the document
/// is no object, has no such member, or the member is no string.
pub open spec fn text_member(doc: Document, name: Seq<char>) -> Option<Seq<char>> {
    match doc {
        Document::Object(members) => match lookup(members, name) {
            Some(FieldModel::Text(text)) => Some(text),
            _ => None,
        },
        Document::Other => None,
    }
}

/// The document that `serde_json` reads from a text, `None` where it rejects
/// the text.
pub uninterp spec fn json_document(text: Seq<char>) -> Option<Document>;

/// The error of `serde_json`, carried from the decoder to where it is
/// mapped to a [`LineError`].
#[verifier::external_type_specification]
#[verifier::external_body]
pub struct ExJsonError(serde_json::Error);

/// Calls `serde_json::from_str` for a `serde_json::Value` and hands the value
/// out as a [`Record`]: the members of an object one for one, each with its
/// string where it holds one. Nothing is proved of the decoder: the contract
/// only gives its answer the name [`json_document`].
#[verifier::external_body]
fn decode_json(line: &str) -> (decoded: Result<Record, serde_json::Error>)
    ensures
        match decoded {
            Ok(record) => json_document(line@) == Some(record@),
            Err(_) => json_document(line@) is None,
        },
{
    Ok(match serde_json::from_str::<serde_json::Value>(line)? {
        serde_json::Value::Object(map) => Record::Object(
            map.into_iter().map(|(name, value)| Member {
                name,
                value: match value {
                    serde_json::Value::String(text) => Field::Text(text),
                    _ => Field::Other,
                },
            }).collect(),
        ),
        _ => Record::Other,
    })
}

/// Decodes one line. Succeeds exactly on the lines that are well-formed
/// JSON, with the document that the decoder reads from them.
pub fn parse_line(line: &str) -> (decoded: Result<Record, LineError>)
    ensures
        match decoded {
            Ok(record) => json_document(line@) == Some(record@),
            Err(e) => e == LineError::Decode && json_document(line@) is None,
        },
{
    match decode_json(line) {
        Ok(record) => Ok(record),
        Err(_) => Err(LineError::Decode),
    }
}

impl Record {
    /// Whether the record is an object.
    pub fn is_object(&self) -> (object: bool)
        ensures
            object == (self@ is Object),
    {
        match self {
            Record::Object(_) => true,
            Record::Other => false,
        }
    }

    /// The string held by the member called `name`.
    pub fn get_str(&self, name: &str) -> (found: Option<String>)
        ensures
            found.is_some() == text_member(self@, name@).is_some(),
            found matches Some(text) ==> text_member(self@, name@) == Some(text@),
    {
        match self {
            Record::Other => None,
            Record::Object(members) => {
                let wanted = name.to_owned();
                let ghost all = member_models(members@);
                let mut i: usize = 0;
                assert(all.skip(0) == all);
                while i < members.len()
                    invariant
                        i <= members.len(),
                        wanted@ == name@,
                        all == member_models(members@),
                        self@ == Document::Object(all),
                        lookup(all, name@) == lookup(all.skip(i as int), name@),
                    decreases members.len() - i,
                {
                    let member = &members[i];
                    proof {
                        let rest = all.skip(i as int);
                        assert(rest[0] == member@);
                        assert(rest.drop_first() == all.skip(i as int + 1));
                    }
                    if member.name == wanted {
                        return match &member.value {
                            Field::Text(text) => Some(text.clone()),
                            Field::Other => None,
                        };
                    }
                    i += 1;
                }
                None
            },
        }
    }
}

/// The name of the member that holds a record's timestamp.
pub open spec fn timestamp_field() -> Seq<char> {
    "asctime"@
}

/// The timestamp of a document, or why it has none.
pub open spec fn document_timestamp(doc: Document) -> Result<Timestamp, LineError> {
    match doc {
        Document::Other => Err(LineError::NotAnObject),
        Document::Object(_) => match text_member(doc, timestamp_field()) {
            None => Err(LineError::MissingField),
            Some(text) => match timestamp_of_text(text) {
                None => Err(LineError::BadFormat),
                Some(stamp) => Ok(stamp),
            },
        },
    }
}

/// The timestamp of a line, or why it has none.
pub open spec fn line_timestamp(line: Seq<char>) -> Result<Timestamp, LineError> {
    match json_document(line) {
        None => Err(LineError::Decode),
        Some(doc) => document_timestamp(doc),
    }
}

/// The day a line belongs to; `None` for a line that cannot be routed.
pub open spec fn line_date(line: Seq<char>) -> Option<DateKey> {
    match line_timestamp(line) {
        Ok(stamp) => Some(stamp.date),
        Err(_) => None,
    }
}

/// A line that decodes to an object whose member `asctime` has the fixed
/// form and names a day and a time has a timestamp, the one its digits
/// write, and belongs to the day that the first ten characters of the
/// member write, read on their own.
pub proof fn lemma_well_formed_line_has_its_date(
    line: Seq<char>,
    doc: Document,
    asctime: Seq<char>,
)
    requires
        json_document(line) == Some(doc),
        text_member(doc, timestamp_field()) == Some(asctime),
        timestamp_of_text(asctime) is Some,
    ensures
        fixed_form(asctime),
        line_timestamp(line) == Ok::<Timestamp, LineError>(timestamp_of_text(asctime).unwrap()),
        line_date(line) == Some(day_of_digits(asctime)),
        day_of_digits(asctime).wf(),
{
}

/// Reads the timestamp of a record from its member `asctime`.
pub fn extract_timestamp(record: &Record) -> (read: Result<Timestamp, LineError>)
    ensures
        read == document_timestamp(record@),
        read matches Ok(stamp) ==> stamp.wf(),
{
    if !record.is_object() {
        return Err(LineError::NotAnObject);
    }
    match record.get_str("asctime") {
        None => Err(LineError::MissingField),
        Some(text) => match parse_timestamp(text.as_str()) {
            None => Err(LineError::BadFormat),
            Some(stamp) => Ok(stamp),
        },
    }
}

/// Decodes a line and reads its timestamp.
pub fn parse_date(line: &str) -> (read: Result<Timestamp, LineError>)
    ensures
        read == line_timestamp(line@),
        read matches Ok(stamp) ==> stamp.wf(),
{
    match parse_line(line) {
        Err(e) => Err(e),
        Ok(record) => extract_timestamp(&record),
    }
}

} // verus!
