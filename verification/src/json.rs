//! Reading JSON text: the document model, and what a decoder sees of one
//! member of an object.

use vstd::prelude::*;
use vstd::string::*;

verus! {

/// A JSON document.
pub enum Json {
    Null,
    Bool(bool),
    /// A number written without fraction or exponent, no less than the least
    /// signed and no more than the greatest unsigned integer of sixty-four
    /// bits.
    Integer(int),
    /// Any other number.
    Fraction,
    Text(Seq<char>),
    Array(Seq<Json>),
    /// The members of an object by name; of two members with one name the
    /// later one.
    Object(Map<Seq<char>, Json>),
}

/// `serde_json::Value`, a parsed document. Nothing is seen of what it holds
/// but through the functions below.
#[verifier::external_type_specification]
#[verifier::external_body]
pub struct ExValue(serde_json::Value);

/// The document that a parsed value holds.
pub uninterp spec fn json_of(value: serde_json::Value) -> Json;

/// The document that a text writes, where the text is JSON.
pub uninterp spec fn json_text(text: Seq<char>) -> Option<Json>;

/// `serde_json::from_str`, asked for a `Value`, parses the whole text as one
/// JSON document and fails where the text is not one. The same text always
/// gives the same outcome. Of a failure the parser's message is handed on,
/// and nothing is claimed of what it says.
#[verifier::external_body]
pub(crate) fn parse_value(text: &str) -> (parsed: Result<serde_json::Value, String>)
    ensures
        parsed is Ok <==> json_text(text@) is Some,
        parsed matches Ok(value) ==> json_text(text@) == Some(json_of(value)),
{
    serde_json::from_str(text).map_err(|e: serde_json::Error| e.to_string())
}

/// `Value::get` with a string returns the member of that name where the value
/// is an object that has it, and nothing where the value is no object or has
/// no such member.
#[verifier::external_body]
pub(crate) fn member_of<'a>(value: &'a serde_json::Value, name: &str) -> (found: Option<
    &'a serde_json::Value,
>)
    ensures
        found is Some <==> (json_of(*value) matches Json::Object(members) && members.contains_key(
            name@,
        )),
        found matches Some(inner) ==> (json_of(*value) matches Json::Object(members)
            && members[name@] == json_of(*inner)),
{
    value.get(name)
}

/// `Value::is_null` tells whether the value is `null`.
pub assume_specification[ serde_json::Value::is_null ](value: &serde_json::Value) -> (null: bool)
    ensures
        null == (json_of(*value) is Null),
;

/// `Value::as_bool` returns the truth value where the value is one.
pub assume_specification[ serde_json::Value::as_bool ](value: &serde_json::Value) -> (truth:
    Option<bool>)
    ensures
        truth == (match json_of(*value) {
            Json::Bool(b) => Some(b),
            _ => None,
        }),
;

/// `Value::as_i64` returns the number where the value is an integer that a
/// signed integer of sixty-four bits can hold.
pub assume_specification[ serde_json::Value::as_i64 ](value: &serde_json::Value) -> (number:
    Option<i64>)
    ensures
        number == (match json_of(*value) {
            Json::Integer(n) => if i64::MIN <= n <= i64::MAX {
                Some(n as i64)
            } else {
                None
            },
            _ => None,
        }),
;

/// `Value::as_str` returns the text where the value is a string.
pub assume_specification<'a>[ serde_json::Value::as_str ](value: &'a serde_json::Value) -> (text:
    Option<&'a str>)
    ensures
        text is Some <==> json_of(*value) is Text,
        text matches Some(s) ==> json_of(*value) == Json::Text(s@),
;

/// `Value::is_object` tells whether the value is an object.
pub assume_specification[ serde_json::Value::is_object ](value: &serde_json::Value) -> (object:
    bool)
    ensures
        object == (json_of(*value) is Object),
;

/// What a decoder sees of one member of an object.
#[derive(Debug)]
pub enum Member {
    /// The object has no member of the name.
    Absent,
    /// The member is `null`.
    Null,
    Bool(bool),
    /// An integer that sixty-four signed bits can hold.
    Integer(i64),
    Text(String),
    /// Any other number, an array or an object.
    Other,
}

/// A `Member` with its text as a sequence of characters.
pub enum MemberView {
    Absent,
    Null,
    Bool(bool),
    Integer(i64),
    Text(Seq<char>),
    Other,
}

impl View for Member {
    type V = MemberView;

    open spec fn view(&self) -> MemberView {
        match *self {
            Member::Absent => MemberView::Absent,
            Member::Null => MemberView::Null,
            Member::Bool(b) => MemberView::Bool(b),
            Member::Integer(n) => MemberView::Integer(n),
            Member::Text(s) => MemberView::Text(s@),
            Member::Other => MemberView::Other,
        }
    }
}

/// What a decoder sees of a document that is the member of an object.
pub open spec fn seen(json: Json) -> MemberView {
    match json {
        Json::Null => MemberView::Null,
        Json::Bool(b) => MemberView::Bool(b),
        Json::Integer(n) => if i64::MIN <= n <= i64::MAX {
            MemberView::Integer(n as i64)
        } else {
            MemberView::Other
        },
        Json::Text(s) => MemberView::Text(s),
        _ => MemberView::Other,
    }
}

/// What a decoder sees of the member `name` of the document `json`.
pub open spec fn member_seen(json: Json, name: Seq<char>) -> MemberView {
    match json {
        Json::Object(members) => if members.contains_key(name) {
            seen(members[name])
        } else {
            MemberView::Absent
        },
        _ => MemberView::Absent,
    }
}

/// Reads the member `name` of a parsed value.
pub(crate) fn read_member(value: &serde_json::Value, name: &str) -> (member: Member)
    ensures
        member@ == member_seen(json_of(*value), name@),
{
    match member_of(value, name) {
        None => Member::Absent,
        Some(inner) => {
            if inner.is_null() {
                Member::Null
            } else if let Some(b) = inner.as_bool() {
                Member::Bool(b)
            } else if let Some(n) = inner.as_i64() {
                Member::Integer(n)
            } else if let Some(s) = inner.as_str() {
                Member::Text(s.to_owned())
            } else {
                Member::Other
            }
        },
    }
}

} // verus!
