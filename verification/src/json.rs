//! JSON documents as a tree of the crate's own, read by `serde_json`.

use serde_json::Value;
use vstd::prelude::*;
use vstd::string::StringExecFns;

verus! {

/// `serde_json::Value`, which only passes from the parser to the conversion.
#[verifier::external_type_specification]
#[verifier::external_body]
pub struct ExValue(serde_json::Value);

/// One member of a JSON object.
#[derive(Debug)]
pub struct JsonMember {
    pub name: String,
    pub value: JsonValue,
}

/// A JSON document. An object holds its members in the order in which the
/// parser hands them out; a number is kept as its text.
#[derive(Debug)]
pub enum JsonValue {
    Null,
    Bool(bool),
    Number(String),
    Text(String),
    Array(Vec<JsonValue>),
    Object(Vec<JsonMember>),
}

/// The document that `serde_json::from_str` reads from `text`, as a
/// `JsonValue`; nothing where `text` is not well-formed JSON.
pub uninterp spec fn json_document(text: Seq<char>) -> Option<JsonValue>;

/// Rebuilds a `serde_json::Value` as a `JsonValue`, variant by variant and
/// member by member. A number becomes the text that `serde_json::Number`
/// displays; the members of an object come in the order in which
/// `serde_json::Map` hands them out.
#[verifier::external_body]
fn from_value(value: Value) -> JsonValue {
    match value {
        Value::Null => JsonValue::Null,
        Value::Bool(flag) => JsonValue::Bool(flag),
        Value::Number(number) => JsonValue::Number(number.to_string()),
        Value::String(text) => JsonValue::Text(text),
        Value::Array(items) => JsonValue::Array(items.into_iter().map(from_value).collect()),
        Value::Object(members) => JsonValue::Object(
            members.into_iter().map(|(name, v)| JsonMember { name, value: from_value(v) }).collect()
        ),
    }
}

/// Calls `serde_json::from_str` for a `serde_json::Value` and rebuilds what
/// it read as a `JsonValue`. The contract only gives that outcome its name.
#[verifier::external_body]
fn read_json(text: &str) -> (r: Option<JsonValue>)
    ensures
        r == json_document(text@),
{
    match serde_json::from_str::<Value>(text) {
        Ok(value) => Some(from_value(value)),
        Err(_) => None,
    }
}

/// The JSON document that `text` holds; nothing where `text` is not
/// well-formed JSON.
pub fn parse_json(text: &str) -> (r: Option<JsonValue>)
    ensures
        r == json_document(text@),
{
    read_json(text)
}

/// The value of the first member called `name` among `members[from..]`.
pub open spec fn member_from(members: Seq<JsonMember>, name: Seq<char>, from: int) -> Option<
    JsonValue,
>
    decreases members.len() - from,
{
    if from < 0 || from >= members.len() {
        None
    } else if members[from].name@ == name {
        Some(members[from].value)
    } else {
        member_from(members, name, from + 1)
    }
}

/// The value of the first member called `name`.
pub fn find_member<'a>(members: &'a Vec<JsonMember>, name: &str) -> (r: Option<&'a JsonValue>)
    ensures
        r is Some <==> member_from(members@, name@, 0) is Some,
        r is Some ==> *r->0 == member_from(members@, name@, 0)->0,
{
    let wanted = String::from_str(name);
    let mut i: usize = 0;
    while i < members.len()
        invariant
            i <= members.len(),
            wanted@ == name@,
            member_from(members@, name@, i as int) == member_from(members@, name@, 0),
        decreases members.len() - i,
    {
        if members[i].name == wanted {
            return Some(&members[i].value);
        }
        i += 1;
    }
    None
}

impl JsonValue {
    /// The member called `name`, where this is an object that has one.
    pub open spec fn member(self, name: Seq<char>) -> Option<JsonValue> {
        match self {
            JsonValue::Object(members) => member_from(members@, name, 0),
            _ => None,
        }
    }

    /// The text, where this is a string.
    pub open spec fn text(self) -> Option<Seq<char>> {
        match self {
            JsonValue::Text(text) => Some(text@),
            _ => None,
        }
    }

    /// The member called `name`, where this is an object that has one.
    pub fn get(&self, name: &str) -> (r: Option<&JsonValue>)
        ensures
            r is Some <==> self.member(name@) is Some,
            r is Some ==> *r->0 == self.member(name@)->0,
    {
        match self {
            JsonValue::Object(members) => find_member(members, name),
            _ => None,
        }
    }

    /// The text, where this is a string.
    pub fn as_str(&self) -> (r: Option<&str>)
        ensures
            r is Some <==> self.text() is Some,
            r is Some ==> r->0@ == self.text()->0,
    {
        match self {
            JsonValue::Text(text) => Some(text.as_str()),
            _ => None,
        }
    }
}

} // verus!
