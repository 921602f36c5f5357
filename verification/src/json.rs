//! JSON documents as plain values.
//!
//! `serde_json` reads the text. What it read is copied into `JsonValue`, on
//! which the rest of the library works.

use vstd::prelude::*;
use vstd::string::StringExecFns;

verus! {

/// A JSON value.
#[derive(Debug, PartialEq, Eq)]
pub enum JsonValue {
    Null,
    Bool(bool),
    /// A number, in the decimal notation that `serde_json` prints it in.
    Number(String),
    Text(String),
    Array(Vec<JsonValue>),
    /// The members of an object. What `parse` reads holds each key once.
    Object(Vec<JsonMember>),
}

/// One member of a JSON object.
#[derive(Debug, PartialEq, Eq)]
pub struct JsonMember {
    pub key: String,
    pub value: JsonValue,
}

/// The value of the first of `members` whose key is `key`.
pub open spec fn first_member(members: Seq<JsonMember>, key: Seq<char>) -> Option<JsonValue>
    decreases members.len(),
{
    if members.len() == 0 {
        None
    } else if members[0].key@ == key {
        Some(members[0].value)
    } else {
        first_member(members.drop_first(), key)
    }
}

/// The value of the first of `members` whose key is `key`.
fn find_member<'a>(members: &'a Vec<JsonMember>, key: &str) -> (r: Option<&'a JsonValue>)
    ensures
        match r {
            Some(value) => first_member(members@, key@) == Some(*value),
            None => first_member(members@, key@) is None,
        },
{
    let wanted = String::from_str(key);
    let mut i: usize = 0;
    proof {
        assert(members@.skip(0) =~= members@);
    }
    while i < members.len()
        invariant
            i <= members.len(),
            wanted@ == key@,
            first_member(members@, key@) == first_member(members@.skip(i as int), key@),
        decreases members.len() - i,
    {
        proof {
            assert(members@.skip(i as int).drop_first() =~= members@.skip(i + 1));
        }
        if members[i].key == wanted {
            return Some(&members[i].value);
        }
        i += 1;
    }
    None
}

impl JsonValue {
    /// The member `key` of an object. Other values have no members.
    pub open spec fn member(self, key: Seq<char>) -> Option<JsonValue> {
        match self {
            JsonValue::Object(members) => first_member(members@, key),
            _ => None,
        }
    }

    /// The characters of a string. Other values have none.
    pub open spec fn text(self) -> Option<Seq<char>> {
        match self {
            JsonValue::Text(s) => Some(s@),
            _ => None,
        }
    }

    /// The characters of the string that is the member `key`.
    pub open spec fn text_member(self, key: Seq<char>) -> Option<Seq<char>> {
        match self.member(key) {
            Some(value) => value.text(),
            None => None,
        }
    }

    /// The member `key` of an object.
    pub fn get(&self, key: &str) -> (r: Option<&JsonValue>)
        ensures
            match r {
                Some(value) => self.member(key@) == Some(*value),
                None => self.member(key@) is None,
            },
    {
        match self {
            JsonValue::Object(members) => find_member(members, key),
            _ => None,
        }
    }

    /// The items of an array.
    pub fn as_array(&self) -> (r: Option<&Vec<JsonValue>>)
        ensures
            match r {
                Some(items) => *self == JsonValue::Array(*items),
                None => !(self is Array),
            },
    {
        match self {
            JsonValue::Array(items) => Some(items),
            _ => None,
        }
    }

    /// The characters of a string.
    pub fn as_str(&self) -> (r: Option<&String>)
        ensures
            match r {
                Some(s) => self.text() == Some(s@),
                None => self.text() is None,
            },
    {
        match self {
            JsonValue::Text(s) => Some(s),
            _ => None,
        }
    }

    /// The string that is the member `key`.
    pub fn get_str(&self, key: &str) -> (r: Option<String>)
        ensures
            r.deep_view() == self.text_member(key@),
    {
        match self.get(key) {
            Some(value) => match value.as_str() {
                Some(s) => Some(s.clone()),
                None => None,
            },
            None => None,
        }
    }

    /// The document that `text` is, as `serde_json` reads it.
    pub fn parse(text: &str) -> (r: Option<JsonValue>)
        ensures
            r == json_document(text@),
    {
        match read_document(text) {
            Some(value) => Some(model_of(&value)),
            None => None,
        }
    }
}

/// `serde_json::Value`, a JSON value as `serde_json` holds it. The library
/// takes it from `read_document` to `model_of` and looks into it nowhere.
#[verifier::external_type_specification]
#[verifier::external_body]
pub struct ExValue(serde_json::Value);

/// The document that `serde_json::from_str` reads from `text`, as a
/// `JsonValue`: `None` where it takes `text` for no JSON value.
pub uninterp spec fn json_document(text: Seq<char>) -> Option<JsonValue>;

/// What a `serde_json::Value` holds, as a `JsonValue`: its variant, and in
/// it the boolean, the number as `serde_json` prints it, the string, the
/// items in order, or the members in the order of `serde_json::Map::iter`.
pub uninterp spec fn json_model(value: serde_json::Value) -> JsonValue;

/// Calls `serde_json::from_str`, asked for a `serde_json::Value`, and drops
/// what the error says. Not proved: that what comes back depends on `text`
/// alone, so that `json_document` can name it. Nothing is claimed of which
/// texts are documents, nor of what they hold.
#[verifier::external_body]
fn read_document(text: &str) -> (r: Option<serde_json::Value>)
    ensures
        match r {
            Some(value) => json_document(text@) == Some(json_model(value)),
            None => json_document(text@) is None,
        },
{
    serde_json::from_str::<serde_json::Value>(text).ok()
}

/// Copies a `serde_json::Value` into a `JsonValue`, variant by variant: a
/// number through its `Display`, a string and a key by `clone`, the items
/// of an array through `iter`, the members of an object through
/// `serde_json::Map::iter`. Not proved: that the copy depends on the value
/// alone, so that `json_model` can name it. Nothing else is claimed of it.
#[verifier::external_body]
fn model_of(value: &serde_json::Value) -> (r: JsonValue)
    ensures
        r == json_model(*value),
{
    match value {
        serde_json::Value::Null => JsonValue::Null,
        serde_json::Value::Bool(b) => JsonValue::Bool(*b),
        serde_json::Value::Number(n) => JsonValue::Number(n.to_string()),
        serde_json::Value::String(s) => JsonValue::Text(s.clone()),
        serde_json::Value::Array(items) => JsonValue::Array(items.iter().map(model_of).collect()),
        serde_json::Value::Object(map) => JsonValue::Object(
            map.iter().map(|(k, v)| JsonMember { key: k.clone(), value: model_of(v) }).collect(),
        ),
    }
}

} // verus!
