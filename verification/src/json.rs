//! The part of a JSON document that the forecast reader looks at.
//!
//! Documents are parsed and held by `serde_json`. A `serde_json::Value` is
//! opaque to the verifier, so what it holds is named by `json_tree`, and the
//! accessors used on it are declared here with contracts taken on trust.

use vstd::prelude::*;

verus! {

/// Makes `serde_json::Value` known to the verifier as an opaque type.
#[verifier::external_type_specification]
#[verifier::external_body]
pub struct ExValue(serde_json::Value);

/// Makes `serde_json::Error` known to the verifier as an opaque type.
#[verifier::external_type_specification]
#[verifier::external_body]
pub struct ExJsonError(serde_json::Error);

/// The shape of a JSON value as far as it matters here: strings, arrays
/// and objects are told apart and looked into; null, booleans and numbers
/// are all `Other`.
pub enum JsonTree {
    Text(Seq<char>),
    List(Seq<JsonTree>),
    Object(Map<Seq<char>, JsonTree>),
    Other,
}

/// What a JSON value holds.
pub uninterp spec fn json_tree(v: serde_json::Value) -> JsonTree;

/// What `serde_json::from_str` makes of a text: the value it parses to, or
/// the message of the error it reports.
pub uninterp spec fn json_document(text: Seq<char>) -> Result<JsonTree, Seq<char>>;

/// The message that a `serde_json::Error` displays.
pub uninterp spec fn json_error_message(e: serde_json::Error) -> Seq<char>;

impl JsonTree {
    /// The member `key` of an object; `None` for a missing key and for
    /// anything that is not an object.
    pub open spec fn member(self, key: Seq<char>) -> Option<JsonTree> {
        match self {
            JsonTree::Object(members) => if members.contains_key(key) {
                Some(members[key])
            } else {
                None
            },
            _ => None,
        }
    }

    /// The characters of a string; `None` for anything else.
    pub open spec fn text(self) -> Option<Seq<char>> {
        match self {
            JsonTree::Text(s) => Some(s),
            _ => None,
        }
    }

    /// The elements of an array; `None` for anything else.
    pub open spec fn items(self) -> Option<Seq<JsonTree>> {
        match self {
            JsonTree::List(elements) => Some(elements),
            _ => None,
        }
    }

    /// The string member `key` of an object; `None` if the member is
    /// missing or is not a string.
    pub open spec fn text_member(self, key: Seq<char>) -> Option<Seq<char>> {
        match self.member(key) {
            Some(m) => m.text(),
            None => None,
        }
    }

    /// The array member `key` of an object; `None` if the member is missing
    /// or is not an array.
    pub open spec fn list_member(self, key: Seq<char>) -> Option<Seq<JsonTree>> {
        match self.member(key) {
            Some(m) => m.items(),
            None => None,
        }
    }
}

/// Calls `serde_json::from_str::<Value>`, which parses the whole text as
/// one JSON value or reports why it is not one. The outcome depends on the
/// text alone and is named by `json_document`.
#[verifier::external_body]
pub(crate) fn parse_json(text: &str) -> (r: Result<serde_json::Value, serde_json::Error>)
    ensures
        match r {
            Ok(v) => json_document(text@) == Ok::<JsonTree, Seq<char>>(json_tree(v)),
            Err(e) => json_document(text@) == Err::<JsonTree, Seq<char>>(json_error_message(e)),
        },
{
    serde_json::from_str::<serde_json::Value>(text)
}

/// Calls `to_string` on a `serde_json::Error`: the message it displays.
#[verifier::external_body]
pub(crate) fn error_message(e: &serde_json::Error) -> (s: String)
    ensures
        s@ == json_error_message(*e),
{
    e.to_string()
}

/// Calls `Value::get` with a string key: the member of that name if the
/// value is an object that has one, and `None` otherwise.
#[verifier::external_body]
pub(crate) fn member<'a>(v: &'a serde_json::Value, key: &str) -> (r: Option<&'a serde_json::Value>)
    ensures
        match r {
            Some(m) => json_tree(*v).member(key@) == Some(json_tree(*m)),
            None => json_tree(*v).member(key@) is None,
        },
{
    v.get(key)
}

/// Calls `Value::as_str`: the text if the value is a string, and `None`
/// otherwise.
#[verifier::external_body]
pub(crate) fn as_text<'a>(v: &'a serde_json::Value) -> (r: Option<&'a str>)
    ensures
        match r {
            Some(s) => json_tree(*v).text() == Some(s@),
            None => json_tree(*v).text() is None,
        },
{
    v.as_str()
}

/// Calls `Value::as_array`: the elements in order if the value is an
/// array, and `None` otherwise.
#[verifier::external_body]
pub(crate) fn as_items<'a>(v: &'a serde_json::Value) -> (r: Option<&'a Vec<serde_json::Value>>)
    ensures
        match r {
            Some(elements) => json_tree(*v).items() == Some(
                elements@.map_values(|e: serde_json::Value| json_tree(e)),
            ),
            None => json_tree(*v).items() is None,
        },
{
    v.as_array()
}

} // verus!
