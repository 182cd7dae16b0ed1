//! JSON documents, read by `serde_json` and seen here through their shape.

use vstd::prelude::*;
use serde_json::Value;

verus! {

/// `serde_json::Value`, which the verifier carries without looking inside.
#[verifier::external_type_specification]
#[verifier::external_body]
pub struct ExValue(serde_json::Value);

/// `serde_json::Error`, of which only its being there is used.
#[verifier::external_type_specification]
#[verifier::external_body]
pub struct ExJsonError(serde_json::Error);

/// The shape of a JSON value: what contracts say about a `Value`.
///
/// A number that is written as an integer and fits the parser's integer
/// types is `Integer`; every other number is `Real`, whose value no contract
/// here needs.
pub enum JsonTree {
    Null,
    Bool(bool),
    Integer(int),
    Real,
    Text(Seq<char>),
    Array(Seq<JsonTree>),
    Object(Map<Seq<char>, JsonTree>),
}

impl JsonTree {
    /// The member `key` of an object; `Null` where there is none, or where
    /// the value is no object.
    pub open spec fn member(self, key: Seq<char>) -> JsonTree {
        match self {
            JsonTree::Object(members) => if members.dom().contains(key) {
                members[key]
            } else {
                JsonTree::Null
            },
            _ => JsonTree::Null,
        }
    }

    /// The text of a string value.
    pub open spec fn text(self) -> Option<Seq<char>> {
        match self {
            JsonTree::Text(t) => Some(t),
            _ => None,
        }
    }

    /// The items of an array.
    pub open spec fn items(self) -> Option<Seq<JsonTree>> {
        match self {
            JsonTree::Array(items) => Some(items),
            _ => None,
        }
    }

    /// The value of an integer that fits in 64 signed bits.
    pub open spec fn integer(self) -> Option<i64> {
        match self {
            JsonTree::Integer(n) => if i64::MIN <= n <= i64::MAX {
                Some(n as i64)
            } else {
                None
            },
            _ => None,
        }
    }
}

/// The shape of the value that `serde_json::from_slice` reads from `body`,
/// `None` where it rejects the bytes.
pub uninterp spec fn json_document(body: Seq<u8>) -> Option<JsonTree>;

/// The shape of a parsed value.
pub uninterp spec fn json_view(v: Value) -> JsonTree;

/// The shapes of a run of parsed values.
pub open spec fn json_views(items: Seq<Value>) -> Seq<JsonTree> {
    Seq::new(items.len(), |i: int| json_view(items[i]))
}

/// Calls `serde_json::from_slice` for a `Value`. The contract only names the
/// outcome: the same bytes always parse to the same shape, or are always
/// rejected.
#[verifier::external_body]
pub(crate) fn parse_document(body: &[u8]) -> (r: Result<Value, serde_json::Error>)
    ensures
        r matches Ok(v) ==> json_document(body@) == Some(json_view(v)),
        r is Err ==> json_document(body@) is None,
{
    serde_json::from_slice::<Value>(body)
}

/// Calls `Value::get` with a string key. It finds a value only in an object
/// that has the key; the contract puts "nothing found" as `None`, where
/// `JsonTree::member` says `Null`.
#[verifier::external_body]
pub(crate) fn member<'a>(v: &'a Value, key: &str) -> (r: Option<&'a Value>)
    ensures
        r matches Some(m) ==> (json_view(*v) matches JsonTree::Object(members)
            && members.dom().contains(key@) && members[key@] == json_view(*m)),
        r is None ==> !(json_view(*v) matches JsonTree::Object(members)
            && members.dom().contains(key@)),
{
    v.get(key)
}

/// `Value::as_array` hands out the items of an array and nothing for any
/// other value.
pub assume_specification<'a>[ Value::as_array ](v: &'a Value) -> (r: Option<&'a Vec<Value>>)
    ensures
        r matches Some(items) ==> json_view(*v).items() == Some(json_views(items@)),
        r is None ==> json_view(*v).items() is None,
;

/// `Value::as_str` hands out the text of a string and nothing for any other
/// value.
pub assume_specification<'a>[ Value::as_str ](v: &'a Value) -> (r: Option<&'a str>)
    ensures
        r matches Some(t) ==> json_view(*v).text() == Some(t@),
        r is None ==> json_view(*v).text() is None,
;

/// `Value::as_i64` hands out an integer that fits in 64 signed bits, and
/// nothing for a larger integer, a number with a fraction or exponent, or a
/// value that is no number.
pub assume_specification[ Value::as_i64 ](v: &Value) -> (r: Option<i64>)
    ensures
        r == json_view(*v).integer(),
;

} // verus!
