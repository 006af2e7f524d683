//! A JSON document as a plain tree, and the reading of one from text.

use vstd::prelude::*;

verus! {

/// `serde_json::Value`, carried from the parser to the conversion and not
/// looked into.
#[verifier::external_type_specification]
#[verifier::external_body]
pub struct ExValue(serde_json::Value);

/// `serde_json::Error`; only its presence is used.
#[verifier::external_type_specification]
#[verifier::external_body]
pub struct ExError(serde_json::Error);

/// A JSON number.
#[derive(Clone, Debug, PartialEq, Eq)]
pub struct Number {
    /// The number itself where it is a whole number from 0 to `u64::MAX`.
    pub whole: Option<u64>,
    /// The number in decimal notation.
    pub text: String,
}

/// One `key: value` pair of a JSON object.
#[derive(Debug, PartialEq, Eq)]
pub struct Member {
    pub key: String,
    pub value: Json,
}

/// A JSON value.
#[derive(Debug, PartialEq, Eq)]
pub enum Json {
    Null,
    Bool(bool),
    Number(Number),
    Text(String),
    Array(Vec<Json>),
    Object(Vec<Member>),
}

/// Whether `members[i]` is the first member whose key is `key`.
pub open spec fn first_with_key(members: Seq<Member>, key: Seq<char>, i: int) -> bool {
    &&& 0 <= i < members.len()
    &&& members[i].key@ == key
    &&& forall|j: int| 0 <= j < i ==> members[j].key@ != key
}

/// The value of the first member of `members` whose key is `key`.
pub open spec fn lookup(members: Seq<Member>, key: Seq<char>) -> Option<Json> {
    if exists|i: int| first_with_key(members, key, i) {
        Some(members[choose|i: int| first_with_key(members, key, i)].value)
    } else {
        None
    }
}

impl Json {
    /// The items of an array; `None` for any other value.
    pub open spec fn items(self) -> Option<Seq<Json>> {
        match self {
            Json::Array(items) => Some(items@),
            _ => None,
        }
    }

    /// The value under `key` in an object, that of the first such member
    /// where the key is repeated; `None` where there is none or `self` is no
    /// object.
    pub open spec fn member(self, key: Seq<char>) -> Option<Json> {
        match self {
            Json::Object(members) => lookup(members@, key),
            _ => None,
        }
    }

    /// The characters of a string; `None` for any other value.
    pub open spec fn text(self) -> Option<Seq<char>> {
        match self {
            Json::Text(s) => Some(s@),
            _ => None,
        }
    }

    /// A number where it is whole and from 0 to `u64::MAX`; `None` for any
    /// other value.
    pub open spec fn whole(self) -> Option<u64> {
        match self {
            Json::Number(n) => n.whole,
            _ => None,
        }
    }

    /// A number; `None` for any other value.
    pub open spec fn number(self) -> Option<Number> {
        match self {
            Json::Number(n) => Some(n),
            _ => None,
        }
    }

    /// The items of an array.
    pub fn as_array(&self) -> (items: Option<&Vec<Json>>)
        ensures
            match items {
                Some(v) => self.items() == Some(v@),
                None => self.items() is None,
            },
    {
        match self {
            Json::Array(items) => Some(items),
            _ => None,
        }
    }

    /// The value under `key` in an object.
    pub fn get(&self, key: &str) -> (found: Option<&Json>)
        ensures
            match found {
                Some(value) => self.member(key@) == Some(*value),
                None => self.member(key@) is None,
            },
    {
        match self {
            Json::Object(members) => find(members, key),
            _ => None,
        }
    }

    /// The characters of a string.
    pub fn as_text(&self) -> (text: Option<&String>)
        ensures
            match text {
                Some(s) => self.text() == Some(s@),
                None => self.text() is None,
            },
    {
        match self {
            Json::Text(s) => Some(s),
            _ => None,
        }
    }

    /// A whole number from 0 to `u64::MAX`.
    pub fn as_whole(&self) -> (n: Option<u64>)
        ensures
            n == self.whole(),
    {
        match self {
            Json::Number(n) => n.whole,
            _ => None,
        }
    }

    /// A number.
    pub fn as_number(&self) -> (n: Option<&Number>)
        ensures
            match n {
                Some(n) => self.number() == Some(*n),
                None => self.number() is None,
            },
    {
        match self {
            Json::Number(n) => Some(n),
            _ => None,
        }
    }
}

/// The value of the first member of `members` whose key is `key`.
fn find<'a>(members: &'a Vec<Member>, key: &str) -> (found: Option<&'a Json>)
    ensures
        match found {
            Some(value) => lookup(members@, key@) == Some(*value),
            None => lookup(members@, key@) is None,
        },
{
    let mut i: usize = 0;
    while i < members.len()
        invariant
            i <= members.len(),
            forall|j: int| 0 <= j < i ==> members@[j].key@ != key@,
        decreases members.len() - i,
    {
        if same_text(&members[i].key, key) {
            proof {
                assert(first_with_key(members@, key@, i as int));
                let first = choose|k: int| first_with_key(members@, key@, k);
                assert(first == i);
            }
            return Some(&members[i].value);
        }
        i += 1;
    }
    None
}

/// Whether `a` and `b` hold the same characters.
fn same_text(a: &String, b: &str) -> (same: bool)
    ensures
        same == (a@ == b@),
{
    let b_owned = b.to_owned();
    *a == b_owned
}

/// What `serde_json::from_str` makes of `text`: the document, or `None`
/// where `text` is not one JSON value.
pub uninterp spec fn document(text: Seq<char>) -> Option<Json>;

/// The tree that a `serde_json::Value` holds.
pub uninterp spec fn value_tree(value: serde_json::Value) -> Json;

/// Calls `serde_json::from_str` for a `serde_json::Value`. It fails exactly
/// on the texts that are no JSON document, and on the others returns the
/// value that holds the document.
#[verifier::external_body]
fn parse_value(text: &str) -> (parsed: Result<serde_json::Value, serde_json::Error>)
    ensures
        match parsed {
            Ok(value) => document(text@) == Some(value_tree(value)),
            Err(_) => document(text@) is None,
        },
{
    serde_json::from_str::<serde_json::Value>(text)
}

/// Moves the variants and fields of a `serde_json::Value` into a `Json`, one
/// for one; of a number it keeps `Number::as_u64` and its display form, of an
/// object the members in the order in which `serde_json::Map` hands them out.
#[verifier::external_body]
fn tree_of_value(value: serde_json::Value) -> (tree: Json)
    ensures
        tree == value_tree(value),
{
    match value {
        serde_json::Value::Null => Json::Null,
        serde_json::Value::Bool(b) => Json::Bool(b),
        serde_json::Value::Number(n) => Json::Number(Number { whole: n.as_u64(), text: n.to_string() }),
        serde_json::Value::String(s) => Json::Text(s),
        serde_json::Value::Array(a) => Json::Array(a.into_iter().map(tree_of_value).collect()),
        serde_json::Value::Object(m) => Json::Object(
            m.into_iter().map(|(key, v)| Member { key, value: tree_of_value(v) }).collect(),
        ),
    }
}

/// Reads a JSON document from `text`.
pub fn parse_json(text: &str) -> (parsed: Option<Json>)
    ensures
        parsed == document(text@),
{
    match parse_value(text) {
        Ok(value) => Some(tree_of_value(value)),
        Err(_) => None,
    }
}

} // verus!
