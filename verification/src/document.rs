//! The boundary to `serde_json`: the document type, its mathematical model, and the
//! few calls into the crate against which the rest of the library is proved.
//!
//! Nothing in this file is proved. Each item says what it takes on trust.

use serde_json::Number;
use serde_json::Value;
use vstd::prelude::*;

verus! {

/// `serde_json::Value`, a parsed document. Verus sees nothing inside it; what it holds
/// is named by [`json`].
#[verifier::external_type_specification]
#[verifier::external_body]
pub struct ExValue(Value);

/// `serde_json::Number`, carried through without being read.
#[verifier::external_type_specification]
#[verifier::external_body]
pub struct ExNumber(Number);

/// `serde_json::Map`, the members of an object. What it holds is named by [`entries`].
#[verifier::external_type_specification]
#[verifier::external_body]
#[verifier::reject_recursive_types(K)]
#[verifier::reject_recursive_types(V)]
pub struct ExMap<K, V>(serde_json::Map<K, V>);

/// A document as a mathematical value: one of six shapes, the two containers holding
/// their children in the order in which the document lists them.
pub enum Json {
    Null,
    Bool(bool),
    Number(Number),
    String(Seq<char>),
    Array(Seq<Json>),
    Object(Seq<(Seq<char>, Json)>),
}

impl Json {
    /// Arrays and objects have children; the other four shapes are scalars.
    pub open spec fn is_container(self) -> bool {
        self is Array || self is Object
    }
}

/// The value under the first pair of `pairs` whose key is `key`, if there is one.
pub open spec fn first_under<T>(pairs: Seq<(Seq<char>, T)>, key: Seq<char>) -> Option<T>
    decreases pairs.len(),
{
    if pairs.len() == 0 {
        None
    } else if pairs[0].0 == key {
        Some(pairs[0].1)
    } else {
        first_under(pairs.drop_first(), key)
    }
}

/// No key occurs twice in `pairs`.
pub open spec fn distinct_keys<T>(pairs: Seq<(Seq<char>, T)>) -> bool {
    forall|i: int, j: int|
        0 <= i < j < pairs.len() ==> (#[trigger] pairs[i]).0 != (#[trigger] pairs[j]).0
}

/// What a `serde_json::Value` holds.
pub uninterp spec fn json(value: Value) -> Json;

/// The key and value of each entry of a `serde_json::Map`, in the order in which the
/// map is walked.
pub uninterp spec fn entries(object: serde_json::Map<String, Value>) -> Seq<(Seq<char>, Value)>;

/// The text that `serde_json` writes for a number or a string.
pub uninterp spec fn literal(doc: Json) -> Seq<char>;

/// The members of an object, each value replaced by what it holds.
pub open spec fn members_of(object: serde_json::Map<String, Value>) -> Seq<(Seq<char>, Json)> {
    entries(object).map_values(|entry: (Seq<char>, Value)| (entry.0, json(entry.1)))
}

/// What each element of an array holds.
pub open spec fn items_of(array: Seq<Value>) -> Seq<Json> {
    array.map_values(|item: Value| json(item))
}

/// The text of a scalar: `null`, `true` and `false` as written here, a number or a
/// string as `serde_json` writes it.
pub open spec fn scalar_text(doc: Json) -> Seq<char> {
    match doc {
        Json::Null => seq!['n', 'u', 'l', 'l'],
        Json::Bool(flag) => if flag {
            seq!['t', 'r', 'u', 'e']
        } else {
            seq!['f', 'a', 'l', 's', 'e']
        },
        _ => literal(doc),
    }
}

/// A value taken apart one level: its variant and borrowed payload.
pub(crate) enum Shape<'v> {
    Null,
    Bool(bool),
    Number(&'v Number),
    String(&'v String),
    Array(&'v Vec<Value>),
    Object(&'v serde_json::Map<String, Value>),
}

/// Matches on the variants of `serde_json::Value`.
///
/// Trusted: [`json`] of the value is the variant found, with the payload found; for an
/// array and an object, what [`json`] says of each child in place of the child.
#[verifier::external_body]
pub(crate) fn shape_of<'v>(value: &'v Value) -> (shape: Shape<'v>)
    ensures
        match shape {
            Shape::Null => json(*value) == Json::Null,
            Shape::Bool(flag) => json(*value) == Json::Bool(flag),
            Shape::Number(number) => json(*value) == Json::Number(*number),
            Shape::String(string) => json(*value) == Json::String(string@),
            Shape::Array(array) => json(*value) == Json::Array(items_of(array@)),
            Shape::Object(object) => json(*value) == Json::Object(members_of(*object)),
        },
{
    match value {
        Value::Null => Shape::Null,
        Value::Bool(flag) => Shape::Bool(*flag),
        Value::Number(number) => Shape::Number(number),
        Value::String(string) => Shape::String(string),
        Value::Array(array) => Shape::Array(array),
        Value::Object(object) => Shape::Object(object),
    }
}

/// Calls `serde_json::Map::get`.
///
/// Trusted: the result is the value of the entry whose key has the characters of `key`,
/// and `None` when no entry has that key. A map holds a key at most once, so the first
/// such entry in the order of [`entries`] is the only one.
#[verifier::external_body]
pub(crate) fn object_get<'v>(object: &'v serde_json::Map<String, Value>, key: &String) -> (found:
    Option<&'v Value>)
    ensures
        match found {
            Some(value) => first_under(entries(*object), key@) == Some(*value),
            None => first_under(entries(*object), key@) is None,
        },
{
    object.get(key)
}

/// Calls `serde_json::Map::iter` and collects what it yields.
///
/// Trusted: the result lists the entries in the order of [`entries`], each as a borrowed
/// key and value, and no two of the keys have the same characters.
#[verifier::external_body]
pub(crate) fn object_entries<'v>(object: &'v serde_json::Map<String, Value>) -> (listed: Vec<
    (&'v String, &'v Value),
>)
    ensures
        listed@.len() == entries(*object).len(),
        forall|i: int|
            0 <= i < listed@.len() ==> (#[trigger] listed@[i]).0@ == entries(*object)[i].0
                && *listed@[i].1 == entries(*object)[i].1,
        forall|i: int, j: int|
            0 <= i < j < listed@.len() ==> (#[trigger] listed@[i]).0@ != (#[trigger] listed@[j]).0@,
{
    object.iter().collect()
}

/// Calls `to_string` on a `serde_json::Value`, which writes it as compact JSON.
///
/// Trusted: a scalar is written as [`scalar_text`] says: `null` for null, `true` and
/// `false` for the booleans, and for a number or a string a text that depends on
/// nothing but the value.
#[verifier::external_body]
pub(crate) fn value_text(value: &Value) -> (text: String)
    requires
        !json(*value).is_container(),
    ensures
        text@ == match json(*value) {
            Json::Null => seq!['n', 'u', 'l', 'l'],
            Json::Bool(flag) => if flag {
                seq!['t', 'r', 'u', 'e']
            } else {
                seq!['f', 'a', 'l', 's', 'e']
            },
            other => literal(other),
        },
{
    value.to_string()
}

} // verus!
