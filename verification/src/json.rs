//! A JSON document as plain values.
//!
//! Configuration and service responses reach the library as this tree; the
//! readers below have the semantics of the usual accessors (`get`, `as_str`,
//! `as_u64`, ...), each stated over the tree.

use vstd::prelude::*;
use crate::text::str_eq;

verus! {

/// A JSON number, classified the way a JSON reader classifies it.
#[derive(Debug, Clone)]
pub enum JsonNumber {
    /// A non-negative integer.
    PosInt(u64),
    /// A negative integer.
    NegInt(i64),
    /// Any other number, kept as its text.
    Float(String),
}

impl JsonNumber {
    /// An equal copy.
    pub fn duplicate(&self) -> (r: JsonNumber)
        ensures
            r == *self,
    {
        match self {
            JsonNumber::PosInt(n) => JsonNumber::PosInt(*n),
            JsonNumber::NegInt(n) => JsonNumber::NegInt(*n),
            JsonNumber::Float(t) => JsonNumber::Float(t.clone()),
        }
    }
}

/// A JSON value.
#[derive(Debug)]
pub enum JsonValue {
    Null,
    Bool(bool),
    Number(JsonNumber),
    String(String),
    Array(Vec<JsonValue>),
    /// Members in document order; keys are distinct in a parsed document.
    Object(Vec<(String, JsonValue)>),
}

/// The value stored under `key` in a list of members: the first member with
/// that key.
pub open spec fn member(es: Seq<(String, JsonValue)>, key: Seq<char>) -> Option<JsonValue>
    decreases es.len(),
{
    if es.len() == 0 {
        None
    } else if es[0].0@ == key {
        Some(es[0].1)
    } else {
        member(es.drop_first(), key)
    }
}

impl JsonValue {
    /// `self[key]` when `self` is an object holding `key`.
    pub open spec fn spec_get(self, key: Seq<char>) -> Option<JsonValue> {
        match self {
            JsonValue::Object(es) => member(es@, key),
            _ => None,
        }
    }

    pub open spec fn spec_as_str(self) -> Option<Seq<char>> {
        match self {
            JsonValue::String(s) => Some(s@),
            _ => None,
        }
    }

    pub open spec fn spec_as_u64(self) -> Option<u64> {
        match self {
            JsonValue::Number(JsonNumber::PosInt(n)) => Some(n),
            _ => None,
        }
    }

    pub open spec fn spec_as_bool(self) -> Option<bool> {
        match self {
            JsonValue::Bool(b) => Some(b),
            _ => None,
        }
    }

    pub open spec fn spec_as_array(self) -> Option<Seq<JsonValue>> {
        match self {
            JsonValue::Array(items) => Some(items@),
            _ => None,
        }
    }

    /// The member under `key`, when `self` is an object that has one.
    pub fn get(&self, key: &str) -> (r: Option<&JsonValue>)
        ensures
            r matches Some(v) ==> self.spec_get(key@) == Some(*v),
            r is None <==> self.spec_get(key@) is None,
    {
        match self {
            JsonValue::Object(es) => {
                let mut i: usize = 0;
                assert(es@.subrange(0, es@.len() as int) == es@);
                while i < es.len()
                    invariant
                        i <= es.len(),
                        *self == JsonValue::Object(*es),
                        member(es@, key@) == member(es@.subrange(i as int, es@.len() as int), key@),
                    decreases es.len() - i,
                {
                    assert(es@.subrange(i as int, es@.len() as int).drop_first()
                        == es@.subrange(i + 1, es@.len() as int));
                    assert(es@.subrange(i as int, es@.len() as int)[0] == es@[i as int]);
                    if str_eq(es[i].0.as_str(), key) {
                        return Some(&es[i].1);
                    }
                    i = i + 1;
                }
                None
            },
            _ => None,
        }
    }

    pub fn as_str(&self) -> (r: Option<&String>)
        ensures
            r matches Some(s) ==> self.spec_as_str() == Some(s@),
            r is None <==> self.spec_as_str() is None,
    {
        match self {
            JsonValue::String(s) => Some(s),
            _ => None,
        }
    }

    pub fn as_u64(&self) -> (r: Option<u64>)
        ensures
            r == self.spec_as_u64(),
    {
        match self {
            JsonValue::Number(JsonNumber::PosInt(n)) => Some(*n),
            _ => None,
        }
    }

    pub fn as_bool(&self) -> (r: Option<bool>)
        ensures
            r == self.spec_as_bool(),
    {
        match self {
            JsonValue::Bool(b) => Some(*b),
            _ => None,
        }
    }

    pub fn as_array(&self) -> (r: Option<&Vec<JsonValue>>)
        ensures
            r matches Some(v) ==> self.spec_as_array() == Some(v@),
            r is None <==> self.spec_as_array() is None,
    {
        match self {
            JsonValue::Array(items) => Some(items),
            _ => None,
        }
    }

    pub fn as_object(&self) -> (r: Option<&Vec<(String, JsonValue)>>)
        ensures
            r matches Some(es) ==> self == JsonValue::Object(*es),
            r is None <==> !(self is Object),
    {
        match self {
            JsonValue::Object(es) => Some(es),
            _ => None,
        }
    }

    pub fn is_object(&self) -> (r: bool)
        ensures
            r == (self is Object),
    {
        match self {
            JsonValue::Object(_) => true,
            _ => false,
        }
    }
}

/// `config.services[name]`: the section configuring one service.
pub open spec fn spec_service_config(config: JsonValue, name: Seq<char>) -> Option<JsonValue> {
    match config.spec_get("services"@) {
        Some(services) => services.spec_get(name),
        None => None,
    }
}

/// The section of `config` that configures the service `name`.
pub fn get_service_config<'a>(config: &'a JsonValue, name: &str) -> (r: Option<&'a JsonValue>)
    ensures
        r matches Some(v) ==> spec_service_config(*config, name@) == Some(*v),
        r is None <==> spec_service_config(*config, name@) is None,
{
    match config.get("services") {
        Some(services) => services.get(name),
        None => None,
    }
}

// ---------------------------------------------------------------------------
// Reading a JSON text
// ---------------------------------------------------------------------------

#[verifier::external_type_specification]
#[verifier::external_body]
pub struct ExSerdeJsonValue(serde_json::Value);

#[verifier::external_type_specification]
#[verifier::external_body]
pub struct ExSerdeJsonNumber(serde_json::Number);

/// What reading a JSON text gives: the document's tree, or the reader's
/// error text.
pub uninterp spec fn parsed_json(text: Seq<char>) -> Result<JsonValue, Seq<char>>;

/// A text that reads as this tree.
pub open spec fn read_as(v: JsonValue) -> Result<JsonValue, Seq<char>> {
    Ok(v)
}

/// A text the reader refuses with this error text.
pub open spec fn unreadable(e: Seq<char>) -> Result<JsonValue, Seq<char>> {
    Err(e)
}

/// A `serde_json` number as the library's (telling its three kinds apart).
#[verifier::external_body]
fn number_of(n: &serde_json::Number) -> JsonNumber {
    match (n.as_u64(), n.as_i64()) {
        (Some(u), _) => JsonNumber::PosInt(u),
        (None, Some(i)) => JsonNumber::NegInt(i),
        _ => JsonNumber::Float(n.to_string()),
    }
}

/// A `serde_json` value as the library's tree, variant for variant.
#[verifier::external_body]
fn tree_of(v: &serde_json::Value) -> JsonValue {
    match v {
        serde_json::Value::Null => JsonValue::Null,
        serde_json::Value::Bool(b) => JsonValue::Bool(*b),
        serde_json::Value::Number(n) => JsonValue::Number(number_of(n)),
        serde_json::Value::String(s) => JsonValue::String(s.clone()),
        serde_json::Value::Array(a) => JsonValue::Array(a.iter().map(tree_of).collect()),
        serde_json::Value::Object(o) => JsonValue::Object(o.iter().map(|(k, v)| (k.clone(), tree_of(v))).collect()),
    }
}

/// Read a JSON text (`serde_json::from_str` into a `serde_json::Value`),
/// as the library's tree. The contract names the outcome: what the reader
/// accepts and the tree it builds are the crate's own.
#[verifier::external_body]
pub(crate) fn parse_json(text: &str) -> (r: Result<JsonValue, String>)
    ensures
        match r {
            Ok(v) => parsed_json(text@) == read_as(v),
            Err(e) => parsed_json(text@) == unreadable(e@),
        },
{
    match serde_json::from_str::<serde_json::Value>(text) {
        Ok(v) => Ok(tree_of(&v)),
        Err(e) => Err(e.to_string()),
    }
}

/// The tree a text reads as, if it reads.
pub open spec fn tree_of_text(text: Seq<char>) -> Option<JsonValue> {
    match parsed_json(text) {
        Ok(v) => Some(v),
        Err(_) => None,
    }
}

/// The tree a text reads as, or `None` when it does not read.
pub fn read_json(text: &str) -> (r: Option<JsonValue>)
    ensures
        r == tree_of_text(text@),
{
    match parse_json(text) {
        Ok(v) => Some(v),
        Err(_) => None,
    }
}

} // verus!
