//! JSON documents: the value tree, its mathematical model, and the boundary to
//! `serde_json`, which reads and writes the textual form.

use vstd::prelude::*;
use crate::error::ConversionError;

verus! {

/// A JSON number, in one of the three forms that `serde_json` keeps.
#[derive(Clone, Copy, Debug, PartialEq, Eq, Structural)]
pub enum JsonNumber {
    /// A non-negative integer.
    PosInt(u64),
    /// A negative integer.
    NegInt(i64),
    /// A double, given by its IEEE-754 bit pattern.
    Float(u64),
}

impl JsonNumber {
    /// The number read as a floating-point number or not.
    pub open spec fn spec_is_float(self) -> bool {
        self is Float
    }

    /// The integer that the number stands for, where it is an integer within
    /// the range of `i64`.
    pub open spec fn spec_as_i64(self) -> Option<i64> {
        match self {
            JsonNumber::PosInt(n) => if n <= i64::MAX as u64 {
                Some(n as i64)
            } else {
                None
            },
            JsonNumber::NegInt(n) => Some(n),
            JsonNumber::Float(_) => None,
        }
    }

    /// The number for the integer `n`.
    pub open spec fn spec_from_i64(n: i64) -> JsonNumber {
        if n < 0 {
            JsonNumber::NegInt(n)
        } else {
            JsonNumber::PosInt(n as u64)
        }
    }

    /// The number for the double `bits`, which exists where the double is
    /// finite.
    pub open spec fn spec_from_double(bits: u64) -> Option<JsonNumber> {
        if crate::ieee::double_is_finite(bits) {
            Some(JsonNumber::Float(bits))
        } else {
            None
        }
    }

    /// Whether the number is kept as a double.
    pub fn is_float(&self) -> (out: bool)
        ensures
            out == self.spec_is_float(),
    {
        match self {
            JsonNumber::Float(_) => true,
            _ => false,
        }
    }

    /// The number as a signed 64-bit integer, if it is an integer in that
    /// range.
    pub fn as_i64(&self) -> (out: Option<i64>)
        ensures
            out == self.spec_as_i64(),
    {
        match self {
            JsonNumber::PosInt(n) => {
                if *n <= i64::MAX as u64 {
                    Some(*n as i64)
                } else {
                    None
                }
            },
            JsonNumber::NegInt(n) => Some(*n),
            JsonNumber::Float(_) => None,
        }
    }

    /// The number for the integer `n`.
    pub fn from_i64(n: i64) -> (out: JsonNumber)
        ensures
            out == JsonNumber::spec_from_i64(n),
    {
        if n < 0 {
            JsonNumber::NegInt(n)
        } else {
            JsonNumber::PosInt(n as u64)
        }
    }

    /// The number for the double with the bit pattern `bits`; an infinity or a
    /// NaN is no JSON number.
    pub fn from_double(bits: u64) -> (out: Option<JsonNumber>)
        ensures
            out == JsonNumber::spec_from_double(bits),
    {
        if crate::ieee::is_finite_double(bits) {
            Some(JsonNumber::Float(bits))
        } else {
            None
        }
    }
}

/// A JSON document.
#[derive(Debug, PartialEq)]
pub enum JsonValue {
    Null,
    Bool(bool),
    Number(JsonNumber),
    String(String),
    Array(Vec<JsonValue>),
    /// The members of an object, in the order in which they were written.
    Object(Vec<(String, JsonValue)>),
}

/// What a [`JsonValue`] stands for.
pub enum JsonModel {
    Null,
    Bool(bool),
    Number(JsonNumber),
    String(Seq<char>),
    Array(Seq<JsonModel>),
    Object(Seq<(Seq<char>, JsonModel)>),
}

/// The models of a sequence of documents.
pub open spec fn json_views(items: Seq<JsonValue>) -> Seq<JsonModel>
    decreases items,
{
    Seq::new(
        items.len(),
        |i: int|
            if 0 <= i < items.len() {
                items[i]@
            } else {
                JsonModel::Null
            },
    )
}

/// The models of the members of an object.
pub open spec fn member_views(entries: Seq<(String, JsonValue)>) -> Seq<(Seq<char>, JsonModel)>
    decreases entries,
{
    Seq::new(
        entries.len(),
        |i: int|
            if 0 <= i < entries.len() {
                (entries[i].0@, entries[i].1@)
            } else {
                (Seq::empty(), JsonModel::Null)
            },
    )
}

impl View for JsonValue {
    type V = JsonModel;

    open spec fn view(&self) -> JsonModel
        decreases self,
    {
        match self {
            JsonValue::Null => JsonModel::Null,
            JsonValue::Bool(flag) => JsonModel::Bool(*flag),
            JsonValue::Number(n) => JsonModel::Number(*n),
            JsonValue::String(text) => JsonModel::String(text@),
            JsonValue::Array(items) => JsonModel::Array(json_views(items@)),
            JsonValue::Object(entries) => JsonModel::Object(member_views(entries@)),
        }
    }
}

impl Clone for JsonValue {
    fn clone(&self) -> (out: Self)
        ensures
            out@ == self@,
        decreases self, 1nat,
    {
        match self {
            JsonValue::Null => JsonValue::Null,
            JsonValue::Bool(flag) => JsonValue::Bool(*flag),
            JsonValue::Number(n) => JsonValue::Number(*n),
            JsonValue::String(text) => JsonValue::String(text.clone()),
            JsonValue::Array(items) => JsonValue::Array(clone_items(items)),
            JsonValue::Object(entries) => JsonValue::Object(clone_members(entries)),
        }
    }
}

fn clone_items(items: &Vec<JsonValue>) -> (copy: Vec<JsonValue>)
    ensures
        json_views(copy@) == json_views(items@),
    decreases items, 0nat,
{
    let mut copy: Vec<JsonValue> = Vec::new();
    let mut i: usize = 0;
    while i < items.len()
        invariant
            i <= items.len(),
            copy@.len() == i,
            forall|k: int| 0 <= k < i ==> copy@[k]@ == items@[k]@,
        decreases items.len() - i,
    {
        copy.push(items[i].clone());
        i += 1;
    }
    assert(json_views(copy@) =~= json_views(items@));
    copy
}

fn clone_members(entries: &Vec<(String, JsonValue)>) -> (copy: Vec<(String, JsonValue)>)
    ensures
        member_views(copy@) == member_views(entries@),
    decreases entries, 0nat,
{
    let mut copy: Vec<(String, JsonValue)> = Vec::new();
    let mut i: usize = 0;
    while i < entries.len()
        invariant
            i <= entries.len(),
            copy@.len() == i,
            forall|k: int|
                0 <= k < i ==> copy@[k].0@ == entries@[k].0@ && copy@[k].1@ == entries@[k].1@,
        decreases entries.len() - i,
    {
        copy.push((entries[i].0.clone(), entries[i].1.clone()));
        i += 1;
    }
    assert(member_views(copy@) =~= member_views(entries@));
    copy
}

#[verifier::external_type_specification]
#[verifier::external_body]
pub struct ExSerdeValue(serde_json::Value);

#[verifier::external_type_specification]
#[verifier::external_body]
pub struct ExSerdeNumber(serde_json::Number);

#[verifier::external_type_specification]
#[verifier::external_body]
pub struct ExSerdeError(serde_json::Error);

/// The text that `serde_json::to_string` writes for a document, where it
/// writes one.
pub uninterp spec fn json_text(document: JsonModel) -> Option<Seq<char>>;

/// The document that `serde_json::from_str` reads from a text, where the text
/// is a JSON document.
pub uninterp spec fn json_parsed(text: Seq<char>) -> Option<JsonModel>;

/// Rebuilds a document as a `serde_json::Value`, variant by variant. A double
/// is decoded from its bit pattern with `bytes::Buf::get_f64`; `serde_json`
/// turns one that is not finite into `null`. Members of an object go into
/// `serde_json`'s map one after the other.
#[verifier::external_body]
pub(crate) fn to_serde(value: &JsonValue) -> serde_json::Value {
    match value {
        JsonValue::Null => serde_json::Value::Null,
        JsonValue::Bool(flag) => serde_json::Value::Bool(*flag),
        JsonValue::Number(JsonNumber::PosInt(n)) => serde_json::Value::from(*n),
        JsonValue::Number(JsonNumber::NegInt(n)) => serde_json::Value::from(*n),
        JsonValue::Number(JsonNumber::Float(bits)) => serde_json::Value::from(
            bytes::Buf::get_f64(&mut &bits.to_be_bytes()[..]),
        ),
        JsonValue::String(text) => serde_json::Value::String(text.clone()),
        JsonValue::Array(items) => items.iter().map(to_serde).collect(),
        JsonValue::Object(entries) => entries.iter().map(|e| (e.0.clone(), to_serde(&e.1))).collect(),
    }
}

/// Reads a `serde_json::Number` into the form it is kept in: `as_u64`, then
/// `as_i64`, then the bit pattern of `as_f64`.
#[verifier::external_body]
fn number_from_serde(number: &serde_json::Number) -> JsonNumber {
    match (number.as_u64(), number.as_i64(), number.as_f64()) {
        (Some(n), _, _) => JsonNumber::PosInt(n),
        (_, Some(n), _) => JsonNumber::NegInt(n),
        (_, _, Some(x)) => JsonNumber::Float(x.to_bits()),
        _ => JsonNumber::PosInt(0),
    }
}

/// Takes a `serde_json::Value` apart, variant by variant. Members of an object
/// come in the order in which `serde_json`'s map hands them out.
#[verifier::external_body]
pub(crate) fn from_serde(value: serde_json::Value) -> JsonValue {
    match value {
        serde_json::Value::Null => JsonValue::Null,
        serde_json::Value::Bool(flag) => JsonValue::Bool(flag),
        serde_json::Value::Number(n) => JsonValue::Number(number_from_serde(&n)),
        serde_json::Value::String(text) => JsonValue::String(text),
        serde_json::Value::Array(items) => JsonValue::Array(items.into_iter().map(from_serde).collect()),
        serde_json::Value::Object(map) => JsonValue::Object(
            map.into_iter().map(|e| (e.0, from_serde(e.1))).collect(),
        ),
    }
}

/// Calls `serde_json::to_string`. What it writes depends on the document alone.
#[verifier::external_body]
fn serde_to_string(value: &JsonValue) -> (out: Result<String, serde_json::Error>)
    ensures
        match out {
            Ok(text) => json_text(value@) == Some(text@),
            Err(_) => json_text(value@) is None,
        },
{
    serde_json::to_string(&to_serde(value))
}

/// Calls `serde_json::from_str`. What it reads depends on the text alone.
#[verifier::external_body]
fn serde_from_str(text: &str) -> (out: Result<JsonValue, serde_json::Error>)
    ensures
        match out {
            Ok(value) => json_parsed(text@) == Some(value@),
            Err(_) => json_parsed(text@) is None,
        },
{
    serde_json::from_str(text).map(from_serde)
}

impl JsonValue {
    /// Writes the document as JSON text.
    pub fn to_text(&self) -> (out: Result<String, ConversionError>)
        ensures
            match out {
                Ok(text) => json_text(self@) == Some(text@),
                Err(e) => json_text(self@) is None && e == ConversionError::JsonSerialization,
            },
    {
        match serde_to_string(self) {
            Ok(text) => Ok(text),
            Err(_) => Err(ConversionError::JsonSerialization),
        }
    }

    /// Reads a document from JSON text.
    pub fn from_text(text: &str) -> (out: Result<JsonValue, ConversionError>)
        ensures
            match out {
                Ok(value) => json_parsed(text@) == Some(value@),
                Err(e) => json_parsed(text@) is None && e == ConversionError::MalformedJson,
            },
    {
        match serde_from_str(text) {
            Ok(value) => Ok(value),
            Err(_) => Err(ConversionError::MalformedJson),
        }
    }
}

} // verus!
