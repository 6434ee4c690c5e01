//! The message that travels through the pipeline, its five payload formats and
//! the conversions between them.

use vstd::prelude::*;
use vstd::utf8::{decode_utf8, encode_utf8, valid_utf8};
use crate::error::{ConversionError, DataKind, UnsupportedOsc};
use crate::ieee::{narrow_double, narrow_spec, widen_single, widen_spec};
use crate::json::{json_parsed, json_text, json_views, JsonModel, JsonNumber, JsonValue};
use crate::osc::{clone_args, copy_bytes, osc_views, OscArg, OscModel};

verus! {

/// The payload of a message.
#[derive(Debug, PartialEq)]
pub enum InternalMessageData {
    Empty,
    String(String),
    Binary(Vec<u8>),
    Json(JsonValue),
    OSC(Vec<OscArg>),
}

/// What a payload stands for.
pub enum DataModel {
    Empty,
    String(Seq<char>),
    Binary(Seq<u8>),
    Json(JsonModel),
    Osc(Seq<OscModel>),
}

impl DataModel {
    /// The format of the payload.
    pub open spec fn kind(self) -> DataKind {
        match self {
            DataModel::Empty => DataKind::Empty,
            DataModel::String(_) => DataKind::String,
            DataModel::Binary(_) => DataKind::Binary,
            DataModel::Json(_) => DataKind::Json,
            DataModel::Osc(_) => DataKind::Osc,
        }
    }
}

impl View for InternalMessageData {
    type V = DataModel;

    open spec fn view(&self) -> DataModel {
        match self {
            InternalMessageData::Empty => DataModel::Empty,
            InternalMessageData::String(text) => DataModel::String(text@),
            InternalMessageData::Binary(bytes) => DataModel::Binary(bytes@),
            InternalMessageData::Json(value) => DataModel::Json(value@),
            InternalMessageData::OSC(args) => DataModel::Osc(osc_views(args@)),
        }
    }
}

impl Clone for InternalMessageData {
    fn clone(&self) -> (out: Self)
        ensures
            out@ == self@,
    {
        match self {
            InternalMessageData::Empty => InternalMessageData::Empty,
            InternalMessageData::String(text) => InternalMessageData::String(text.clone()),
            InternalMessageData::Binary(bytes) => InternalMessageData::Binary(copy_bytes(bytes)),
            InternalMessageData::Json(value) => InternalMessageData::Json(value.clone()),
            InternalMessageData::OSC(args) => InternalMessageData::OSC(clone_args(args)),
        }
    }
}

/// A message: the connector it came from, its topic and its payload.
#[derive(Debug, PartialEq)]
pub struct InternalMessage {
    pub source_connector_idx: usize,
    pub topic: String,
    pub data: InternalMessageData,
}

/// What a message stands for.
pub struct MessageModel {
    pub source_connector_idx: usize,
    pub topic: Seq<char>,
    pub data: DataModel,
}

impl View for InternalMessage {
    type V = MessageModel;

    open spec fn view(&self) -> MessageModel {
        MessageModel {
            source_connector_idx: self.source_connector_idx,
            topic: self.topic@,
            data: self.data@,
        }
    }
}

impl Clone for InternalMessage {
    fn clone(&self) -> (out: Self)
        ensures
            out@ == self@,
    {
        InternalMessage {
            source_connector_idx: self.source_connector_idx,
            topic: self.topic.clone(),
            data: self.data.clone(),
        }
    }
}

/// The models of a list of messages.
pub open spec fn message_views(messages: Seq<InternalMessage>) -> Seq<MessageModel> {
    Seq::new(messages.len(), |i: int| messages[i]@)
}

/// The OSC argument for a JSON number: a double is rounded to single
/// precision, an integer is cut to its low 32 bits, and an integer above the
/// range of `i64` is refused.
pub open spec fn number_to_osc_spec(number: JsonNumber) -> Result<OscModel, ConversionError> {
    match number {
        JsonNumber::Float(bits) => Ok(OscModel::Float(narrow_spec(bits))),
        _ => match number.spec_as_i64() {
            Some(n) => Ok(OscModel::Int(n as i32)),
            None => Err(ConversionError::IntegerOutOfRange),
        },
    }
}

/// The OSC argument for a JSON document.
pub open spec fn json_to_osc_spec(value: JsonModel) -> Result<OscModel, ConversionError>
    decreases value, 0nat,
{
    match value {
        JsonModel::Array(items) => match json_items_to_osc_spec(items, items.len()) {
            Ok(args) => Ok(OscModel::Array(args)),
            Err(e) => Err(e),
        },
        JsonModel::Null => Ok(OscModel::Nil),
        JsonModel::Bool(flag) => Ok(OscModel::Bool(flag)),
        JsonModel::Number(number) => number_to_osc_spec(number),
        JsonModel::String(text) => Ok(OscModel::String(text)),
        JsonModel::Object(_) => Err(ConversionError::JsonObject),
    }
}

/// The OSC arguments for the first `n` of `items`, or the error of the first
/// item among them that has none.
pub open spec fn json_items_to_osc_spec(items: Seq<JsonModel>, n: nat) -> Result<
    Seq<OscModel>,
    ConversionError,
>
    decreases items, n,
{
    if n == 0 || n > items.len() {
        Ok(Seq::empty())
    } else {
        match json_items_to_osc_spec(items, (n - 1) as nat) {
            Err(e) => Err(e),
            Ok(args) => match json_to_osc_spec(items[n - 1]) {
                Err(e) => Err(e),
                Ok(arg) => Ok(args.push(arg)),
            },
        }
    }
}

/// The OSC arguments for a JSON document, which has to be an array.
pub open spec fn json_array_to_osc_spec(value: JsonModel) -> Result<Seq<OscModel>, ConversionError> {
    match value {
        JsonModel::Array(items) => json_items_to_osc_spec(items, items.len()),
        _ => Err(ConversionError::TopLevelNotArray),
    }
}

/// The JSON number for a double, which has to be finite.
pub open spec fn double_to_json_spec(bits: u64) -> Result<JsonModel, ConversionError> {
    match JsonNumber::spec_from_double(bits) {
        Some(number) => Ok(JsonModel::Number(number)),
        None => Err(ConversionError::NonFiniteFloat),
    }
}

/// The JSON document for an OSC argument.
pub open spec fn osc_to_json_spec(arg: OscModel) -> Result<JsonModel, ConversionError>
    decreases arg, 0nat,
{
    match arg {
        OscModel::Int(n) => Ok(JsonModel::Number(JsonNumber::spec_from_i64(n as i64))),
        OscModel::Float(bits) => double_to_json_spec(widen_spec(bits)),
        OscModel::String(text) => Ok(JsonModel::String(text)),
        OscModel::Bool(flag) => Ok(JsonModel::Bool(flag)),
        OscModel::Char(c) => Ok(JsonModel::String(seq![c])),
        OscModel::Long(n) => Ok(JsonModel::Number(JsonNumber::spec_from_i64(n))),
        OscModel::Double(bits) => double_to_json_spec(bits),
        OscModel::Array(args) => match osc_items_to_json_spec(args, args.len()) {
            Ok(items) => Ok(JsonModel::Array(items)),
            Err(e) => Err(e),
        },
        OscModel::Nil => Ok(JsonModel::Null),
        OscModel::Inf => Err(ConversionError::UnsupportedOsc(UnsupportedOsc::Infinity)),
        OscModel::Color(_) => Err(ConversionError::UnsupportedOsc(UnsupportedOsc::Color)),
        OscModel::Midi(_) => Err(ConversionError::UnsupportedOsc(UnsupportedOsc::Midi)),
        OscModel::Blob(_) => Err(ConversionError::UnsupportedOsc(UnsupportedOsc::Blob)),
        OscModel::Time(_) => Err(ConversionError::UnsupportedOsc(UnsupportedOsc::Time)),
    }
}

/// The JSON documents for the first `n` of `args`, or the error of the first
/// argument among them that has none.
pub open spec fn osc_items_to_json_spec(args: Seq<OscModel>, n: nat) -> Result<
    Seq<JsonModel>,
    ConversionError,
>
    decreases args, n,
{
    if n == 0 || n > args.len() {
        Ok(Seq::empty())
    } else {
        match osc_items_to_json_spec(args, (n - 1) as nat) {
            Err(e) => Err(e),
            Ok(items) => match osc_to_json_spec(args[n - 1]) {
                Err(e) => Err(e),
                Ok(item) => Ok(items.push(item)),
            },
        }
    }
}

/// The JSON array for a list of OSC arguments.
pub open spec fn osc_args_to_json_spec(args: Seq<OscModel>) -> Result<JsonModel, ConversionError> {
    match osc_items_to_json_spec(args, args.len()) {
        Ok(items) => Ok(JsonModel::Array(items)),
        Err(e) => Err(e),
    }
}

/// The text for bytes, which have to be valid UTF-8.
pub open spec fn binary_to_string_spec(bytes: Seq<u8>) -> Result<Seq<char>, ConversionError> {
    if valid_utf8(bytes) {
        Ok(decode_utf8(bytes))
    } else {
        Err(ConversionError::InvalidUtf8)
    }
}

/// The document for a text, which has to be JSON.
pub open spec fn text_to_json_spec(text: Seq<char>) -> Result<JsonModel, ConversionError> {
    match json_parsed(text) {
        Some(value) => Ok(value),
        None => Err(ConversionError::MalformedJson),
    }
}

/// The text for a document.
pub open spec fn json_to_text_spec(value: JsonModel) -> Result<Seq<char>, ConversionError> {
    match json_text(value) {
        Some(text) => Ok(text),
        None => Err(ConversionError::JsonSerialization),
    }
}

impl DataModel {
    /// Every payload becomes the empty payload.
    pub open spec fn to_empty(self) -> Result<DataModel, ConversionError> {
        Ok(DataModel::Empty)
    }

    /// The payload as text.
    pub open spec fn to_string(self) -> Result<DataModel, ConversionError> {
        match self {
            DataModel::Empty => Ok(DataModel::String(Seq::empty())),
            DataModel::String(text) => Ok(DataModel::String(text)),
            DataModel::Binary(bytes) => match binary_to_string_spec(bytes) {
                Ok(text) => Ok(DataModel::String(text)),
                Err(e) => Err(e),
            },
            DataModel::Json(value) => match json_to_text_spec(value) {
                Ok(text) => Ok(DataModel::String(text)),
                Err(e) => Err(e),
            },
            DataModel::Osc(_) => Err(ConversionError::Unsupported(DataKind::Osc, DataKind::String)),
        }
    }

    /// The payload as a JSON document.
    pub open spec fn to_json(self) -> Result<DataModel, ConversionError> {
        match self {
            DataModel::Empty => Ok(DataModel::Json(JsonModel::Null)),
            DataModel::String(text) => match text_to_json_spec(text) {
                Ok(value) => Ok(DataModel::Json(value)),
                Err(e) => Err(e),
            },
            DataModel::Binary(bytes) => match binary_to_string_spec(bytes) {
                Ok(text) => match text_to_json_spec(text) {
                    Ok(value) => Ok(DataModel::Json(value)),
                    Err(e) => Err(e),
                },
                Err(e) => Err(e),
            },
            DataModel::Json(value) => Ok(DataModel::Json(value)),
            DataModel::Osc(args) => match osc_args_to_json_spec(args) {
                Ok(value) => Ok(DataModel::Json(value)),
                Err(e) => Err(e),
            },
        }
    }

    /// The payload as bytes.
    pub open spec fn to_binary(self) -> Result<DataModel, ConversionError> {
        match self {
            DataModel::Empty => Ok(DataModel::Binary(Seq::empty())),
            DataModel::String(text) => Ok(DataModel::Binary(encode_utf8(text))),
            DataModel::Binary(bytes) => Ok(DataModel::Binary(bytes)),
            DataModel::Json(value) => match json_to_text_spec(value) {
                Ok(text) => Ok(DataModel::Binary(encode_utf8(text))),
                Err(e) => Err(e),
            },
            DataModel::Osc(_) => Err(ConversionError::Unsupported(DataKind::Osc, DataKind::Binary)),
        }
    }

    /// The payload as a list of OSC arguments.
    pub open spec fn to_osc(self) -> Result<DataModel, ConversionError> {
        match self {
            DataModel::Empty => Ok(DataModel::Osc(Seq::empty())),
            DataModel::String(text) => Ok(DataModel::Osc(seq![OscModel::String(text)])),
            DataModel::Binary(_) => Err(ConversionError::Unsupported(DataKind::Binary, DataKind::Osc)),
            DataModel::Json(value) => match json_array_to_osc_spec(value) {
                Ok(args) => Ok(DataModel::Osc(args)),
                Err(e) => Err(e),
            },
            DataModel::Osc(args) => Ok(DataModel::Osc(args)),
        }
    }

    /// The bytes of the payload.
    pub open spec fn get_binary(self) -> Result<Seq<u8>, ConversionError> {
        match self.to_binary() {
            Ok(DataModel::Binary(bytes)) => Ok(bytes),
            Ok(other) => Err(ConversionError::Unsupported(other.kind(), DataKind::Binary)),
            Err(e) => Err(e),
        }
    }

    /// The OSC arguments of the payload.
    pub open spec fn get_osc(self) -> Result<Seq<OscModel>, ConversionError> {
        match self.to_osc() {
            Ok(DataModel::Osc(args)) => Ok(args),
            Ok(other) => Err(ConversionError::Unsupported(other.kind(), DataKind::Osc)),
            Err(e) => Err(e),
        }
    }
}

/// The view of a conversion's outcome.
pub open spec fn data_result_view(outcome: Result<InternalMessageData, ConversionError>) -> Result<
    DataModel,
    ConversionError,
> {
    match outcome {
        Ok(data) => Ok(data@),
        Err(e) => Err(e),
    }
}

fn number_to_osc(number: JsonNumber) -> (out: Result<OscArg, ConversionError>)
    ensures
        match out {
            Ok(arg) => number_to_osc_spec(number) == Ok::<OscModel, ConversionError>(arg@),
            Err(e) => number_to_osc_spec(number) == Err::<OscModel, ConversionError>(e),
        },
{
    match number {
        JsonNumber::Float(bits) => Ok(OscArg::Float(narrow_double(bits))),
        _ => match number.as_i64() {
            Some(n) => Ok(OscArg::Int(#[verifier::truncate] (n as i32))),
            None => Err(ConversionError::IntegerOutOfRange),
        },
    }
}

fn json_to_osc(value: &JsonValue) -> (out: Result<OscArg, ConversionError>)
    ensures
        match out {
            Ok(arg) => json_to_osc_spec(value@) == Ok::<OscModel, ConversionError>(arg@),
            Err(e) => json_to_osc_spec(value@) == Err::<OscModel, ConversionError>(e),
        },
    decreases value, 1nat,
{
    match value {
        JsonValue::Array(items) => match json_items_to_osc(items) {
            Ok(args) => Ok(OscArg::Array(args)),
            Err(e) => Err(e),
        },
        JsonValue::Null => Ok(OscArg::Nil),
        JsonValue::Bool(flag) => Ok(OscArg::Bool(*flag)),
        JsonValue::Number(number) => number_to_osc(*number),
        JsonValue::String(text) => Ok(OscArg::String(text.clone())),
        JsonValue::Object(_) => Err(ConversionError::JsonObject),
    }
}

fn json_items_to_osc(items: &Vec<JsonValue>) -> (out: Result<Vec<OscArg>, ConversionError>)
    ensures
        match out {
            Ok(args) => json_items_to_osc_spec(json_views(items@), items@.len()) == Ok::<
                Seq<OscModel>,
                ConversionError,
            >(osc_views(args@)),
            Err(e) => json_items_to_osc_spec(json_views(items@), items@.len()) == Err::<
                Seq<OscModel>,
                ConversionError,
            >(e),
        },
    decreases items, 0nat,
{
    let mut args: Vec<OscArg> = Vec::new();
    let mut i: usize = 0;
    assert(osc_views(args@) =~= Seq::<OscModel>::empty());
    while i < items.len()
        invariant
            i <= items.len(),
            json_items_to_osc_spec(json_views(items@), i as nat) == Ok::<
                Seq<OscModel>,
                ConversionError,
            >(osc_views(args@)),
        decreases items.len() - i,
    {
        match json_to_osc(&items[i]) {
            Ok(arg) => {
                let ghost before = osc_views(args@);
                args.push(arg);
                assert(osc_views(args@) =~= before.push(arg@));
            },
            Err(e) => {
                proof {
                    lemma_json_items_error(json_views(items@), (i + 1) as nat, items@.len());
                }
                return Err(e);
            },
        }
        i += 1;
    }
    Ok(args)
}

/// Once the first `n` items run into an error, so do more of them.
proof fn lemma_json_items_error(items: Seq<JsonModel>, n: nat, m: nat)
    requires
        n <= m <= items.len(),
        json_items_to_osc_spec(items, n) is Err,
    ensures
        json_items_to_osc_spec(items, m) == json_items_to_osc_spec(items, n),
    decreases m,
{
    if n < m {
        lemma_json_items_error(items, n, (m - 1) as nat);
    }
}

fn json_array_to_osc(value: &JsonValue) -> (out: Result<Vec<OscArg>, ConversionError>)
    ensures
        match out {
            Ok(args) => json_array_to_osc_spec(value@) == Ok::<Seq<OscModel>, ConversionError>(
                osc_views(args@),
            ),
            Err(e) => json_array_to_osc_spec(value@) == Err::<Seq<OscModel>, ConversionError>(e),
        },
{
    match value {
        JsonValue::Array(items) => json_items_to_osc(items),
        _ => Err(ConversionError::TopLevelNotArray),
    }
}

fn double_to_json(bits: u64) -> (out: Result<JsonValue, ConversionError>)
    ensures
        match out {
            Ok(value) => double_to_json_spec(bits) == Ok::<JsonModel, ConversionError>(value@),
            Err(e) => double_to_json_spec(bits) == Err::<JsonModel, ConversionError>(e),
        },
{
    match JsonNumber::from_double(bits) {
        Some(number) => Ok(JsonValue::Number(number)),
        None => Err(ConversionError::NonFiniteFloat),
    }
}

fn osc_to_json(arg: &OscArg) -> (out: Result<JsonValue, ConversionError>)
    ensures
        match out {
            Ok(value) => osc_to_json_spec(arg@) == Ok::<JsonModel, ConversionError>(value@),
            Err(e) => osc_to_json_spec(arg@) == Err::<JsonModel, ConversionError>(e),
        },
    decreases arg, 1nat,
{
    match arg {
        OscArg::Int(n) => Ok(JsonValue::Number(JsonNumber::from_i64(*n as i64))),
        OscArg::Float(bits) => double_to_json(widen_single(*bits)),
        OscArg::String(text) => Ok(JsonValue::String(text.clone())),
        OscArg::Bool(flag) => Ok(JsonValue::Bool(*flag)),
        OscArg::Char(c) => Ok(JsonValue::String(crate::text::string_of_char(*c))),
        OscArg::Long(n) => Ok(JsonValue::Number(JsonNumber::from_i64(*n))),
        OscArg::Double(bits) => double_to_json(*bits),
        OscArg::Array(args) => match osc_items_to_json(args) {
            Ok(items) => Ok(JsonValue::Array(items)),
            Err(e) => Err(e),
        },
        OscArg::Nil => Ok(JsonValue::Null),
        OscArg::Inf => Err(ConversionError::UnsupportedOsc(UnsupportedOsc::Infinity)),
        OscArg::Color(_) => Err(ConversionError::UnsupportedOsc(UnsupportedOsc::Color)),
        OscArg::Midi(_) => Err(ConversionError::UnsupportedOsc(UnsupportedOsc::Midi)),
        OscArg::Blob(_) => Err(ConversionError::UnsupportedOsc(UnsupportedOsc::Blob)),
        OscArg::Time(_) => Err(ConversionError::UnsupportedOsc(UnsupportedOsc::Time)),
    }
}

fn osc_items_to_json(args: &Vec<OscArg>) -> (out: Result<Vec<JsonValue>, ConversionError>)
    ensures
        match out {
            Ok(items) => osc_items_to_json_spec(osc_views(args@), args@.len()) == Ok::<
                Seq<JsonModel>,
                ConversionError,
            >(json_views(items@)),
            Err(e) => osc_items_to_json_spec(osc_views(args@), args@.len()) == Err::<
                Seq<JsonModel>,
                ConversionError,
            >(e),
        },
    decreases args, 0nat,
{
    let mut items: Vec<JsonValue> = Vec::new();
    let mut i: usize = 0;
    assert(json_views(items@) =~= Seq::<JsonModel>::empty());
    while i < args.len()
        invariant
            i <= args.len(),
            osc_items_to_json_spec(osc_views(args@), i as nat) == Ok::<
                Seq<JsonModel>,
                ConversionError,
            >(json_views(items@)),
        decreases args.len() - i,
    {
        match osc_to_json(&args[i]) {
            Ok(item) => {
                let ghost before = json_views(items@);
                items.push(item);
                assert(json_views(items@) =~= before.push(item@));
            },
            Err(e) => {
                proof {
                    lemma_osc_items_error(osc_views(args@), (i + 1) as nat, args@.len());
                }
                return Err(e);
            },
        }
        i += 1;
    }
    Ok(items)
}

/// Once the first `n` arguments run into an error, so do more of them.
proof fn lemma_osc_items_error(args: Seq<OscModel>, n: nat, m: nat)
    requires
        n <= m <= args.len(),
        osc_items_to_json_spec(args, n) is Err,
    ensures
        osc_items_to_json_spec(args, m) == osc_items_to_json_spec(args, n),
    decreases m,
{
    if n < m {
        lemma_osc_items_error(args, n, (m - 1) as nat);
    }
}

fn osc_args_to_json(args: &Vec<OscArg>) -> (out: Result<JsonValue, ConversionError>)
    ensures
        match out {
            Ok(value) => osc_args_to_json_spec(osc_views(args@)) == Ok::<JsonModel, ConversionError>(
                value@,
            ),
            Err(e) => osc_args_to_json_spec(osc_views(args@)) == Err::<JsonModel, ConversionError>(e),
        },
{
    match osc_items_to_json(args) {
        Ok(items) => Ok(JsonValue::Array(items)),
        Err(e) => Err(e),
    }
}

fn binary_to_string(bytes: Vec<u8>) -> (out: Result<String, ConversionError>)
    ensures
        match out {
            Ok(text) => binary_to_string_spec(bytes@) == Ok::<Seq<char>, ConversionError>(text@),
            Err(e) => binary_to_string_spec(bytes@) == Err::<Seq<char>, ConversionError>(e),
        },
{
    match crate::text::decode(bytes) {
        Some(text) => Ok(text),
        None => Err(ConversionError::InvalidUtf8),
    }
}

fn string_to_binary(text: String) -> (out: Vec<u8>)
    ensures
        out@ == encode_utf8(text@),
{
    crate::text::encode(text.as_str())
}

fn text_to_json(text: &str) -> (out: Result<JsonValue, ConversionError>)
    ensures
        match out {
            Ok(value) => text_to_json_spec(text@) == Ok::<JsonModel, ConversionError>(value@),
            Err(e) => text_to_json_spec(text@) == Err::<JsonModel, ConversionError>(e),
        },
{
    JsonValue::from_text(text)
}

fn json_to_text(value: &JsonValue) -> (out: Result<String, ConversionError>)
    ensures
        match out {
            Ok(text) => json_to_text_spec(value@) == Ok::<Seq<char>, ConversionError>(text@),
            Err(e) => json_to_text_spec(value@) == Err::<Seq<char>, ConversionError>(e),
        },
{
    value.to_text()
}

impl InternalMessageData {
    /// The format of the payload.
    pub fn kind(&self) -> (out: DataKind)
        ensures
            out == self@.kind(),
    {
        match self {
            InternalMessageData::Empty => DataKind::Empty,
            InternalMessageData::String(_) => DataKind::String,
            InternalMessageData::Binary(_) => DataKind::Binary,
            InternalMessageData::Json(_) => DataKind::Json,
            InternalMessageData::OSC(_) => DataKind::Osc,
        }
    }

    /// Drops the payload.
    pub fn to_empty(self) -> (out: Result<Self, ConversionError>)
        ensures
            data_result_view(out) == self@.to_empty(),
    {
        Ok(InternalMessageData::Empty)
    }

    /// Converts the payload to text.
    pub fn to_string(self) -> (out: Result<Self, ConversionError>)
        ensures
            data_result_view(out) == self@.to_string(),
    {
        match self {
            InternalMessageData::Empty => Ok(InternalMessageData::String(String::new())),
            InternalMessageData::String(text) => Ok(InternalMessageData::String(text)),
            InternalMessageData::Binary(bytes) => match binary_to_string(bytes) {
                Ok(text) => Ok(InternalMessageData::String(text)),
                Err(e) => Err(e),
            },
            InternalMessageData::Json(value) => match json_to_text(&value) {
                Ok(text) => Ok(InternalMessageData::String(text)),
                Err(e) => Err(e),
            },
            InternalMessageData::OSC(_) => Err(
                ConversionError::Unsupported(DataKind::Osc, DataKind::String),
            ),
        }
    }

    /// Converts the payload to a JSON document.
    pub fn to_json(self) -> (out: Result<Self, ConversionError>)
        ensures
            data_result_view(out) == self@.to_json(),
    {
        match self {
            InternalMessageData::Empty => Ok(InternalMessageData::Json(JsonValue::Null)),
            InternalMessageData::String(text) => match text_to_json(text.as_str()) {
                Ok(value) => Ok(InternalMessageData::Json(value)),
                Err(e) => Err(e),
            },
            InternalMessageData::Binary(bytes) => match binary_to_string(bytes) {
                Ok(text) => match text_to_json(text.as_str()) {
                    Ok(value) => Ok(InternalMessageData::Json(value)),
                    Err(e) => Err(e),
                },
                Err(e) => Err(e),
            },
            InternalMessageData::Json(value) => Ok(InternalMessageData::Json(value)),
            InternalMessageData::OSC(args) => match osc_args_to_json(&args) {
                Ok(value) => Ok(InternalMessageData::Json(value)),
                Err(e) => Err(e),
            },
        }
    }

    /// Converts the payload to bytes.
    pub fn to_binary(self) -> (out: Result<Self, ConversionError>)
        ensures
            data_result_view(out) == self@.to_binary(),
    {
        match self {
            InternalMessageData::Empty => Ok(InternalMessageData::Binary(Vec::new())),
            InternalMessageData::String(text) => Ok(InternalMessageData::Binary(string_to_binary(text))),
            InternalMessageData::Binary(bytes) => Ok(InternalMessageData::Binary(bytes)),
            InternalMessageData::Json(value) => match json_to_text(&value) {
                Ok(text) => Ok(InternalMessageData::Binary(string_to_binary(text))),
                Err(e) => Err(e),
            },
            InternalMessageData::OSC(_) => Err(
                ConversionError::Unsupported(DataKind::Osc, DataKind::Binary),
            ),
        }
    }

    /// Converts the payload to a list of OSC arguments.
    pub fn to_osc(self) -> (out: Result<Self, ConversionError>)
        ensures
            data_result_view(out) == self@.to_osc(),
    {
        match self {
            InternalMessageData::Empty => {
                let args: Vec<OscArg> = Vec::new();
                assert(osc_views(args@) =~= Seq::<OscModel>::empty());
                Ok(InternalMessageData::OSC(args))
            },
            InternalMessageData::String(text) => {
                let ghost given = text@;
                let mut args: Vec<OscArg> = Vec::new();
                args.push(OscArg::String(text));
                assert(osc_views(args@) =~= seq![OscModel::String(given)]);
                Ok(InternalMessageData::OSC(args))
            },
            InternalMessageData::Binary(_) => Err(
                ConversionError::Unsupported(DataKind::Binary, DataKind::Osc),
            ),
            InternalMessageData::Json(value) => match json_array_to_osc(&value) {
                Ok(args) => Ok(InternalMessageData::OSC(args)),
                Err(e) => Err(e),
            },
            InternalMessageData::OSC(args) => Ok(InternalMessageData::OSC(args)),
        }
    }

    /// Converts the payload to bytes and hands them out.
    pub fn get_binary(self) -> (out: Result<Vec<u8>, ConversionError>)
        ensures
            match out {
                Ok(bytes) => self@.get_binary() == Ok::<Seq<u8>, ConversionError>(bytes@),
                Err(e) => self@.get_binary() == Err::<Seq<u8>, ConversionError>(e),
            },
    {
        match self.to_binary() {
            Ok(InternalMessageData::Binary(bytes)) => Ok(bytes),
            Ok(other) => Err(ConversionError::Unsupported(other.kind(), DataKind::Binary)),
            Err(e) => Err(e),
        }
    }

    /// Converts the payload to OSC arguments and hands them out.
    pub fn get_osc(self) -> (out: Result<Vec<OscArg>, ConversionError>)
        ensures
            match out {
                Ok(args) => self@.get_osc() == Ok::<Seq<OscModel>, ConversionError>(osc_views(args@)),
                Err(e) => self@.get_osc() == Err::<Seq<OscModel>, ConversionError>(e),
            },
    {
        match self.to_osc() {
            Ok(InternalMessageData::OSC(args)) => Ok(args),
            Ok(other) => Err(ConversionError::Unsupported(other.kind(), DataKind::Osc)),
            Err(e) => Err(e),
        }
    }
}

/// Converting a payload to the format that it already has leaves it as it is.
pub proof fn law_same_format_is_identity(data: DataModel)
    ensures
        data is Empty ==> data.to_empty() == Ok::<DataModel, ConversionError>(data),
        data is String ==> data.to_string() == Ok::<DataModel, ConversionError>(data),
        data is Binary ==> data.to_binary() == Ok::<DataModel, ConversionError>(data),
        data is Json ==> data.to_json() == Ok::<DataModel, ConversionError>(data),
        data is Osc ==> data.to_osc() == Ok::<DataModel, ConversionError>(data),
{
}

/// A text that is converted to bytes and back to text is the same text again.
pub proof fn law_text_survives_bytes(text: Seq<char>)
    ensures
        DataModel::String(text).to_binary() matches Ok(bytes) && bytes.to_string() == Ok::<
            DataModel,
            ConversionError,
        >(DataModel::String(text)),
{
    vstd::utf8::encode_utf8_valid_utf8(text);
    vstd::utf8::encode_utf8_decode_utf8(text);
}

/// A JSON document that is converted to text and back to JSON is the same
/// document again, wherever the text that is written for it reads back as it:
/// the two conversions add nothing to the writing and the reading.
pub proof fn law_json_survives_text(document: JsonModel)
    ensures
        (json_text(document) matches Some(text) && json_parsed(text) == Some(document))
            ==> (DataModel::Json(document).to_string() matches Ok(written) && written.to_json()
            == Ok::<DataModel, ConversionError>(DataModel::Json(document))),
        json_text(document) is None ==> DataModel::Json(document).to_string() == Err::<
            DataModel,
            ConversionError,
        >(ConversionError::JsonSerialization),
{
}

/// Bytes that are valid UTF-8 and are converted to text and back to bytes are
/// the same bytes again.
pub proof fn law_utf8_bytes_survive_text(bytes: Seq<u8>)
    requires
        valid_utf8(bytes),
    ensures
        DataModel::Binary(bytes).to_string() matches Ok(text) && text.to_binary() == Ok::<
            DataModel,
            ConversionError,
        >(DataModel::Binary(bytes)),
{
    vstd::utf8::decode_utf8_encode_utf8(bytes);
}

/// A single-precision OSC argument becomes the JSON number of the same value
/// if it is finite, and is refused if it is an infinity or a NaN.
pub proof fn law_finite_singles_become_numbers(bits: u32)
    ensures
        osc_to_json_spec(OscModel::Float(bits)) == if crate::ieee::single_is_finite(bits) {
            Ok::<JsonModel, ConversionError>(JsonModel::Number(JsonNumber::Float(widen_spec(bits))))
        } else {
            Err::<JsonModel, ConversionError>(ConversionError::NonFiniteFloat)
        },
{
    crate::ieee::law_widening_keeps_finiteness(bits);
}

/// Every payload can be emptied, and the empty payload can be converted to
/// every format.
pub proof fn law_empty_converts_to_all(data: DataModel)
    ensures
        data.to_empty() == Ok::<DataModel, ConversionError>(DataModel::Empty),
        DataModel::Empty.to_string() is Ok,
        DataModel::Empty.to_binary() is Ok,
        DataModel::Empty.to_json() is Ok,
        DataModel::Empty.to_osc() is Ok,
{
}

} // verus!
