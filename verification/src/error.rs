//! Why a conversion between payload formats was refused.

use vstd::prelude::*;

verus! {

/// The five payload formats.
#[derive(Clone, Copy, Debug, PartialEq, Eq, Structural)]
pub enum DataKind {
    Empty,
    String,
    Binary,
    Json,
    Osc,
}

/// The OSC argument types that have no JSON counterpart.
#[derive(Clone, Copy, Debug, PartialEq, Eq, Structural)]
pub enum UnsupportedOsc {
    Color,
    Midi,
    Blob,
    Time,
    Infinity,
}

/// The reason for which a conversion failed.
#[derive(Clone, Copy, Debug, PartialEq, Eq, Structural)]
pub enum ConversionError {
    /// No conversion is defined from the first format to the second.
    Unsupported(DataKind, DataKind),
    /// The bytes are not valid UTF-8.
    InvalidUtf8,
    /// The text is not a JSON document.
    MalformedJson,
    /// The JSON document could not be written as text.
    JsonSerialization,
    /// Only a JSON array can become a list of OSC arguments.
    TopLevelNotArray,
    /// A JSON object has no OSC counterpart.
    JsonObject,
    /// A JSON integer above the range of a signed 64-bit integer.
    IntegerOutOfRange,
    /// A floating-point OSC argument that is an infinity or a NaN.
    NonFiniteFloat,
    /// An OSC argument of a type that has no JSON counterpart.
    UnsupportedOsc(UnsupportedOsc),
}

impl ConversionError {
    /// The sentence that says what went wrong.
    pub open spec fn sentence(self) -> Seq<char> {
        match self {
            ConversionError::Unsupported(_, _) => "This conversion is not supported"@,
            ConversionError::InvalidUtf8 => "The bytes are not valid UTF-8"@,
            ConversionError::MalformedJson => "The text is not valid JSON"@,
            ConversionError::JsonSerialization => "The JSON document can't be serialized"@,
            ConversionError::TopLevelNotArray => "Can only convert JSON Array to OSC at the top level"@,
            ConversionError::JsonObject => "Can't convert JSON Object to OSC"@,
            ConversionError::IntegerOutOfRange => "Can't convert JSON Number to a 64 bit integer"@,
            ConversionError::NonFiniteFloat => "Can't convert a number that is not finite to JSON"@,
            ConversionError::UnsupportedOsc(UnsupportedOsc::Color) => "Can't convert OSC Color to JSON"@,
            ConversionError::UnsupportedOsc(UnsupportedOsc::Midi) => "Can't convert OSC Midi to JSON"@,
            ConversionError::UnsupportedOsc(UnsupportedOsc::Blob) => "Can't convert OSC Blob to JSON"@,
            ConversionError::UnsupportedOsc(UnsupportedOsc::Time) => "Can't convert OSC Time to JSON"@,
            ConversionError::UnsupportedOsc(UnsupportedOsc::Infinity) => "Can't convert OSC Infinity to JSON"@,
        }
    }

    /// A sentence for the log.
    pub fn message(&self) -> (out: &'static str)
        ensures
            out@ == self.sentence(),
    {
        match self {
            ConversionError::Unsupported(_, _) => "This conversion is not supported",
            ConversionError::InvalidUtf8 => "The bytes are not valid UTF-8",
            ConversionError::MalformedJson => "The text is not valid JSON",
            ConversionError::JsonSerialization => "The JSON document can't be serialized",
            ConversionError::TopLevelNotArray => "Can only convert JSON Array to OSC at the top level",
            ConversionError::JsonObject => "Can't convert JSON Object to OSC",
            ConversionError::IntegerOutOfRange => "Can't convert JSON Number to a 64 bit integer",
            ConversionError::NonFiniteFloat => "Can't convert a number that is not finite to JSON",
            ConversionError::UnsupportedOsc(UnsupportedOsc::Color) => "Can't convert OSC Color to JSON",
            ConversionError::UnsupportedOsc(UnsupportedOsc::Midi) => "Can't convert OSC Midi to JSON",
            ConversionError::UnsupportedOsc(UnsupportedOsc::Blob) => "Can't convert OSC Blob to JSON",
            ConversionError::UnsupportedOsc(UnsupportedOsc::Time) => "Can't convert OSC Time to JSON",
            ConversionError::UnsupportedOsc(UnsupportedOsc::Infinity) => "Can't convert OSC Infinity to JSON",
        }
    }
}

} // verus!
