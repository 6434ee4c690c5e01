use postoffice::error::{ConversionError, DataKind, UnsupportedOsc};
use postoffice::json::{JsonNumber, JsonValue};
use postoffice::message::InternalMessageData;
use postoffice::osc::{OscArg, OscColor, OscMidiMessage, OscTime};

fn text(s: &str) -> InternalMessageData {
    InternalMessageData::String(s.to_string())
}

fn json(s: &str) -> JsonValue {
    JsonValue::from_text(s).unwrap()
}

fn all_variants() -> Vec<InternalMessageData> {
    vec![
        InternalMessageData::Empty,
        text("hello"),
        InternalMessageData::Binary(vec![1, 2, 3]),
        InternalMessageData::Json(json("{\"a\":[1,2]}")),
        InternalMessageData::OSC(vec![OscArg::Int(4), OscArg::Nil]),
    ]
}

#[test]
fn to_empty_drops_every_payload() {
    for data in all_variants() {
        assert_eq!(data.to_empty(), Ok(InternalMessageData::Empty));
    }
}

#[test]
fn same_target_is_identity() {
    assert_eq!(InternalMessageData::Empty.to_empty(), Ok(InternalMessageData::Empty));
    assert_eq!(text("hello").to_string(), Ok(text("hello")));
    assert_eq!(
        InternalMessageData::Binary(vec![0xff, 0x00]).to_binary(),
        Ok(InternalMessageData::Binary(vec![0xff, 0x00]))
    );
    let doc = json("{\"a\":[1,2.5,null]}");
    assert_eq!(InternalMessageData::Json(doc.clone()).to_json(), Ok(InternalMessageData::Json(doc)));
    let args = vec![OscArg::Float(1.5f32.to_bits()), OscArg::Inf, OscArg::Blob(vec![1])];
    assert_eq!(InternalMessageData::OSC(args.clone()).to_osc(), Ok(InternalMessageData::OSC(args)));
}

#[test]
fn empty_converts_to_every_format() {
    assert_eq!(InternalMessageData::Empty.to_string(), Ok(text("")));
    assert_eq!(InternalMessageData::Empty.to_binary(), Ok(InternalMessageData::Binary(vec![])));
    assert_eq!(InternalMessageData::Empty.to_json(), Ok(InternalMessageData::Json(JsonValue::Null)));
    assert_eq!(InternalMessageData::Empty.to_osc(), Ok(InternalMessageData::OSC(vec![])));
}

#[test]
fn string_to_binary_is_utf8() {
    assert_eq!(text("aé€😀").to_binary(), Ok(InternalMessageData::Binary("aé€😀".as_bytes().to_vec())));
    assert_eq!(text("/a").get_binary(), Ok(vec![0x2f, 0x61]));
}

#[test]
fn string_survives_binary_round_trip() {
    for s in ["", "plain", "späße", "日本語", "a\u{0}b", "😀 and more"] {
        let bytes = text(s).to_binary().unwrap();
        assert_eq!(bytes.to_string(), Ok(text(s)));
    }
}

#[test]
fn binary_to_string_rejects_invalid_utf8() {
    assert_eq!(InternalMessageData::Binary(vec![0xff, 0xfe]).to_string(), Err(ConversionError::InvalidUtf8));
    assert_eq!(InternalMessageData::Binary(vec![0xc3]).to_string(), Err(ConversionError::InvalidUtf8));
    assert_eq!(InternalMessageData::Binary(vec![0xc3, 0xa9]).to_string(), Ok(text("é")));
    assert_eq!(InternalMessageData::Binary(vec![0xff]).to_json(), Err(ConversionError::InvalidUtf8));
}

#[test]
fn string_to_json_parses() {
    let parsed = text("{\"x\": 5, \"on\": true, \"l\": [null, \"s\", -3, 1.5]}").to_json().unwrap();
    let expected = JsonValue::Object(vec![
        (
            "l".to_string(),
            JsonValue::Array(vec![
                JsonValue::Null,
                JsonValue::String("s".to_string()),
                JsonValue::Number(JsonNumber::NegInt(-3)),
                JsonValue::Number(JsonNumber::Float(1.5f64.to_bits())),
            ]),
        ),
        ("on".to_string(), JsonValue::Bool(true)),
        ("x".to_string(), JsonValue::Number(JsonNumber::PosInt(5))),
    ]);
    assert_eq!(parsed, InternalMessageData::Json(expected));
}

#[test]
fn string_to_json_rejects_malformed_text() {
    assert_eq!(text("{\"x\": ").to_json(), Err(ConversionError::MalformedJson));
    assert_eq!(text("").to_json(), Err(ConversionError::MalformedJson));
    assert_eq!(text("[1,]").to_json(), Err(ConversionError::MalformedJson));
}

#[test]
fn binary_to_json_decodes_then_parses() {
    let data = InternalMessageData::Binary(b"[1, 2.5, \"ok\"]".to_vec());
    let expected = JsonValue::Array(vec![
        JsonValue::Number(JsonNumber::PosInt(1)),
        JsonValue::Number(JsonNumber::Float(2.5f64.to_bits())),
        JsonValue::String("ok".to_string()),
    ]);
    assert_eq!(data.to_json(), Ok(InternalMessageData::Json(expected)));
    assert_eq!(InternalMessageData::Binary(b"nope".to_vec()).to_json(), Err(ConversionError::MalformedJson));
}

#[test]
fn json_to_string_serializes() {
    let doc = JsonValue::Object(vec![
        ("b".to_string(), JsonValue::Array(vec![JsonValue::Number(JsonNumber::PosInt(1)), JsonValue::Null])),
        ("a".to_string(), JsonValue::Number(JsonNumber::Float(2.5f64.to_bits()))),
        ("n".to_string(), JsonValue::Number(JsonNumber::NegInt(-7))),
        ("s".to_string(), JsonValue::String("q\"t".to_string())),
        ("t".to_string(), JsonValue::Bool(false)),
    ]);
    assert_eq!(
        InternalMessageData::Json(doc).to_string(),
        Ok(text("{\"a\":2.5,\"b\":[1,null],\"n\":-7,\"s\":\"q\\\"t\",\"t\":false}"))
    );
}

#[test]
fn json_to_binary_serializes_to_utf8() {
    let doc = JsonValue::Array(vec![JsonValue::String("é".to_string())]);
    assert_eq!(
        InternalMessageData::Json(doc).to_binary(),
        Ok(InternalMessageData::Binary("[\"é\"]".as_bytes().to_vec()))
    );
}

#[test]
fn json_survives_text_round_trip() {
    for source in [
        "null",
        "true",
        "17",
        "-4",
        "18446744073709551615",
        "0.1",
        "-2.5e-3",
        "\"text\"",
        "[]",
        "[1,[2,[3]],{\"k\":\"v\"}]",
        "{\"a\":{\"b\":null},\"c\":[true,false]}",
    ] {
        let doc = InternalMessageData::Json(json(source));
        let written = doc.clone().to_string().unwrap();
        assert_eq!(written.to_json(), Ok(doc));
    }
}

#[test]
fn json_text_matches_serde_json() {
    let source = "{\"z\":[1,2.0,-3,1e300,\"x\"],\"a\":{\"nested\":true}}";
    let reference: serde_json::Value = serde_json::from_str(source).unwrap();
    let ours = json(source).to_text().unwrap();
    assert_eq!(ours, serde_json::to_string(&reference).unwrap());
}

#[test]
fn json_number_forms() {
    assert_eq!(json("0"), JsonValue::Number(JsonNumber::PosInt(0)));
    assert_eq!(json("-1"), JsonValue::Number(JsonNumber::NegInt(-1)));
    assert_eq!(json("1.0"), JsonValue::Number(JsonNumber::Float(1.0f64.to_bits())));
    assert_eq!(JsonNumber::from_i64(-5), JsonNumber::NegInt(-5));
    assert_eq!(JsonNumber::from_i64(5), JsonNumber::PosInt(5));
    assert_eq!(JsonNumber::from_double(f64::NAN.to_bits()), None);
    assert_eq!(JsonNumber::from_double(f64::INFINITY.to_bits()), None);
    assert_eq!(JsonNumber::from_double(0.5f64.to_bits()), Some(JsonNumber::Float(0.5f64.to_bits())));
    assert_eq!(JsonNumber::PosInt(u64::MAX).as_i64(), None);
    assert_eq!(JsonNumber::PosInt(i64::MAX as u64).as_i64(), Some(i64::MAX));
    assert_eq!(JsonNumber::NegInt(i64::MIN).as_i64(), Some(i64::MIN));
    assert_eq!(JsonNumber::Float(1.0f64.to_bits()).as_i64(), None);
    assert!(JsonNumber::Float(1.0f64.to_bits()).is_float());
    assert!(!JsonNumber::PosInt(1).is_float());
}

#[test]
fn json_non_finite_double_is_written_as_null() {
    let doc = JsonValue::Array(vec![JsonValue::Number(JsonNumber::Float(f64::INFINITY.to_bits()))]);
    assert_eq!(doc.to_text(), Ok("[null]".to_string()));
}

#[test]
fn string_to_osc_is_one_string_argument() {
    assert_eq!(text("hi").to_osc(), Ok(InternalMessageData::OSC(vec![OscArg::String("hi".to_string())])));
    assert_eq!(text("hi").get_osc(), Ok(vec![OscArg::String("hi".to_string())]));
}

#[test]
fn json_array_to_osc_maps_each_element() {
    let doc = json("[null, true, 7, -8, 2.5, \"s\", [1, [false]]]");
    let expected = vec![
        OscArg::Nil,
        OscArg::Bool(true),
        OscArg::Int(7),
        OscArg::Int(-8),
        OscArg::Float(2.5f32.to_bits()),
        OscArg::String("s".to_string()),
        OscArg::Array(vec![OscArg::Int(1), OscArg::Array(vec![OscArg::Bool(false)])]),
    ];
    assert_eq!(InternalMessageData::Json(doc).to_osc(), Ok(InternalMessageData::OSC(expected)));
}

#[test]
fn json_to_osc_narrows_integers_to_32_bits() {
    let doc = json("[2147483648, 4294967297, -2147483649, 9223372036854775807]");
    let expected = vec![
        OscArg::Int(2147483648i64 as i32),
        OscArg::Int(4294967297i64 as i32),
        OscArg::Int(-2147483649i64 as i32),
        OscArg::Int(i64::MAX as i32),
    ];
    assert_eq!(expected, vec![OscArg::Int(i32::MIN), OscArg::Int(1), OscArg::Int(i32::MAX), OscArg::Int(-1)]);
    assert_eq!(InternalMessageData::Json(doc).get_osc(), Ok(expected));
}

#[test]
fn json_to_osc_narrows_doubles_to_singles() {
    let doc = json("[0.1, 1e39, -1e-46, 16777217.0]");
    let expected = vec![
        OscArg::Float((0.1f64 as f32).to_bits()),
        OscArg::Float(f32::INFINITY.to_bits()),
        OscArg::Float((-0.0f32).to_bits()),
        OscArg::Float(16777216.0f32.to_bits()),
    ];
    assert_eq!(InternalMessageData::Json(doc).get_osc(), Ok(expected));
}

#[test]
fn json_to_osc_rejects_integer_beyond_i64() {
    let doc = json("[1, 18446744073709551615]");
    assert_eq!(InternalMessageData::Json(doc).to_osc(), Err(ConversionError::IntegerOutOfRange));
}

#[test]
fn json_to_osc_rejects_objects() {
    assert_eq!(InternalMessageData::Json(json("[{\"a\":1}]")).to_osc(), Err(ConversionError::JsonObject));
    assert_eq!(InternalMessageData::Json(json("[[1,[{}]]]")).to_osc(), Err(ConversionError::JsonObject));
}

#[test]
fn json_to_osc_needs_array_at_top_level() {
    for source in ["null", "true", "5", "\"s\"", "{\"a\":[1]}"] {
        assert_eq!(InternalMessageData::Json(json(source)).to_osc(), Err(ConversionError::TopLevelNotArray));
    }
}

#[test]
fn json_to_osc_reports_first_failing_element() {
    let doc = json("[1, 18446744073709551615, {\"a\":1}]");
    assert_eq!(InternalMessageData::Json(doc).to_osc(), Err(ConversionError::IntegerOutOfRange));
    let doc = json("[1, {\"a\":1}, 18446744073709551615]");
    assert_eq!(InternalMessageData::Json(doc).to_osc(), Err(ConversionError::JsonObject));
}

#[test]
fn osc_to_json_maps_each_argument() {
    let args = vec![
        OscArg::Int(-3),
        OscArg::Long(1 << 40),
        OscArg::Float(2.5f32.to_bits()),
        OscArg::Double(0.1f64.to_bits()),
        OscArg::String("s".to_string()),
        OscArg::Bool(true),
        OscArg::Char('x'),
        OscArg::Nil,
        OscArg::Array(vec![OscArg::Int(1), OscArg::Array(vec![])]),
    ];
    let expected = JsonValue::Array(vec![
        JsonValue::Number(JsonNumber::NegInt(-3)),
        JsonValue::Number(JsonNumber::PosInt(1 << 40)),
        JsonValue::Number(JsonNumber::Float(2.5f64.to_bits())),
        JsonValue::Number(JsonNumber::Float(0.1f64.to_bits())),
        JsonValue::String("s".to_string()),
        JsonValue::Bool(true),
        JsonValue::String("x".to_string()),
        JsonValue::Null,
        JsonValue::Array(vec![JsonValue::Number(JsonNumber::PosInt(1)), JsonValue::Array(vec![])]),
    ]);
    assert_eq!(InternalMessageData::OSC(args).to_json(), Ok(InternalMessageData::Json(expected)));
}

#[test]
fn osc_to_json_widens_singles_exactly() {
    let args = vec![OscArg::Float(0.1f32.to_bits()), OscArg::Float(f32::MIN_POSITIVE.to_bits() >> 3)];
    let expected = JsonValue::Array(vec![
        JsonValue::Number(JsonNumber::Float((0.1f32 as f64).to_bits())),
        JsonValue::Number(JsonNumber::Float((f32::from_bits(f32::MIN_POSITIVE.to_bits() >> 3) as f64).to_bits())),
    ]);
    assert_eq!(InternalMessageData::OSC(args).to_json(), Ok(InternalMessageData::Json(expected)));
}

#[test]
fn osc_to_json_rejects_non_finite_numbers() {
    for bits in [f32::NAN.to_bits(), f32::INFINITY.to_bits(), f32::NEG_INFINITY.to_bits()] {
        assert_eq!(
            InternalMessageData::OSC(vec![OscArg::Float(bits)]).to_json(),
            Err(ConversionError::NonFiniteFloat)
        );
    }
    for bits in [f64::NAN.to_bits(), f64::INFINITY.to_bits(), f64::NEG_INFINITY.to_bits()] {
        assert_eq!(
            InternalMessageData::OSC(vec![OscArg::Double(bits)]).to_json(),
            Err(ConversionError::NonFiniteFloat)
        );
    }
}

#[test]
fn osc_to_json_rejects_unsupported_arguments() {
    let cases = vec![
        (OscArg::Color(OscColor { red: 1, green: 2, blue: 3, alpha: 4 }), UnsupportedOsc::Color),
        (OscArg::Midi(OscMidiMessage { port: 1, status: 2, data1: 3, data2: 4 }), UnsupportedOsc::Midi),
        (OscArg::Blob(vec![1, 2]), UnsupportedOsc::Blob),
        (OscArg::Time(OscTime { seconds: 1, fractional: 2 }), UnsupportedOsc::Time),
        (OscArg::Inf, UnsupportedOsc::Infinity),
    ];
    for (arg, kind) in cases {
        assert_eq!(
            InternalMessageData::OSC(vec![OscArg::Int(1), OscArg::Array(vec![arg])]).to_json(),
            Err(ConversionError::UnsupportedOsc(kind))
        );
    }
}

#[test]
fn unsupported_conversions_fail_cleanly() {
    let osc = InternalMessageData::OSC(vec![OscArg::Int(1)]);
    assert_eq!(osc.clone().to_string(), Err(ConversionError::Unsupported(DataKind::Osc, DataKind::String)));
    assert_eq!(osc.clone().to_binary(), Err(ConversionError::Unsupported(DataKind::Osc, DataKind::Binary)));
    assert_eq!(osc.get_binary(), Err(ConversionError::Unsupported(DataKind::Osc, DataKind::Binary)));
    let binary = InternalMessageData::Binary(vec![1]);
    assert_eq!(binary.clone().to_osc(), Err(ConversionError::Unsupported(DataKind::Binary, DataKind::Osc)));
    assert_eq!(binary.get_osc(), Err(ConversionError::Unsupported(DataKind::Binary, DataKind::Osc)));
}

#[test]
fn get_binary_and_get_osc_unwrap_the_conversion() {
    assert_eq!(InternalMessageData::Empty.get_binary(), Ok(vec![]));
    assert_eq!(InternalMessageData::Binary(vec![9, 8]).get_binary(), Ok(vec![9, 8]));
    assert_eq!(InternalMessageData::Json(json("[1]")).get_binary(), Ok(b"[1]".to_vec()));
    assert_eq!(InternalMessageData::Empty.get_osc(), Ok(vec![]));
    assert_eq!(InternalMessageData::Json(json("[1]")).get_osc(), Ok(vec![OscArg::Int(1)]));
    assert_eq!(InternalMessageData::Json(json("1")).get_osc(), Err(ConversionError::TopLevelNotArray));
}

#[test]
fn payload_kinds() {
    let kinds: Vec<DataKind> = all_variants().iter().map(|d| d.kind()).collect();
    assert_eq!(kinds, vec![DataKind::Empty, DataKind::String, DataKind::Binary, DataKind::Json, DataKind::Osc]);
}

#[test]
fn every_error_has_a_message() {
    let errors = vec![
        ConversionError::Unsupported(DataKind::Osc, DataKind::String),
        ConversionError::InvalidUtf8,
        ConversionError::MalformedJson,
        ConversionError::JsonSerialization,
        ConversionError::TopLevelNotArray,
        ConversionError::JsonObject,
        ConversionError::IntegerOutOfRange,
        ConversionError::NonFiniteFloat,
        ConversionError::UnsupportedOsc(UnsupportedOsc::Color),
        ConversionError::UnsupportedOsc(UnsupportedOsc::Midi),
        ConversionError::UnsupportedOsc(UnsupportedOsc::Blob),
        ConversionError::UnsupportedOsc(UnsupportedOsc::Time),
        ConversionError::UnsupportedOsc(UnsupportedOsc::Infinity),
    ];
    for e in errors {
        assert!(!e.message().is_empty());
    }
    assert_eq!(ConversionError::JsonObject.message(), "Can't convert JSON Object to OSC");
    assert_eq!(
        ConversionError::TopLevelNotArray.message(),
        "Can only convert JSON Array to OSC at the top level"
    );
}

#[test]
fn clones_are_equal_and_independent() {
    for data in all_variants() {
        let copy = data.clone();
        assert_eq!(copy, data);
    }
    let source = InternalMessageData::Binary(vec![1, 2]);
    let mut copy = source.clone();
    if let InternalMessageData::Binary(bytes) = &mut copy {
        bytes.push(3);
    }
    assert_eq!(source, InternalMessageData::Binary(vec![1, 2]));
}
