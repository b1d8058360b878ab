use binxml_model::binxml::value_variant::BinXmlValue;
use std::borrow::Cow;

fn text_of(value: BinXmlValue<'_>) -> String {
    value.into_text().into_owned()
}

/// Sample values that are not strings. Called twice where a test needs each value twice.
fn typed_samples() -> Vec<BinXmlValue<'static>> {
    vec![
        BinXmlValue::NullType,
        BinXmlValue::Int8Type(0),
        BinXmlValue::Int8Type(-1),
        BinXmlValue::Int8Type(i8::MIN),
        BinXmlValue::Int8Type(i8::MAX),
        BinXmlValue::UInt8Type(0),
        BinXmlValue::UInt8Type(9),
        BinXmlValue::UInt8Type(10),
        BinXmlValue::UInt8Type(u8::MAX),
        BinXmlValue::Int16Type(i16::MIN),
        BinXmlValue::Int16Type(-100),
        BinXmlValue::Int16Type(i16::MAX),
        BinXmlValue::UInt16Type(0),
        BinXmlValue::UInt16Type(u16::MAX),
        BinXmlValue::Int32Type(i32::MIN),
        BinXmlValue::Int32Type(-4624),
        BinXmlValue::Int32Type(i32::MAX),
        BinXmlValue::UInt32Type(0),
        BinXmlValue::UInt32Type(4624),
        BinXmlValue::UInt32Type(u32::MAX),
        BinXmlValue::Int64Type(i64::MIN),
        BinXmlValue::Int64Type(i64::MIN + 1),
        BinXmlValue::Int64Type(-10),
        BinXmlValue::Int64Type(0),
        BinXmlValue::Int64Type(i64::MAX),
        BinXmlValue::UInt64Type(0),
        BinXmlValue::UInt64Type(1_000_000_000_000),
        BinXmlValue::UInt64Type(u64::MAX),
        BinXmlValue::BoolType(true),
        BinXmlValue::BoolType(false),
        BinXmlValue::BinaryType(&[]),
        BinXmlValue::BinaryType(&[0]),
        BinXmlValue::BinaryType(&[1, 2]),
        BinXmlValue::BinaryType(&[255, 0, 10, 99, 100]),
    ]
}

#[test]
fn null_text() {
    assert_eq!(text_of(BinXmlValue::NullType), "NullType");
}

#[test]
fn unsigned_texts() {
    assert_eq!(text_of(BinXmlValue::UInt8Type(0)), "UInt8Type(0)");
    assert_eq!(text_of(BinXmlValue::UInt8Type(7)), "UInt8Type(7)");
    assert_eq!(text_of(BinXmlValue::UInt8Type(255)), "UInt8Type(255)");
    assert_eq!(text_of(BinXmlValue::UInt16Type(10)), "UInt16Type(10)");
    assert_eq!(text_of(BinXmlValue::UInt16Type(65535)), "UInt16Type(65535)");
    assert_eq!(text_of(BinXmlValue::UInt32Type(4624)), "UInt32Type(4624)");
    assert_eq!(text_of(BinXmlValue::UInt32Type(4294967295)), "UInt32Type(4294967295)");
    assert_eq!(text_of(BinXmlValue::UInt64Type(100)), "UInt64Type(100)");
    assert_eq!(
        text_of(BinXmlValue::UInt64Type(18446744073709551615)),
        "UInt64Type(18446744073709551615)"
    );
}

#[test]
fn signed_texts() {
    assert_eq!(text_of(BinXmlValue::Int8Type(0)), "Int8Type(0)");
    assert_eq!(text_of(BinXmlValue::Int8Type(-1)), "Int8Type(-1)");
    assert_eq!(text_of(BinXmlValue::Int8Type(-128)), "Int8Type(-128)");
    assert_eq!(text_of(BinXmlValue::Int8Type(127)), "Int8Type(127)");
    assert_eq!(text_of(BinXmlValue::Int16Type(-32768)), "Int16Type(-32768)");
    assert_eq!(text_of(BinXmlValue::Int16Type(1000)), "Int16Type(1000)");
    assert_eq!(text_of(BinXmlValue::Int32Type(-2147483648)), "Int32Type(-2147483648)");
    assert_eq!(text_of(BinXmlValue::Int32Type(2147483647)), "Int32Type(2147483647)");
    assert_eq!(
        text_of(BinXmlValue::Int64Type(-9223372036854775808)),
        "Int64Type(-9223372036854775808)"
    );
    assert_eq!(
        text_of(BinXmlValue::Int64Type(-9223372036854775807)),
        "Int64Type(-9223372036854775807)"
    );
    assert_eq!(
        text_of(BinXmlValue::Int64Type(9223372036854775807)),
        "Int64Type(9223372036854775807)"
    );
}

#[test]
fn bool_texts() {
    assert_eq!(text_of(BinXmlValue::BoolType(true)), "BoolType(true)");
    assert_eq!(text_of(BinXmlValue::BoolType(false)), "BoolType(false)");
}

#[test]
fn binary_texts() {
    assert_eq!(text_of(BinXmlValue::BinaryType(&[])), "BinaryType([])");
    assert_eq!(text_of(BinXmlValue::BinaryType(&[7])), "BinaryType([7])");
    assert_eq!(text_of(BinXmlValue::BinaryType(&[1, 2])), "BinaryType([1, 2])");
    assert_eq!(text_of(BinXmlValue::BinaryType(&[0, 10, 255])), "BinaryType([0, 10, 255])");
}

#[test]
fn typed_text_is_the_debug_rendering() {
    let rendered: Vec<String> = typed_samples().iter().map(|v| format!("{:?}", v)).collect();
    for (value, expected) in typed_samples().into_iter().zip(rendered) {
        assert_eq!(text_of(value), expected);
    }
}

#[test]
fn typed_text_is_owned_and_never_empty() {
    for value in typed_samples() {
        let text = value.into_text();
        assert!(matches!(text, Cow::Owned(_)));
        assert!(!text.is_empty());
    }
}

#[test]
fn borrowed_string_is_handed_on_without_a_copy() {
    let source = String::from("Information");
    let text = BinXmlValue::StringType(Cow::Borrowed(source.as_str())).into_text();
    match text {
        Cow::Borrowed(held) => {
            assert_eq!(held.as_ptr(), source.as_ptr());
            assert_eq!(held.len(), source.len());
        }
        Cow::Owned(_) => panic!("a borrowed string was copied"),
    }
}

#[test]
fn owned_string_is_handed_on_as_it_is() {
    let source = String::from("S-1-5-18");
    let pointer = source.as_ptr();
    let text = BinXmlValue::StringType(Cow::Owned(source)).into_text();
    match text {
        Cow::Owned(held) => {
            assert_eq!(held, "S-1-5-18");
            assert_eq!(held.as_ptr(), pointer);
        }
        Cow::Borrowed(_) => panic!("an owned string came back borrowed"),
    }
}

#[test]
fn string_bytes_are_not_reformatted() {
    let samples = [
        "",
        " ",
        "4624",
        "UInt32Type(4624)",
        "a \"quoted\" \\ <tag> & more\n\ttabs",
        "na\u{ef}ve \u{2013} \u{2713} \u{1f600}",
        "\u{0}\u{7f}",
    ];
    for sample in samples {
        let text = BinXmlValue::StringType(Cow::Borrowed(sample)).into_text();
        assert_eq!(text.as_bytes(), sample.as_bytes());
        let text = BinXmlValue::StringType(Cow::Owned(String::from(sample))).into_text();
        assert_eq!(text.as_bytes(), sample.as_bytes());
    }
}

#[test]
fn empty_string_stays_empty() {
    let text = BinXmlValue::StringType(Cow::Borrowed("")).into_text();
    assert!(text.is_empty());
}
