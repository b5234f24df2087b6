use robots::serialize::deserializer::{from_bytes, Deserializer};
use robots::serialize::error::{ErrorKind, IoErrorKind};
use robots::serialize::serializer::to_bytes;
use robots::serialize::value::{Shape, Value};
use robots::serialize::DeserError;

fn text(s: &str) -> Value {
    Value::Str(s.to_string())
}

/// Values of every shape, each with its shape.
fn samples() -> Vec<(Shape, Value)> {
    let pair = || Shape::Tuple(vec![Shape::I16, Shape::Optional(Box::new(Shape::Str))]);
    let union = || Shape::Union(vec![vec![], vec![Shape::U8], vec![Shape::Bool, pair()]]);
    vec![
        (Shape::Bool, Value::Bool(true)),
        (Shape::Bool, Value::Bool(false)),
        (Shape::I8, Value::I8(i8::MIN)),
        (Shape::I8, Value::I8(-1)),
        (Shape::I16, Value::I16(i16::MIN)),
        (Shape::I16, Value::I16(i16::MAX)),
        (Shape::I32, Value::I32(-2)),
        (Shape::I32, Value::I32(i32::MAX)),
        (Shape::I64, Value::I64(i64::MIN)),
        (Shape::I64, Value::I64(0x0102030405060708)),
        (Shape::U8, Value::U8(0)),
        (Shape::U8, Value::U8(u8::MAX)),
        (Shape::U16, Value::U16(0xfffe)),
        (Shape::U32, Value::U32(0xfffefdfc)),
        (Shape::U64, Value::U64(u64::MAX - 1)),
        (Shape::U64, Value::U64(0)),
        (Shape::Str, text("")),
        (Shape::Str, text("zażółć gęślą jaźń")),
        (Shape::Str, text(&"a".repeat(255))),
        (Shape::Unit, Value::Unit),
        (Shape::Optional(Box::new(Shape::U32)), Value::Optional(None)),
        (
            Shape::Optional(Box::new(Shape::U32)),
            Value::Optional(Some(Box::new(Value::U32(1)))),
        ),
        (
            Shape::Optional(Box::new(Shape::Optional(Box::new(Shape::Unit)))),
            Value::Optional(Some(Box::new(Value::Optional(None)))),
        ),
        (Shape::Sequence(Box::new(Shape::Str)), Value::Sequence(vec![])),
        (
            Shape::Sequence(Box::new(Shape::Str)),
            Value::Sequence(vec![text("a"), text(""), text("bc")]),
        ),
        (
            Shape::Sequence(Box::new(Shape::Sequence(Box::new(Shape::U8)))),
            Value::Sequence(vec![
                Value::Sequence(vec![Value::U8(1), Value::U8(2)]),
                Value::Sequence(vec![]),
            ]),
        ),
        (
            Shape::Mapping(Box::new(Shape::Str), Box::new(Shape::I64)),
            Value::Mapping(vec![(text("b"), Value::I64(-1)), (text("a"), Value::I64(1))]),
        ),
        (
            Shape::Mapping(Box::new(Shape::U8), Box::new(pair())),
            Value::Mapping(vec![(
                Value::U8(9),
                Value::Tuple(vec![Value::I16(-9), Value::Optional(None)]),
            )]),
        ),
        (Shape::Tuple(vec![]), Value::Tuple(vec![])),
        (
            pair(),
            Value::Tuple(vec![
                Value::I16(7),
                Value::Optional(Some(Box::new(text("seven")))),
            ]),
        ),
        (union(), Value::Variant(0, vec![])),
        (union(), Value::Variant(1, vec![Value::U8(200)])),
        (
            union(),
            Value::Variant(
                2,
                vec![
                    Value::Bool(true),
                    Value::Tuple(vec![Value::I16(0), Value::Optional(None)]),
                ],
            ),
        ),
    ]
}

#[test]
fn decoding_undoes_encoding() {
    for (shape, value) in samples() {
        let bytes = to_bytes(&value).unwrap();
        assert_eq!(from_bytes(&shape, &bytes).unwrap(), value);
    }
}

#[test]
fn encoding_is_canonical() {
    for (shape, value) in samples() {
        let bytes = to_bytes(&value).unwrap();
        let back = from_bytes(&shape, &bytes).unwrap();
        assert_eq!(to_bytes(&back).unwrap(), bytes);
    }
}

#[test]
fn different_values_of_one_shape_have_different_bytes() {
    let all = samples();
    for (i, (shape_a, a)) in all.iter().enumerate() {
        for (shape_b, b) in all.iter().skip(i + 1) {
            if shape_a == shape_b {
                assert_ne!(a, b);
                assert_ne!(to_bytes(a).unwrap(), to_bytes(b).unwrap());
            }
        }
    }
}

#[test]
fn a_value_is_read_off_the_front_of_what_follows() {
    for (shape, value) in samples() {
        let mut bytes = to_bytes(&value).unwrap();
        let own = bytes.len();
        bytes.extend([0xde, 0xad]);
        let mut stream = Deserializer::new(bytes);
        assert_eq!(stream.deserialize(&shape).unwrap(), value);
        assert_eq!(stream.deserialize_u16().unwrap(), 0xdead);
        assert!(stream.is_at_end());
        // nothing of the value is left over, and nothing is missing
        if own > 0 {
            let short = to_bytes(&value).unwrap()[..own - 1].to_vec();
            assert!(from_bytes(&shape, &short).is_err());
        }
    }
}

#[test]
fn three_messages_then_end_of_input() {
    let shape = Shape::Union(vec![vec![Shape::Str], vec![]]);
    let messages = [
        Value::Variant(0, vec![text("hi")]),
        Value::Variant(1, vec![]),
        Value::Variant(0, vec![text("")]),
    ];
    let mut bytes = Vec::new();
    for message in &messages {
        bytes.extend(to_bytes(message).unwrap());
    }
    assert_eq!(bytes, [0, 2, b'h', b'i', 1, 0, 0]);
    let mut stream = Deserializer::new(bytes);
    let mut seen = Vec::new();
    let end = loop {
        match stream.deserialize(&shape) {
            Ok(message) => seen.push(message),
            Err(e) => break e,
        }
    };
    assert_eq!(seen, messages);
    assert!(end.is_end_of_input());
    assert!(matches!(end, DeserError::Io(IoErrorKind::UnexpectedEof)));
}

#[test]
fn a_shape_without_bytes_decodes_at_the_end_of_input() {
    let empty = Shape::Tuple(vec![Shape::Tuple(vec![]), Shape::Tuple(vec![])]);
    let mut stream = Deserializer::new(vec![]);
    assert_eq!(
        stream.deserialize(&empty).unwrap(),
        Value::Tuple(vec![Value::Tuple(vec![]), Value::Tuple(vec![])])
    );
    let first_byte_late = Shape::Tuple(vec![Shape::Tuple(vec![]), Shape::Unit]);
    assert!(stream
        .deserialize(&first_byte_late)
        .unwrap_err()
        .is_end_of_input());
}

#[test]
fn every_error_has_its_kind() {
    let utf8 = from_bytes(&Shape::Str, &[1, 0xff]).unwrap_err();
    let int = to_bytes(&Value::Variant(256, vec![])).unwrap_err();
    let cases = vec![
        (DeserError::InvalidEnumVariant(3), ErrorKind::InvalidEnumVariant),
        (DeserError::InvalidUnit, ErrorKind::InvalidUnit),
        (DeserError::InvalidOption, ErrorKind::InvalidOption),
        (DeserError::InvalidBool, ErrorKind::InvalidBool),
        (DeserError::UnknownLength, ErrorKind::UnknownLength),
        (DeserError::TrailingData, ErrorKind::TrailingData),
        (DeserError::Encoding("e".to_string()), ErrorKind::Encoding),
        (DeserError::Decoding("d".to_string()), ErrorKind::Decoding),
        (
            DeserError::Io(IoErrorKind::UnexpectedEof),
            ErrorKind::UnexpectedEof,
        ),
        (DeserError::Io(IoErrorKind::Other), ErrorKind::Io),
        (utf8, ErrorKind::Utf8),
        (int, ErrorKind::Int),
    ];
    for (error, kind) in cases {
        assert_eq!(error.kind(), kind);
        assert_eq!(error.is_end_of_input(), kind == ErrorKind::UnexpectedEof);
    }
}

#[test]
fn a_copy_is_the_same_value() {
    for (shape, value) in samples() {
        assert_eq!(value.clone(), value);
        assert_eq!(shape.clone(), shape);
        assert_eq!(
            to_bytes(&value.clone()).unwrap(),
            to_bytes(&value).unwrap()
        );
    }
}
