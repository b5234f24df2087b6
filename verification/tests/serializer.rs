use robots::serialize::serializer::{to_bytes, Serializer};
use robots::serialize::value::Value;
use robots::serialize::DeserError;

fn text(s: &str) -> Value {
    Value::Str(s.to_string())
}

#[test]
fn test_serialize_u8() {
    let value = Value::U8(0xFF);
    let serialized = to_bytes(&value).unwrap();
    assert_eq!(serialized, [0xFF]);
}

#[test]
fn test_serialize_u16() {
    let value = Value::U16(0x1234);
    let serialized = to_bytes(&value).unwrap();
    assert_eq!(serialized, [0x12, 0x34]);
}

#[test]
fn test_serialize_u32() {
    let value = Value::U32(0x12345678);
    let serialized = to_bytes(&value).unwrap();
    assert_eq!(serialized, [0x12, 0x34, 0x56, 0x78]);
}

#[test]
fn test_serialize_enum() {
    // enum Message { Hello(String), Goodbye(String) }
    let message = Value::Variant(0, vec![text("world")]);
    let serialized = to_bytes(&message).unwrap();
    assert_eq!(serialized, [0, 5, b'w', b'o', b'r', b'l', b'd']);

    let message = Value::Variant(1, vec![text("worlds")]);
    let serialized = to_bytes(&message).unwrap();
    assert_eq!(serialized, [1, 6, b'w', b'o', b'r', b'l', b'd', b's']);
}

#[test]
fn test_serialize_struct() {
    // struct Message { message: String }
    let message = Value::Tuple(vec![text("hello")]);
    let serialized = to_bytes(&message).unwrap();
    assert_eq!(serialized, [5, b'h', b'e', b'l', b'l', b'o']);
}

#[test]
fn test_serialize_nested_enum() {
    // enum Message { Hello, Goodbye }
    // enum NestedMessage { Variant1(Message), Variant2 { message: Message, num: u16 } }
    let message = Value::Variant(0, vec![Value::Variant(0, vec![])]);
    let serialized = to_bytes(&message).unwrap();
    assert_eq!(serialized, [0, 0]);

    let message = Value::Variant(0, vec![Value::Variant(1, vec![])]);
    let serialized = to_bytes(&message).unwrap();
    assert_eq!(serialized, [0, 1]);

    let message = Value::Variant(1, vec![Value::Variant(0, vec![]), Value::U16(0x1234)]);
    let serialized = to_bytes(&message).unwrap();
    assert_eq!(serialized, [1, 0, 0x12, 0x34]);
}

#[test]
fn test_serialize_vec() {
    // enum Message { Hello(String), Goodbye }
    let vec = Value::Sequence(vec![
        Value::Variant(0, vec![text("world")]),
        Value::Variant(1, vec![]),
        Value::Variant(0, vec![text("something")]),
    ]);
    let serialized = to_bytes(&vec).unwrap();
    assert_eq!(
        serialized,
        [
            0, 0, 0, 3, 0, 5, b'w', b'o', b'r', b'l', b'd', 1, 0, 9, b's', b'o', b'm', b'e', b't',
            b'h', b'i', b'n', b'g'
        ]
    );
}

#[test]
fn serializer_test_serialize_map() {
    // enum Message { Hello(String), Goodbye }, in a list of (String, Message)
    let map = Value::Sequence(vec![
        Value::Tuple(vec![text("hello"), Value::Variant(0, vec![text("world")])]),
        Value::Tuple(vec![text("goodbye"), Value::Variant(1, vec![])]),
    ]);
    let serialized = to_bytes(&map).unwrap();
    assert_eq!(
        serialized,
        [
            0, 0, 0, 2, 5, b'h', b'e', b'l', b'l', b'o', 0, 5, b'w', b'o', b'r', b'l', b'd', 7,
            b'g', b'o', b'o', b'd', b'b', b'y', b'e', 1
        ]
    );
}

#[test]
fn test_serialize_tuple_enum() {
    // enum Message { Hello(u16, u16), Goodbye }
    let vec = Value::Sequence(vec![
        Value::Variant(0, vec![Value::U16(0x1234), Value::U16(0x5678)]),
        Value::Variant(1, vec![]),
    ]);
    let serialized = to_bytes(&vec).unwrap();
    assert_eq!(serialized, [0, 0, 0, 2, 0, 0x12, 0x34, 0x56, 0x78, 1]);
}

#[test]
fn test_serialize_tuple_struct() {
    // struct Message(u16, u16)
    let vec = Value::Sequence(vec![
        Value::Tuple(vec![Value::U16(0x1234), Value::U16(0x5678)]),
        Value::Tuple(vec![Value::U16(0x9abc), Value::U16(0xdef0)]),
    ]);
    let serialized = to_bytes(&vec).unwrap();
    assert_eq!(
        serialized,
        [0, 0, 0, 2, 0x12, 0x34, 0x56, 0x78, 0x9a, 0xbc, 0xde, 0xf0]
    );
}

#[test]
fn scalars_are_big_endian() {
    assert_eq!(to_bytes(&Value::Bool(true)).unwrap(), [1]);
    assert_eq!(to_bytes(&Value::Bool(false)).unwrap(), [0]);
    assert_eq!(to_bytes(&Value::I8(-5)).unwrap(), [0xfb]);
    assert_eq!(to_bytes(&Value::I8(i8::MIN)).unwrap(), [0x80]);
    assert_eq!(to_bytes(&Value::I16(-2)).unwrap(), [0xff, 0xfe]);
    assert_eq!(to_bytes(&Value::I16(0x0102)).unwrap(), [1, 2]);
    assert_eq!(to_bytes(&Value::I32(-1_000_000)).unwrap(), [0xff, 0xf0, 0xbd, 0xc0]);
    assert_eq!(
        to_bytes(&Value::I64(i64::MIN)).unwrap(),
        [0x80, 0, 0, 0, 0, 0, 0, 0]
    );
    assert_eq!(
        to_bytes(&Value::U64(0x0102030405060708)).unwrap(),
        [1, 2, 3, 4, 5, 6, 7, 8]
    );
    assert_eq!(to_bytes(&Value::Unit).unwrap(), [0]);
}

#[test]
fn options_carry_a_tag() {
    assert_eq!(to_bytes(&Value::Optional(None)).unwrap(), [0]);
    let some = Value::Optional(Some(Box::new(Value::U16(0x0a0b))));
    assert_eq!(to_bytes(&some).unwrap(), [1, 0x0a, 0x0b]);
}

#[test]
fn maps_interleave_keys_and_values() {
    let map = Value::Mapping(vec![
        (Value::U8(3), text("c")),
        (Value::U8(1), text("a")),
    ]);
    assert_eq!(
        to_bytes(&map).unwrap(),
        [0, 0, 0, 2, 3, 1, b'c', 1, 1, b'a']
    );
    assert_eq!(to_bytes(&Value::Mapping(vec![])).unwrap(), [0, 0, 0, 0]);
}

#[test]
fn empty_sequence_is_four_zero_bytes() {
    assert_eq!(to_bytes(&Value::Sequence(vec![])).unwrap(), [0, 0, 0, 0]);
}

#[test]
fn empty_tuple_has_no_bytes() {
    assert_eq!(to_bytes(&Value::Tuple(vec![])).unwrap(), Vec::<u8>::new());
}

#[test]
fn string_of_255_bytes_is_the_longest() {
    let longest = "a".repeat(255);
    let bytes = to_bytes(&text(&longest)).unwrap();
    assert_eq!(bytes.len(), 256);
    assert_eq!(bytes[0], 255);
    assert!(bytes[1..].iter().all(|b| *b == b'a'));

    let too_long = "a".repeat(256);
    assert!(matches!(to_bytes(&text(&too_long)), Err(DeserError::Int(_))));
}

#[test]
fn string_length_counts_bytes_not_characters() {
    // 128 characters of two bytes each
    let wide = "é".repeat(128);
    assert!(matches!(to_bytes(&text(&wide)), Err(DeserError::Int(_))));
    let fits = "é".repeat(127);
    let bytes = to_bytes(&text(&fits)).unwrap();
    assert_eq!(bytes[0], 254);
    assert_eq!(&bytes[1..3], [0xc3, 0xa9]);
}

#[test]
fn variant_index_above_255_is_refused() {
    assert_eq!(to_bytes(&Value::Variant(255, vec![])).unwrap(), [255]);
    assert!(matches!(
        to_bytes(&Value::Variant(256, vec![])),
        Err(DeserError::Int(_))
    ));
    // an unrepresentable part fails the whole
    let nested = Value::Sequence(vec![Value::U8(1), Value::Variant(1000, vec![])]);
    assert!(matches!(to_bytes(&nested), Err(DeserError::Int(_))));
}

#[test]
fn tagged_union_with_two_variants() {
    // enum { A(String), B }
    assert_eq!(
        to_bytes(&Value::Variant(0, vec![text("hi")])).unwrap(),
        [0x00, 0x02, 0x68, 0x69]
    );
    assert_eq!(to_bytes(&Value::Variant(1, vec![])).unwrap(), [0x01]);
}

#[test]
fn sequence_of_unknown_length_is_refused() {
    let mut serializer = Serializer::new();
    assert!(matches!(
        serializer.serialize_seq(None),
        Err(DeserError::UnknownLength)
    ));
    assert!(matches!(
        serializer.serialize_map(None),
        Err(DeserError::UnknownLength)
    ));
    assert!(serializer.into_bytes().is_empty());
}

#[test]
fn primitives_append_in_order() {
    let mut serializer = Serializer::new();
    serializer.serialize_bool(true).unwrap();
    serializer.serialize_i8(-1).unwrap();
    serializer.serialize_i16(-2).unwrap();
    serializer.serialize_i32(3).unwrap();
    serializer.serialize_i64(-4).unwrap();
    serializer.serialize_u8(5).unwrap();
    serializer.serialize_u16(6).unwrap();
    serializer.serialize_u32(7).unwrap();
    serializer.serialize_u64(8).unwrap();
    serializer.serialize_str("ab").unwrap();
    serializer.serialize_bytes(&[9, 10]).unwrap();
    serializer.serialize_none().unwrap();
    serializer.serialize_some(&Value::U8(11)).unwrap();
    serializer.serialize_unit().unwrap();
    serializer.serialize_unit_struct().unwrap();
    serializer.serialize_unit_variant(12).unwrap();
    serializer.serialize_newtype_struct(&Value::U8(13)).unwrap();
    serializer.serialize_newtype_variant(14, &Value::U8(15)).unwrap();
    serializer.serialize_seq(Some(1)).unwrap();
    serializer.serialize_element(&Value::U8(16)).unwrap();
    serializer.end().unwrap();
    serializer.serialize_tuple(2).unwrap();
    serializer.serialize_tuple_struct(2).unwrap();
    serializer.serialize_tuple_variant(17, 1).unwrap();
    serializer.serialize_field(&Value::U8(18)).unwrap();
    serializer.serialize_map(Some(1)).unwrap();
    serializer.serialize_key(&Value::U8(19)).unwrap();
    serializer.serialize_value(&Value::U8(20)).unwrap();
    serializer.serialize_struct(3).unwrap();
    serializer.serialize_struct_variant(21, 0).unwrap();
    assert_eq!(
        serializer.into_bytes(),
        [
            1, 0xff, 0xff, 0xfe, 0, 0, 0, 3, 0xff, 0xff, 0xff, 0xff, 0xff, 0xff, 0xff, 0xfc, 5, 0,
            6, 0, 0, 0, 7, 0, 0, 0, 0, 0, 0, 0, 8, 2, b'a', b'b', 2, 9, 10, 0, 1, 11, 0, 0, 12, 13,
            14, 15, 0, 0, 0, 1, 16, 17, 18, 0, 0, 0, 1, 19, 20, 21
        ]
    );
}

#[test]
fn primitives_refuse_what_does_not_fit() {
    let mut serializer = Serializer::new();
    assert!(matches!(
        serializer.serialize_bytes(&[0u8; 256]),
        Err(DeserError::Int(_))
    ));
    assert!(matches!(
        serializer.serialize_unit_variant(256),
        Err(DeserError::Int(_))
    ));
    assert!(matches!(
        serializer.serialize_tuple_variant(300, 2),
        Err(DeserError::Int(_))
    ));
    assert!(matches!(
        serializer.serialize_struct_variant(u32::MAX, 2),
        Err(DeserError::Int(_))
    ));
    assert!(matches!(
        serializer.serialize_newtype_variant(256, &Value::Unit),
        Err(DeserError::Int(_))
    ));
    if usize::BITS > 32 {
        assert!(matches!(
            serializer.serialize_seq(Some(u32::MAX as usize + 1)),
            Err(DeserError::Int(_))
        ));
    }
    serializer.serialize_seq(Some(u32::MAX as usize)).unwrap();
    assert_eq!(serializer.into_bytes(), [0xff, 0xff, 0xff, 0xff]);
}
