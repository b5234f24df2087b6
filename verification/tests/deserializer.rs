use robots::serialize::deserializer::{from_bytes, Counted, Deserializer, Variant};
use robots::serialize::error::{ErrorKind, IoErrorKind};
use robots::serialize::serializer::to_bytes;
use robots::serialize::value::{Shape, Value};
use robots::serialize::DeserError;

fn text(s: &str) -> Value {
    Value::Str(s.to_string())
}

#[test]
fn test_deserialize_bool() {
    let buf = vec![0x01];
    let result = from_bytes(&Shape::Bool, &buf).unwrap();
    assert_eq!(result, Value::Bool(true));

    let buf = vec![0x00];
    let result = from_bytes(&Shape::Bool, &buf).unwrap();
    assert_eq!(result, Value::Bool(false));

    let buf = vec![0x02];
    let result = from_bytes(&Shape::Bool, &buf);
    assert!(result.is_err());
    assert!(matches!(result, Err(DeserError::InvalidBool)));
}

#[test]
fn test_deserialize_u32() {
    let buf = vec![0x12, 0x34, 0x56, 0x78];
    let result = from_bytes(&Shape::U32, &buf).unwrap();
    assert_eq!(result, Value::U32(0x12345678));
}

#[test]
fn test_deserialize_string() {
    let buf = vec![3, b'a', b'b', b'c'];
    let result = from_bytes(&Shape::Str, &buf).unwrap();
    assert_eq!(result, text("abc"));
}

#[test]
fn test_deserialize_struct() {
    // struct Message { message: String }
    let shape = Shape::Tuple(vec![Shape::Str]);
    let message = Value::Tuple(vec![text("hello")]);
    let buf = [5, b'h', b'e', b'l', b'l', b'o'];
    let result = from_bytes(&shape, &buf).unwrap();
    assert_eq!(result, message);
}

#[test]
fn deserialize_struct_tuple() {
    // struct Message(String, u32)
    let shape = Shape::Tuple(vec![Shape::Str, Shape::U32]);
    let message = Value::Tuple(vec![text("hello"), Value::U32(0x12345678)]);
    let buf = [5, b'h', b'e', b'l', b'l', b'o', 0x12, 0x34, 0x56, 0x78];
    let result = from_bytes(&shape, &buf).unwrap();
    assert_eq!(result, message);
}

#[test]
fn test_deserialize_enum() {
    // enum Message { Hello(String), Goodbye(String) }
    let shape = Shape::Union(vec![vec![Shape::Str], vec![Shape::Str]]);

    let buf = vec![0, 5, b'w', b'o', b'r', b'l', b'd'];

    let message = Value::Variant(0, vec![text("world")]);
    let result = from_bytes(&shape, &buf).unwrap();
    assert_eq!(result, message);

    let message = Value::Variant(1, vec![text("worlds")]);
    let buf = [1, 6, b'w', b'o', b'r', b'l', b'd', b's'];
    let result = from_bytes(&shape, &buf).unwrap();
    assert_eq!(result, message);
}

fn nested_message_shape() -> Shape {
    // enum Message { Hello, Goodbye }
    // enum NestedMessage { Variant1(Message), Variant2 { message: Message, num: u16 } }
    Shape::Union(vec![
        vec![Shape::Union(vec![vec![], vec![]])],
        vec![Shape::Union(vec![vec![], vec![]]), Shape::U16],
    ])
}

#[test]
fn test_deserialize_nested_enum() {
    let shape = nested_message_shape();

    let message = Value::Variant(0, vec![Value::Variant(0, vec![])]);
    let buf = [0, 0];
    let result = from_bytes(&shape, &buf).unwrap();
    assert_eq!(result, message);

    let message = Value::Variant(0, vec![Value::Variant(1, vec![])]);
    let buf = [0, 1];
    let result = from_bytes(&shape, &buf).unwrap();
    assert_eq!(result, message);

    let message = Value::Variant(1, vec![Value::Variant(0, vec![]), Value::U16(0x1234)]);
    let buf = [1, 0, 0x12, 0x34];
    let result = from_bytes(&shape, &buf).unwrap();
    assert_eq!(result, message);
}

#[test]
fn test_deserialize_vec() {
    // enum Message { Hello(String), Goodbye }
    let shape = Shape::Sequence(Box::new(Shape::Union(vec![vec![Shape::Str], vec![]])));
    let vec = Value::Sequence(vec![
        Value::Variant(0, vec![text("world")]),
        Value::Variant(1, vec![]),
        Value::Variant(0, vec![text("something")]),
    ]);
    let buf = [
        0, 0, 0, 3, 0, 5, b'w', b'o', b'r', b'l', b'd', 1, 0, 9, b's', b'o', b'm', b'e', b't',
        b'h', b'i', b'n', b'g',
    ];
    let result = from_bytes(&shape, &buf).unwrap();
    assert_eq!(result, vec);
}

#[test]
fn deserializer_test_serialize_map() {
    // enum Message { Hello(String), Goodbye }, in a list of (String, Message)
    let shape = Shape::Sequence(Box::new(Shape::Tuple(vec![
        Shape::Str,
        Shape::Union(vec![vec![Shape::Str], vec![]]),
    ])));
    let map = Value::Sequence(vec![
        Value::Tuple(vec![text("hello"), Value::Variant(0, vec![text("world")])]),
        Value::Tuple(vec![text("goodbye"), Value::Variant(1, vec![])]),
    ]);
    let buf = [
        0, 0, 0, 2, 5, b'h', b'e', b'l', b'l', b'o', 0, 5, b'w', b'o', b'r', b'l', b'd', 7, b'g',
        b'o', b'o', b'd', b'b', b'y', b'e', 1,
    ];
    let result = from_bytes(&shape, &buf).unwrap();
    assert_eq!(result, map);
}

#[test]
fn scalars_are_read_big_endian() {
    assert_eq!(from_bytes(&Shape::I8, &[0xfb]).unwrap(), Value::I8(-5));
    assert_eq!(from_bytes(&Shape::I8, &[0x7f]).unwrap(), Value::I8(127));
    assert_eq!(from_bytes(&Shape::U8, &[0xfb]).unwrap(), Value::U8(251));
    assert_eq!(from_bytes(&Shape::I16, &[0xff, 0xfe]).unwrap(), Value::I16(-2));
    assert_eq!(from_bytes(&Shape::U16, &[0x02, 0x05]).unwrap(), Value::U16(517));
    assert_eq!(
        from_bytes(&Shape::I32, &[0xff, 0xf0, 0xbd, 0xc0]).unwrap(),
        Value::I32(-1_000_000)
    );
    assert_eq!(
        from_bytes(&Shape::I64, &[0x80, 0, 0, 0, 0, 0, 0, 0]).unwrap(),
        Value::I64(i64::MIN)
    );
    assert_eq!(
        from_bytes(&Shape::U64, &[1, 2, 3, 4, 5, 6, 7, 8]).unwrap(),
        Value::U64(0x0102030405060708)
    );
    assert_eq!(from_bytes(&Shape::Unit, &[0]).unwrap(), Value::Unit);
}

#[test]
fn invalid_tag_bytes_are_named() {
    assert!(matches!(
        from_bytes(&Shape::Bool, &[0xff]),
        Err(DeserError::InvalidBool)
    ));
    assert!(matches!(
        from_bytes(&Shape::Unit, &[1]),
        Err(DeserError::InvalidUnit)
    ));
    let option = Shape::Optional(Box::new(Shape::U8));
    assert!(matches!(
        from_bytes(&option, &[2, 7]),
        Err(DeserError::InvalidOption)
    ));
    assert_eq!(from_bytes(&option, &[0]).unwrap(), Value::Optional(None));
    assert_eq!(
        from_bytes(&option, &[1, 7]).unwrap(),
        Value::Optional(Some(Box::new(Value::U8(7))))
    );
}

#[test]
fn invalid_utf8_is_an_error() {
    let result = from_bytes(&Shape::Str, &[2, 0xc3, 0x28]);
    assert!(matches!(result, Err(DeserError::Utf8(_))));
    let result = from_bytes(&Shape::Str, &[1, 0xff]);
    assert!(matches!(result, Err(DeserError::Utf8(_))));
    // a surrogate, encoded
    let result = from_bytes(&Shape::Str, &[3, 0xed, 0xa0, 0x80]);
    assert!(matches!(result, Err(DeserError::Utf8(_))));
    assert_eq!(
        from_bytes(&Shape::Str, &[2, 0xc3, 0xa9]).unwrap(),
        text("é")
    );
    assert_eq!(from_bytes(&Shape::Str, &[0]).unwrap(), text(""));
}

#[test]
fn running_out_of_input_is_end_of_input() {
    let cases: Vec<(Shape, Vec<u8>)> = vec![
        (Shape::Bool, vec![]),
        (Shape::U16, vec![1]),
        (Shape::I32, vec![1, 2, 3]),
        (Shape::U64, vec![1, 2, 3, 4, 5, 6, 7]),
        (Shape::Str, vec![]),
        (Shape::Str, vec![3, b'a', b'b']),
        (Shape::Optional(Box::new(Shape::U16)), vec![1, 0]),
        (Shape::Sequence(Box::new(Shape::U8)), vec![0, 0, 0]),
        (Shape::Sequence(Box::new(Shape::U8)), vec![0, 0, 0, 3, 1, 2]),
        (
            Shape::Mapping(Box::new(Shape::U8), Box::new(Shape::U8)),
            vec![0, 0, 0, 1, 1],
        ),
        (Shape::Tuple(vec![Shape::U8, Shape::U8]), vec![1]),
        (Shape::Union(vec![vec![Shape::U8]]), vec![]),
        (Shape::Union(vec![vec![Shape::U8]]), vec![0]),
    ];
    for (shape, bytes) in cases {
        let result = from_bytes(&shape, &bytes);
        match result {
            Err(e) => {
                assert!(matches!(e, DeserError::Io(IoErrorKind::UnexpectedEof)));
                assert!(e.is_end_of_input());
                assert_eq!(e.kind(), ErrorKind::UnexpectedEof);
            }
            Ok(v) => panic!("decoded {:?} from {:?}", v, bytes),
        }
    }
}

#[test]
fn trailing_data_fails_a_buffer_but_not_a_stream() {
    let result = from_bytes(&Shape::Bool, &[1, 0]);
    assert!(matches!(result, Err(DeserError::TrailingData)));

    let mut stream = Deserializer::new(vec![1, 0]);
    assert_eq!(stream.deserialize(&Shape::Bool).unwrap(), Value::Bool(true));
    assert_eq!(stream.deserialize(&Shape::Bool).unwrap(), Value::Bool(false));
    assert!(stream.deserialize(&Shape::Bool).unwrap_err().is_end_of_input());
}

#[test]
fn decode_errors_come_before_trailing_data() {
    let result = from_bytes(&Shape::Bool, &[2, 0]);
    assert!(matches!(result, Err(DeserError::InvalidBool)));
}

#[test]
fn unknown_variant_index_is_a_decoding_error() {
    let shape = Shape::Union(vec![vec![Shape::Str], vec![]]);
    let result = from_bytes(&shape, &[2]);
    assert!(matches!(result, Err(DeserError::Decoding(_))));
    let result = from_bytes(&Shape::Union(vec![]), &[0]);
    assert!(matches!(result, Err(DeserError::Decoding(_))));
}

#[test]
fn tagged_union_with_two_variants_decodes() {
    // enum { A(String), B }
    let shape = Shape::Union(vec![vec![Shape::Str], vec![]]);
    assert_eq!(
        from_bytes(&shape, &[0x00, 0x02, 0x68, 0x69]).unwrap(),
        Value::Variant(0, vec![text("hi")])
    );
    assert_eq!(
        from_bytes(&shape, &[0x01]).unwrap(),
        Value::Variant(1, vec![])
    );
}

#[test]
fn empty_sequence_decodes_from_four_zero_bytes() {
    let shape = Shape::Sequence(Box::new(Shape::U64));
    assert_eq!(
        from_bytes(&shape, &[0, 0, 0, 0]).unwrap(),
        Value::Sequence(vec![])
    );
}

#[test]
fn maps_decode_in_wire_order() {
    let shape = Shape::Mapping(Box::new(Shape::U8), Box::new(Shape::Str));
    let map = Value::Mapping(vec![(Value::U8(3), text("c")), (Value::U8(1), text("a"))]);
    assert_eq!(
        from_bytes(&shape, &[0, 0, 0, 2, 3, 1, b'c', 1, 1, b'a']).unwrap(),
        map
    );
}

#[test]
fn longest_string_round_trips() {
    let longest = text(&"z".repeat(255));
    let bytes = to_bytes(&longest).unwrap();
    assert_eq!(from_bytes(&Shape::Str, &bytes).unwrap(), longest);
}

#[test]
fn stream_yields_messages_in_order_then_end_of_input() {
    let shape = Shape::Tuple(vec![Shape::U16, Shape::Str, Shape::Sequence(Box::new(Shape::I8))]);
    let messages = vec![
        Value::Tuple(vec![
            Value::U16(1),
            text("one"),
            Value::Sequence(vec![Value::I8(-1)]),
        ]),
        Value::Tuple(vec![Value::U16(2), text(""), Value::Sequence(vec![])]),
        Value::Tuple(vec![
            Value::U16(3),
            text("three"),
            Value::Sequence(vec![Value::I8(3), Value::I8(-3), Value::I8(0)]),
        ]),
    ];
    let mut bytes = Vec::new();
    for message in &messages {
        bytes.extend(to_bytes(message).unwrap());
    }
    let mut stream = Deserializer::new(bytes);
    for message in &messages {
        assert_eq!(&stream.deserialize(&shape).unwrap(), message);
    }
    let end = stream.deserialize(&shape).unwrap_err();
    assert!(matches!(end, DeserError::Io(IoErrorKind::UnexpectedEof)));
}

#[test]
fn a_read_that_runs_out_of_input_leaves_the_cursor_in_place() {
    let mut stream = Deserializer::from_bytes(&[0, 0, 1]);
    assert!(stream.deserialize_u32().unwrap_err().is_end_of_input());
    assert!(stream.deserialize_u64().unwrap_err().is_end_of_input());
    // the byte that was missing arrives
    stream.extend(&[2]);
    assert_eq!(stream.deserialize_u32().unwrap(), 0x0102);
    assert!(stream.deserialize_bool().unwrap_err().is_end_of_input());
    assert!(stream.deserialize_str().unwrap_err().is_end_of_input());
    stream.extend(&[3, b'a', b'b']);
    assert!(stream.deserialize_str().unwrap_err().is_end_of_input());
    stream.extend(&[b'c']);
    assert_eq!(stream.deserialize_str().unwrap(), "abc");
    assert!(stream.is_at_end());
}

#[test]
fn an_invalid_byte_has_been_read() {
    let mut stream = Deserializer::new(vec![2, 1, 7, 0, 9, 1]);
    assert!(matches!(
        stream.deserialize_bool(),
        Err(DeserError::InvalidBool)
    ));
    assert!(stream.deserialize_bool().unwrap());
    assert!(matches!(
        stream.deserialize_unit(),
        Err(DeserError::InvalidUnit)
    ));
    stream.deserialize_unit().unwrap();
    assert!(matches!(
        stream.deserialize_option(),
        Err(DeserError::InvalidOption)
    ));
    assert!(stream.deserialize_option().unwrap());
    assert!(stream.is_at_end());
}

#[test]
fn a_string_that_is_no_utf8_has_been_read() {
    let mut stream = Deserializer::new(vec![2, 0xc3, 0x28, 1, b'a']);
    assert!(matches!(
        stream.deserialize_str(),
        Err(DeserError::Utf8(_))
    ));
    assert_eq!(stream.deserialize_string().unwrap(), "a");
    assert!(stream.is_at_end());
}

#[test]
fn after_a_failure_the_cursor_stands_behind_what_was_read() {
    // the second field is no boolean: the first field and the bad byte have been read
    let shape = Shape::Tuple(vec![Shape::U16, Shape::Bool, Shape::U8]);
    let mut stream = Deserializer::new(vec![0, 1, 5, 0xaa, 0xbb]);
    assert!(matches!(
        stream.deserialize(&shape),
        Err(DeserError::InvalidBool)
    ));
    assert_eq!(stream.deserialize_u8().unwrap(), 0xaa);

    // the third element runs out of input: the count and two elements have been read
    let shape = Shape::Sequence(Box::new(Shape::U16));
    let mut stream = Deserializer::new(vec![0, 0, 0, 3, 0, 1, 0, 2, 9]);
    assert!(stream.deserialize(&shape).unwrap_err().is_end_of_input());
    assert_eq!(stream.deserialize_u8().unwrap(), 9);

    // an unknown variant: its tag has been read
    let shape = Shape::Union(vec![vec![], vec![Shape::U8]]);
    let mut stream = Deserializer::new(vec![2, 1, 4]);
    assert!(matches!(
        stream.deserialize(&shape),
        Err(DeserError::Decoding(_))
    ));
    assert_eq!(
        stream.deserialize(&shape).unwrap(),
        Value::Variant(1, vec![Value::U8(4)])
    );

    // a present option whose value is invalid, and a map whose value is
    let shape = Shape::Optional(Box::new(Shape::Unit));
    let mut stream = Deserializer::new(vec![1, 3, 8]);
    assert!(matches!(
        stream.deserialize(&shape),
        Err(DeserError::InvalidUnit)
    ));
    assert_eq!(stream.deserialize_u8().unwrap(), 8);
    let shape = Shape::Mapping(Box::new(Shape::U8), Box::new(Shape::Bool));
    let mut stream = Deserializer::new(vec![0, 0, 0, 2, 1, 1, 2, 2, 6]);
    assert!(matches!(
        stream.deserialize(&shape),
        Err(DeserError::InvalidBool)
    ));
    assert_eq!(stream.deserialize_u8().unwrap(), 6);
}

#[test]
fn an_element_that_was_due_is_counted_whether_or_not_it_decoded() {
    let mut stream = Deserializer::new(vec![0, 0, 0, 2, 2, 1]);
    let mut counted = stream.deserialize_seq().unwrap();
    assert!(matches!(
        counted.next_element_seed(&mut stream, &Shape::Bool),
        Err(DeserError::InvalidBool)
    ));
    assert_eq!(
        counted.next_element_seed(&mut stream, &Shape::Bool).unwrap(),
        Some(Value::Bool(true))
    );
    assert_eq!(
        counted.next_element_seed(&mut stream, &Shape::Bool).unwrap(),
        None
    );

    // so is one that ran out of input
    let mut stream = Deserializer::new(vec![]);
    let mut counted = Counted::new(1);
    assert!(counted
        .next_element_seed(&mut stream, &Shape::U8)
        .unwrap_err()
        .is_end_of_input());
    assert!(!counted.has_next());

    // and an entry whose value did not decode
    let mut stream = Deserializer::new(vec![0, 0, 0, 1, 4, 9]);
    let mut counted = stream.deserialize_map().unwrap();
    let key = counted.next_key_seed(&mut stream, &Shape::U8).unwrap();
    assert_eq!(key, Some(Value::U8(4)));
    assert!(counted.has_next());
    assert!(matches!(
        counted.next_value_seed(&mut stream, &Shape::Unit),
        Err(DeserError::InvalidUnit)
    ));
    assert!(!counted.has_next());
    assert!(stream.is_at_end());
}

#[test]
fn self_describing_decoding_fails_at_once() {
    let mut stream = Deserializer::new(vec![1, 2, 3]);
    assert!(matches!(
        stream.deserialize_any(),
        Err(DeserError::Decoding(_))
    ));
    assert_eq!(stream.deserialize_u8().unwrap(), 1);
}

#[test]
fn primitives_read_in_order() {
    let mut stream = Deserializer::new(vec![
        1, 0xff, 0xff, 0xfe, 0, 0, 0, 3, 0xff, 0xff, 0xff, 0xff, 0xff, 0xff, 0xff, 0xfc, 5, 0, 6,
        0, 0, 0, 7, 0, 0, 0, 0, 0, 0, 0, 8, 2, b'a', b'b', 1, b'c', 0, 1, 0, 0, 9,
    ]);
    assert!(stream.deserialize_bool().unwrap());
    assert_eq!(stream.deserialize_i8().unwrap(), -1);
    assert_eq!(stream.deserialize_i16().unwrap(), -2);
    assert_eq!(stream.deserialize_i32().unwrap(), 3);
    assert_eq!(stream.deserialize_i64().unwrap(), -4);
    assert_eq!(stream.deserialize_u8().unwrap(), 5);
    assert_eq!(stream.deserialize_u16().unwrap(), 6);
    assert_eq!(stream.deserialize_u32().unwrap(), 7);
    assert_eq!(stream.deserialize_u64().unwrap(), 8);
    assert_eq!(stream.deserialize_str().unwrap(), "ab");
    assert_eq!(stream.deserialize_string().unwrap(), "c");
    assert!(!stream.deserialize_option().unwrap());
    assert!(stream.deserialize_option().unwrap());
    stream.deserialize_unit().unwrap();
    stream.deserialize_unit_struct().unwrap();
    assert_eq!(stream.deserialize_identifier().unwrap(), 9);
    assert!(stream.deserialize_u8().unwrap_err().is_end_of_input());
}

#[test]
fn counted_stops_at_the_count() {
    let mut stream = Deserializer::new(vec![0, 0, 0, 2, 10, 20, 30]);
    let mut counted = stream.deserialize_seq().unwrap();
    assert!(counted.has_next());
    assert_eq!(
        counted.next_element_seed(&mut stream, &Shape::U8).unwrap(),
        Some(Value::U8(10))
    );
    assert_eq!(
        counted.next_element_seed(&mut stream, &Shape::U8).unwrap(),
        Some(Value::U8(20))
    );
    assert!(!counted.has_next());
    assert_eq!(
        counted.next_element_seed(&mut stream, &Shape::U8).unwrap(),
        None
    );
    // what follows belongs to the next message
    assert_eq!(stream.deserialize_u8().unwrap(), 30);
}

#[test]
fn counted_reads_keys_and_values() {
    let mut stream = Deserializer::new(vec![0, 0, 0, 1, 4, 0, 5]);
    let mut counted = stream.deserialize_map().unwrap();
    let key = counted.next_key_seed(&mut stream, &Shape::U8).unwrap();
    assert_eq!(key, Some(Value::U8(4)));
    let value = counted.next_value_seed(&mut stream, &Shape::U16).unwrap();
    assert_eq!(value, Value::U16(5));
    assert_eq!(counted.next_key_seed(&mut stream, &Shape::U8).unwrap(), None);

    let mut manual = Counted::new(1);
    assert!(manual.has_next());
    manual.advance();
    assert!(!manual.has_next());
}

#[test]
fn fixed_arity_cursors_read_nothing() {
    let mut stream = Deserializer::new(vec![1, 2]);
    let mut tuple = stream.deserialize_tuple(1);
    assert_eq!(
        tuple.next_element_seed(&mut stream, &Shape::U8).unwrap(),
        Some(Value::U8(1))
    );
    assert_eq!(tuple.next_element_seed(&mut stream, &Shape::U8).unwrap(), None);
    let record = stream.deserialize_struct(0);
    assert!(!record.has_next());
    let named = stream.deserialize_tuple_struct(3);
    assert!(named.has_next());
    assert_eq!(
        stream.deserialize_newtype_struct(&Shape::U8).unwrap(),
        Value::U8(2)
    );
}

#[test]
fn variant_reader_reads_the_tag_then_the_payload() {
    let mut stream = Deserializer::new(vec![3, 0x12, 0x34, 1, 9, 2, 8]);
    let variant = stream.deserialize_enum().unwrap();
    assert_eq!(variant.index(), 3);
    variant.unit_variant().unwrap();
    assert_eq!(
        variant.newtype_variant_seed(&mut stream, &Shape::U16).unwrap(),
        Value::U16(0x1234)
    );
    let variant = Variant::variant_seed(&mut stream).unwrap();
    assert_eq!(variant.index(), 1);
    let mut fields = variant.tuple_variant(&mut stream, 1);
    assert_eq!(
        fields.next_element_seed(&mut stream, &Shape::U8).unwrap(),
        Some(Value::U8(9))
    );
    let variant = stream.deserialize_enum().unwrap();
    assert_eq!(variant.index(), 2);
    let mut fields = variant.struct_variant(&mut stream, 1);
    assert_eq!(
        fields.next_element_seed(&mut stream, &Shape::U8).unwrap(),
        Some(Value::U8(8))
    );
    assert!(stream.deserialize_enum().unwrap_err().is_end_of_input());
}
