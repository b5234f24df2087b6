//! The encoder: it walks a value and appends its bytes to a buffer.

use vstd::prelude::*;
use vstd::utf8::encode_utf8;
use crate::serialize::endian::{
    i16_to_bytes, i32_to_bytes, i64_to_bytes, u16_to_bytes, u32_to_bytes, u64_to_bytes,
};
use crate::serialize::error::{fails_with, DeserError, ErrorKind};
use crate::serialize::value::{data_of, entries_of, Datum, Value};
use crate::serialize::wire::{
    be16, be32, be64, bits16, bits32, bits64, bits8, fits, fits_all, fits_entries,
    lemma_wire_all_step, lemma_wire_entries_step, wire, wire_all, wire_entries,
};

verus! {

/// The bytes written so far. It only ever grows.
#[derive(Debug)]
pub struct Serializer {
    output: Vec<u8>,
}

impl View for Serializer {
    type V = Seq<u8>;

    /// The bytes written so far.
    closed spec fn view(&self) -> Seq<u8> {
        self.output@
    }
}

impl Serializer {
    /// A serializer that has written nothing.
    pub fn new() -> (serializer: Serializer)
        ensures
            serializer@ == Seq::<u8>::empty(),
    {
        Serializer { output: Vec::new() }
    }

    /// The bytes written so far.
    pub fn into_bytes(self) -> (bytes: Vec<u8>)
        ensures
            bytes@ == self@,
    {
        self.output
    }

    fn write(&mut self, bytes: &[u8])
        ensures
            final(self)@ == old(self)@ + bytes@,
    {
        self.output.extend_from_slice(bytes);
        assert(self.output@ =~= old(self).output@ + bytes@);
    }

    pub fn serialize_bool(&mut self, v: bool) -> (r: Result<(), DeserError>)
        ensures
            r is Ok,
            final(self)@ == old(self)@ + seq![if v { 1u8 } else { 0u8 }],
    {
        self.serialize_u8(if v { 1 } else { 0 })
    }

    pub fn serialize_i8(&mut self, v: i8) -> (r: Result<(), DeserError>)
        ensures
            r is Ok,
            final(self)@ == old(self)@ + seq![bits8(v)],
    {
        let byte: u8 = if v < 0 { (v as i16 + 0x100) as u8 } else { v as u8 };
        self.output.push(byte);
        Ok(())
    }

    pub fn serialize_i16(&mut self, v: i16) -> (r: Result<(), DeserError>)
        ensures
            r is Ok,
            final(self)@ == old(self)@ + be16(bits16(v)),
    {
        let bytes = i16_to_bytes(v);
        self.write(bytes.as_slice());
        Ok(())
    }

    pub fn serialize_i32(&mut self, v: i32) -> (r: Result<(), DeserError>)
        ensures
            r is Ok,
            final(self)@ == old(self)@ + be32(bits32(v)),
    {
        let bytes = i32_to_bytes(v);
        self.write(bytes.as_slice());
        Ok(())
    }

    pub fn serialize_i64(&mut self, v: i64) -> (r: Result<(), DeserError>)
        ensures
            r is Ok,
            final(self)@ == old(self)@ + be64(bits64(v)),
    {
        let bytes = i64_to_bytes(v);
        self.write(bytes.as_slice());
        Ok(())
    }

    pub fn serialize_u8(&mut self, v: u8) -> (r: Result<(), DeserError>)
        ensures
            r is Ok,
            final(self)@ == old(self)@ + seq![v],
    {
        self.output.push(v);
        Ok(())
    }

    pub fn serialize_u16(&mut self, v: u16) -> (r: Result<(), DeserError>)
        ensures
            r is Ok,
            final(self)@ == old(self)@ + be16(v),
    {
        let bytes = u16_to_bytes(v);
        self.write(bytes.as_slice());
        Ok(())
    }

    pub fn serialize_u32(&mut self, v: u32) -> (r: Result<(), DeserError>)
        ensures
            r is Ok,
            final(self)@ == old(self)@ + be32(v),
    {
        let bytes = u32_to_bytes(v);
        self.write(bytes.as_slice());
        Ok(())
    }

    pub fn serialize_u64(&mut self, v: u64) -> (r: Result<(), DeserError>)
        ensures
            r is Ok,
            final(self)@ == old(self)@ + be64(v),
    {
        let bytes = u64_to_bytes(v);
        self.write(bytes.as_slice());
        Ok(())
    }
}

impl Serializer {
    pub fn serialize_str(&mut self, v: &str) -> (r: Result<(), DeserError>)
        ensures
            encode_utf8(v@).len() <= 0xff ==> r is Ok && final(self)@ == old(self)@ + wire(
                Datum::Str(v@),
            ),
            encode_utf8(v@).len() > 0xff ==> fails_with(r, ErrorKind::Int)
                && final(self)@ == old(self)@,
    {
        self.serialize_bytes(v.as_bytes())
    }

    /// Writes the length of `v` as one byte, then `v`.
    pub fn serialize_bytes(&mut self, v: &[u8]) -> (r: Result<(), DeserError>)
        ensures
            v@.len() <= 0xff ==> r is Ok && final(self)@ == old(self)@ + (seq![v@.len() as u8]
                + v@),
            v@.len() > 0xff ==> fails_with(r, ErrorKind::Int) && final(self)@
                == old(self)@,
    {
        match u8::try_from(v.len()) {
            Ok(length) => {
                self.output.push(length);
                self.write(v);
                assert(self@ =~= old(self)@ + (seq![v@.len() as u8] + v@));
                Ok(())
            },
            Err(e) => Err(DeserError::Int(e)),
        }
    }

    pub fn serialize_none(&mut self) -> (r: Result<(), DeserError>)
        ensures
            r is Ok,
            final(self)@ == old(self)@ + seq![0u8],
    {
        self.serialize_u8(0)
    }

    /// Writes the tag of a present option; its value follows.
    pub fn serialize_some_tag(&mut self) -> (r: Result<(), DeserError>)
        ensures
            r is Ok,
            final(self)@ == old(self)@ + seq![1u8],
    {
        self.serialize_u8(1)
    }

    /// Writes the tag of a present option, then `value`.
    pub fn serialize_some(&mut self, value: &Value) -> (r: Result<(), DeserError>)
        ensures
            fits(value@) ==> r is Ok && final(self)@ == old(self)@ + (seq![1u8] + wire(value@)),
            !fits(value@) ==> fails_with(r, ErrorKind::Int) && old(self)@.is_prefix_of(
                final(self)@,
            ),
        decreases value, 2nat,
    {
        match self.serialize_some_tag() {
            Ok(()) => {},
            Err(e) => {
                return Err(e);
            },
        }
        let r = value.serialize(self);
        proof {
            if r is Ok {
                assert(self@ =~= old(self)@ + (seq![1u8] + wire(value@)));
            }
        }
        r
    }

    pub fn serialize_unit(&mut self) -> (r: Result<(), DeserError>)
        ensures
            r is Ok,
            final(self)@ == old(self)@ + seq![0u8],
    {
        self.serialize_u8(0)
    }

    pub fn serialize_unit_struct(&mut self) -> (r: Result<(), DeserError>)
        ensures
            r is Ok,
            final(self)@ == old(self)@ + seq![0u8],
    {
        self.serialize_unit()
    }

    /// Writes the tag of the variant at position `variant_index`.
    pub fn serialize_unit_variant(&mut self, variant_index: u32) -> (r: Result<(), DeserError>)
        ensures
            variant_index <= 0xff ==> r is Ok && final(self)@ == old(self)@ + seq![
                variant_index as u8,
            ],
            variant_index > 0xff ==> fails_with(r, ErrorKind::Int) && final(self)@ == old(self)@,
    {
        match u8::try_from(variant_index) {
            Ok(tag) => self.serialize_u8(tag),
            Err(e) => Err(DeserError::Int(e)),
        }
    }

    /// Writes `value` as it is: a record of one field has no bytes of its own.
    pub fn serialize_newtype_struct(&mut self, value: &Value) -> (r: Result<(), DeserError>)
        ensures
            fits(value@) ==> r is Ok && final(self)@ == old(self)@ + wire(value@),
            !fits(value@) ==> fails_with(r, ErrorKind::Int) && old(self)@.is_prefix_of(
                final(self)@,
            ),
        decreases value, 2nat,
    {
        value.serialize(self)
    }

    /// Writes the tag of the variant at position `variant_index`, then its one field.
    pub fn serialize_newtype_variant(&mut self, variant_index: u32, value: &Value) -> (r: Result<
        (),
        DeserError,
    >)
        ensures
            variant_index <= 0xff && fits(value@) ==> r is Ok && final(self)@ == old(self)@ + (
            seq![variant_index as u8] + wire(value@)),
            variant_index > 0xff || !fits(value@) ==> fails_with(r, ErrorKind::Int) && old(self)@
                .is_prefix_of(final(self)@),
        decreases value, 2nat,
    {
        match u8::try_from(variant_index) {
            Ok(tag) => {
                self.output.push(tag);
                let r = value.serialize(self);
                proof {
                    if r is Ok {
                        assert(self@ =~= old(self)@ + (seq![variant_index as u8] + wire(value@)));
                    }
                }
                r
            },
            Err(e) => Err(DeserError::Int(e)),
        }
    }

    /// Writes the element count of a sequence. The count has to be known before the first
    /// element is written.
    pub fn serialize_seq(&mut self, len: Option<usize>) -> (r: Result<(), DeserError>)
        ensures
            match len {
                Some(n) => if n <= u32::MAX {
                    r is Ok && final(self)@ == old(self)@ + be32(n as u32)
                } else {
                    fails_with(r, ErrorKind::Int) && final(self)@ == old(self)@
                },
                None => fails_with(r, ErrorKind::UnknownLength) && final(self)@
                    == old(self)@,
            },
    {
        if let Some(len) = len {
            match u32::try_from(len) {
                Ok(len) => self.serialize_u32(len),
                Err(e) => Err(DeserError::Int(e)),
            }
        } else {
            Err(DeserError::UnknownLength)
        }
    }

    /// A tuple has a fixed number of fields: nothing is written for it.
    pub fn serialize_tuple(&mut self, len: usize) -> (r: Result<(), DeserError>)
        ensures
            r is Ok,
            final(self)@ == old(self)@,
    {
        Ok(())
    }

    pub fn serialize_tuple_struct(&mut self, len: usize) -> (r: Result<(), DeserError>)
        ensures
            r is Ok,
            final(self)@ == old(self)@,
    {
        Ok(())
    }

    /// Writes the tag of the variant at position `variant_index`; its fields follow.
    pub fn serialize_tuple_variant(&mut self, variant_index: u32, len: usize) -> (r: Result<
        (),
        DeserError,
    >)
        ensures
            variant_index <= 0xff ==> r is Ok && final(self)@ == old(self)@ + seq![
                variant_index as u8,
            ],
            variant_index > 0xff ==> fails_with(r, ErrorKind::Int) && final(self)@ == old(self)@,
    {
        self.serialize_struct_variant(variant_index, len)
    }

    /// Writes the entry count of a map. The count has to be known before the first entry is
    /// written.
    pub fn serialize_map(&mut self, len: Option<usize>) -> (r: Result<(), DeserError>)
        ensures
            match len {
                Some(n) => if n <= u32::MAX {
                    r is Ok && final(self)@ == old(self)@ + be32(n as u32)
                } else {
                    fails_with(r, ErrorKind::Int) && final(self)@ == old(self)@
                },
                None => fails_with(r, ErrorKind::UnknownLength) && final(self)@
                    == old(self)@,
            },
    {
        self.serialize_seq(len)
    }

    /// A record has a fixed number of fields: nothing is written for it.
    pub fn serialize_struct(&mut self, len: usize) -> (r: Result<(), DeserError>)
        ensures
            r is Ok,
            final(self)@ == old(self)@,
    {
        Ok(())
    }

    /// Writes the tag of the variant at position `variant_index`; its fields follow.
    pub fn serialize_struct_variant(&mut self, variant_index: u32, len: usize) -> (r: Result<
        (),
        DeserError,
    >)
        ensures
            variant_index <= 0xff ==> r is Ok && final(self)@ == old(self)@ + seq![
                variant_index as u8,
            ],
            variant_index > 0xff ==> fails_with(r, ErrorKind::Int) && final(self)@ == old(self)@,
    {
        match u8::try_from(variant_index) {
            Ok(tag) => self.serialize_u8(tag),
            Err(e) => Err(DeserError::Int(e)),
        }
    }

    /// Writes one element of a sequence or of a tuple.
    pub fn serialize_element(&mut self, value: &Value) -> (r: Result<(), DeserError>)
        ensures
            fits(value@) ==> r is Ok && final(self)@ == old(self)@ + wire(value@),
            !fits(value@) ==> fails_with(r, ErrorKind::Int) && old(self)@.is_prefix_of(
                final(self)@,
            ),
        decreases value, 2nat,
    {
        value.serialize(self)
    }

    /// Writes one field of a record or of a variant.
    pub fn serialize_field(&mut self, value: &Value) -> (r: Result<(), DeserError>)
        ensures
            fits(value@) ==> r is Ok && final(self)@ == old(self)@ + wire(value@),
            !fits(value@) ==> fails_with(r, ErrorKind::Int) && old(self)@.is_prefix_of(
                final(self)@,
            ),
        decreases value, 2nat,
    {
        value.serialize(self)
    }

    /// Writes the key of a map entry.
    pub fn serialize_key(&mut self, key: &Value) -> (r: Result<(), DeserError>)
        ensures
            fits(key@) ==> r is Ok && final(self)@ == old(self)@ + wire(key@),
            !fits(key@) ==> fails_with(r, ErrorKind::Int) && old(self)@.is_prefix_of(
                final(self)@,
            ),
        decreases key, 2nat,
    {
        key.serialize(self)
    }

    /// Writes the value of a map entry.
    pub fn serialize_value(&mut self, value: &Value) -> (r: Result<(), DeserError>)
        ensures
            fits(value@) ==> r is Ok && final(self)@ == old(self)@ + wire(value@),
            !fits(value@) ==> fails_with(r, ErrorKind::Int) && old(self)@.is_prefix_of(
                final(self)@,
            ),
        decreases value, 2nat,
    {
        value.serialize(self)
    }

    /// Ends a sequence, map, tuple, record or variant: nothing closes it on the wire.
    pub fn end(&mut self) -> (r: Result<(), DeserError>)
        ensures
            r is Ok,
            final(self)@ == old(self)@,
    {
        Ok(())
    }
}

impl Serializer {
    /// Writes the values `items`, one after the other: the elements of a sequence, or the
    /// fields of a tuple or of a variant.
    fn serialize_elements(&mut self, items: &Vec<Value>) -> (r: Result<(), DeserError>)
        ensures
            fits_all(data_of(items@)) ==> r is Ok && final(self)@ == old(self)@ + wire_all(
                data_of(items@),
            ),
            !fits_all(data_of(items@)) ==> fails_with(r, ErrorKind::Int) && old(self)@.is_prefix_of(
                final(self)@,
            ),
        decreases items, 0nat,
    {
        let ghost data = data_of(items@);
        let mut i: usize = 0;
        while i < items.len()
            invariant
                i <= items.len(),
                data == data_of(items@),
                self@ == old(self)@ + wire_all(data.take(i as int)),
                fits_all(data.take(i as int)),
            decreases items.len() - i,
        {
            match self.serialize_element(&items[i]) {
                Ok(()) => {},
                Err(e) => {
                    assert(!fits(data[i as int]));
                    return Err(e);
                },
            }
            proof {
                lemma_wire_all_step(data, i as int);
                assert(data.take(i + 1) =~= data.take(i as int).push(data[i as int]));
            }
            i += 1;
        }
        assert(data.take(i as int) =~= data);
        Ok(())
    }

    /// Writes the entries `entries`, each key followed by its value.
    fn serialize_entries(&mut self, entries: &Vec<(Value, Value)>) -> (r: Result<(), DeserError>)
        ensures
            fits_entries(entries_of(entries@)) ==> r is Ok && final(self)@ == old(self)@
                + wire_entries(entries_of(entries@)),
            !fits_entries(entries_of(entries@)) ==> fails_with(r, ErrorKind::Int) && old(self)@
                .is_prefix_of(final(self)@),
        decreases entries, 0nat,
    {
        let ghost data = entries_of(entries@);
        let mut i: usize = 0;
        while i < entries.len()
            invariant
                i <= entries.len(),
                data == entries_of(entries@),
                self@ == old(self)@ + wire_entries(data.take(i as int)),
                fits_entries(data.take(i as int)),
            decreases entries.len() - i,
        {
            match self.serialize_key(&entries[i].0) {
                Ok(()) => {},
                Err(e) => {
                    assert(!fits(data[i as int].0));
                    return Err(e);
                },
            }
            match self.serialize_value(&entries[i].1) {
                Ok(()) => {},
                Err(e) => {
                    assert(!fits(data[i as int].1));
                    return Err(e);
                },
            }
            proof {
                lemma_wire_entries_step(data, i as int);
                assert(data.take(i + 1) =~= data.take(i as int).push(data[i as int]));
            }
            i += 1;
        }
        assert(data.take(i as int) =~= data);
        Ok(())
    }
}

impl Value {
    /// Describes this value to `serializer`, which appends its bytes.
    pub fn serialize(&self, serializer: &mut Serializer) -> (r: Result<(), DeserError>)
        ensures
            fits(self@) ==> r is Ok && final(serializer)@ == old(serializer)@ + wire(self@),
            !fits(self@) ==> fails_with(r, ErrorKind::Int) && old(serializer)@.is_prefix_of(
                final(serializer)@,
            ),
        decreases self, 1nat,
    {
        match self {
            Value::Bool(v) => serializer.serialize_bool(*v),
            Value::I8(v) => serializer.serialize_i8(*v),
            Value::I16(v) => serializer.serialize_i16(*v),
            Value::I32(v) => serializer.serialize_i32(*v),
            Value::I64(v) => serializer.serialize_i64(*v),
            Value::U8(v) => serializer.serialize_u8(*v),
            Value::U16(v) => serializer.serialize_u16(*v),
            Value::U32(v) => serializer.serialize_u32(*v),
            Value::U64(v) => serializer.serialize_u64(*v),
            Value::Str(v) => serializer.serialize_str(v.as_str()),
            Value::Optional(None) => serializer.serialize_none(),
            Value::Optional(Some(inner)) => serializer.serialize_some(inner),
            Value::Unit => serializer.serialize_unit(),
            Value::Sequence(items) => {
                assert(self@ == Datum::Sequence(data_of(items@)));
                assert(data_of(items@).len() == items@.len());
                assert(fits(self@) == (items@.len() <= u32::MAX && fits_all(data_of(items@))));
                match serializer.serialize_seq(Some(items.len())) {
                    Ok(()) => {},
                    Err(e) => {
                        return Err(e);
                    },
                }
                match serializer.serialize_elements(items) {
                    Ok(()) => {},
                    Err(e) => {
                        return Err(e);
                    },
                }
                assert(serializer@ =~= old(serializer)@ + wire(self@));
                serializer.end()
            },
            Value::Mapping(entries) => {
                assert(self@ == Datum::Mapping(entries_of(entries@)));
                assert(entries_of(entries@).len() == entries@.len());
                assert(fits(self@) == (entries@.len() <= u32::MAX && fits_entries(
                    entries_of(entries@),
                )));
                match serializer.serialize_map(Some(entries.len())) {
                    Ok(()) => {},
                    Err(e) => {
                        return Err(e);
                    },
                }
                match serializer.serialize_entries(entries) {
                    Ok(()) => {},
                    Err(e) => {
                        return Err(e);
                    },
                }
                assert(serializer@ =~= old(serializer)@ + wire(self@));
                serializer.end()
            },
            Value::Tuple(fields) => {
                assert(self@ == Datum::Tuple(data_of(fields@)));
                assert(fits(self@) == fits_all(data_of(fields@)));
                match serializer.serialize_tuple(fields.len()) {
                    Ok(()) => {},
                    Err(e) => {
                        return Err(e);
                    },
                }
                match serializer.serialize_elements(fields) {
                    Ok(()) => {},
                    Err(e) => {
                        return Err(e);
                    },
                }
                serializer.end()
            },
            Value::Variant(index, fields) => {
                let ghost data = data_of(fields@);
                assert(self@ == Datum::Variant(*index, data));
                assert(fits(self@) == (*index <= 0xff && fits_all(data)));
                if fields.len() == 0 {
                    assert(data =~= Seq::<Datum>::empty());
                    assert(wire_all(data) =~= Seq::<u8>::empty());
                    let r = serializer.serialize_unit_variant(*index);
                    assert(r is Ok ==> serializer@ =~= old(serializer)@ + wire(self@));
                    r
                } else if fields.len() == 1 {
                    assert(data =~= seq![fields@[0]@]);
                    assert(data.drop_last() =~= Seq::<Datum>::empty());
                    assert(wire_all(data.drop_last()) =~= Seq::<u8>::empty());
                    assert(wire_all(data) =~= wire(fields@[0]@));
                    assert(fits_all(data) == fits(fields@[0]@));
                    let r = serializer.serialize_newtype_variant(*index, &fields[0]);
                    assert(r is Ok ==> serializer@ =~= old(serializer)@ + wire(self@));
                    r
                } else {
                    match serializer.serialize_tuple_variant(*index, fields.len()) {
                        Ok(()) => {},
                        Err(e) => {
                            return Err(e);
                        },
                    }
                    match serializer.serialize_elements(fields) {
                        Ok(()) => {},
                        Err(e) => {
                            return Err(e);
                        },
                    }
                    assert(serializer@ =~= old(serializer)@ + wire(self@));
                    serializer.end()
                }
            },
        }
    }
}

/// Encodes `value`: its bytes on the wire, if the format can carry it.
pub fn to_bytes(value: &Value) -> (r: Result<Vec<u8>, DeserError>)
    ensures
        fits(value@) ==> (r matches Ok(bytes) && bytes@ == wire(value@)),
        !fits(value@) ==> fails_with(r, ErrorKind::Int),
{
    let mut serializer = Serializer { output: Vec::new() };
    match value.serialize(&mut serializer) {
        Ok(()) => {
            assert(serializer@ =~= wire(value@));
            Ok(serializer.output)
        },
        Err(e) => Err(e),
    }
}

} // verus!
