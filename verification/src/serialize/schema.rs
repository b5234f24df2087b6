//! How a type of messages describes itself to the codec: its shape, the value that stands
//! for one of its members, and how a member is built back from such a value.

use vstd::prelude::*;
use crate::serialize::deserializer::from_bytes;
use crate::serialize::error::{fails_with, DeserError, ErrorKind};
use crate::serialize::laws::decoded_bytes_are_the_encoding;
use crate::serialize::serializer::to_bytes;
use crate::serialize::value::{data_of, entries_of, Datum, Layout, Shape, Value};
use crate::serialize::wire::{
    conforms, conforms_all, conforms_each, conforms_entries, decoding, fits, wire,
};

verus! {

/// A type of messages that the codec can carry.
pub trait Schema: Sized {
    /// The shape of the members of this type.
    spec fn layout() -> Layout;

    /// The value that stands for `self`.
    spec fn datum(&self) -> Datum;

    /// The shape of the members of this type, as the decoder is told it.
    fn shape() -> (shape: Shape)
        ensures
            shape@ == Self::layout(),
    ;

    /// The value that stands for `self`, as the encoder is given it.
    fn to_value(&self) -> (value: Value)
        ensures
            value@ == self.datum(),
    ;

    /// The member that `value` stands for, if `value` has the shape of this type.
    fn from_value(value: &Value) -> (r: Option<Self>)
        ensures
            conforms(value@, Self::layout()) ==> r is Some,
            r matches Some(member) ==> member.datum() == value@,
    ;

    /// The value that stands for a member has the shape of the type.
    proof fn lemma_conforms(&self)
        ensures
            conforms(self.datum(), Self::layout()),
    ;
}

/// Encodes `message`: the bytes of the value that stands for it, if the format can carry
/// that value.
pub fn encode<T: Schema>(message: &T) -> (r: Result<Vec<u8>, DeserError>)
    ensures
        fits(message.datum()) ==> (r matches Ok(bytes) && bytes@ == wire(message.datum())),
        !fits(message.datum()) ==> fails_with(r, ErrorKind::Int),
{
    let value = message.to_value();
    to_bytes(&value)
}

/// Decodes `input` as one message of the type `T`, which has to span all of `input`.
pub fn decode<T: Schema>(input: &[u8]) -> (r: Result<T, DeserError>)
    ensures
        match decoding(T::layout(), input@) {
            Ok(d) => r matches Ok(message) && message.datum() == d,
            Err(kind) => fails_with(r, kind),
        },
{
    let shape = T::shape();
    let value = match from_bytes(&shape, input) {
        Ok(value) => value,
        Err(e) => {
            return Err(e);
        },
    };
    proof {
        decoded_bytes_are_the_encoding(T::layout(), input@);
    }
    match T::from_value(&value) {
        Some(message) => Ok(message),
        // never taken: what decodes has the shape that was asked for
        None => Err(DeserError::Decoding("the value has another shape".to_string())),
    }
}

/// The fields of `value`, if `value` is a record of `n` fields.
pub fn record_fields(value: &Value, n: usize) -> (r: Option<&Vec<Value>>)
    ensures
        r matches Some(fields) ==> {
            &&& fields@.len() == n
            &&& value@ == Datum::Tuple(data_of(fields@))
            &&& forall|k: int| 0 <= k < n ==> data_of(fields@)[k] == (#[trigger] fields@[k])@
            &&& forall|of: Seq<Layout>| #[trigger]
                conforms(value@, Layout::Tuple(of)) ==> conforms_all(data_of(fields@), of)
        },
        r is None ==> forall|of: Seq<Layout>|
            of.len() == n ==> !#[trigger] conforms(value@, Layout::Tuple(of)),
{
    match value {
        Value::Tuple(fields) => {
            if fields.len() == n {
                Some(fields)
            } else {
                assert forall|of: Seq<Layout>| of.len() == n implies !#[trigger] conforms(
                    value@,
                    Layout::Tuple(of),
                ) by {
                    assert(!conforms_all(data_of(fields@), of));
                }
                None
            }
        },
        _ => None,
    }
}

/// The position and the fields of `value`, if `value` is a variant of a tagged union.
pub fn variant_fields(value: &Value) -> (r: Option<(u32, &Vec<Value>)>)
    ensures
        r matches Some((index, fields)) ==> {
            &&& value@ == Datum::Variant(index, data_of(fields@))
            &&& forall|k: int|
                0 <= k < fields@.len() ==> data_of(fields@)[k] == (#[trigger] fields@[k])@
            &&& forall|variants: Seq<Seq<Layout>>| #[trigger]
                conforms(value@, Layout::Union(variants)) ==> index < variants.len()
                    && conforms_all(data_of(fields@), variants[index as int])
        },
        r is None ==> forall|variants: Seq<Seq<Layout>>|
            !#[trigger] conforms(value@, Layout::Union(variants)),
{
    match value {
        Value::Variant(index, fields) => Some((*index, fields)),
        _ => None,
    }
}

impl Schema for u8 {
    open spec fn layout() -> Layout {
        Layout::U8
    }

    open spec fn datum(&self) -> Datum {
        Datum::U8(*self)
    }

    fn shape() -> Shape {
        Shape::U8
    }

    fn to_value(&self) -> Value {
        Value::U8(*self)
    }

    fn from_value(value: &Value) -> Option<u8> {
        match value {
            Value::U8(v) => Some(*v),
            _ => None,
        }
    }

    proof fn lemma_conforms(&self) {
    }
}

impl Schema for u16 {
    open spec fn layout() -> Layout {
        Layout::U16
    }

    open spec fn datum(&self) -> Datum {
        Datum::U16(*self)
    }

    fn shape() -> Shape {
        Shape::U16
    }

    fn to_value(&self) -> Value {
        Value::U16(*self)
    }

    fn from_value(value: &Value) -> Option<u16> {
        match value {
            Value::U16(v) => Some(*v),
            _ => None,
        }
    }

    proof fn lemma_conforms(&self) {
    }
}

impl Schema for u32 {
    open spec fn layout() -> Layout {
        Layout::U32
    }

    open spec fn datum(&self) -> Datum {
        Datum::U32(*self)
    }

    fn shape() -> Shape {
        Shape::U32
    }

    fn to_value(&self) -> Value {
        Value::U32(*self)
    }

    fn from_value(value: &Value) -> Option<u32> {
        match value {
            Value::U32(v) => Some(*v),
            _ => None,
        }
    }

    proof fn lemma_conforms(&self) {
    }
}

impl Schema for String {
    open spec fn layout() -> Layout {
        Layout::Str
    }

    open spec fn datum(&self) -> Datum {
        Datum::Str(self@)
    }

    fn shape() -> Shape {
        Shape::Str
    }

    fn to_value(&self) -> Value {
        Value::Str(self.clone())
    }

    fn from_value(value: &Value) -> Option<String> {
        match value {
            Value::Str(v) => Some(v.clone()),
            _ => None,
        }
    }

    proof fn lemma_conforms(&self) {
    }
}

/// A list of members is a sequence of the values that stand for them.
impl<T: Schema> Schema for Vec<T> {
    open spec fn layout() -> Layout {
        Layout::Sequence(Box::new(T::layout()))
    }

    open spec fn datum(&self) -> Datum {
        Datum::Sequence(Seq::new(self@.len(), |i: int| self@[i].datum()))
    }

    fn shape() -> Shape {
        Shape::Sequence(Box::new(T::shape()))
    }

    fn to_value(&self) -> Value {
        let mut items: Vec<Value> = Vec::new();
        let mut i: usize = 0;
        while i < self.len()
            invariant
                i <= self@.len(),
                items@.len() == i,
                forall|j: int| 0 <= j < i ==> (#[trigger] items@[j])@ == self@[j].datum(),
            decreases self@.len() - i,
        {
            items.push(self[i].to_value());
            i += 1;
        }
        assert(data_of(items@) =~= Seq::new(self@.len(), |i: int| self@[i].datum()));
        Value::Sequence(items)
    }

    fn from_value(value: &Value) -> Option<Vec<T>> {
        match value {
            Value::Sequence(items) => {
                let mut members: Vec<T> = Vec::new();
                let mut i: usize = 0;
                while i < items.len()
                    invariant
                        value@ == Datum::Sequence(data_of(items@)),
                        i <= items@.len(),
                        members@.len() == i,
                        forall|j: int|
                            0 <= j < i ==> (#[trigger] members@[j]).datum() == items@[j]@,
                    decreases items@.len() - i,
                {
                    match T::from_value(&items[i]) {
                        Some(member) => {
                            members.push(member);
                        },
                        None => {
                            assert(!conforms(data_of(items@)[i as int], T::layout()));
                            assert(!conforms_each(data_of(items@), T::layout()));
                            return None;
                        },
                    }
                    i += 1;
                }
                assert(data_of(items@) =~= Seq::new(
                    members@.len(),
                    |i: int| members@[i].datum(),
                ));
                Some(members)
            },
            _ => None,
        }
    }

    proof fn lemma_conforms(&self) {
        let items = Seq::new(self@.len(), |i: int| self@[i].datum());
        assert forall|i: int| 0 <= i < items.len() implies conforms(
            #[trigger] items[i],
            T::layout(),
        ) by {
            self@[i].lemma_conforms();
        }
        assert(conforms_each(items, T::layout()));
    }
}

/// A list of pairs is a map, whose entries are written in the order of the list.
impl<K: Schema, V: Schema> Schema for Vec<(K, V)> {
    open spec fn layout() -> Layout {
        Layout::Mapping(Box::new(K::layout()), Box::new(V::layout()))
    }

    open spec fn datum(&self) -> Datum {
        Datum::Mapping(Seq::new(self@.len(), |i: int| (self@[i].0.datum(), self@[i].1.datum())))
    }

    fn shape() -> Shape {
        Shape::Mapping(Box::new(K::shape()), Box::new(V::shape()))
    }

    fn to_value(&self) -> Value {
        let mut entries: Vec<(Value, Value)> = Vec::new();
        let mut i: usize = 0;
        while i < self.len()
            invariant
                i <= self@.len(),
                entries@.len() == i,
                forall|j: int|
                    0 <= j < i ==> (#[trigger] entries@[j]).0@ == self@[j].0.datum()
                        && entries@[j].1@ == self@[j].1.datum(),
            decreases self@.len() - i,
        {
            entries.push((self[i].0.to_value(), self[i].1.to_value()));
            i += 1;
        }
        assert(entries_of(entries@) =~= Seq::new(
            self@.len(),
            |i: int| (self@[i].0.datum(), self@[i].1.datum()),
        ));
        Value::Mapping(entries)
    }

    fn from_value(value: &Value) -> Option<Vec<(K, V)>> {
        match value {
            Value::Mapping(entries) => {
                let mut members: Vec<(K, V)> = Vec::new();
                let mut i: usize = 0;
                while i < entries.len()
                    invariant
                        value@ == Datum::Mapping(entries_of(entries@)),
                        i <= entries@.len(),
                        members@.len() == i,
                        forall|j: int|
                            0 <= j < i ==> (#[trigger] members@[j]).0.datum() == entries@[j].0@
                                && members@[j].1.datum() == entries@[j].1@,
                    decreases entries@.len() - i,
                {
                    let key = match K::from_value(&entries[i].0) {
                        Some(key) => key,
                        None => {
                            assert(!conforms(entries_of(entries@)[i as int].0, K::layout()));
                            assert(!conforms_entries(
                                entries_of(entries@),
                                K::layout(),
                                V::layout(),
                            ));
                            return None;
                        },
                    };
                    let value = match V::from_value(&entries[i].1) {
                        Some(value) => value,
                        None => {
                            assert(!conforms(entries_of(entries@)[i as int].1, V::layout()));
                            assert(!conforms_entries(
                                entries_of(entries@),
                                K::layout(),
                                V::layout(),
                            ));
                            return None;
                        },
                    };
                    members.push((key, value));
                    i += 1;
                }
                assert(entries_of(entries@) =~= Seq::new(
                    members@.len(),
                    |i: int| (members@[i].0.datum(), members@[i].1.datum()),
                ));
                Some(members)
            },
            _ => None,
        }
    }

    proof fn lemma_conforms(&self) {
        let entries = Seq::new(self@.len(), |i: int| (self@[i].0.datum(), self@[i].1.datum()));
        assert forall|i: int| 0 <= i < entries.len() implies conforms(
            (#[trigger] entries[i]).0,
            K::layout(),
        ) && conforms(entries[i].1, V::layout()) by {
            self@[i].0.lemma_conforms();
            self@[i].1.lemma_conforms();
        }
        assert(conforms_entries(entries, K::layout(), V::layout()));
    }
}

} // verus!
