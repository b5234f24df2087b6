//! The decoder: it reads a value of a known shape from the front of a byte source.

use vstd::prelude::*;
use vstd::slice::{slice_subrange, slice_to_vec};
use vstd::utf8::{decode_utf8, valid_utf8};
use crate::serialize::endian::{
    i16_from_bytes, i32_from_bytes, i64_from_bytes, u16_from_bytes, u32_from_bytes, u64_from_bytes,
};
use crate::serialize::error::{fails_with, DeserError, ErrorKind, IoErrorKind};
use crate::serialize::value::{
    data_of, entries_of, layouts_of, variants_of, Datum, Layout, Shape, Value,
};
use crate::serialize::wire::{
    decoding, from_be32, lemma_parse_bound, lemma_parse_entries_fails, lemma_parse_fields_fails,
    lemma_parse_repeated_fails, parse, parse_entries, parse_fields, parse_repeated,
};

verus! {

/// `std::str::from_utf8`: the string that `bytes` spell in UTF-8, or an error where they
/// spell none.
#[verifier::external_body]
fn str_from_utf8(bytes: &[u8]) -> (r: Result<&str, std::str::Utf8Error>)
    ensures
        r is Ok <==> valid_utf8(bytes@),
        r matches Ok(s) ==> s@ == decode_utf8(bytes@),
{
    std::str::from_utf8(bytes)
}

/// A byte source held in memory, and a cursor into it.
///
/// A read that runs out of input reads nothing, so that it can be made again once more
/// bytes have arrived. Any other failure comes after the bytes that showed it were read,
/// and leaves the cursor behind them.
#[derive(Debug)]
pub struct Deserializer {
    input: Vec<u8>,
    position: usize,
}

impl Deserializer {
    /// All the bytes of the source, read or not.
    pub closed spec fn input(&self) -> Seq<u8> {
        self.input@
    }

    /// The number of bytes read so far.
    pub closed spec fn position(&self) -> nat {
        self.position as nat
    }

    /// The bytes not read yet.
    pub open spec fn remaining(&self) -> Seq<u8> {
        if self.position() <= self.input().len() {
            self.input().skip(self.position() as int)
        } else {
            Seq::empty()
        }
    }

    /// Whether `self` is `before` with `n` more bytes read.
    pub open spec fn advanced(&self, before: &Deserializer, n: nat) -> bool {
        self.input() == before.input() && self.position() == before.position() + n
    }

    /// A decoder at the start of `input`.
    pub fn new(input: Vec<u8>) -> (deserializer: Deserializer)
        ensures
            deserializer.input() == input@,
            deserializer.position() == 0,
    {
        Deserializer { input, position: 0 }
    }

    /// The number of bytes not read yet.
    fn left(&self) -> (n: usize)
        ensures
            n == self.remaining().len(),
            n > 0 ==> self.position() + n == self.input().len(),
            self.input().len() <= usize::MAX,
    {
        if self.position <= self.input.len() {
            self.input.len() - self.position
        } else {
            0
        }
    }

    /// A decoder at the start of a copy of `input`.
    pub fn from_bytes(input: &[u8]) -> (deserializer: Deserializer)
        ensures
            deserializer.input() == input@,
            deserializer.position() == 0,
    {
        Deserializer { input: slice_to_vec(input), position: 0 }
    }

    /// Appends `more` to the source: the bytes that arrived since the last read.
    pub fn extend(&mut self, more: &[u8])
        ensures
            final(self).input() == old(self).input() + more@,
            final(self).position() == old(self).position(),
    {
        self.input.extend_from_slice(more);
        assert(self.input@ =~= old(self).input@ + more@);
    }

    /// Whether every byte of the source has been read.
    pub fn is_at_end(&self) -> (at_end: bool)
        ensures
            at_end == (self.remaining().len() == 0),
    {
        self.left() == 0
    }

    /// The next `n` bytes, if the source holds as many. The cursor stays.
    fn peek(&self, n: usize) -> (bytes: Option<&[u8]>)
        requires
            n >= 1,
        ensures
            self.remaining().len() >= n ==> (bytes matches Some(b) && b@ == self.remaining().take(
                n as int,
            )),
            self.remaining().len() < n ==> bytes is None,
            self.remaining().len() > 0 ==> self.position() + self.remaining().len()
                == self.input().len(),
            self.input().len() <= usize::MAX,
    {
        if self.left() < n {
            None
        } else {
            let bytes = slice_subrange(self.input.as_slice(), self.position, self.position + n);
            assert(bytes@ =~= self.remaining().take(n as int));
            Some(bytes)
        }
    }

    /// Self-describing decoding, which this format does not offer: it fails at once, with
    /// nothing read.
    pub fn deserialize_any(&mut self) -> (r: Result<Value, DeserError>)
        ensures
            fails_with(r, ErrorKind::Decoding),
            final(self).advanced(old(self), 0),
    {
        Err(DeserError::Decoding("the format is not self-describing".to_string()))
    }

    pub fn deserialize_bool(&mut self) -> (r: Result<bool, DeserError>)
        ensures
            match parse(Layout::Bool, old(self).remaining()) {
                Ok((d, n)) => r matches Ok(v) && d == Datum::Bool(v) && final(self).advanced(
                    old(self),
                    n,
                ),
                Err((kind, n)) => fails_with(r, kind) && final(self).advanced(old(self), n),
            },
    {
        let byte: u8 = match self.peek(1) {
            Some(bytes) => bytes[0],
            None => {
                return Err(DeserError::Io(IoErrorKind::UnexpectedEof));
            },
        };
        self.position = self.position + 1;
        match byte {
            0 => Ok(false),
            1 => Ok(true),
            _ => Err(DeserError::InvalidBool),
        }
    }

    pub fn deserialize_i8(&mut self) -> (r: Result<i8, DeserError>)
        ensures
            match parse(Layout::I8, old(self).remaining()) {
                Ok((d, n)) => r matches Ok(v) && d == Datum::I8(v) && final(self).advanced(
                    old(self),
                    n,
                ),
                Err((kind, n)) => fails_with(r, kind) && final(self).advanced(old(self), n),
            },
    {
        let byte: u8 = match self.peek(1) {
            Some(bytes) => bytes[0],
            None => {
                return Err(DeserError::Io(IoErrorKind::UnexpectedEof));
            },
        };
        self.position = self.position + 1;
        if byte >= 0x80 {
            Ok((byte as i16 - 0x100) as i8)
        } else {
            Ok(byte as i8)
        }
    }

    pub fn deserialize_i16(&mut self) -> (r: Result<i16, DeserError>)
        ensures
            match parse(Layout::I16, old(self).remaining()) {
                Ok((d, n)) => r matches Ok(v) && d == Datum::I16(v) && final(self).advanced(
                    old(self),
                    n,
                ),
                Err((kind, n)) => fails_with(r, kind) && final(self).advanced(old(self), n),
            },
    {
        let v: i16 = match self.peek(2) {
            Some(bytes) => i16_from_bytes(bytes),
            None => {
                return Err(DeserError::Io(IoErrorKind::UnexpectedEof));
            },
        };
        self.position = self.position + 2;
        Ok(v)
    }

    pub fn deserialize_i32(&mut self) -> (r: Result<i32, DeserError>)
        ensures
            match parse(Layout::I32, old(self).remaining()) {
                Ok((d, n)) => r matches Ok(v) && d == Datum::I32(v) && final(self).advanced(
                    old(self),
                    n,
                ),
                Err((kind, n)) => fails_with(r, kind) && final(self).advanced(old(self), n),
            },
    {
        let v: i32 = match self.peek(4) {
            Some(bytes) => i32_from_bytes(bytes),
            None => {
                return Err(DeserError::Io(IoErrorKind::UnexpectedEof));
            },
        };
        self.position = self.position + 4;
        Ok(v)
    }

    pub fn deserialize_i64(&mut self) -> (r: Result<i64, DeserError>)
        ensures
            match parse(Layout::I64, old(self).remaining()) {
                Ok((d, n)) => r matches Ok(v) && d == Datum::I64(v) && final(self).advanced(
                    old(self),
                    n,
                ),
                Err((kind, n)) => fails_with(r, kind) && final(self).advanced(old(self), n),
            },
    {
        let v: i64 = match self.peek(8) {
            Some(bytes) => i64_from_bytes(bytes),
            None => {
                return Err(DeserError::Io(IoErrorKind::UnexpectedEof));
            },
        };
        self.position = self.position + 8;
        Ok(v)
    }

    pub fn deserialize_u8(&mut self) -> (r: Result<u8, DeserError>)
        ensures
            match parse(Layout::U8, old(self).remaining()) {
                Ok((d, n)) => r matches Ok(v) && d == Datum::U8(v) && final(self).advanced(
                    old(self),
                    n,
                ),
                Err((kind, n)) => fails_with(r, kind) && final(self).advanced(old(self), n),
            },
    {
        let byte: u8 = match self.peek(1) {
            Some(bytes) => bytes[0],
            None => {
                return Err(DeserError::Io(IoErrorKind::UnexpectedEof));
            },
        };
        self.position = self.position + 1;
        Ok(byte)
    }

    pub fn deserialize_u16(&mut self) -> (r: Result<u16, DeserError>)
        ensures
            match parse(Layout::U16, old(self).remaining()) {
                Ok((d, n)) => r matches Ok(v) && d == Datum::U16(v) && final(self).advanced(
                    old(self),
                    n,
                ),
                Err((kind, n)) => fails_with(r, kind) && final(self).advanced(old(self), n),
            },
    {
        let v: u16 = match self.peek(2) {
            Some(bytes) => u16_from_bytes(bytes),
            None => {
                return Err(DeserError::Io(IoErrorKind::UnexpectedEof));
            },
        };
        self.position = self.position + 2;
        Ok(v)
    }

    pub fn deserialize_u32(&mut self) -> (r: Result<u32, DeserError>)
        ensures
            match parse(Layout::U32, old(self).remaining()) {
                Ok((d, n)) => r matches Ok(v) && d == Datum::U32(v) && final(self).advanced(
                    old(self),
                    n,
                ),
                Err((kind, n)) => fails_with(r, kind) && final(self).advanced(old(self), n),
            },
    {
        let v: u32 = match self.peek(4) {
            Some(bytes) => u32_from_bytes(bytes),
            None => {
                return Err(DeserError::Io(IoErrorKind::UnexpectedEof));
            },
        };
        self.position = self.position + 4;
        Ok(v)
    }

    pub fn deserialize_u64(&mut self) -> (r: Result<u64, DeserError>)
        ensures
            match parse(Layout::U64, old(self).remaining()) {
                Ok((d, n)) => r matches Ok(v) && d == Datum::U64(v) && final(self).advanced(
                    old(self),
                    n,
                ),
                Err((kind, n)) => fails_with(r, kind) && final(self).advanced(old(self), n),
            },
    {
        let v: u64 = match self.peek(8) {
            Some(bytes) => u64_from_bytes(bytes),
            None => {
                return Err(DeserError::Io(IoErrorKind::UnexpectedEof));
            },
        };
        self.position = self.position + 8;
        Ok(v)
    }

    /// Reads a string: one byte of length, then as many bytes of UTF-8. Bytes that are no
    /// UTF-8 have been read all the same.
    pub fn deserialize_str(&mut self) -> (r: Result<String, DeserError>)
        ensures
            match parse(Layout::Str, old(self).remaining()) {
                Ok((d, n)) => r matches Ok(v) && d == Datum::Str(v@) && final(self).advanced(
                    old(self),
                    n,
                ),
                Err((kind, n)) => fails_with(r, kind) && final(self).advanced(old(self), n),
            },
    {
        let length: usize = match self.peek(1) {
            Some(bytes) => bytes[0] as usize,
            None => {
                return Err(DeserError::Io(IoErrorKind::UnexpectedEof));
            },
        };
        if self.left() - 1 < length {
            return Err(DeserError::Io(IoErrorKind::UnexpectedEof));
        }
        let start: usize = self.position + 1;
        let end: usize = start + length;
        let buf = slice_subrange(self.input.as_slice(), start, end);
        assert(buf@ =~= self.remaining().subrange(1, 1 + length));
        let text = match str_from_utf8(buf) {
            Ok(text) => Ok(text.to_owned()),
            Err(e) => Err(DeserError::Utf8(e)),
        };
        self.position = end;
        text
    }

    pub fn deserialize_string(&mut self) -> (r: Result<String, DeserError>)
        ensures
            match parse(Layout::Str, old(self).remaining()) {
                Ok((d, n)) => r matches Ok(v) && d == Datum::Str(v@) && final(self).advanced(
                    old(self),
                    n,
                ),
                Err((kind, n)) => fails_with(r, kind) && final(self).advanced(old(self), n),
            },
    {
        self.deserialize_str()
    }

    /// Reads the tag of an option: whether a value follows. The tag is read even where it is
    /// neither 0 nor 1.
    pub fn deserialize_option(&mut self) -> (r: Result<bool, DeserError>)
        ensures
            old(self).remaining().len() < 1 ==> fails_with(r, ErrorKind::UnexpectedEof),
            old(self).remaining().len() >= 1 ==> match old(self).remaining()[0] {
                0 => r matches Ok(present) && !present,
                1 => r matches Ok(present) && present,
                _ => fails_with(r, ErrorKind::InvalidOption),
            },
            final(self).advanced(old(self), if old(self).remaining().len() < 1 { 0nat } else { 1nat }),
    {
        let byte: u8 = match self.peek(1) {
            Some(bytes) => bytes[0],
            None => {
                return Err(DeserError::Io(IoErrorKind::UnexpectedEof));
            },
        };
        self.position = self.position + 1;
        match byte {
            0 => Ok(false),
            1 => Ok(true),
            _ => Err(DeserError::InvalidOption),
        }
    }

    pub fn deserialize_unit(&mut self) -> (r: Result<(), DeserError>)
        ensures
            match parse(Layout::Unit, old(self).remaining()) {
                Ok((d, n)) => r is Ok && final(self).advanced(old(self), n),
                Err((kind, n)) => fails_with(r, kind) && final(self).advanced(old(self), n),
            },
    {
        let byte: u8 = match self.peek(1) {
            Some(bytes) => bytes[0],
            None => {
                return Err(DeserError::Io(IoErrorKind::UnexpectedEof));
            },
        };
        self.position = self.position + 1;
        match byte {
            0 => Ok(()),
            _ => Err(DeserError::InvalidUnit),
        }
    }

    pub fn deserialize_unit_struct(&mut self) -> (r: Result<(), DeserError>)
        ensures
            match parse(Layout::Unit, old(self).remaining()) {
                Ok((d, n)) => r is Ok && final(self).advanced(old(self), n),
                Err((kind, n)) => fails_with(r, kind) && final(self).advanced(old(self), n),
            },
    {
        self.deserialize_unit()
    }

    /// Reads the position of a variant among the declared variants of its union.
    pub fn deserialize_identifier(&mut self) -> (r: Result<u8, DeserError>)
        ensures
            match parse(Layout::U8, old(self).remaining()) {
                Ok((d, n)) => r matches Ok(v) && d == Datum::U8(v) && final(self).advanced(
                    old(self),
                    n,
                ),
                Err((kind, n)) => fails_with(r, kind) && final(self).advanced(old(self), n),
            },
    {
        self.deserialize_u8()
    }
}

/// The cursor of a sequence, map, tuple or record: how many of its elements have been read,
/// and how many it has.
#[derive(Debug, Clone, Copy, PartialEq, Eq)]
pub struct Counted {
    index: usize,
    length: usize,
}

impl Counted {
    /// The number of elements read so far.
    pub closed spec fn index(&self) -> usize {
        self.index
    }

    /// The number of elements in all.
    pub closed spec fn length(&self) -> usize {
        self.length
    }

    /// Whether every element has been read.
    pub open spec fn finished(&self) -> bool {
        self.index() >= self.length()
    }

    /// Whether `self` is `before` with one more element read.
    pub open spec fn stepped(&self, before: &Counted) -> bool {
        self.index() == before.index() + 1 && self.length() == before.length()
    }

    /// Whether `self` is `before` with one more element counted, where there was one left
    /// to count.
    pub open spec fn counted(&self, before: &Counted) -> bool {
        if before.finished() {
            *self == *before
        } else {
            self.stepped(before)
        }
    }

    /// A cursor at the start of `length` elements.
    pub fn new(length: usize) -> (counted: Counted)
        ensures
            counted.index() == 0,
            counted.length() == length,
    {
        Counted { index: 0, length }
    }

    /// Whether an element is still to be read.
    pub fn has_next(&self) -> (more: bool)
        ensures
            more == !self.finished(),
    {
        self.index < self.length
    }

    /// Counts one element as read, up to the number of elements in all.
    pub fn advance(&mut self)
        ensures
            final(self).counted(old(self)),
    {
        if self.index < self.length {
            self.index = self.index + 1;
        }
    }

    /// Reads the next element from `de`, or nothing once the count is reached: what follows
    /// in `de` then belongs to the next message. An element that was due is counted whether
    /// or not it decoded.
    pub fn next_element_seed(&mut self, de: &mut Deserializer, shape: &Shape) -> (r: Result<
        Option<Value>,
        DeserError,
    >)
        ensures
            old(self).finished() ==> (r matches Ok(None) && *final(self) == *old(self)
                && final(de).advanced(old(de), 0)),
            !old(self).finished() ==> final(self).stepped(old(self)) && match parse(
                shape@,
                old(de).remaining(),
            ) {
                Ok((d, n)) => r matches Ok(Some(v)) && v@ == d && final(de).advanced(old(de), n),
                Err((kind, n)) => fails_with(r, kind) && final(de).advanced(old(de), n),
            },
        decreases shape, 2nat,
    {
        if self.index >= self.length {
            return Ok(None);
        }
        let element = match de.deserialize(shape) {
            Ok(element) => Ok(Some(element)),
            Err(e) => Err(e),
        };
        self.index = self.index + 1;
        element
    }

    /// Reads the key of the next entry from `de`, or nothing once the count is reached.
    pub fn next_key_seed(&mut self, de: &mut Deserializer, shape: &Shape) -> (r: Result<
        Option<Value>,
        DeserError,
    >)
        ensures
            *final(self) == *old(self),
            old(self).finished() ==> (r matches Ok(None) && final(de).advanced(old(de), 0)),
            !old(self).finished() ==> match parse(shape@, old(de).remaining()) {
                Ok((d, n)) => r matches Ok(Some(v)) && v@ == d && final(de).advanced(old(de), n),
                Err((kind, n)) => fails_with(r, kind) && final(de).advanced(old(de), n),
            },
        decreases shape, 2nat,
    {
        if self.index >= self.length {
            return Ok(None);
        }
        match de.deserialize(shape) {
            Ok(key) => Ok(Some(key)),
            Err(e) => Err(e),
        }
    }

    /// Reads the value of the entry whose key was read last from `de`, and counts the entry,
    /// whether or not the value decoded.
    pub fn next_value_seed(&mut self, de: &mut Deserializer, shape: &Shape) -> (r: Result<
        Value,
        DeserError,
    >)
        requires
            old(self).index() < usize::MAX,
        ensures
            final(self).stepped(old(self)),
            match parse(shape@, old(de).remaining()) {
                Ok((d, n)) => r matches Ok(v) && v@ == d && final(de).advanced(old(de), n),
                Err((kind, n)) => fails_with(r, kind) && final(de).advanced(old(de), n),
            },
        decreases shape, 2nat,
    {
        let value = de.deserialize(shape);
        self.index = self.index + 1;
        value
    }
}

/// The reader of a tagged union, once the position of the variant has been read.
#[derive(Debug, Clone, Copy, PartialEq, Eq)]
pub struct Variant {
    index: u8,
}

impl Variant {
    /// The position of the variant among the declared variants.
    pub closed spec fn spec_index(&self) -> u8 {
        self.index
    }

    fn new(index: u8) -> (variant: Variant)
        ensures
            variant.index() == index,
    {
        Variant { index }
    }

    /// The position of the variant among the declared variants.
    #[verifier::when_used_as_spec(spec_index)]
    pub fn index(&self) -> (index: u8)
        ensures
            index == self.spec_index(),
    {
        self.index
    }

    /// Reads the position of the variant from `de`: one byte.
    pub fn variant_seed(de: &mut Deserializer) -> (r: Result<Variant, DeserError>)
        ensures
            old(de).remaining().len() < 1 ==> fails_with(r, ErrorKind::UnexpectedEof)
                && final(de).advanced(old(de), 0),
            old(de).remaining().len() >= 1 ==> (r matches Ok(variant) && variant.index()
                == old(de).remaining()[0] && final(de).advanced(old(de), 1)),
    {
        match de.deserialize_identifier() {
            Ok(index) => Ok(Variant::new(index)),
            Err(e) => Err(e),
        }
    }

    /// A variant without fields has no bytes after its tag.
    pub fn unit_variant(&self) -> (r: Result<(), DeserError>)
        ensures
            r is Ok,
    {
        Ok(())
    }

    /// Reads the one field of the variant from `de`.
    pub fn newtype_variant_seed(&self, de: &mut Deserializer, shape: &Shape) -> (r: Result<
        Value,
        DeserError,
    >)
        ensures
            match parse(shape@, old(de).remaining()) {
                Ok((d, n)) => r matches Ok(v) && v@ == d && final(de).advanced(old(de), n),
                Err((kind, n)) => fails_with(r, kind) && final(de).advanced(old(de), n),
            },
        decreases shape, 2nat,
    {
        de.deserialize(shape)
    }

    /// The cursor of the `len` fields of the variant, which follow in `de`.
    pub fn tuple_variant(&self, de: &mut Deserializer, len: usize) -> (counted: Counted)
        ensures
            counted.index() == 0,
            counted.length() == len,
            final(de).advanced(old(de), 0),
    {
        de.deserialize_tuple(len)
    }

    /// The cursor of the `len` named fields of the variant, which follow in `de`.
    pub fn struct_variant(&self, de: &mut Deserializer, len: usize) -> (counted: Counted)
        ensures
            counted.index() == 0,
            counted.length() == len,
            final(de).advanced(old(de), 0),
    {
        de.deserialize_struct(len)
    }
}

impl Deserializer {
    /// The inner value of a record of one field: it has no bytes of its own.
    pub fn deserialize_newtype_struct(&mut self, shape: &Shape) -> (r: Result<Value, DeserError>)
        ensures
            match parse(shape@, old(self).remaining()) {
                Ok((d, n)) => r matches Ok(v) && v@ == d && final(self).advanced(old(self), n),
                Err((kind, n)) => fails_with(r, kind) && final(self).advanced(old(self), n),
            },
        decreases shape, 2nat,
    {
        self.deserialize(shape)
    }

    /// Reads the element count of a sequence, and gives the cursor of its elements.
    pub fn deserialize_seq(&mut self) -> (r: Result<Counted, DeserError>)
        ensures
            old(self).remaining().len() < 4 ==> fails_with(r, ErrorKind::UnexpectedEof)
                && final(self).advanced(old(self), 0),
            old(self).remaining().len() >= 4 ==> (r matches Ok(counted) && counted.index() == 0
                && counted.length() == from_be32(old(self).remaining()) && final(self).advanced(
                old(self),
                4,
            )),
    {
        match self.deserialize_u32() {
            Ok(length) => Ok(Counted::new(length as usize)),
            Err(e) => Err(e),
        }
    }

    /// The cursor of the `len` fields of a tuple: its arity is not on the wire.
    pub fn deserialize_tuple(&mut self, len: usize) -> (counted: Counted)
        ensures
            counted.index() == 0,
            counted.length() == len,
            final(self).advanced(old(self), 0),
    {
        Counted::new(len)
    }

    pub fn deserialize_tuple_struct(&mut self, len: usize) -> (counted: Counted)
        ensures
            counted.index() == 0,
            counted.length() == len,
            final(self).advanced(old(self), 0),
    {
        self.deserialize_tuple(len)
    }

    /// Reads the entry count of a map, and gives the cursor of its entries.
    pub fn deserialize_map(&mut self) -> (r: Result<Counted, DeserError>)
        ensures
            old(self).remaining().len() < 4 ==> fails_with(r, ErrorKind::UnexpectedEof)
                && final(self).advanced(old(self), 0),
            old(self).remaining().len() >= 4 ==> (r matches Ok(counted) && counted.index() == 0
                && counted.length() == from_be32(old(self).remaining()) && final(self).advanced(
                old(self),
                4,
            )),
    {
        match self.deserialize_u32() {
            Ok(length) => Ok(Counted::new(length as usize)),
            Err(e) => Err(e),
        }
    }

    /// The cursor of the `len` fields of a record: neither their number nor their names
    /// are on the wire.
    pub fn deserialize_struct(&mut self, len: usize) -> (counted: Counted)
        ensures
            counted.index() == 0,
            counted.length() == len,
            final(self).advanced(old(self), 0),
    {
        Counted::new(len)
    }

    /// Reads the tag of a tagged union, and gives the reader of its variant.
    pub fn deserialize_enum(&mut self) -> (r: Result<Variant, DeserError>)
        ensures
            old(self).remaining().len() < 1 ==> fails_with(r, ErrorKind::UnexpectedEof)
                && final(self).advanced(old(self), 0),
            old(self).remaining().len() >= 1 ==> (r matches Ok(variant) && variant.index()
                == old(self).remaining()[0] && final(self).advanced(old(self), 1)),
    {
        Variant::variant_seed(self)
    }

    /// Reads the fields that `counted` counts, of the shapes `shapes`.
    fn read_fields(&mut self, counted: Counted, shapes: &Vec<Shape>) -> (r: Result<
        Vec<Value>,
        DeserError,
    >)
        requires
            counted.index() == 0,
            counted.length() == shapes@.len(),
        ensures
            match parse_fields(layouts_of(shapes@), old(self).remaining(), shapes@.len()) {
                Ok((ds, n)) => r matches Ok(fields) && data_of(fields@) == ds
                    && final(self).advanced(old(self), n),
                Err((kind, n)) => fails_with(r, kind) && final(self).advanced(old(self), n),
            },
        decreases shapes, 0nat,
    {
        let ghost start = old(self).position();
        let mut counted = counted;
        let mut fields: Vec<Value> = Vec::new();
        let ghost of = layouts_of(shapes@);
        let ghost source = old(self).remaining();
        let ghost mut n: nat = 0;
        assert(data_of(fields@) =~= Seq::<Datum>::empty());
        loop
            invariant
                self.input() == old(self).input(),
                start == old(self).position(),
                source == old(self).remaining(),
                of == layouts_of(shapes@),
                counted.length() == shapes@.len(),
                counted.index() == fields@.len(),
                counted.index() <= counted.length(),
                parse_fields(of, source, fields@.len() as nat) == Ok::<
                    (Seq<Datum>, nat),
                    (ErrorKind, nat),
                >((data_of(fields@), n)),
                n <= source.len(),
                self.position() == start + n,
            ensures
                counted.index() == shapes@.len(),
            decreases counted.length() - counted.index(),
        {
            if !counted.has_next() {
                break ;
            }
            let i: usize = fields.len();
            let ghost data = data_of(fields@);
            assert(self.remaining() =~= source.skip(n as int));
            proof {
                lemma_parse_bound(of[i as int], source.skip(n as int));
            }
            match counted.next_element_seed(self, &shapes[i]) {
                Ok(Some(field)) => {
                    proof {
                        n = (self.position() - start) as nat;
                    }
                    fields.push(field);
                    assert(data_of(fields@) =~= data.push(field@));
                },
                Ok(None) => {
                    break ;
                },
                Err(e) => {
                    proof {
                        lemma_parse_fields_fails(of, source, (i + 1) as nat, shapes@.len());
                    }
                    return Err(e);
                },
            }
        }
        Ok(fields)
    }

    /// Reads a sequence: its element count, then as many elements of the shape `of`.
    fn read_sequence(&mut self, of: &Shape) -> (r: Result<Vec<Value>, DeserError>)
        ensures
            match parse(Layout::Sequence(Box::new(of@)), old(self).remaining()) {
                Ok((d, n)) => r matches Ok(items) && Datum::Sequence(data_of(items@)) == d
                    && final(self).advanced(old(self), n),
                Err((kind, n)) => fails_with(r, kind) && final(self).advanced(old(self), n),
            },
        decreases of, 3nat,
    {
        let ghost start = old(self).position();
        let mut counted = match self.deserialize_seq() {
            Ok(counted) => counted,
            Err(e) => {
                return Err(e);
            },
        };
        let mut items: Vec<Value> = Vec::new();
        let ghost source = old(self).remaining().skip(4);
        let ghost count = counted.length() as nat;
        let ghost mut n: nat = 0;
        assert(data_of(items@) =~= Seq::<Datum>::empty());
        loop
            invariant
                self.input() == old(self).input(),
                start == old(self).position(),
                old(self).remaining().len() >= 4,
                source == old(self).remaining().skip(4),
                count == from_be32(old(self).remaining()),
                counted.length() == count,
                counted.index() == items@.len(),
                counted.index() <= count,
                parse_repeated(of@, source, items@.len() as nat) == Ok::<
                    (Seq<Datum>, nat),
                    (ErrorKind, nat),
                >((data_of(items@), n)),
                n <= source.len(),
                self.position() == start + 4 + n,
            ensures
                counted.index() == count,
            decreases count - counted.index(),
        {
            let ghost data = data_of(items@);
            let ghost k = items@.len() as nat;
            assert(self.remaining() =~= source.skip(n as int));
            proof {
                lemma_parse_bound(of@, source.skip(n as int));
            }
            match counted.next_element_seed(self, of) {
                Ok(Some(item)) => {
                    proof {
                        n = (self.position() - start - 4) as nat;
                    }
                    items.push(item);
                    assert(data_of(items@) =~= data.push(item@));
                },
                Ok(None) => {
                    break ;
                },
                Err(e) => {
                    proof {
                        lemma_parse_repeated_fails(of@, source, k + 1, count);
                    }
                    return Err(e);
                },
            }
        }
        Ok(items)
    }

    /// Reads a map: its entry count, then as many keys and values, each key followed by its
    /// value.
    fn read_mapping(&mut self, shape: &Shape, key: &Shape, value: &Shape) -> (r: Result<
        Vec<(Value, Value)>,
        DeserError,
    >)
        requires
            shape matches Shape::Mapping(k, v) && **k == *key && **v == *value,
        ensures
            match parse(shape@, old(self).remaining()) {
                Ok((d, n)) => r matches Ok(entries) && Datum::Mapping(entries_of(entries@)) == d
                    && final(self).advanced(old(self), n),
                Err((kind, n)) => fails_with(r, kind) && final(self).advanced(old(self), n),
            },
        decreases shape, 0nat,
    {
        let ghost start = old(self).position();
        let mut counted = match self.deserialize_map() {
            Ok(counted) => counted,
            Err(e) => {
                return Err(e);
            },
        };
        let mut entries: Vec<(Value, Value)> = Vec::new();
        let ghost l = Layout::Mapping(Box::new(key@), Box::new(value@));
        let ghost source = old(self).remaining().skip(4);
        let ghost count = counted.length() as nat;
        let ghost mut n: nat = 0;
        assert(entries_of(entries@) =~= Seq::<(Datum, Datum)>::empty());
        loop
            invariant
                self.input() == old(self).input(),
                start == old(self).position(),
                old(self).remaining().len() >= 4,
                source == old(self).remaining().skip(4),
                count == from_be32(old(self).remaining()),
                l == Layout::Mapping(Box::new(key@), Box::new(value@)),
                l == shape@,
                shape matches Shape::Mapping(k, v) && **k == *key && **v == *value,
                counted.length() == count,
                counted.index() == entries@.len(),
                counted.index() <= count,
                parse_entries(l, source, entries@.len() as nat) == Ok::<
                    (Seq<(Datum, Datum)>, nat),
                    (ErrorKind, nat),
                >((entries_of(entries@), n)),
                n <= source.len(),
                self.position() == start + 4 + n,
            ensures
                counted.index() == count,
            decreases count - counted.index(),
        {
            let ghost data = entries_of(entries@);
            let ghost j = entries@.len() as nat;
            assert(self.remaining() =~= source.skip(n as int));
            proof {
                lemma_parse_bound(key@, source.skip(n as int));
            }
            let k = match counted.next_key_seed(self, key) {
                Ok(Some(k)) => k,
                Ok(None) => {
                    break ;
                },
                Err(e) => {
                    proof {
                        lemma_parse_entries_fails(l, source, j + 1, count);
                    }
                    return Err(e);
                },
            };
            let ghost m = (self.position() - start - 4 - n) as nat;
            assert(self.remaining() =~= source.skip(n as int + m as int));
            proof {
                lemma_parse_bound(value@, source.skip(n as int + m as int));
            }
            let v = match counted.next_value_seed(self, value) {
                Ok(v) => v,
                Err(e) => {
                    proof {
                        lemma_parse_entries_fails(l, source, j + 1, count);
                    }
                    return Err(e);
                },
            };
            proof {
                n = (self.position() - start - 4) as nat;
            }
            let ghost entry = (k@, v@);
            entries.push((k, v));
            assert(entries_of(entries@) =~= data.push(entry));
        }
        Ok(entries)
    }

    /// Reads one variant of a tagged union: its tag, then its fields.
    fn read_union(&mut self, shape: &Shape, variants: &Vec<Vec<Shape>>) -> (r: Result<
        Value,
        DeserError,
    >)
        requires
            shape matches Shape::Union(of) && *of == *variants,
        ensures
            match parse(shape@, old(self).remaining()) {
                Ok((d, n)) => r matches Ok(v) && v@ == d && final(self).advanced(old(self), n),
                Err((kind, n)) => fails_with(r, kind) && final(self).advanced(old(self), n),
            },
        decreases shape, 0nat,
    {
        let ghost source = old(self).remaining();
        let ghost rest = source.skip(1);
        assert(shape@ == Layout::Union(variants_of(variants@)));
        let variant = match self.deserialize_enum() {
            Ok(variant) => variant,
            Err(e) => {
                return Err(e);
            },
        };
        let index: usize = variant.index() as usize;
        assert(source.len() >= 1 && source[0] == index);
        if index >= variants.len() {
            return Err(DeserError::Decoding("unknown variant index".to_string()));
        }
        assert(self.remaining() =~= rest);
        let of = &variants[index];
        let ghost fields_of = layouts_of(of@);
        assert(variants_of(variants@)[index as int] == fields_of);
        assert(fields_of.len() == of@.len());
        assert(parse_fields(fields_of, rest, 0) == Ok::<(Seq<Datum>, nat), (ErrorKind, nat)>(
            (Seq::empty(), 0),
        ));
        if of.len() == 0 {
            let fields: Vec<Value> = Vec::new();
            assert(data_of(fields@) =~= Seq::<Datum>::empty());
            match variant.unit_variant() {
                Ok(()) => Ok(Value::Variant(index as u32, fields)),
                Err(e) => Err(e),
            }
        } else if of.len() == 1 {
            assert(rest.skip(0) =~= rest);
            assert(fields_of[0] == of@[0]@);
            assert(parse_fields(fields_of, rest, 1) == match parse(fields_of[0], rest) {
                Ok((d, m)) => Ok::<(Seq<Datum>, nat), (ErrorKind, nat)>(
                    (Seq::<Datum>::empty().push(d), m),
                ),
                Err(failure) => Err(failure),
            });
            match variant.newtype_variant_seed(self, &of[0]) {
                Ok(field) => {
                    let mut fields: Vec<Value> = Vec::new();
                    fields.push(field);
                    assert(data_of(fields@) =~= Seq::<Datum>::empty().push(field@));
                    Ok(Value::Variant(index as u32, fields))
                },
                Err(e) => Err(e),
            }
        } else {
            let counted = variant.tuple_variant(self, of.len());
            match self.read_fields(counted, of) {
                Ok(fields) => Ok(Value::Variant(index as u32, fields)),
                Err(e) => Err(e),
            }
        }
    }

    /// Reads one value of the shape `shape`. On success the cursor stands behind the value,
    /// at the start of what follows it; on failure it stands behind what was read before the
    /// failure.
    pub fn deserialize(&mut self, shape: &Shape) -> (r: Result<Value, DeserError>)
        ensures
            match parse(shape@, old(self).remaining()) {
                Ok((d, n)) => r matches Ok(v) && v@ == d && final(self).advanced(old(self), n),
                Err((kind, n)) => fails_with(r, kind) && final(self).advanced(old(self), n),
            },
        decreases shape, 1nat,
    {
        match shape {
            Shape::Bool => match self.deserialize_bool() {
                Ok(v) => Ok(Value::Bool(v)),
                Err(e) => Err(e),
            },
            Shape::I8 => match self.deserialize_i8() {
                Ok(v) => Ok(Value::I8(v)),
                Err(e) => Err(e),
            },
            Shape::I16 => match self.deserialize_i16() {
                Ok(v) => Ok(Value::I16(v)),
                Err(e) => Err(e),
            },
            Shape::I32 => match self.deserialize_i32() {
                Ok(v) => Ok(Value::I32(v)),
                Err(e) => Err(e),
            },
            Shape::I64 => match self.deserialize_i64() {
                Ok(v) => Ok(Value::I64(v)),
                Err(e) => Err(e),
            },
            Shape::U8 => match self.deserialize_u8() {
                Ok(v) => Ok(Value::U8(v)),
                Err(e) => Err(e),
            },
            Shape::U16 => match self.deserialize_u16() {
                Ok(v) => Ok(Value::U16(v)),
                Err(e) => Err(e),
            },
            Shape::U32 => match self.deserialize_u32() {
                Ok(v) => Ok(Value::U32(v)),
                Err(e) => Err(e),
            },
            Shape::U64 => match self.deserialize_u64() {
                Ok(v) => Ok(Value::U64(v)),
                Err(e) => Err(e),
            },
            Shape::Str => match self.deserialize_str() {
                Ok(v) => Ok(Value::Str(v)),
                Err(e) => Err(e),
            },
            Shape::Unit => match self.deserialize_unit() {
                Ok(()) => Ok(Value::Unit),
                Err(e) => Err(e),
            },
            Shape::Optional(of) => match self.deserialize_option() {
                Ok(false) => Ok(Value::Optional(None)),
                Ok(true) => {
                    assert(self.remaining() =~= old(self).remaining().skip(1));
                    match self.deserialize(of) {
                        Ok(inner) => Ok(Value::Optional(Some(Box::new(inner)))),
                        Err(e) => Err(e),
                    }
                },
                Err(e) => Err(e),
            },
            Shape::Sequence(of) => match self.read_sequence(of) {
                Ok(items) => Ok(Value::Sequence(items)),
                Err(e) => Err(e),
            },
            Shape::Mapping(key, value) => match self.read_mapping(shape, key, value) {
                Ok(entries) => Ok(Value::Mapping(entries)),
                Err(e) => Err(e),
            },
            Shape::Tuple(of) => {
                let counted = self.deserialize_tuple(of.len());
                match self.read_fields(counted, of) {
                    Ok(fields) => Ok(Value::Tuple(fields)),
                    Err(e) => Err(e),
                }
            },
            Shape::Union(variants) => self.read_union(shape, variants),
        }
    }
}

/// Decodes `input` as one value of the shape `shape`. The value has to span all of
/// `input`: a byte left over is a failure.
pub fn from_bytes(shape: &Shape, input: &[u8]) -> (r: Result<Value, DeserError>)
    ensures
        match decoding(shape@, input@) {
            Ok(d) => r matches Ok(v) && v@ == d,
            Err(kind) => fails_with(r, kind),
        },
{
    let mut deserializer = Deserializer::from_bytes(input);
    assert(deserializer.remaining() =~= input@);
    let value = match deserializer.deserialize(shape) {
        Ok(value) => value,
        Err(e) => {
            return Err(e);
        },
    };
    proof {
        lemma_parse_bound(shape@, input@);
    }
    if deserializer.is_at_end() {
        Ok(value)
    } else {
        Err(DeserError::TrailingData)
    }
}

} // verus!
