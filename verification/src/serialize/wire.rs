//! The wire format, stated over the mathematical models.

use vstd::prelude::*;
use vstd::utf8::{decode_utf8, encode_utf8, valid_utf8};
use crate::serialize::error::ErrorKind;
use crate::serialize::value::{Datum, Layout};

verus! {

/// The two bytes of `v`, most significant first.
pub open spec fn be16(v: u16) -> Seq<u8> {
    seq![(v / 0x100) as u8, (v % 0x100) as u8]
}

/// The four bytes of `v`, most significant first.
pub open spec fn be32(v: u32) -> Seq<u8> {
    seq![
        (v / 0x100_0000) as u8,
        (v / 0x1_0000 % 0x100) as u8,
        (v / 0x100 % 0x100) as u8,
        (v % 0x100) as u8,
    ]
}

/// The eight bytes of `v`, most significant first.
pub open spec fn be64(v: u64) -> Seq<u8> {
    seq![
        (v / 0x100_0000_0000_0000) as u8,
        (v / 0x1_0000_0000_0000 % 0x100) as u8,
        (v / 0x100_0000_0000 % 0x100) as u8,
        (v / 0x1_0000_0000 % 0x100) as u8,
        (v / 0x100_0000 % 0x100) as u8,
        (v / 0x1_0000 % 0x100) as u8,
        (v / 0x100 % 0x100) as u8,
        (v % 0x100) as u8,
    ]
}

/// The unsigned number with the same 8 bits as `v` in two's complement.
pub open spec fn bits8(v: i8) -> u8 {
    if v < 0 { (v + 0x100) as u8 } else { v as u8 }
}

/// The unsigned number with the same 16 bits as `v` in two's complement.
pub open spec fn bits16(v: i16) -> u16 {
    if v < 0 { (v + 0x1_0000) as u16 } else { v as u16 }
}

/// The unsigned number with the same 32 bits as `v` in two's complement.
pub open spec fn bits32(v: i32) -> u32 {
    if v < 0 { (v + 0x1_0000_0000) as u32 } else { v as u32 }
}

/// The unsigned number with the same 64 bits as `v` in two's complement.
pub open spec fn bits64(v: i64) -> u64 {
    if v < 0 { (v + 0x1_0000_0000_0000_0000) as u64 } else { v as u64 }
}

/// The signed number that the 8 bits of `v` stand for in two's complement.
pub open spec fn signed8(v: u8) -> i8 {
    if v >= 0x80 { (v - 0x100) as i8 } else { v as i8 }
}

/// The signed number that the 16 bits of `v` stand for in two's complement.
pub open spec fn signed16(v: u16) -> i16 {
    if v >= 0x8000 { (v - 0x1_0000) as i16 } else { v as i16 }
}

/// The signed number that the 32 bits of `v` stand for in two's complement.
pub open spec fn signed32(v: u32) -> i32 {
    if v >= 0x8000_0000 { (v - 0x1_0000_0000) as i32 } else { v as i32 }
}

/// The signed number that the 64 bits of `v` stand for in two's complement.
pub open spec fn signed64(v: u64) -> i64 {
    if v >= 0x8000_0000_0000_0000 { (v - 0x1_0000_0000_0000_0000) as i64 } else { v as i64 }
}

/// The number whose big-endian bytes are the first two of `s`.
pub open spec fn from_be16(s: Seq<u8>) -> u16 {
    (s[0] * 0x100 + s[1]) as u16
}

/// The number whose big-endian bytes are the first four of `s`.
pub open spec fn from_be32(s: Seq<u8>) -> u32 {
    (s[0] * 0x100_0000 + s[1] * 0x1_0000 + s[2] * 0x100 + s[3]) as u32
}

/// The number whose big-endian bytes are the first eight of `s`.
pub open spec fn from_be64(s: Seq<u8>) -> u64 {
    (s[0] * 0x100_0000_0000_0000 + s[1] * 0x1_0000_0000_0000 + s[2] * 0x100_0000_0000 + s[3]
        * 0x1_0000_0000 + s[4] * 0x100_0000 + s[5] * 0x1_0000 + s[6] * 0x100 + s[7]) as u64
}

/// Whether the format can carry `d`: every string has at most 255 bytes, every sequence and
/// map at most `u32::MAX` entries, and every variant index is at most 255.
pub open spec fn fits(d: Datum) -> bool
    decreases d,
{
    match d {
        Datum::Str(chars) => encode_utf8(chars).len() <= 0xff,
        Datum::Optional(Some(inner)) => fits(*inner),
        Datum::Sequence(items) => items.len() <= u32::MAX && fits_all(items),
        Datum::Mapping(entries) => entries.len() <= u32::MAX && fits_entries(entries),
        Datum::Tuple(fields) => fits_all(fields),
        Datum::Variant(index, fields) => index <= 0xff && fits_all(fields),
        _ => true,
    }
}

/// Whether the format can carry each of the values `ds`.
pub open spec fn fits_all(ds: Seq<Datum>) -> bool
    decreases ds,
{
    forall|i: int| 0 <= i < ds.len() ==> fits(#[trigger] ds[i])
}

/// Whether the format can carry the key and the value of each of the entries `es`.
pub open spec fn fits_entries(es: Seq<(Datum, Datum)>) -> bool
    decreases es,
{
    forall|i: int| 0 <= i < es.len() ==> fits((#[trigger] es[i]).0) && fits(es[i].1)
}

/// Whether `d` is a value of the shape `l`.
pub open spec fn conforms(d: Datum, l: Layout) -> bool
    decreases d,
{
    match (d, l) {
        (Datum::Bool(_), Layout::Bool) => true,
        (Datum::I8(_), Layout::I8) => true,
        (Datum::I16(_), Layout::I16) => true,
        (Datum::I32(_), Layout::I32) => true,
        (Datum::I64(_), Layout::I64) => true,
        (Datum::U8(_), Layout::U8) => true,
        (Datum::U16(_), Layout::U16) => true,
        (Datum::U32(_), Layout::U32) => true,
        (Datum::U64(_), Layout::U64) => true,
        (Datum::Str(_), Layout::Str) => true,
        (Datum::Unit, Layout::Unit) => true,
        (Datum::Optional(None), Layout::Optional(_)) => true,
        (Datum::Optional(Some(inner)), Layout::Optional(of)) => conforms(*inner, *of),
        (Datum::Sequence(items), Layout::Sequence(of)) => conforms_each(items, *of),
        (Datum::Mapping(entries), Layout::Mapping(key, value)) => conforms_entries(
            entries,
            *key,
            *value,
        ),
        (Datum::Tuple(fields), Layout::Tuple(of)) => conforms_all(fields, of),
        (Datum::Variant(index, fields), Layout::Union(variants)) => index < variants.len()
            && conforms_all(fields, variants[index as int]),
        _ => false,
    }
}

/// Whether each of the values `ds` is a value of the shape `l`.
pub open spec fn conforms_each(ds: Seq<Datum>, l: Layout) -> bool
    decreases ds,
{
    forall|i: int| 0 <= i < ds.len() ==> conforms(#[trigger] ds[i], l)
}

/// Whether each of the entries `es` has a key of the shape `key` and a value of the shape
/// `value`.
pub open spec fn conforms_entries(es: Seq<(Datum, Datum)>, key: Layout, value: Layout) -> bool
    decreases es,
{
    forall|i: int|
        0 <= i < es.len() ==> conforms((#[trigger] es[i]).0, key) && conforms(es[i].1, value)
}

/// Whether the fields `ds` are, one by one, values of the shapes `ls`.
pub open spec fn conforms_all(ds: Seq<Datum>, ls: Seq<Layout>) -> bool
    decreases ds,
{
    ds.len() == ls.len() && forall|i: int|
        0 <= i < ds.len() ==> conforms(#[trigger] ds[i], ls[i])
}

/// The bytes of `d` on the wire.
pub open spec fn wire(d: Datum) -> Seq<u8>
    decreases d,
{
    match d {
        Datum::Bool(b) => seq![if b { 1u8 } else { 0u8 }],
        Datum::I8(v) => seq![bits8(v)],
        Datum::I16(v) => be16(bits16(v)),
        Datum::I32(v) => be32(bits32(v)),
        Datum::I64(v) => be64(bits64(v)),
        Datum::U8(v) => seq![v],
        Datum::U16(v) => be16(v),
        Datum::U32(v) => be32(v),
        Datum::U64(v) => be64(v),
        Datum::Str(chars) => seq![encode_utf8(chars).len() as u8] + encode_utf8(chars),
        Datum::Optional(None) => seq![0u8],
        Datum::Optional(Some(inner)) => seq![1u8] + wire(*inner),
        Datum::Unit => seq![0u8],
        Datum::Sequence(items) => be32(items.len() as u32) + wire_all(items),
        Datum::Mapping(entries) => be32(entries.len() as u32) + wire_entries(entries),
        Datum::Tuple(fields) => wire_all(fields),
        Datum::Variant(index, fields) => seq![index as u8] + wire_all(fields),
    }
}

/// The bytes of the values `ds`, one after the other.
pub open spec fn wire_all(ds: Seq<Datum>) -> Seq<u8>
    decreases ds,
{
    if ds.len() == 0 {
        Seq::empty()
    } else {
        wire_all(ds.drop_last()) + wire(ds.last())
    }
}

/// The bytes of the entries `es`: each key followed by its value, entry after entry.
pub open spec fn wire_entries(es: Seq<(Datum, Datum)>) -> Seq<u8>
    decreases es,
{
    if es.len() == 0 {
        Seq::empty()
    } else {
        wire_entries(es.drop_last()) + wire(es.last().0) + wire(es.last().1)
    }
}

/// What decoding one value of the shape `l` from the front of `s` gives: the value and the
/// number of bytes it spans, or the kind of the first failure and the number of bytes read
/// before it. A read that runs out of input reads nothing; a byte or a string that is read
/// and then found invalid has been read.
pub open spec fn parse(l: Layout, s: Seq<u8>) -> Result<(Datum, nat), (ErrorKind, nat)>
    decreases l, 1nat, 0nat,
{
    match l {
        Layout::Bool => if s.len() < 1 {
            Err((ErrorKind::UnexpectedEof, 0))
        } else if s[0] == 0 {
            Ok((Datum::Bool(false), 1))
        } else if s[0] == 1 {
            Ok((Datum::Bool(true), 1))
        } else {
            Err((ErrorKind::InvalidBool, 1))
        },
        Layout::I8 => if s.len() < 1 {
            Err((ErrorKind::UnexpectedEof, 0))
        } else {
            Ok((Datum::I8(signed8(s[0])), 1))
        },
        Layout::I16 => if s.len() < 2 {
            Err((ErrorKind::UnexpectedEof, 0))
        } else {
            Ok((Datum::I16(signed16(from_be16(s))), 2))
        },
        Layout::I32 => if s.len() < 4 {
            Err((ErrorKind::UnexpectedEof, 0))
        } else {
            Ok((Datum::I32(signed32(from_be32(s))), 4))
        },
        Layout::I64 => if s.len() < 8 {
            Err((ErrorKind::UnexpectedEof, 0))
        } else {
            Ok((Datum::I64(signed64(from_be64(s))), 8))
        },
        Layout::U8 => if s.len() < 1 {
            Err((ErrorKind::UnexpectedEof, 0))
        } else {
            Ok((Datum::U8(s[0]), 1))
        },
        Layout::U16 => if s.len() < 2 {
            Err((ErrorKind::UnexpectedEof, 0))
        } else {
            Ok((Datum::U16(from_be16(s)), 2))
        },
        Layout::U32 => if s.len() < 4 {
            Err((ErrorKind::UnexpectedEof, 0))
        } else {
            Ok((Datum::U32(from_be32(s)), 4))
        },
        Layout::U64 => if s.len() < 8 {
            Err((ErrorKind::UnexpectedEof, 0))
        } else {
            Ok((Datum::U64(from_be64(s)), 8))
        },
        Layout::Str => if s.len() < 1 || s.len() < 1 + s[0] {
            Err((ErrorKind::UnexpectedEof, 0))
        } else if !valid_utf8(s.subrange(1, 1 + s[0])) {
            Err((ErrorKind::Utf8, (1 + s[0]) as nat))
        } else {
            Ok((Datum::Str(decode_utf8(s.subrange(1, 1 + s[0]))), (1 + s[0]) as nat))
        },
        Layout::Unit => if s.len() < 1 {
            Err((ErrorKind::UnexpectedEof, 0))
        } else if s[0] == 0 {
            Ok((Datum::Unit, 1))
        } else {
            Err((ErrorKind::InvalidUnit, 1))
        },
        Layout::Optional(of) => if s.len() < 1 {
            Err((ErrorKind::UnexpectedEof, 0))
        } else if s[0] == 0 {
            Ok((Datum::Optional(None), 1))
        } else if s[0] == 1 {
            match parse(*of, s.skip(1)) {
                Ok((inner, n)) => Ok((Datum::Optional(Some(Box::new(inner))), n + 1)),
                Err((kind, n)) => Err((kind, n + 1)),
            }
        } else {
            Err((ErrorKind::InvalidOption, 1))
        },
        Layout::Sequence(of) => if s.len() < 4 {
            Err((ErrorKind::UnexpectedEof, 0))
        } else {
            match parse_repeated(*of, s.skip(4), from_be32(s) as nat) {
                Ok((items, n)) => Ok((Datum::Sequence(items), n + 4)),
                Err((kind, n)) => Err((kind, n + 4)),
            }
        },
        Layout::Mapping(key, value) => if s.len() < 4 {
            Err((ErrorKind::UnexpectedEof, 0))
        } else {
            match parse_entries(l, s.skip(4), from_be32(s) as nat) {
                Ok((entries, n)) => Ok((Datum::Mapping(entries), n + 4)),
                Err((kind, n)) => Err((kind, n + 4)),
            }
        },
        Layout::Tuple(of) => match parse_fields(of, s, of.len()) {
            Ok((fields, n)) => Ok((Datum::Tuple(fields), n)),
            Err(failure) => Err(failure),
        },
        Layout::Union(variants) => if s.len() < 1 {
            Err((ErrorKind::UnexpectedEof, 0))
        } else if s[0] >= variants.len() {
            Err((ErrorKind::Decoding, 1))
        } else {
            match parse_fields(variants[s[0] as int], s.skip(1), variants[s[0] as int].len()) {
                Ok((fields, n)) => Ok((Datum::Variant(s[0] as u32, fields), n + 1)),
                Err((kind, n)) => Err((kind, n + 1)),
            }
        },
    }
}

/// What decoding `count` values of the shape `of`, one after the other, from the front of
/// `s` gives: the values and the bytes they span, or the first failure and the bytes read
/// before it.
pub open spec fn parse_repeated(of: Layout, s: Seq<u8>, count: nat) -> Result<
    (Seq<Datum>, nat),
    (ErrorKind, nat),
>
    decreases of, 2nat, count,
{
    if count == 0 {
        Ok((Seq::empty(), 0))
    } else {
        match parse_repeated(of, s, (count - 1) as nat) {
            Ok((items, n)) => match parse(of, s.skip(n as int)) {
                Ok((item, m)) => Ok((items.push(item), n + m)),
                Err((kind, m)) => Err((kind, n + m)),
            },
            Err(failure) => Err(failure),
        }
    }
}

/// What decoding `count` entries of the map shape `l`, each a key followed by a value, from
/// the front of `s` gives.
pub open spec fn parse_entries(l: Layout, s: Seq<u8>, count: nat) -> Result<
    (Seq<(Datum, Datum)>, nat),
    (ErrorKind, nat),
>
    recommends
        l is Mapping,
    decreases l, 0nat, count,
{
    if count == 0 {
        Ok((Seq::empty(), 0))
    } else if let Layout::Mapping(key, value) = l {
        match parse_entries(l, s, (count - 1) as nat) {
            Ok((entries, n)) => match parse(*key, s.skip(n as int)) {
                Ok((k, m)) => match parse(*value, s.skip(n as int + m as int)) {
                    Ok((v, p)) => Ok((entries.push((k, v)), n + m + p)),
                    Err((kind, p)) => Err((kind, n + m + p)),
                },
                Err((kind, m)) => Err((kind, n + m)),
            },
            Err(failure) => Err(failure),
        }
    } else {
        Err((ErrorKind::Decoding, 0))
    }
}

/// What decoding the first `count` fields of the shapes `of`, one after the other, from the
/// front of `s` gives.
pub open spec fn parse_fields(of: Seq<Layout>, s: Seq<u8>, count: nat) -> Result<
    (Seq<Datum>, nat),
    (ErrorKind, nat),
>
    recommends
        count <= of.len(),
    decreases of, 0nat, count,
{
    if count == 0 || count > of.len() {
        Ok((Seq::empty(), 0))
    } else {
        match parse_fields(of, s, (count - 1) as nat) {
            Ok((fields, n)) => match parse(of[count - 1], s.skip(n as int)) {
                Ok((field, m)) => Ok((fields.push(field), n + m)),
                Err((kind, m)) => Err((kind, n + m)),
            },
            Err(failure) => Err(failure),
        }
    }
}

/// What decoding a whole buffer `s` as one value of the shape `l` gives: the value, if it
/// spans all of `s`.
pub open spec fn decoding(l: Layout, s: Seq<u8>) -> Result<Datum, ErrorKind> {
    match parse(l, s) {
        Ok((d, n)) => if n == s.len() {
            Ok(d)
        } else {
            Err(ErrorKind::TrailingData)
        },
        Err((kind, _)) => Err(kind),
    }
}

/// Decoding reads no more than there is: a decoded value spans a part of the input, and so
/// does what was read before a failure.
pub proof fn lemma_parse_bound(l: Layout, s: Seq<u8>)
    ensures
        parse(l, s) matches Ok((_, n)) ==> n <= s.len(),
        parse(l, s) matches Err((_, n)) ==> n <= s.len(),
    decreases l, 1nat, 0nat,
{
    match l {
        Layout::Optional(of) => {
            if s.len() >= 1 && s[0] == 1 {
                lemma_parse_bound(*of, s.skip(1));
            }
        },
        Layout::Sequence(of) => {
            if s.len() >= 4 {
                lemma_parse_repeated_bound(*of, s.skip(4), from_be32(s) as nat);
            }
        },
        Layout::Mapping(key, value) => {
            if s.len() >= 4 {
                lemma_parse_entries_bound(l, s.skip(4), from_be32(s) as nat);
            }
        },
        Layout::Tuple(of) => {
            lemma_parse_fields_bound(of, s, of.len());
        },
        Layout::Union(variants) => {
            if s.len() >= 1 && s[0] < variants.len() {
                let of = variants[s[0] as int];
                lemma_parse_fields_bound(of, s.skip(1), of.len());
            }
        },
        _ => {},
    }
}

/// Decoding `count` values gives `count` values, and reads no more than there is.
pub proof fn lemma_parse_repeated_bound(of: Layout, s: Seq<u8>, count: nat)
    ensures
        parse_repeated(of, s, count) matches Ok((items, n)) ==> n <= s.len() && items.len()
            == count,
        parse_repeated(of, s, count) matches Err((_, n)) ==> n <= s.len(),
    decreases of, 2nat, count,
{
    if count > 0 {
        lemma_parse_repeated_bound(of, s, (count - 1) as nat);
        if let Ok((_, n)) = parse_repeated(of, s, (count - 1) as nat) {
            lemma_parse_bound(of, s.skip(n as int));
        }
    }
}

/// Decoding `count` entries gives `count` entries, and reads no more than there is.
pub proof fn lemma_parse_entries_bound(l: Layout, s: Seq<u8>, count: nat)
    ensures
        parse_entries(l, s, count) matches Ok((entries, n)) ==> n <= s.len() && entries.len()
            == count,
        parse_entries(l, s, count) matches Err((_, n)) ==> n <= s.len(),
    decreases l, 0nat, count,
{
    if count > 0 {
        if let Layout::Mapping(key, value) = l {
            lemma_parse_entries_bound(l, s, (count - 1) as nat);
            if let Ok((_, n)) = parse_entries(l, s, (count - 1) as nat) {
                lemma_parse_bound(*key, s.skip(n as int));
                if let Ok((_, m)) = parse(*key, s.skip(n as int)) {
                    lemma_parse_bound(*value, s.skip(n as int + m as int));
                }
            }
        }
    }
}

/// Decoding `count` fields gives `count` fields, and reads no more than there is.
pub proof fn lemma_parse_fields_bound(of: Seq<Layout>, s: Seq<u8>, count: nat)
    requires
        count <= of.len(),
    ensures
        parse_fields(of, s, count) matches Ok((fields, n)) ==> n <= s.len() && fields.len()
            == count,
        parse_fields(of, s, count) matches Err((_, n)) ==> n <= s.len(),
    decreases of, 0nat, count,
{
    if count > 0 {
        lemma_parse_fields_bound(of, s, (count - 1) as nat);
        if let Ok((_, n)) = parse_fields(of, s, (count - 1) as nat) {
            lemma_parse_bound(of[count - 1], s.skip(n as int));
        }
    }
}

/// The first element that fails to decode fails the whole sequence.
pub proof fn lemma_parse_repeated_fails(of: Layout, s: Seq<u8>, failed: nat, count: nat)
    requires
        failed <= count,
        parse_repeated(of, s, failed) is Err,
    ensures
        parse_repeated(of, s, count) == parse_repeated(of, s, failed),
    decreases count,
{
    if failed < count {
        lemma_parse_repeated_fails(of, s, failed, (count - 1) as nat);
    }
}

/// The first entry that fails to decode fails the whole map.
pub proof fn lemma_parse_entries_fails(l: Layout, s: Seq<u8>, failed: nat, count: nat)
    requires
        l is Mapping,
        failed <= count,
        parse_entries(l, s, failed) is Err,
    ensures
        parse_entries(l, s, count) == parse_entries(l, s, failed),
    decreases count,
{
    if failed < count {
        lemma_parse_entries_fails(l, s, failed, (count - 1) as nat);
    }
}

/// The first field that fails to decode fails the whole record.
pub proof fn lemma_parse_fields_fails(of: Seq<Layout>, s: Seq<u8>, failed: nat, count: nat)
    requires
        failed <= count <= of.len(),
        parse_fields(of, s, failed) is Err,
    ensures
        parse_fields(of, s, count) == parse_fields(of, s, failed),
    decreases count,
{
    if failed < count {
        lemma_parse_fields_fails(of, s, failed, (count - 1) as nat);
    }
}

/// Writing one more value appends its bytes to those of the values before it.
pub proof fn lemma_wire_all_step(ds: Seq<Datum>, i: int)
    requires
        0 <= i < ds.len(),
    ensures
        wire_all(ds.take(i + 1)) == wire_all(ds.take(i)) + wire(ds[i]),
{
    assert(ds.take(i + 1).drop_last() =~= ds.take(i));
}

/// Writing one more entry appends its key and its value to the bytes of the entries before
/// it.
pub proof fn lemma_wire_entries_step(es: Seq<(Datum, Datum)>, i: int)
    requires
        0 <= i < es.len(),
    ensures
        wire_entries(es.take(i + 1)) == wire_entries(es.take(i)) + wire(es[i].0) + wire(es[i].1),
{
    assert(es.take(i + 1).drop_last() =~= es.take(i));
}

} // verus!
