//! What holds of the wire format as a whole: decoding undoes encoding, and the encoding of a
//! value is the only byte sequence that decodes to it.

use vstd::prelude::*;
use vstd::utf8::{
    decode_utf8_encode_utf8, encode_utf8, encode_utf8_decode_utf8, encode_utf8_valid_utf8,
};
use crate::serialize::digits::{
    lemma_be16_of_from_be16, lemma_be32_of_from_be32, lemma_be64_of_from_be64,
    lemma_from_be16_of_be16, lemma_from_be32_of_be32, lemma_from_be64_of_be64,
};
use crate::serialize::error::ErrorKind;
use crate::serialize::value::{Datum, Layout};
use crate::serialize::wire::{
    be32, be64, bits16, bits32, bits64, bits8, conforms, conforms_all, conforms_each,
    conforms_entries, decoding, fits, fits_all, fits_entries, from_be16, from_be32, from_be64,
    lemma_wire_all_step, parse, parse_entries, parse_fields, parse_repeated, signed16, signed32,
    signed64, signed8, wire, wire_all, wire_entries,
};

verus! {

/// Whether `d` is a value without parts: a boolean, a number, a string, the unit or an
/// absent option.
pub open spec fn is_plain(d: Datum) -> bool {
    match d {
        Datum::Optional(Some(_)) => false,
        Datum::Sequence(_) => false,
        Datum::Mapping(_) => false,
        Datum::Tuple(_) => false,
        Datum::Variant(_, _) => false,
        _ => true,
    }
}

proof fn lemma_parse_wire_byte(d: Datum, l: Layout, rest: Seq<u8>)
    requires
        conforms(d, l),
        d is Bool || d is I8 || d is U8 || d is Unit || d == Datum::Optional(None),
    ensures
        parse(l, wire(d) + rest) == Ok::<(Datum, nat), (ErrorKind, nat)>((d, wire(d).len())),
{
    let s = wire(d) + rest;
    assert(s[0] == wire(d)[0]);
    if let Datum::I8(v) = d {
        assert(signed8(bits8(v)) == v);
    }
}

proof fn lemma_parse_wire_16(d: Datum, l: Layout, rest: Seq<u8>)
    requires
        conforms(d, l),
        d is I16 || d is U16,
    ensures
        parse(l, wire(d) + rest) == Ok::<(Datum, nat), (ErrorKind, nat)>((d, wire(d).len())),
{
    match d {
        Datum::I16(v) => {
            lemma_from_be16_of_be16(bits16(v), rest);
            assert(signed16(bits16(v)) == v);
        },
        Datum::U16(v) => {
            lemma_from_be16_of_be16(v, rest);
        },
        _ => {},
    }
}

proof fn lemma_parse_wire_32(d: Datum, l: Layout, rest: Seq<u8>)
    requires
        conforms(d, l),
        d is I32 || d is U32,
    ensures
        parse(l, wire(d) + rest) == Ok::<(Datum, nat), (ErrorKind, nat)>((d, wire(d).len())),
{
    match d {
        Datum::I32(v) => {
            lemma_from_be32_of_be32(bits32(v), rest);
            assert(signed32(bits32(v)) == v);
            assert(be32(bits32(v)).len() == 4);
        },
        Datum::U32(v) => {
            lemma_from_be32_of_be32(v, rest);
            assert(be32(v).len() == 4);
        },
        _ => {},
    }
}

proof fn lemma_parse_wire_64(d: Datum, l: Layout, rest: Seq<u8>)
    requires
        conforms(d, l),
        d is I64 || d is U64,
    ensures
        parse(l, wire(d) + rest) == Ok::<(Datum, nat), (ErrorKind, nat)>((d, wire(d).len())),
{
    match d {
        Datum::I64(v) => {
            lemma_from_be64_of_be64(bits64(v), rest);
            assert(signed64(bits64(v)) == v);
            assert(be64(bits64(v)).len() == 8);
        },
        Datum::U64(v) => {
            lemma_from_be64_of_be64(v, rest);
            assert(be64(v).len() == 8);
        },
        _ => {},
    }
}

proof fn lemma_parse_wire_str(d: Datum, l: Layout, rest: Seq<u8>)
    requires
        fits(d),
        conforms(d, l),
        d is Str,
    ensures
        parse(l, wire(d) + rest) == Ok::<(Datum, nat), (ErrorKind, nat)>((d, wire(d).len())),
{
    let chars = d->Str_0;
    let s = wire(d) + rest;
    let body = encode_utf8(chars);
    encode_utf8_valid_utf8(chars);
    encode_utf8_decode_utf8(chars);
    assert(s[0] == wire(d)[0]);
    assert(s.subrange(1, 1 + body.len() as int) =~= body);
}

/// A value without parts, followed by anything, decodes to that value.
pub proof fn lemma_parse_wire_plain(d: Datum, l: Layout, rest: Seq<u8>)
    requires
        fits(d),
        conforms(d, l),
        is_plain(d),
    ensures
        parse(l, wire(d) + rest) == Ok::<(Datum, nat), (ErrorKind, nat)>((d, wire(d).len())),
{
    match d {
        Datum::I16(_) | Datum::U16(_) => lemma_parse_wire_16(d, l, rest),
        Datum::I32(_) | Datum::U32(_) => lemma_parse_wire_32(d, l, rest),
        Datum::I64(_) | Datum::U64(_) => lemma_parse_wire_64(d, l, rest),
        Datum::Str(_) => lemma_parse_wire_str(d, l, rest),
        _ => lemma_parse_wire_byte(d, l, rest),
    }
}

proof fn lemma_parse_wire_counted(count: nat, body: Seq<u8>, rest: Seq<u8>)
    requires
        count <= u32::MAX,
    ensures
        ({
            let s = be32(count as u32) + body + rest;
            &&& s.len() >= 4
            &&& from_be32(s) == count
            &&& s.skip(4) == body + rest
            &&& (be32(count as u32) + body).len() == body.len() + 4
        }),
{
    let s = be32(count as u32) + body + rest;
    assert(s =~= be32(count as u32) + (body + rest));
    lemma_from_be32_of_be32(count as u32, body + rest);
    assert(be32(count as u32).len() == 4);
    assert(s.skip(4) =~= body + rest);
}

proof fn lemma_parse_wire_tagged(tag: u8, body: Seq<u8>, rest: Seq<u8>)
    ensures
        ({
            let s = seq![tag] + body + rest;
            &&& s.len() >= 1
            &&& s[0] == tag
            &&& s.skip(1) == body + rest
            &&& (seq![tag] + body).len() == body.len() + 1
        }),
{
    let s = seq![tag] + body + rest;
    assert(s.skip(1) =~= body + rest);
}

/// A value followed by anything decodes to that value, and to the bytes of that value
/// alone: what follows is left for the next read.
pub proof fn lemma_parse_wire(d: Datum, l: Layout, rest: Seq<u8>)
    requires
        fits(d),
        conforms(d, l),
    ensures
        parse(l, wire(d) + rest) == Ok::<(Datum, nat), (ErrorKind, nat)>((d, wire(d).len())),
    decreases d, 0nat,
{
    match d {
        Datum::Optional(Some(inner)) => {
            let of = l->Optional_0;
            lemma_parse_wire_tagged(1, wire(*inner), rest);
            lemma_parse_wire(*inner, *of, rest);
        },
        Datum::Sequence(items) => {
            let of = l->Sequence_0;
            lemma_parse_wire_counted(items.len(), wire_all(items), rest);
            lemma_parse_repeated_wire(items, *of, rest);
        },
        Datum::Mapping(entries) => {
            lemma_parse_wire_counted(entries.len(), wire_entries(entries), rest);
            lemma_parse_entries_wire(entries, l, rest);
        },
        Datum::Tuple(fields) => {
            let of = l->Tuple_0;
            assert(conforms_all(fields, of));
            assert(of.len() == fields.len());
            assert(fields.take(fields.len() as int) =~= fields);
            lemma_parse_fields_wire(fields, of, rest, fields.len());
        },
        Datum::Variant(index, fields) => {
            let of = l->Union_0[index as int];
            lemma_parse_wire_tagged(index as u8, wire_all(fields), rest);
            assert(conforms_all(fields, of));
            assert(of.len() == fields.len());
            assert((index as u8) as u32 == index);
            assert(fields.take(fields.len() as int) =~= fields);
            lemma_parse_fields_wire(fields, of, rest, fields.len());
        },
        _ => {
            lemma_parse_wire_plain(d, l, rest);
        },
    }
}

/// The elements of a sequence, followed by anything, decode to those elements.
pub proof fn lemma_parse_repeated_wire(ds: Seq<Datum>, of: Layout, rest: Seq<u8>)
    requires
        fits_all(ds),
        conforms_each(ds, of),
    ensures
        parse_repeated(of, wire_all(ds) + rest, ds.len()) == Ok::<(Seq<Datum>, nat), (ErrorKind, nat)>(
            (ds, wire_all(ds).len()),
        ),
    decreases ds, 0nat,
{
    if ds.len() > 0 {
        let init = ds.drop_last();
        let last = ds.last();
        let tail = wire(last) + rest;
        let s = wire_all(ds) + rest;
        lemma_parse_repeated_wire(init, of, tail);
        assert(s =~= wire_all(init) + tail);
        assert(s.skip(wire_all(init).len() as int) =~= tail);
        lemma_parse_wire(last, of, rest);
        assert(init.push(last) =~= ds);
    } else {
        assert(ds =~= Seq::<Datum>::empty());
    }
}

/// The entries of a map, followed by anything, decode to those entries.
pub proof fn lemma_parse_entries_wire(es: Seq<(Datum, Datum)>, l: Layout, rest: Seq<u8>)
    requires
        l is Mapping,
        fits_entries(es),
        conforms_entries(es, *l->Mapping_0, *l->Mapping_1),
    ensures
        parse_entries(l, wire_entries(es) + rest, es.len()) == Ok::<
            (Seq<(Datum, Datum)>, nat),
            (ErrorKind, nat),
        >((es, wire_entries(es).len())),
    decreases es, 0nat,
{
    if es.len() > 0 {
        let init = es.drop_last();
        let last = es.last();
        let after_key = wire(last.1) + rest;
        let tail = wire(last.0) + after_key;
        let s = wire_entries(es) + rest;
        let n = wire_entries(init).len() as int;
        lemma_parse_entries_wire(init, l, tail);
        assert(s =~= wire_entries(init) + tail);
        assert(s.skip(n) =~= tail);
        lemma_parse_wire(last.0, *l->Mapping_0, after_key);
        assert(s.skip(n + wire(last.0).len()) =~= after_key);
        lemma_parse_wire(last.1, *l->Mapping_1, rest);
        assert(init.push(last) =~= es);
    } else {
        assert(es =~= Seq::<(Datum, Datum)>::empty());
    }
}

/// The first `count` fields of a record, followed by anything, decode to those fields.
pub proof fn lemma_parse_fields_wire(ds: Seq<Datum>, of: Seq<Layout>, rest: Seq<u8>, count: nat)
    requires
        fits_all(ds),
        conforms_all(ds, of),
        count <= ds.len(),
    ensures
        parse_fields(of, wire_all(ds.take(count as int)) + rest, count) == Ok::<
            (Seq<Datum>, nat),
            (ErrorKind, nat),
        >((ds.take(count as int), wire_all(ds.take(count as int)).len())),
    decreases ds, count,
{
    if count > 0 {
        let init = ds.take(count - 1);
        let last = ds[count - 1];
        let tail = wire(last) + rest;
        let s = wire_all(ds.take(count as int)) + rest;
        lemma_parse_fields_wire(ds, of, tail, (count - 1) as nat);
        lemma_wire_all_step(ds, count - 1);
        assert(s =~= wire_all(init) + tail);
        assert(s.skip(wire_all(init).len() as int) =~= tail);
        lemma_parse_wire(last, of[count - 1], rest);
        assert(init.push(last) =~= ds.take(count as int));
    } else {
        assert(ds.take(0) =~= Seq::<Datum>::empty());
    }
}

/// Whether `l` is the shape of values without parts.
pub open spec fn is_plain_layout(l: Layout) -> bool {
    match l {
        Layout::Optional(_) => false,
        Layout::Sequence(_) => false,
        Layout::Mapping(_, _) => false,
        Layout::Tuple(_) => false,
        Layout::Union(_) => false,
        _ => true,
    }
}

proof fn lemma_wire_parse_byte(l: Layout, s: Seq<u8>)
    requires
        l is Bool || l is I8 || l is U8 || l is Unit,
    ensures
        parse(l, s) matches Ok((d, n)) ==> n <= s.len() && fits(d) && conforms(d, l) && wire(d)
            == s.take(n as int),
{
    if let Ok((d, n)) = parse(l, s) {
        assert(bits8(signed8(s[0])) == s[0]);
        assert(wire(d) =~= s.take(n as int));
    }
}

proof fn lemma_wire_parse_16(l: Layout, s: Seq<u8>)
    requires
        l is I16 || l is U16,
    ensures
        parse(l, s) matches Ok((d, n)) ==> n <= s.len() && fits(d) && conforms(d, l) && wire(d)
            == s.take(n as int),
{
    if let Ok((d, n)) = parse(l, s) {
        lemma_be16_of_from_be16(s);
        assert(bits16(signed16(from_be16(s))) == from_be16(s));
    }
}

proof fn lemma_wire_parse_32(l: Layout, s: Seq<u8>)
    requires
        l is I32 || l is U32,
    ensures
        parse(l, s) matches Ok((d, n)) ==> n <= s.len() && fits(d) && conforms(d, l) && wire(d)
            == s.take(n as int),
{
    if let Ok((d, n)) = parse(l, s) {
        lemma_be32_of_from_be32(s);
        assert(bits32(signed32(from_be32(s))) == from_be32(s));
    }
}

proof fn lemma_wire_parse_64(l: Layout, s: Seq<u8>)
    requires
        l is I64 || l is U64,
    ensures
        parse(l, s) matches Ok((d, n)) ==> n <= s.len() && fits(d) && conforms(d, l) && wire(d)
            == s.take(n as int),
{
    if let Ok((d, n)) = parse(l, s) {
        lemma_be64_of_from_be64(s);
        assert(bits64(signed64(from_be64(s))) == from_be64(s));
    }
}

proof fn lemma_wire_parse_str(l: Layout, s: Seq<u8>)
    requires
        l is Str,
    ensures
        parse(l, s) matches Ok((d, n)) ==> n <= s.len() && fits(d) && conforms(d, l) && wire(d)
            == s.take(n as int),
{
    if let Ok((d, n)) = parse(l, s) {
        let body = s.subrange(1, 1 + s[0]);
        decode_utf8_encode_utf8(body);
        assert(wire(d) =~= s.take(n as int));
    }
}

/// What decodes as a value without parts is such a value, and the bytes read are its
/// encoding.
pub proof fn lemma_wire_parse_plain(l: Layout, s: Seq<u8>)
    requires
        is_plain_layout(l),
    ensures
        parse(l, s) matches Ok((d, n)) ==> n <= s.len() && fits(d) && conforms(d, l) && wire(d)
            == s.take(n as int),
{
    match l {
        Layout::I16 | Layout::U16 => lemma_wire_parse_16(l, s),
        Layout::I32 | Layout::U32 => lemma_wire_parse_32(l, s),
        Layout::I64 | Layout::U64 => lemma_wire_parse_64(l, s),
        Layout::Str => lemma_wire_parse_str(l, s),
        _ => lemma_wire_parse_byte(l, s),
    }
}

/// What decodes is a value of the shape asked for that the format can carry, and the bytes
/// read are its encoding: no other bytes decode to it.
pub proof fn lemma_wire_parse(l: Layout, s: Seq<u8>)
    ensures
        parse(l, s) matches Ok((d, n)) ==> n <= s.len() && fits(d) && conforms(d, l) && wire(d)
            == s.take(n as int),
    decreases l, 1nat, 0nat,
{
    if let Ok((d, n)) = parse(l, s) {
        match l {
            Layout::Optional(of) => {
                if s[0] == 1 {
                    lemma_wire_parse(*of, s.skip(1));
                }
                assert(wire(d) =~= s.take(n as int));
            },
            Layout::Sequence(of) => {
                let count = from_be32(s) as nat;
                lemma_wire_parse_repeated(*of, s.skip(4), count);
                lemma_be32_of_from_be32(s);
                assert(wire(d) =~= s.take(n as int));
            },
            Layout::Mapping(key, value) => {
                let count = from_be32(s) as nat;
                lemma_wire_parse_entries(l, s.skip(4), count);
                lemma_be32_of_from_be32(s);
                assert(wire(d) =~= s.take(n as int));
            },
            Layout::Tuple(of) => {
                lemma_wire_parse_fields(of, s, of.len());
                assert(of.take(of.len() as int) =~= of);
            },
            Layout::Union(variants) => {
                let of = variants[s[0] as int];
                lemma_wire_parse_fields(of, s.skip(1), of.len());
                assert(of.take(of.len() as int) =~= of);
                assert(wire(d) =~= s.take(n as int));
            },
            _ => {
                lemma_wire_parse_plain(l, s);
            },
        }
    }
}

/// What decodes as the elements of a sequence are values of the element shape, and the
/// bytes read are their encodings, one after the other.
pub proof fn lemma_wire_parse_repeated(of: Layout, s: Seq<u8>, count: nat)
    ensures
        parse_repeated(of, s, count) matches Ok((ds, n)) ==> {
            &&& n <= s.len()
            &&& ds.len() == count
            &&& fits_all(ds)
            &&& conforms_each(ds, of)
            &&& wire_all(ds) == s.take(n as int)
        },
    decreases of, 2nat, count,
{
    if count > 0 {
        lemma_wire_parse_repeated(of, s, (count - 1) as nat);
        if let Ok((init, n)) = parse_repeated(of, s, (count - 1) as nat) {
            lemma_wire_parse(of, s.skip(n as int));
            if let Ok((last, m)) = parse(of, s.skip(n as int)) {
                let ds = init.push(last);
                assert(ds.drop_last() =~= init);
                assert(s.take(n as int) + s.skip(n as int).take(m as int) =~= s.take(
                    (n + m) as int,
                ));
            }
        }
    } else {
        assert(s.take(0) =~= Seq::<u8>::empty());
    }
}

/// What decodes as the entries of a map are keys and values of the shapes asked for, and
/// the bytes read are their encodings, one after the other.
pub proof fn lemma_wire_parse_entries(l: Layout, s: Seq<u8>, count: nat)
    requires
        l is Mapping,
    ensures
        parse_entries(l, s, count) matches Ok((es, n)) ==> {
            &&& n <= s.len()
            &&& es.len() == count
            &&& fits_entries(es)
            &&& conforms_entries(es, *l->Mapping_0, *l->Mapping_1)
            &&& wire_entries(es) == s.take(n as int)
        },
    decreases l, 0nat, count,
{
    if count > 0 {
        lemma_wire_parse_entries(l, s, (count - 1) as nat);
        if let Ok((init, n)) = parse_entries(l, s, (count - 1) as nat) {
            lemma_wire_parse(*l->Mapping_0, s.skip(n as int));
            if let Ok((k, m)) = parse(*l->Mapping_0, s.skip(n as int)) {
                lemma_wire_parse(*l->Mapping_1, s.skip(n as int + m as int));
                if let Ok((v, p)) = parse(*l->Mapping_1, s.skip(n as int + m as int)) {
                    let es = init.push((k, v));
                    assert(es.drop_last() =~= init);
                    assert(s.take(n as int) + s.skip(n as int).take(m as int) + s.skip(
                        n as int + m as int,
                    ).take(p as int) =~= s.take((n + m + p) as int));
                }
            }
        }
    } else {
        assert(s.take(0) =~= Seq::<u8>::empty());
    }
}

/// What decodes as the first `count` fields of a record are values of the shapes of those
/// fields, and the bytes read are their encodings, one after the other.
pub proof fn lemma_wire_parse_fields(of: Seq<Layout>, s: Seq<u8>, count: nat)
    requires
        count <= of.len(),
    ensures
        parse_fields(of, s, count) matches Ok((ds, n)) ==> {
            &&& n <= s.len()
            &&& fits_all(ds)
            &&& conforms_all(ds, of.take(count as int))
            &&& wire_all(ds) == s.take(n as int)
        },
    decreases of, 0nat, count,
{
    if count > 0 {
        lemma_wire_parse_fields(of, s, (count - 1) as nat);
        if let Ok((init, n)) = parse_fields(of, s, (count - 1) as nat) {
            lemma_wire_parse(of[count - 1], s.skip(n as int));
            if let Ok((last, m)) = parse(of[count - 1], s.skip(n as int)) {
                let ds = init.push(last);
                assert(ds.drop_last() =~= init);
                assert(s.take(n as int) + s.skip(n as int).take(m as int) =~= s.take(
                    (n + m) as int,
                ));
            }
        }
    } else {
        assert(s.take(0) =~= Seq::<u8>::empty());
    }
}

/// Round trip: a value of a shape that the format can carry decodes, from its own encoding,
/// to itself.
pub proof fn round_trip(d: Datum, l: Layout)
    requires
        fits(d),
        conforms(d, l),
    ensures
        decoding(l, wire(d)) == Ok::<Datum, ErrorKind>(d),
{
    lemma_parse_wire(d, l, Seq::empty());
    assert(wire(d) + Seq::<u8>::empty() =~= wire(d));
}

/// Decoding never normalises: bytes that decode to a value are the encoding of that value,
/// which is a value of the shape asked for that the format can carry.
pub proof fn decoded_bytes_are_the_encoding(l: Layout, s: Seq<u8>)
    ensures
        decoding(l, s) matches Ok(d) ==> fits(d) && conforms(d, l) && wire(d) == s,
{
    lemma_wire_parse(l, s);
    if let Ok((d, n)) = parse(l, s) {
        assert(s.take(s.len() as int) =~= s);
    }
}

/// Canonical form: encoding what the encoding of a value decodes to gives the same bytes
/// again.
pub proof fn canonical_form(d: Datum, l: Layout)
    requires
        fits(d),
        conforms(d, l),
    ensures
        decoding(l, wire(d)) matches Ok(back) && wire(back) == wire(d),
{
    round_trip(d, l);
}

/// One encoding each: two values of one shape with the same bytes are the same value.
pub proof fn encoding_is_injective(a: Datum, b: Datum, l: Layout)
    requires
        fits(a),
        fits(b),
        conforms(a, l),
        conforms(b, l),
        wire(a) == wire(b),
    ensures
        a == b,
{
    round_trip(a, l);
    round_trip(b, l);
}

/// Messages on a stream: values of one shape written back to back decode, one after the
/// other, to those values in order, and what follows them is left unread.
pub proof fn stream_of_messages(ds: Seq<Datum>, l: Layout, rest: Seq<u8>)
    requires
        fits_all(ds),
        conforms_each(ds, l),
    ensures
        parse_repeated(l, wire_all(ds) + rest, ds.len()) == Ok::<(Seq<Datum>, nat), (ErrorKind, nat)>(
            (ds, wire_all(ds).len()),
        ),
{
    lemma_parse_repeated_wire(ds, l, rest);
}

/// Whether every value of the shape `l` has at least one byte on the wire. Only a record
/// can have none: one without fields, or whose fields all have none.
pub open spec fn takes_bytes(l: Layout) -> bool
    decreases l,
{
    match l {
        Layout::Tuple(of) => any_takes_bytes(of, of.len()),
        _ => true,
    }
}

/// Whether one of the first `count` shapes of `ls` takes bytes.
pub open spec fn any_takes_bytes(ls: Seq<Layout>, count: nat) -> bool
    decreases ls, count,
{
    if count == 0 || count > ls.len() {
        false
    } else {
        any_takes_bytes(ls, (count - 1) as nat) || takes_bytes(ls[count - 1])
    }
}

/// At the end of the input a shape that takes bytes reports the end of input, and no other
/// failure; a shape that takes none decodes, reading nothing.
pub proof fn lemma_parse_at_end(l: Layout)
    ensures
        takes_bytes(l) ==> parse(l, Seq::empty()) == Err::<(Datum, nat), (ErrorKind, nat)>(
            (ErrorKind::UnexpectedEof, 0),
        ),
        !takes_bytes(l) ==> (parse(l, Seq::empty()) matches Ok((_, n)) && n == 0),
    decreases l, 1nat,
{
    if let Layout::Tuple(of) = l {
        lemma_parse_fields_at_end(of, of.len());
    }
}

/// At the end of the input the fields of a record report the end of input as soon as one
/// of them takes bytes, and decode, reading nothing, where none of them does.
pub proof fn lemma_parse_fields_at_end(of: Seq<Layout>, count: nat)
    requires
        count <= of.len(),
    ensures
        any_takes_bytes(of, count) ==> parse_fields(of, Seq::empty(), count) == Err::<
            (Seq<Datum>, nat),
            (ErrorKind, nat),
        >((ErrorKind::UnexpectedEof, 0)),
        !any_takes_bytes(of, count) ==> (parse_fields(of, Seq::empty(), count) matches Ok(
            (_, n),
        ) && n == 0),
    decreases of, 0nat, count,
{
    if count > 0 {
        lemma_parse_fields_at_end(of, (count - 1) as nat);
        lemma_parse_at_end(of[count - 1]);
        assert(Seq::<u8>::empty().skip(0) =~= Seq::<u8>::empty());
    }
}

/// A stream ends cleanly: where the input ends at the boundary of a message that takes
/// bytes, the next read reports the end of input.
pub proof fn end_of_input_at_a_message_boundary(l: Layout)
    requires
        takes_bytes(l),
    ensures
        parse(l, Seq::empty()) == Err::<(Datum, nat), (ErrorKind, nat)>(
            (ErrorKind::UnexpectedEof, 0),
        ),
{
    lemma_parse_at_end(l);
}

} // verus!
