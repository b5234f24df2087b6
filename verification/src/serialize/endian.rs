//! Big-endian conversions, done by the `byteorder` crate.

use byteorder::{BigEndian, ByteOrder};
use vstd::prelude::*;
use crate::serialize::wire::{
    be16, be32, be64, bits16, bits32, bits64, from_be16, from_be32, from_be64, signed16, signed32,
    signed64,
};

verus! {

/// `byteorder::ByteOrder::write_u16` of `BigEndian` on a buffer of two bytes: the buffer then
/// holds `v`, most significant byte first.
#[verifier::external_body]
pub(crate) fn u16_to_bytes(v: u16) -> (bytes: [u8; 2])
    ensures
        bytes@ == be16(v),
{
    let mut bytes = [0u8; 2];
    BigEndian::write_u16(&mut bytes, v);
    bytes
}

/// `byteorder::ByteOrder::write_u32` of `BigEndian` on a buffer of four bytes: the buffer
/// then holds `v`, most significant byte first.
#[verifier::external_body]
pub(crate) fn u32_to_bytes(v: u32) -> (bytes: [u8; 4])
    ensures
        bytes@ == be32(v),
{
    let mut bytes = [0u8; 4];
    BigEndian::write_u32(&mut bytes, v);
    bytes
}

/// `byteorder::ByteOrder::write_u64` of `BigEndian` on a buffer of eight bytes: the buffer
/// then holds `v`, most significant byte first.
#[verifier::external_body]
pub(crate) fn u64_to_bytes(v: u64) -> (bytes: [u8; 8])
    ensures
        bytes@ == be64(v),
{
    let mut bytes = [0u8; 8];
    BigEndian::write_u64(&mut bytes, v);
    bytes
}

/// `byteorder::ByteOrder::write_i16` of `BigEndian` on a buffer of two bytes: the buffer then
/// holds the two's complement bits of `v`, most significant byte first.
#[verifier::external_body]
pub(crate) fn i16_to_bytes(v: i16) -> (bytes: [u8; 2])
    ensures
        bytes@ == be16(bits16(v)),
{
    let mut bytes = [0u8; 2];
    BigEndian::write_i16(&mut bytes, v);
    bytes
}

/// `byteorder::ByteOrder::write_i32` of `BigEndian` on a buffer of four bytes: the buffer
/// then holds the two's complement bits of `v`, most significant byte first.
#[verifier::external_body]
pub(crate) fn i32_to_bytes(v: i32) -> (bytes: [u8; 4])
    ensures
        bytes@ == be32(bits32(v)),
{
    let mut bytes = [0u8; 4];
    BigEndian::write_i32(&mut bytes, v);
    bytes
}

/// `byteorder::ByteOrder::write_i64` of `BigEndian` on a buffer of eight bytes: the buffer
/// then holds the two's complement bits of `v`, most significant byte first.
#[verifier::external_body]
pub(crate) fn i64_to_bytes(v: i64) -> (bytes: [u8; 8])
    ensures
        bytes@ == be64(bits64(v)),
{
    let mut bytes = [0u8; 8];
    BigEndian::write_i64(&mut bytes, v);
    bytes
}

/// `byteorder::ByteOrder::read_u16` of `BigEndian`: the number that the first two bytes of
/// `bytes` hold, most significant byte first. It panics on fewer than two bytes.
#[verifier::external_body]
pub(crate) fn u16_from_bytes(bytes: &[u8]) -> (v: u16)
    requires
        bytes@.len() >= 2,
    ensures
        v == from_be16(bytes@),
{
    BigEndian::read_u16(bytes)
}

/// `byteorder::ByteOrder::read_u32` of `BigEndian`: the number that the first four bytes of
/// `bytes` hold, most significant byte first. It panics on fewer than four bytes.
#[verifier::external_body]
pub(crate) fn u32_from_bytes(bytes: &[u8]) -> (v: u32)
    requires
        bytes@.len() >= 4,
    ensures
        v == from_be32(bytes@),
{
    BigEndian::read_u32(bytes)
}

/// `byteorder::ByteOrder::read_u64` of `BigEndian`: the number that the first eight bytes of
/// `bytes` hold, most significant byte first. It panics on fewer than eight bytes.
#[verifier::external_body]
pub(crate) fn u64_from_bytes(bytes: &[u8]) -> (v: u64)
    requires
        bytes@.len() >= 8,
    ensures
        v == from_be64(bytes@),
{
    BigEndian::read_u64(bytes)
}

/// `byteorder::ByteOrder::read_i16` of `BigEndian`: the number that the first two bytes of
/// `bytes` hold in two's complement, most significant byte first. It panics on fewer than
/// two bytes.
#[verifier::external_body]
pub(crate) fn i16_from_bytes(bytes: &[u8]) -> (v: i16)
    requires
        bytes@.len() >= 2,
    ensures
        v == signed16(from_be16(bytes@)),
{
    BigEndian::read_i16(bytes)
}

/// `byteorder::ByteOrder::read_i32` of `BigEndian`: the number that the first four bytes of
/// `bytes` hold in two's complement, most significant byte first. It panics on fewer than
/// four bytes.
#[verifier::external_body]
pub(crate) fn i32_from_bytes(bytes: &[u8]) -> (v: i32)
    requires
        bytes@.len() >= 4,
    ensures
        v == signed32(from_be32(bytes@)),
{
    BigEndian::read_i32(bytes)
}

/// `byteorder::ByteOrder::read_i64` of `BigEndian`: the number that the first eight bytes of
/// `bytes` hold in two's complement, most significant byte first. It panics on fewer than
/// eight bytes.
#[verifier::external_body]
pub(crate) fn i64_from_bytes(bytes: &[u8]) -> (v: i64)
    requires
        bytes@.len() >= 8,
    ensures
        v == signed64(from_be64(bytes@)),
{
    BigEndian::read_i64(bytes)
}

} // verus!
