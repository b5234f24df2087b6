//! Big-endian bytes and the numbers that they hold: each undoes the other.

use vstd::arithmetic::div_mod::{
    lemma_div_denominator, lemma_fundamental_div_mod, lemma_fundamental_div_mod_converse,
};
use vstd::prelude::*;
use crate::serialize::wire::{be16, be32, be64, from_be16, from_be32, from_be64};

verus! {

/// A number of 16 bits is the sum of its bytes, each weighted by its place.
proof fn lemma_digits_of_u16(v: u16)
    ensures
        ({
            let x = v as int;
            &&& 0 <= x / 0x100 < 0x100
            &&& x == (x / 0x100) * 0x100 + (x % 0x100)
        }),
{
    let x = v as int;
    let q0 = x;
    let q1 = q0 / 0x100;
    lemma_fundamental_div_mod(q0, 0x100);
    assert(q1 == x / 0x100);
}

/// The bytes of a sum of 2 weighted bytes are those bytes.
proof fn lemma_u16_of_digits(b0: u8, b1: u8)
    ensures
        ({
            let x = b0 * 0x100 + b1;
            &&& 0 <= x <= u16::MAX
            &&& x / 0x100 == b0
            &&& x % 0x100 == b1
        }),
{
    let x = b0 * 0x100 + b1;
    let y0 = x;
    let y1 = b0 as int;
    lemma_fundamental_div_mod_converse(y0, 0x100, y1, b1 as int);
    assert(x / 0x100 == y1);
}

/// Reading two big-endian bytes undoes writing them, whatever follows.
pub proof fn lemma_from_be16_of_be16(v: u16, rest: Seq<u8>)
    ensures
        from_be16(be16(v) + rest) == v,
{
    lemma_digits_of_u16(v);
    let s = be16(v) + rest;
    assert(s[0] == be16(v)[0]);
    assert(s[1] == be16(v)[1]);
}

/// Writing the number that two bytes hold gives those two bytes.
pub proof fn lemma_be16_of_from_be16(s: Seq<u8>)
    requires
        s.len() >= 2,
    ensures
        be16(from_be16(s)) == s.take(2),
{
    lemma_u16_of_digits(s[0], s[1]);
    assert(be16(from_be16(s)) =~= s.take(2));
}

/// A number of 32 bits is the sum of its bytes, each weighted by its place.
proof fn lemma_digits_of_u32(v: u32)
    ensures
        ({
            let x = v as int;
            &&& 0 <= x / 0x100_0000 < 0x100
            &&& x == (x / 0x100_0000) * 0x100_0000 + (x / 0x1_0000 % 0x100) * 0x1_0000
                + (x / 0x100 % 0x100) * 0x100 + (x % 0x100)
        }),
{
    let x = v as int;
    let q0 = x;
    let q1 = q0 / 0x100;
    lemma_fundamental_div_mod(q0, 0x100);
    assert(q1 == x / 0x100);
    let q2 = q1 / 0x100;
    lemma_fundamental_div_mod(q1, 0x100);
    lemma_div_denominator(x, 0x100, 0x100);
    assert(q2 == x / 0x1_0000);
    let q3 = q2 / 0x100;
    lemma_fundamental_div_mod(q2, 0x100);
    lemma_div_denominator(x, 0x1_0000, 0x100);
    assert(q3 == x / 0x100_0000);
}

/// The bytes of a sum of 4 weighted bytes are those bytes.
proof fn lemma_u32_of_digits(b0: u8, b1: u8, b2: u8, b3: u8)
    ensures
        ({
            let x = b0 * 0x100_0000 + b1 * 0x1_0000 + b2 * 0x100 + b3;
            &&& 0 <= x <= u32::MAX
            &&& x / 0x100_0000 == b0
            &&& x / 0x1_0000 % 0x100 == b1
            &&& x / 0x100 % 0x100 == b2
            &&& x % 0x100 == b3
        }),
{
    let x = b0 * 0x100_0000 + b1 * 0x1_0000 + b2 * 0x100 + b3;
    let y0 = x;
    let y1 = b0 * 0x1_0000 + b1 * 0x100 + b2;
    lemma_fundamental_div_mod_converse(y0, 0x100, y1, b3 as int);
    assert(x / 0x100 == y1);
    let y2 = b0 * 0x100 + b1;
    lemma_fundamental_div_mod_converse(y1, 0x100, y2, b2 as int);
    lemma_div_denominator(x, 0x100, 0x100);
    assert(x / 0x1_0000 == y2);
    let y3 = b0 as int;
    lemma_fundamental_div_mod_converse(y2, 0x100, y3, b1 as int);
    lemma_div_denominator(x, 0x1_0000, 0x100);
    assert(x / 0x100_0000 == y3);
}

/// Reading four big-endian bytes undoes writing them, whatever follows.
pub proof fn lemma_from_be32_of_be32(v: u32, rest: Seq<u8>)
    ensures
        from_be32(be32(v) + rest) == v,
{
    lemma_digits_of_u32(v);
    let s = be32(v) + rest;
    assert(s[0] == be32(v)[0]);
    assert(s[1] == be32(v)[1]);
    assert(s[2] == be32(v)[2]);
    assert(s[3] == be32(v)[3]);
}

/// Writing the number that four bytes hold gives those four bytes.
pub proof fn lemma_be32_of_from_be32(s: Seq<u8>)
    requires
        s.len() >= 4,
    ensures
        be32(from_be32(s)) == s.take(4),
{
    lemma_u32_of_digits(s[0], s[1], s[2], s[3]);
    assert(be32(from_be32(s)) =~= s.take(4));
}

/// A number of 64 bits is the sum of its bytes, each weighted by its place.
proof fn lemma_digits_of_u64(v: u64)
    ensures
        ({
            let x = v as int;
            &&& 0 <= x / 0x100_0000_0000_0000 < 0x100
            &&& x == (x / 0x100_0000_0000_0000) * 0x100_0000_0000_0000
                + (x / 0x1_0000_0000_0000 % 0x100) * 0x1_0000_0000_0000
                + (x / 0x100_0000_0000 % 0x100) * 0x100_0000_0000
                + (x / 0x1_0000_0000 % 0x100) * 0x1_0000_0000
                + (x / 0x100_0000 % 0x100) * 0x100_0000 + (x / 0x1_0000 % 0x100) * 0x1_0000
                + (x / 0x100 % 0x100) * 0x100 + (x % 0x100)
        }),
{
    let x = v as int;
    let q0 = x;
    let q1 = q0 / 0x100;
    lemma_fundamental_div_mod(q0, 0x100);
    assert(q1 == x / 0x100);
    let q2 = q1 / 0x100;
    lemma_fundamental_div_mod(q1, 0x100);
    lemma_div_denominator(x, 0x100, 0x100);
    assert(q2 == x / 0x1_0000);
    let q3 = q2 / 0x100;
    lemma_fundamental_div_mod(q2, 0x100);
    lemma_div_denominator(x, 0x1_0000, 0x100);
    assert(q3 == x / 0x100_0000);
    let q4 = q3 / 0x100;
    lemma_fundamental_div_mod(q3, 0x100);
    lemma_div_denominator(x, 0x100_0000, 0x100);
    assert(q4 == x / 0x1_0000_0000);
    let q5 = q4 / 0x100;
    lemma_fundamental_div_mod(q4, 0x100);
    lemma_div_denominator(x, 0x1_0000_0000, 0x100);
    assert(q5 == x / 0x100_0000_0000);
    let q6 = q5 / 0x100;
    lemma_fundamental_div_mod(q5, 0x100);
    lemma_div_denominator(x, 0x100_0000_0000, 0x100);
    assert(q6 == x / 0x1_0000_0000_0000);
    let q7 = q6 / 0x100;
    lemma_fundamental_div_mod(q6, 0x100);
    lemma_div_denominator(x, 0x1_0000_0000_0000, 0x100);
    assert(q7 == x / 0x100_0000_0000_0000);
}

/// The bytes of a sum of 8 weighted bytes are those bytes.
proof fn lemma_u64_of_digits(b0: u8, b1: u8, b2: u8, b3: u8, b4: u8, b5: u8, b6: u8, b7: u8)
    ensures
        ({
            let x = b0 * 0x100_0000_0000_0000 + b1 * 0x1_0000_0000_0000 + b2 * 0x100_0000_0000
                + b3 * 0x1_0000_0000 + b4 * 0x100_0000 + b5 * 0x1_0000 + b6 * 0x100 + b7;
            &&& 0 <= x <= u64::MAX
            &&& x / 0x100_0000_0000_0000 == b0
            &&& x / 0x1_0000_0000_0000 % 0x100 == b1
            &&& x / 0x100_0000_0000 % 0x100 == b2
            &&& x / 0x1_0000_0000 % 0x100 == b3
            &&& x / 0x100_0000 % 0x100 == b4
            &&& x / 0x1_0000 % 0x100 == b5
            &&& x / 0x100 % 0x100 == b6
            &&& x % 0x100 == b7
        }),
{
    let x = b0 * 0x100_0000_0000_0000 + b1 * 0x1_0000_0000_0000 + b2 * 0x100_0000_0000
        + b3 * 0x1_0000_0000 + b4 * 0x100_0000 + b5 * 0x1_0000 + b6 * 0x100 + b7;
    let y0 = x;
    let y1 = b0 * 0x1_0000_0000_0000 + b1 * 0x100_0000_0000 + b2 * 0x1_0000_0000 + b3 * 0x100_0000
        + b4 * 0x1_0000 + b5 * 0x100 + b6;
    lemma_fundamental_div_mod_converse(y0, 0x100, y1, b7 as int);
    assert(x / 0x100 == y1);
    let y2 = b0 * 0x100_0000_0000 + b1 * 0x1_0000_0000 + b2 * 0x100_0000 + b3 * 0x1_0000
        + b4 * 0x100 + b5;
    lemma_fundamental_div_mod_converse(y1, 0x100, y2, b6 as int);
    lemma_div_denominator(x, 0x100, 0x100);
    assert(x / 0x1_0000 == y2);
    let y3 = b0 * 0x1_0000_0000 + b1 * 0x100_0000 + b2 * 0x1_0000 + b3 * 0x100 + b4;
    lemma_fundamental_div_mod_converse(y2, 0x100, y3, b5 as int);
    lemma_div_denominator(x, 0x1_0000, 0x100);
    assert(x / 0x100_0000 == y3);
    let y4 = b0 * 0x100_0000 + b1 * 0x1_0000 + b2 * 0x100 + b3;
    lemma_fundamental_div_mod_converse(y3, 0x100, y4, b4 as int);
    lemma_div_denominator(x, 0x100_0000, 0x100);
    assert(x / 0x1_0000_0000 == y4);
    let y5 = b0 * 0x1_0000 + b1 * 0x100 + b2;
    lemma_fundamental_div_mod_converse(y4, 0x100, y5, b3 as int);
    lemma_div_denominator(x, 0x1_0000_0000, 0x100);
    assert(x / 0x100_0000_0000 == y5);
    let y6 = b0 * 0x100 + b1;
    lemma_fundamental_div_mod_converse(y5, 0x100, y6, b2 as int);
    lemma_div_denominator(x, 0x100_0000_0000, 0x100);
    assert(x / 0x1_0000_0000_0000 == y6);
    let y7 = b0 as int;
    lemma_fundamental_div_mod_converse(y6, 0x100, y7, b1 as int);
    lemma_div_denominator(x, 0x1_0000_0000_0000, 0x100);
    assert(x / 0x100_0000_0000_0000 == y7);
}

/// Reading eight big-endian bytes undoes writing them, whatever follows.
pub proof fn lemma_from_be64_of_be64(v: u64, rest: Seq<u8>)
    ensures
        from_be64(be64(v) + rest) == v,
{
    lemma_digits_of_u64(v);
    let s = be64(v) + rest;
    assert(s[0] == be64(v)[0]);
    assert(s[1] == be64(v)[1]);
    assert(s[2] == be64(v)[2]);
    assert(s[3] == be64(v)[3]);
    assert(s[4] == be64(v)[4]);
    assert(s[5] == be64(v)[5]);
    assert(s[6] == be64(v)[6]);
    assert(s[7] == be64(v)[7]);
}

/// Writing the number that eight bytes hold gives those eight bytes.
pub proof fn lemma_be64_of_from_be64(s: Seq<u8>)
    requires
        s.len() >= 8,
    ensures
        be64(from_be64(s)) == s.take(8),
{
    lemma_u64_of_digits(s[0], s[1], s[2], s[3], s[4], s[5], s[6], s[7]);
    assert(be64(from_be64(s)) =~= s.take(8));
}

} // verus!
