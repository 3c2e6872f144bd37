//! Fixed-width encoding of token amounts.
//!
//! An amount is a signed 64-bit integer, stored as eight bytes, most
//! significant first, in two's complement.

use vstd::arithmetic::div_mod::{lemma_hoist_over_denominator, lemma_mod_multiples_vanish};
use vstd::prelude::*;

verus! {

/// Number of bytes of an encoded amount.
pub const AMOUNT_LEN: usize = 8;

/// `v` is representable as a signed 64-bit integer.
pub open spec fn fits_i64(v: int) -> bool {
    -0x8000_0000_0000_0000 <= v <= 0x7fff_ffff_ffff_ffff
}

/// The eight bytes that encode `v`, most significant first.
///
/// Division and remainder are Euclidean, so a negative `v` yields its
/// two's-complement digits.
pub open spec fn amount_bytes(v: int) -> Seq<u8> {
    seq![
        ((v / 0x100_0000_0000_0000) % 256) as u8,
        ((v / 0x1_0000_0000_0000) % 256) as u8,
        ((v / 0x100_0000_0000) % 256) as u8,
        ((v / 0x1_0000_0000) % 256) as u8,
        ((v / 0x100_0000) % 256) as u8,
        ((v / 0x1_0000) % 256) as u8,
        ((v / 0x100) % 256) as u8,
        (v % 256) as u8,
    ]
}

/// The unsigned value of eight bytes read most significant first.
pub open spec fn unsigned_value(b: Seq<u8>) -> int
    recommends
        b.len() == 8,
{
    b[0] * 0x100_0000_0000_0000 + b[1] * 0x1_0000_0000_0000 + b[2] * 0x100_0000_0000 + b[3]
        * 0x1_0000_0000 + b[4] * 0x100_0000 + b[5] * 0x1_0000 + b[6] * 0x100 + b[7]
}

/// The amount that eight bytes encode.
pub open spec fn bytes_amount(b: Seq<u8>) -> int
    recommends
        b.len() == 8,
{
    let u = unsigned_value(b);
    if u < 0x8000_0000_0000_0000 {
        u
    } else {
        u - 0x1_0000_0000_0000_0000
    }
}

/// Subtracting `2^64` changes no digit: here the digit of weight `c`, where
/// `256 * j * c` is `2^64`.
proof fn lemma_digit_wrap(u: int, c: int, j: int)
    requires
        c > 0,
        256 * j * c == 0x1_0000_0000_0000_0000,
    ensures
        ((u - 0x1_0000_0000_0000_0000) / c) % 256 == (u / c) % 256,
{
    assert((-(256 * j)) * c == -0x1_0000_0000_0000_0000) by (nonlinear_arith)
        requires
            256 * j * c == 0x1_0000_0000_0000_0000,
    ;
    lemma_hoist_over_denominator(u, -(256 * j), c as nat);
    assert((u - 0x1_0000_0000_0000_0000) / c == 256 * (-j) + u / c);
    lemma_mod_multiples_vanish(-j, u / c, 256);
}

/// Subtracting `2^64` changes no digit of the encoding.
proof fn lemma_digits_wrap(u: int)
    ensures
        amount_bytes(u - 0x1_0000_0000_0000_0000) == amount_bytes(u),
{
    lemma_digit_wrap(u, 0x100_0000_0000_0000, 0x1);
    lemma_digit_wrap(u, 0x1_0000_0000_0000, 0x100);
    lemma_digit_wrap(u, 0x100_0000_0000, 0x1_0000);
    lemma_digit_wrap(u, 0x1_0000_0000, 0x100_0000);
    lemma_digit_wrap(u, 0x100_0000, 0x1_0000_0000);
    lemma_digit_wrap(u, 0x1_0000, 0x100_0000_0000);
    lemma_digit_wrap(u, 0x100, 0x1_0000_0000_0000);
    lemma_digit_wrap(u, 1, 0x100_0000_0000_0000);
    assert(amount_bytes(u - 0x1_0000_0000_0000_0000) =~= amount_bytes(u));
}

/// The digits of an unsigned 64-bit value add up to the value.
proof fn lemma_digits_sum(u: u64)
    ensures
        unsigned_value(amount_bytes(u as int)) == u,
{
    assert(((u / 0x100_0000_0000_0000) % 256) * 0x100_0000_0000_0000 + ((u / 0x1_0000_0000_0000)
        % 256) * 0x1_0000_0000_0000 + ((u / 0x100_0000_0000) % 256) * 0x100_0000_0000 + ((u
        / 0x1_0000_0000) % 256) * 0x1_0000_0000 + ((u / 0x100_0000) % 256) * 0x100_0000 + ((u
        / 0x1_0000) % 256) * 0x1_0000 + ((u / 0x100) % 256) * 0x100 + (u % 256) == u)
        by (bit_vector);
}

/// Eight digits are the digits of their sum.
proof fn lemma_sum_digits(b: Seq<u8>)
    requires
        b.len() == 8,
    ensures
        0 <= unsigned_value(b) < 0x1_0000_0000_0000_0000,
        amount_bytes(unsigned_value(b)) == b,
{
    let (b0, b1, b2, b3) = (b[0], b[1], b[2], b[3]);
    let (b4, b5, b6, b7) = (b[4], b[5], b[6], b[7]);
    let u: u64 = (b0 * 0x100_0000_0000_0000 + b1 * 0x1_0000_0000_0000 + b2 * 0x100_0000_0000 + b3
        * 0x1_0000_0000 + b4 * 0x100_0000 + b5 * 0x1_0000 + b6 * 0x100 + b7) as u64;
    assert(u == unsigned_value(b));
    assert((u / 0x100_0000_0000_0000) % 256 == b0 && (u / 0x1_0000_0000_0000) % 256 == b1 && (u
        / 0x100_0000_0000) % 256 == b2 && (u / 0x1_0000_0000) % 256 == b3 && (u / 0x100_0000) % 256
        == b4 && (u / 0x1_0000) % 256 == b5 && (u / 0x100) % 256 == b6 && u % 256 == b7)
        by (bit_vector)
        requires
            u == b0 * 0x100_0000_0000_0000 + b1 * 0x1_0000_0000_0000 + b2 * 0x100_0000_0000 + b3
                * 0x1_0000_0000 + b4 * 0x100_0000 + b5 * 0x1_0000 + b6 * 0x100 + b7,
    ;
    assert(amount_bytes(u as int) =~= b);
}

/// Every eight-byte string encodes an amount in range, and encoding that
/// amount gives the same bytes back.
pub proof fn lemma_bytes_round_trip(b: Seq<u8>)
    requires
        b.len() == 8,
    ensures
        fits_i64(bytes_amount(b)),
        amount_bytes(bytes_amount(b)) == b,
{
    lemma_sum_digits(b);
    lemma_digits_wrap(unsigned_value(b));
}

/// Decoding the encoding of an amount in range gives the amount back.
pub proof fn lemma_amount_round_trip(v: int)
    requires
        fits_i64(v),
    ensures
        amount_bytes(v).len() == 8,
        bytes_amount(amount_bytes(v)) == v,
{
    if v >= 0 {
        lemma_digits_sum(v as u64);
    } else {
        let u = v + 0x1_0000_0000_0000_0000;
        lemma_digits_wrap(u);
        lemma_digits_sum(u as u64);
    }
}

/// Encodes an amount as eight bytes, most significant first.
pub fn encode_amount(v: i64) -> (bytes: Vec<u8>)
    ensures
        bytes@ == amount_bytes(v as int),
{
    let u: u64 = if v >= 0 {
        v as u64
    } else {
        ((v + 1 + i64::MAX) as u64) + 0x8000_0000_0000_0000u64
    };
    proof {
        if v < 0 {
            lemma_digits_wrap(u as int);
        }
    }
    let mut bytes: Vec<u8> = Vec::with_capacity(AMOUNT_LEN);
    bytes.push(((u / 0x100_0000_0000_0000) % 256) as u8);
    bytes.push(((u / 0x1_0000_0000_0000) % 256) as u8);
    bytes.push(((u / 0x100_0000_0000) % 256) as u8);
    bytes.push(((u / 0x1_0000_0000) % 256) as u8);
    bytes.push(((u / 0x100_0000) % 256) as u8);
    bytes.push(((u / 0x1_0000) % 256) as u8);
    bytes.push(((u / 0x100) % 256) as u8);
    bytes.push((u % 256) as u8);
    assert(bytes@ =~= amount_bytes(u as int));
    bytes
}

/// Decodes an amount. Anything but eight bytes is no amount.
pub fn decode_amount(bytes: &[u8]) -> (r: Option<i64>)
    ensures
        match r {
            Some(v) => bytes@.len() == 8 && v == bytes_amount(bytes@),
            None => bytes@.len() != 8,
        },
{
    if bytes.len() != AMOUNT_LEN {
        return None;
    }
    let u: u64 = (bytes[0] as u64) * 0x100_0000_0000_0000 + (bytes[1] as u64) * 0x1_0000_0000_0000
        + (bytes[2] as u64) * 0x100_0000_0000 + (bytes[3] as u64) * 0x1_0000_0000 + (
    bytes[4] as u64) * 0x100_0000 + (bytes[5] as u64) * 0x1_0000 + (bytes[6] as u64) * 0x100 + (
    bytes[7] as u64);
    if u < 0x8000_0000_0000_0000 {
        Some(u as i64)
    } else {
        Some(((u - 0x8000_0000_0000_0000) as i64) + i64::MIN)
    }
}

} // verus!
