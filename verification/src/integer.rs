//! Integers of any size, and their narrowing to the fixed widths of the wire.
//!
//! An [`Integer`] holds its number as `num_bigint` hands it out and takes it in: in
//! two's complement, as base-256 digits, least significant first. The arithmetic on
//! such numbers is `num_bigint`'s; this module calls it and says what it is trusted
//! to return.

use num_bigint::BigInt;
use num_traits::ToPrimitive;
use vstd::prelude::*;
use crate::endian::{
    has_spare_byte, is_minimal, le_bytes, lemma_drop_spare_byte, lemma_le_bytes_len,
    lemma_le_value_of_le_bytes, lemma_le_value_push, lemma_radix_pow_values,
    lemma_signed_round_trip, radix_pow, signed_le_value, to_unsigned,
};
use crate::wire::{write_i64, write_u64};

verus! {

/// An integer of any size.
///
/// The number is kept in its shortest two's-complement form, so two integers are
/// the same number exactly if they hold the same bytes
/// ([`lemma_minimal_unique`](crate::endian::lemma_minimal_unique)); `==` compares
/// the bytes.
#[derive(Debug, PartialEq, Eq)]
pub struct Integer {
    bytes: Vec<u8>,
}

impl View for Integer {
    type V = int;

    /// The number itself.
    closed spec fn view(&self) -> int {
        signed_le_value(self.bytes@)
    }
}

/// Whether the top byte of `bytes` only repeats the sign.
fn spare_byte(bytes: &Vec<u8>) -> (r: bool)
    ensures
        r == has_spare_byte(bytes@),
{
    let n: usize = bytes.len();
    n >= 2 && (bytes[n - 1] == 0 && bytes[n - 2] < 128 || bytes[n - 1] == 255 && bytes[n - 2] >= 128)
}

/// The shortest two's-complement form of the number that `bytes` hold.
fn shortest(bytes: Vec<u8>) -> (r: Vec<u8>)
    ensures
        is_minimal(r@),
        signed_le_value(r@) == signed_le_value(bytes@),
{
    let mut bytes = bytes;
    let ghost number = signed_le_value(bytes@);
    if bytes.len() == 0 {
        bytes.push(0u8);
        proof {
            assert(bytes@ =~= Seq::<u8>::empty().push(0u8));
            lemma_le_value_push(Seq::<u8>::empty(), 0u8);
            lemma_radix_pow_values();
        }
    }
    while spare_byte(&bytes)
        invariant
            bytes@.len() >= 1,
            signed_le_value(bytes@) == number,
        decreases bytes@.len(),
    {
        proof {
            lemma_drop_spare_byte(bytes@);
        }
        bytes.pop();
    }
    bytes
}

impl Integer {
    #[verifier::type_invariant]
    spec fn shortest_form(self) -> bool {
        is_minimal(self.bytes@)
    }

    /// The integer that `bytes` hold in two's complement, least significant byte
    /// first. No bytes at all hold zero.
    pub fn from_signed_bytes_le(bytes: Vec<u8>) -> (r: Integer)
        ensures
            r@ == signed_le_value(bytes@),
    {
        Integer { bytes: shortest(bytes) }
    }

    /// The shortest two's-complement form of the number, least significant byte
    /// first.
    pub fn signed_bytes_le(&self) -> (r: &Vec<u8>)
        ensures
            is_minimal(r@),
            signed_le_value(r@) == self@,
    {
        proof {
            use_type_invariant(self);
        }
        &self.bytes
    }

    /// The integer `v`.
    pub fn from_i64(v: i64) -> (r: Integer)
        ensures
            r@ == v,
    {
        let mut bytes: Vec<u8> = Vec::new();
        write_i64(&mut bytes, v);
        proof {
            let pattern = to_unsigned(v as int, 8);
            lemma_radix_pow_values();
            lemma_signed_round_trip(v as int, 8);
            lemma_le_bytes_len(pattern, 8);
            lemma_le_value_of_le_bytes(pattern, 8);
            assert(bytes@ =~= le_bytes(pattern, 8));
        }
        Integer { bytes: shortest(bytes) }
    }

    /// The integer `v`.
    pub fn from_u64(v: u64) -> (r: Integer)
        ensures
            r@ == v,
    {
        let mut bytes: Vec<u8> = Vec::new();
        write_u64(&mut bytes, v);
        let ghost low = bytes@;
        bytes.push(0u8);
        proof {
            lemma_radix_pow_values();
            lemma_le_bytes_len(v as nat, 8);
            lemma_le_value_of_le_bytes(v as nat, 8);
            assert(low =~= le_bytes(v as nat, 8));
            lemma_le_value_push(low, 0u8);
            assert(radix_pow(9) == 256 * radix_pow(8));
        }
        Integer { bytes: shortest(bytes) }
    }
}

impl Clone for Integer {
    fn clone(&self) -> (r: Integer)
        ensures
            r@ == self@,
    {
        proof {
            use_type_invariant(self);
        }
        let bytes = self.bytes.clone();
        assert(bytes@ =~= self.bytes@);
        Integer { bytes }
    }
}

/// `BigInt::from_signed_bytes_le` on the bytes of `i`, then `ToPrimitive::to_i8`:
/// the number, where an `i8` can hold it, and `None` where it cannot.
#[verifier::external_body]
pub(crate) fn to_i8(i: &Integer) -> (r: Option<i8>)
    ensures
        r is Some <==> i8::MIN <= i@ <= i8::MAX,
        r matches Some(v) ==> v == i@,
{
    BigInt::from_signed_bytes_le(&i.bytes).to_i8()
}

/// `BigInt::from_signed_bytes_le` on the bytes of `i`, then `ToPrimitive::to_u8`:
/// the number, where an `u8` can hold it, and `None` where it cannot.
#[verifier::external_body]
pub(crate) fn to_u8(i: &Integer) -> (r: Option<u8>)
    ensures
        r is Some <==> u8::MIN <= i@ <= u8::MAX,
        r matches Some(v) ==> v == i@,
{
    BigInt::from_signed_bytes_le(&i.bytes).to_u8()
}

/// `BigInt::from_signed_bytes_le` on the bytes of `i`, then `ToPrimitive::to_i16`:
/// the number, where an `i16` can hold it, and `None` where it cannot.
#[verifier::external_body]
pub(crate) fn to_i16(i: &Integer) -> (r: Option<i16>)
    ensures
        r is Some <==> i16::MIN <= i@ <= i16::MAX,
        r matches Some(v) ==> v == i@,
{
    BigInt::from_signed_bytes_le(&i.bytes).to_i16()
}

/// `BigInt::from_signed_bytes_le` on the bytes of `i`, then `ToPrimitive::to_u16`:
/// the number, where a `u16` can hold it, and `None` where it cannot.
#[verifier::external_body]
pub(crate) fn to_u16(i: &Integer) -> (r: Option<u16>)
    ensures
        r is Some <==> u16::MIN <= i@ <= u16::MAX,
        r matches Some(v) ==> v == i@,
{
    BigInt::from_signed_bytes_le(&i.bytes).to_u16()
}

/// `BigInt::from_signed_bytes_le` on the bytes of `i`, then `ToPrimitive::to_i32`:
/// the number, where an `i32` can hold it, and `None` where it cannot.
#[verifier::external_body]
pub(crate) fn to_i32(i: &Integer) -> (r: Option<i32>)
    ensures
        r is Some <==> i32::MIN <= i@ <= i32::MAX,
        r matches Some(v) ==> v == i@,
{
    BigInt::from_signed_bytes_le(&i.bytes).to_i32()
}

/// `BigInt::from_signed_bytes_le` on the bytes of `i`, then `ToPrimitive::to_u32`:
/// the number, where a `u32` can hold it, and `None` where it cannot.
#[verifier::external_body]
pub(crate) fn to_u32(i: &Integer) -> (r: Option<u32>)
    ensures
        r is Some <==> u32::MIN <= i@ <= u32::MAX,
        r matches Some(v) ==> v == i@,
{
    BigInt::from_signed_bytes_le(&i.bytes).to_u32()
}

/// `BigInt::from_signed_bytes_le` on the bytes of `i`, then `ToPrimitive::to_i64`:
/// the number, where an `i64` can hold it, and `None` where it cannot.
#[verifier::external_body]
pub(crate) fn to_i64(i: &Integer) -> (r: Option<i64>)
    ensures
        r is Some <==> i64::MIN <= i@ <= i64::MAX,
        r matches Some(v) ==> v == i@,
{
    BigInt::from_signed_bytes_le(&i.bytes).to_i64()
}

/// `BigInt::from_signed_bytes_le` on the bytes of `i`, then `ToPrimitive::to_u64`:
/// the number, where a `u64` can hold it, and `None` where it cannot.
#[verifier::external_body]
pub(crate) fn to_u64(i: &Integer) -> (r: Option<u64>)
    ensures
        r is Some <==> u64::MIN <= i@ <= u64::MAX,
        r matches Some(v) ==> v == i@,
{
    BigInt::from_signed_bytes_le(&i.bytes).to_u64()
}

} // verus!
