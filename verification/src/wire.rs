//! The calls into `byteorder` that put fixed-width integers on the wire and take
//! them off it, always least significant byte first.
//!
//! Nothing in this file is proved. Each contract restates, over
//! [`le_bytes`](crate::endian::le_bytes) and [`le_value`](crate::endian::le_value),
//! what `byteorder` documents of the method that the body calls. Signed numbers
//! travel as their two's-complement pattern.

use byteorder::{LittleEndian, ReadBytesExt, WriteBytesExt};
use vstd::prelude::*;
use crate::endian::{le_bytes, le_value, to_signed, to_unsigned};

verus! {

/// `WriteBytesExt::write_i8` with a `Vec<u8>` as the writer, which cannot fail: the
/// byte that is the two's-complement pattern of `v` is appended.
#[verifier::external_body]
pub(crate) fn write_i8(data: &mut Vec<u8>, v: i8)
    ensures
        final(data)@ == old(data)@ + le_bytes(to_unsigned(v as int, 1), 1),
{
    data.write_i8(v).unwrap()
}

/// `WriteBytesExt::write_u8` with a `Vec<u8>` as the writer, which cannot fail: the
/// byte `v` is appended.
#[verifier::external_body]
pub(crate) fn write_u8(data: &mut Vec<u8>, v: u8)
    ensures
        final(data)@ == old(data)@ + le_bytes(v as nat, 1),
{
    data.write_u8(v).unwrap()
}

/// `WriteBytesExt::write_i16::<LittleEndian>` with a `Vec<u8>` as the writer, which
/// cannot fail: the two bytes of the two's-complement pattern of `v` are appended,
/// least significant first.
#[verifier::external_body]
pub(crate) fn write_i16(data: &mut Vec<u8>, v: i16)
    ensures
        final(data)@ == old(data)@ + le_bytes(to_unsigned(v as int, 2), 2),
{
    data.write_i16::<LittleEndian>(v).unwrap()
}

/// `WriteBytesExt::write_u16::<LittleEndian>` with a `Vec<u8>` as the writer, which
/// cannot fail: the two bytes of `v` are appended, least significant first.
#[verifier::external_body]
pub(crate) fn write_u16(data: &mut Vec<u8>, v: u16)
    ensures
        final(data)@ == old(data)@ + le_bytes(v as nat, 2),
{
    data.write_u16::<LittleEndian>(v).unwrap()
}

/// `WriteBytesExt::write_i32::<LittleEndian>` with a `Vec<u8>` as the writer, which
/// cannot fail: the four bytes of the two's-complement pattern of `v` are appended,
/// least significant first.
#[verifier::external_body]
pub(crate) fn write_i32(data: &mut Vec<u8>, v: i32)
    ensures
        final(data)@ == old(data)@ + le_bytes(to_unsigned(v as int, 4), 4),
{
    data.write_i32::<LittleEndian>(v).unwrap()
}

/// `WriteBytesExt::write_u32::<LittleEndian>` with a `Vec<u8>` as the writer, which
/// cannot fail: the four bytes of `v` are appended, least significant first.
#[verifier::external_body]
pub(crate) fn write_u32(data: &mut Vec<u8>, v: u32)
    ensures
        final(data)@ == old(data)@ + le_bytes(v as nat, 4),
{
    data.write_u32::<LittleEndian>(v).unwrap()
}

/// `WriteBytesExt::write_i64::<LittleEndian>` with a `Vec<u8>` as the writer, which
/// cannot fail: the eight bytes of the two's-complement pattern of `v` are appended,
/// least significant first.
#[verifier::external_body]
pub(crate) fn write_i64(data: &mut Vec<u8>, v: i64)
    ensures
        final(data)@ == old(data)@ + le_bytes(to_unsigned(v as int, 8), 8),
{
    data.write_i64::<LittleEndian>(v).unwrap()
}

/// `WriteBytesExt::write_u64::<LittleEndian>` with a `Vec<u8>` as the writer, which
/// cannot fail: the eight bytes of `v` are appended, least significant first.
#[verifier::external_body]
pub(crate) fn write_u64(data: &mut Vec<u8>, v: u64)
    ensures
        final(data)@ == old(data)@ + le_bytes(v as nat, 8),
{
    data.write_u64::<LittleEndian>(v).unwrap()
}

/// `ReadBytesExt::read_i8` with the bytes of `buffer` from `at` on as the reader: the
/// byte at `at` is read as a two's-complement number. The reader holds at least one
/// byte, so the read cannot fail.
#[verifier::external_body]
pub(crate) fn read_i8(buffer: &[u8], at: usize) -> (v: i8)
    requires
        at + 1 <= buffer@.len(),
    ensures
        v == to_signed(le_value(buffer@.subrange(at as int, at + 1)), 1),
{
    let mut rest = &buffer[at..];
    rest.read_i8().unwrap()
}

/// `ReadBytesExt::read_u8` with the bytes of `buffer` from `at` on as the reader: the
/// byte at `at` is read as an unsigned number. The reader holds at least one byte, so
/// the read cannot fail.
#[verifier::external_body]
pub(crate) fn read_u8(buffer: &[u8], at: usize) -> (v: u8)
    requires
        at + 1 <= buffer@.len(),
    ensures
        v == le_value(buffer@.subrange(at as int, at + 1)),
{
    let mut rest = &buffer[at..];
    rest.read_u8().unwrap()
}

/// `ReadBytesExt::read_i16::<LittleEndian>` with the bytes of `buffer` from `at` on as
/// the reader: the two bytes at `at` are read as a two's-complement number, least
/// significant first. The reader holds at least two bytes, so the read cannot fail.
#[verifier::external_body]
pub(crate) fn read_i16(buffer: &[u8], at: usize) -> (v: i16)
    requires
        at + 2 <= buffer@.len(),
    ensures
        v == to_signed(le_value(buffer@.subrange(at as int, at + 2)), 2),
{
    let mut rest = &buffer[at..];
    rest.read_i16::<LittleEndian>().unwrap()
}

/// `ReadBytesExt::read_u16::<LittleEndian>` with the bytes of `buffer` from `at` on as
/// the reader: the two bytes at `at` are read as an unsigned number, least significant
/// first. The reader holds at least two bytes, so the read cannot fail.
#[verifier::external_body]
pub(crate) fn read_u16(buffer: &[u8], at: usize) -> (v: u16)
    requires
        at + 2 <= buffer@.len(),
    ensures
        v == le_value(buffer@.subrange(at as int, at + 2)),
{
    let mut rest = &buffer[at..];
    rest.read_u16::<LittleEndian>().unwrap()
}

/// `ReadBytesExt::read_i32::<LittleEndian>` with the bytes of `buffer` from `at` on as
/// the reader: the four bytes at `at` are read as a two's-complement number, least
/// significant first. The reader holds at least four bytes, so the read cannot fail.
#[verifier::external_body]
pub(crate) fn read_i32(buffer: &[u8], at: usize) -> (v: i32)
    requires
        at + 4 <= buffer@.len(),
    ensures
        v == to_signed(le_value(buffer@.subrange(at as int, at + 4)), 4),
{
    let mut rest = &buffer[at..];
    rest.read_i32::<LittleEndian>().unwrap()
}

/// `ReadBytesExt::read_u32::<LittleEndian>` with the bytes of `buffer` from `at` on as
/// the reader: the four bytes at `at` are read as an unsigned number, least significant
/// first. The reader holds at least four bytes, so the read cannot fail.
#[verifier::external_body]
pub(crate) fn read_u32(buffer: &[u8], at: usize) -> (v: u32)
    requires
        at + 4 <= buffer@.len(),
    ensures
        v == le_value(buffer@.subrange(at as int, at + 4)),
{
    let mut rest = &buffer[at..];
    rest.read_u32::<LittleEndian>().unwrap()
}

/// `ReadBytesExt::read_i64::<LittleEndian>` with the bytes of `buffer` from `at` on as
/// the reader: the eight bytes at `at` are read as a two's-complement number, least
/// significant first. The reader holds at least eight bytes, so the read cannot fail.
#[verifier::external_body]
pub(crate) fn read_i64(buffer: &[u8], at: usize) -> (v: i64)
    requires
        at + 8 <= buffer@.len(),
    ensures
        v == to_signed(le_value(buffer@.subrange(at as int, at + 8)), 8),
{
    let mut rest = &buffer[at..];
    rest.read_i64::<LittleEndian>().unwrap()
}

/// `ReadBytesExt::read_u64::<LittleEndian>` with the bytes of `buffer` from `at` on as
/// the reader: the eight bytes at `at` are read as an unsigned number, least
/// significant first. The reader holds at least eight bytes, so the read cannot fail.
#[verifier::external_body]
pub(crate) fn read_u64(buffer: &[u8], at: usize) -> (v: u64)
    requires
        at + 8 <= buffer@.len(),
    ensures
        v == le_value(buffer@.subrange(at as int, at + 8)),
{
    let mut rest = &buffer[at..];
    rest.read_u64::<LittleEndian>().unwrap()
}

} // verus!
