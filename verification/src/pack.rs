//! Packing: from values to the bytes of their fields.

use vstd::prelude::*;
use crate::codec::{encode, packed};
use crate::endian::lemma_radix_pow_values;
use crate::error::StructError;
use crate::format::{parse_format, parse_format_string, Code, FormatCode};
use crate::integer::{to_i16, to_i32, to_i64, to_i8, to_u16, to_u32, to_u64, to_u8, Integer};
use crate::value::{data, Datum, Value};
use crate::wire::{
    write_i16, write_i32, write_i64, write_i8, write_u16, write_u32, write_u64, write_u8,
};

verus! {

/// The integer that `arg` holds; a value of another kind is a type error.
pub fn get_int(arg: &Value) -> (r: Result<&Integer, StructError>)
    ensures
        match *arg {
            Value::Int(i) => r == Ok::<&Integer, StructError>(&i),
            _ => r == Err::<&Integer, StructError>(StructError::Type),
        },
{
    match arg {
        Value::Int(i) => Ok(i),
        _ => Err(StructError::Type),
    }
}

/// Appends a field of code `b`: a signed integer in one byte.
pub fn pack_i8(arg: &Value, data: &mut Vec<u8>) -> (r: Result<(), StructError>)
    ensures
        packed(Code::SignedChar, arg@, old(data)@, final(data)@, r),
{
    proof {
        lemma_radix_pow_values();
    }
    let i = match get_int(arg) {
        Ok(i) => i,
        Err(e) => {
            return Err(e);
        },
    };
    match to_i8(i) {
        Some(v) => {
            write_i8(data, v);
            Ok(())
        },
        None => Err(StructError::Range),
    }
}

/// Appends a field of code `B`: an unsigned integer in one byte.
pub fn pack_u8(arg: &Value, data: &mut Vec<u8>) -> (r: Result<(), StructError>)
    ensures
        packed(Code::UnsignedChar, arg@, old(data)@, final(data)@, r),
{
    proof {
        lemma_radix_pow_values();
    }
    let i = match get_int(arg) {
        Ok(i) => i,
        Err(e) => {
            return Err(e);
        },
    };
    match to_u8(i) {
        Some(v) => {
            write_u8(data, v);
            Ok(())
        },
        None => Err(StructError::Range),
    }
}

/// Appends a field of code `?`: one byte, 1 for true and 0 for false.
pub fn pack_bool(arg: &Value, data: &mut Vec<u8>) -> (r: Result<(), StructError>)
    ensures
        packed(Code::Bool, arg@, old(data)@, final(data)@, r),
{
    match arg {
        Value::Bool(b) => {
            let v: u8 = if *b { 1 } else { 0 };
            write_u8(data, v);
            Ok(())
        },
        _ => Err(StructError::Type),
    }
}

/// Appends a field of code `h`: a signed integer in two bytes.
pub fn pack_i16(arg: &Value, data: &mut Vec<u8>) -> (r: Result<(), StructError>)
    ensures
        packed(Code::Short, arg@, old(data)@, final(data)@, r),
{
    proof {
        lemma_radix_pow_values();
    }
    let i = match get_int(arg) {
        Ok(i) => i,
        Err(e) => {
            return Err(e);
        },
    };
    match to_i16(i) {
        Some(v) => {
            write_i16(data, v);
            Ok(())
        },
        None => Err(StructError::Range),
    }
}

/// Appends a field of code `H`: an unsigned integer in two bytes.
pub fn pack_u16(arg: &Value, data: &mut Vec<u8>) -> (r: Result<(), StructError>)
    ensures
        packed(Code::UnsignedShort, arg@, old(data)@, final(data)@, r),
{
    proof {
        lemma_radix_pow_values();
    }
    let i = match get_int(arg) {
        Ok(i) => i,
        Err(e) => {
            return Err(e);
        },
    };
    match to_u16(i) {
        Some(v) => {
            write_u16(data, v);
            Ok(())
        },
        None => Err(StructError::Range),
    }
}

/// Appends a field of code `i` or `l`: a signed integer in four bytes.
pub fn pack_i32(arg: &Value, data: &mut Vec<u8>) -> (r: Result<(), StructError>)
    ensures
        packed(Code::Int, arg@, old(data)@, final(data)@, r),
{
    proof {
        lemma_radix_pow_values();
    }
    let i = match get_int(arg) {
        Ok(i) => i,
        Err(e) => {
            return Err(e);
        },
    };
    match to_i32(i) {
        Some(v) => {
            write_i32(data, v);
            Ok(())
        },
        None => Err(StructError::Range),
    }
}

/// Appends a field of code `I` or `L`: an unsigned integer in four bytes.
pub fn pack_u32(arg: &Value, data: &mut Vec<u8>) -> (r: Result<(), StructError>)
    ensures
        packed(Code::UnsignedInt, arg@, old(data)@, final(data)@, r),
{
    proof {
        lemma_radix_pow_values();
    }
    let i = match get_int(arg) {
        Ok(i) => i,
        Err(e) => {
            return Err(e);
        },
    };
    match to_u32(i) {
        Some(v) => {
            write_u32(data, v);
            Ok(())
        },
        None => Err(StructError::Range),
    }
}

/// Appends a field of code `q`: a signed integer in eight bytes.
pub fn pack_i64(arg: &Value, data: &mut Vec<u8>) -> (r: Result<(), StructError>)
    ensures
        packed(Code::LongLong, arg@, old(data)@, final(data)@, r),
{
    proof {
        lemma_radix_pow_values();
    }
    let i = match get_int(arg) {
        Ok(i) => i,
        Err(e) => {
            return Err(e);
        },
    };
    match to_i64(i) {
        Some(v) => {
            write_i64(data, v);
            Ok(())
        },
        None => Err(StructError::Range),
    }
}

/// Appends a field of code `Q`: an unsigned integer in eight bytes.
pub fn pack_u64(arg: &Value, data: &mut Vec<u8>) -> (r: Result<(), StructError>)
    ensures
        packed(Code::UnsignedLongLong, arg@, old(data)@, final(data)@, r),
{
    proof {
        lemma_radix_pow_values();
    }
    let i = match get_int(arg) {
        Ok(i) => i,
        Err(e) => {
            return Err(e);
        },
    };
    match to_u64(i) {
        Some(v) => {
            write_u64(data, v);
            Ok(())
        },
        None => Err(StructError::Range),
    }
}

/// Appends a field of code `f`: the bit pattern of a single-precision number, in
/// four bytes.
pub fn pack_f32(arg: &Value, data: &mut Vec<u8>) -> (r: Result<(), StructError>)
    ensures
        packed(Code::Float, arg@, old(data)@, final(data)@, r),
{
    match arg {
        Value::Single(bits) => {
            write_u32(data, *bits);
            Ok(())
        },
        _ => Err(StructError::Type),
    }
}

/// Appends a field of code `d`: the bit pattern of a double-precision number, in
/// eight bytes.
pub fn pack_f64(arg: &Value, data: &mut Vec<u8>) -> (r: Result<(), StructError>)
    ensures
        packed(Code::Double, arg@, old(data)@, final(data)@, r),
{
    match arg {
        Value::Double(bits) => {
            write_u64(data, *bits);
            Ok(())
        },
        _ => Err(StructError::Type),
    }
}

/// Appends a field of `code` that holds `arg`.
pub fn pack_one(code: Code, arg: &Value, data: &mut Vec<u8>) -> (r: Result<(), StructError>)
    ensures
        packed(code, arg@, old(data)@, final(data)@, r),
{
    match code {
        Code::SignedChar => pack_i8(arg, data),
        Code::UnsignedChar => pack_u8(arg, data),
        Code::Bool => pack_bool(arg, data),
        Code::Short => pack_i16(arg, data),
        Code::UnsignedShort => pack_u16(arg, data),
        Code::Int => pack_i32(arg, data),
        Code::UnsignedInt => pack_u32(arg, data),
        Code::Long => pack_i32(arg, data),
        Code::UnsignedLong => pack_u32(arg, data),
        Code::LongLong => pack_i64(arg, data),
        Code::UnsignedLongLong => pack_u64(arg, data),
        Code::Float => pack_f32(arg, data),
        Code::Double => pack_f64(arg, data),
    }
}

/// `prefix` put in front of the bytes of `r`, where `r` holds bytes.
pub open spec fn after(prefix: Seq<u8>, r: Result<Seq<u8>, StructError>) -> Result<
    Seq<u8>,
    StructError,
> {
    match r {
        Ok(bytes) => Ok(prefix + bytes),
        Err(e) => Err(e),
    }
}

/// The bytes of the fields that `codes` describe and `data` fill, field after field
/// with nothing in between; or, where a field cannot hold its datum, the error of
/// the first such field.
pub open spec fn pack_fields(codes: Seq<FormatCode>, data: Seq<Datum>) -> Result<
    Seq<u8>,
    StructError,
>
    recommends
        codes.len() == data.len(),
    decreases codes.len(),
{
    if codes.len() == 0 {
        Ok(Seq::empty())
    } else {
        match encode(codes[0].code, data[0]) {
            Ok(first) => after(first, pack_fields(codes.drop_first(), data.drop_first())),
            Err(e) => Err(e),
        }
    }
}

/// What packing `data` under the format string `format` gives.
///
/// The format string is parsed first; then the number of data is held against the
/// number of fields; only then are fields encoded.
pub open spec fn packing(format: Seq<char>, data: Seq<Datum>) -> Result<Seq<u8>, StructError> {
    match parse_format(format) {
        Ok(codes) => if codes.len() == data.len() {
            pack_fields(codes, data)
        } else {
            Err(StructError::Arity { expected: codes.len() as usize, got: data.len() as usize })
        },
        Err(e) => Err(e),
    }
}

/// Packs `args` under the format string `format`: one field for each code, each
/// holding the value at the same place in `args`, least significant byte first and
/// with no padding.
///
/// Fails, with no bytes to show, where `format` holds a character that is no code,
/// where `args` has another length than `format`, or where a field cannot hold its
/// value; of several such fields the first decides.
pub fn struct_pack(format: &str, args: &[Value]) -> (r: Result<Vec<u8>, StructError>)
    ensures
        match packing(format@, data(args@)) {
            Ok(bytes) => r is Ok && r->Ok_0@ == bytes,
            Err(e) => r == Err::<Vec<u8>, StructError>(e),
        },
        parse_format(format@) is Ok && format@.len() != args@.len() ==> r == Err::<
            Vec<u8>,
            StructError,
        >(StructError::Arity { expected: format@.len() as usize, got: args@.len() as usize }),
{
    let codes = match parse_format_string(format) {
        Ok(codes) => codes,
        Err(e) => {
            return Err(e);
        },
    };
    if codes.len() != args.len() {
        return Err(StructError::Arity { expected: codes.len(), got: args.len() });
    }
    let ghost all = data(args@);
    let mut bytes: Vec<u8> = Vec::new();
    let mut i: usize = 0;
    assert(codes@.skip(0) =~= codes@ && all.skip(0) =~= all);
    assert(after(bytes@, pack_fields(codes@, all)) == pack_fields(codes@, all)) by {
        if let Ok(rest) = pack_fields(codes@, all) {
            assert(bytes@ + rest =~= rest);
        }
    }
    while i < codes.len()
        invariant
            parse_format(format@) == Ok::<Seq<FormatCode>, StructError>(codes@),
            i <= codes@.len() == args@.len(),
            all == data(args@),
            pack_fields(codes@, all) == after(
                bytes@,
                pack_fields(codes@.skip(i as int), all.skip(i as int)),
            ),
        decreases codes@.len() - i,
    {
        let ghost before = bytes@;
        let ghost codes_left = codes@.skip(i as int);
        let ghost data_left = all.skip(i as int);
        assert(codes_left[0] == codes@[i as int] && data_left[0] == args@[i as int]@);
        assert(codes_left.drop_first() =~= codes@.skip(i + 1));
        assert(data_left.drop_first() =~= all.skip(i + 1));
        match pack_one(codes[i].code, &args[i], &mut bytes) {
            Ok(()) => {},
            Err(e) => {
                return Err(e);
            },
        }
        proof {
            let first = encode(codes@[i as int].code, args@[i as int]@)->Ok_0;
            if let Ok(rest) = pack_fields(codes@.skip(i + 1), all.skip(i + 1)) {
                assert((before + first) + rest =~= before + (first + rest));
            }
        }
        i = i + 1;
    }
    assert(pack_fields(codes@.skip(i as int), all.skip(i as int)) == Ok::<Seq<u8>, StructError>(
        Seq::empty(),
    ));
    assert(bytes@ + Seq::<u8>::empty() =~= bytes@);
    Ok(bytes)
}

} // verus!
