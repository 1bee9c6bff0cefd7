//! Unpacking: from a buffer to the values of its fields.

use vstd::prelude::*;
use crate::codec::{decode, unpacked};
use crate::error::StructError;
use crate::format::{parse_format, parse_format_string, Code, FormatCode};
use crate::integer::Integer;
use crate::value::{data, Datum, Value};
use crate::wire::{read_i16, read_i32, read_i64, read_i8, read_u16, read_u32, read_u64, read_u8};

verus! {

/// A place in a buffer, from which fields are read one after the other.
pub struct Reader<'a> {
    buffer: &'a [u8],
    position: usize,
}

impl<'a> View for Reader<'a> {
    type V = Seq<u8>;

    /// The bytes that are left to read.
    closed spec fn view(&self) -> Seq<u8> {
        self.buffer@.skip(self.position as int)
    }
}

impl<'a> Reader<'a> {
    #[verifier::type_invariant]
    spec fn within(self) -> bool {
        self.position <= self.buffer@.len()
    }

    /// A reader at the start of `buffer`.
    pub fn new(buffer: &'a [u8]) -> (r: Reader<'a>)
        ensures
            r@ == buffer@,
    {
        Reader { buffer, position: 0 }
    }

    /// The number of bytes that are left to read.
    pub fn remaining(&self) -> (n: usize)
        ensures
            n == self@.len(),
    {
        proof {
            use_type_invariant(self);
        }
        self.buffer.len() - self.position
    }

    /// Steps over the next `width` bytes, where that many are left, and tells where
    /// in the buffer they start.
    fn advance(&mut self, width: usize) -> (r: Option<usize>)
        ensures
            final(self).buffer == old(self).buffer,
            match r {
                Some(at) => {
                    &&& width <= old(self)@.len()
                    &&& at + width <= old(self).buffer@.len()
                    &&& old(self).buffer@.subrange(at as int, at + width) == old(self)@.take(
                        width as int,
                    )
                    &&& final(self)@ == old(self)@.skip(width as int)
                },
                None => old(self)@.len() < width && final(self)@ == old(self)@,
            },
    {
        proof {
            use_type_invariant(&*self);
        }
        let at: usize = self.position;
        if self.buffer.len() - at < width {
            return None;
        }
        self.position = at + width;
        assert(old(self).buffer@.subrange(at as int, at + width) =~= old(self)@.take(width as int));
        assert(self@ =~= old(self)@.skip(width as int));
        Some(at)
    }
}

/// Reads a field of code `b`: one byte, a signed integer.
pub fn unpack_i8(rdr: &mut Reader) -> (r: Result<Value, StructError>)
    ensures
        unpacked(Code::SignedChar, old(rdr)@, final(rdr)@, r),
{
    match rdr.advance(1) {
        Some(at) => {
            let v: i8 = read_i8(rdr.buffer, at);
            Ok(Value::Int(Integer::from_i64(v as i64)))
        },
        None => Err(StructError::BufferUnderrun),
    }
}

/// Reads a field of code `B`: one byte, an unsigned integer.
pub fn unpack_u8(rdr: &mut Reader) -> (r: Result<Value, StructError>)
    ensures
        unpacked(Code::UnsignedChar, old(rdr)@, final(rdr)@, r),
{
    match rdr.advance(1) {
        Some(at) => {
            let v: u8 = read_u8(rdr.buffer, at);
            Ok(Value::Int(Integer::from_u64(v as u64)))
        },
        None => Err(StructError::BufferUnderrun),
    }
}

/// Reads a field of code `?`: one byte, true unless it is zero.
pub fn unpack_bool(rdr: &mut Reader) -> (r: Result<Value, StructError>)
    ensures
        unpacked(Code::Bool, old(rdr)@, final(rdr)@, r),
{
    match rdr.advance(1) {
        Some(at) => {
            let v: u8 = read_u8(rdr.buffer, at);
            Ok(Value::Bool(v > 0))
        },
        None => Err(StructError::BufferUnderrun),
    }
}

/// Reads a field of code `h`: two bytes, a signed integer.
pub fn unpack_i16(rdr: &mut Reader) -> (r: Result<Value, StructError>)
    ensures
        unpacked(Code::Short, old(rdr)@, final(rdr)@, r),
{
    match rdr.advance(2) {
        Some(at) => {
            let v: i16 = read_i16(rdr.buffer, at);
            Ok(Value::Int(Integer::from_i64(v as i64)))
        },
        None => Err(StructError::BufferUnderrun),
    }
}

/// Reads a field of code `H`: two bytes, an unsigned integer.
pub fn unpack_u16(rdr: &mut Reader) -> (r: Result<Value, StructError>)
    ensures
        unpacked(Code::UnsignedShort, old(rdr)@, final(rdr)@, r),
{
    match rdr.advance(2) {
        Some(at) => {
            let v: u16 = read_u16(rdr.buffer, at);
            Ok(Value::Int(Integer::from_u64(v as u64)))
        },
        None => Err(StructError::BufferUnderrun),
    }
}

/// Reads a field of code `i` or `l`: four bytes, a signed integer.
pub fn unpack_i32(rdr: &mut Reader) -> (r: Result<Value, StructError>)
    ensures
        unpacked(Code::Int, old(rdr)@, final(rdr)@, r),
{
    match rdr.advance(4) {
        Some(at) => {
            let v: i32 = read_i32(rdr.buffer, at);
            Ok(Value::Int(Integer::from_i64(v as i64)))
        },
        None => Err(StructError::BufferUnderrun),
    }
}

/// Reads a field of code `I` or `L`: four bytes, an unsigned integer.
pub fn unpack_u32(rdr: &mut Reader) -> (r: Result<Value, StructError>)
    ensures
        unpacked(Code::UnsignedInt, old(rdr)@, final(rdr)@, r),
{
    match rdr.advance(4) {
        Some(at) => {
            let v: u32 = read_u32(rdr.buffer, at);
            Ok(Value::Int(Integer::from_u64(v as u64)))
        },
        None => Err(StructError::BufferUnderrun),
    }
}

/// Reads a field of code `q`: eight bytes, a signed integer.
pub fn unpack_i64(rdr: &mut Reader) -> (r: Result<Value, StructError>)
    ensures
        unpacked(Code::LongLong, old(rdr)@, final(rdr)@, r),
{
    match rdr.advance(8) {
        Some(at) => {
            let v: i64 = read_i64(rdr.buffer, at);
            Ok(Value::Int(Integer::from_i64(v)))
        },
        None => Err(StructError::BufferUnderrun),
    }
}

/// Reads a field of code `Q`: eight bytes, an unsigned integer.
pub fn unpack_u64(rdr: &mut Reader) -> (r: Result<Value, StructError>)
    ensures
        unpacked(Code::UnsignedLongLong, old(rdr)@, final(rdr)@, r),
{
    match rdr.advance(8) {
        Some(at) => {
            let v: u64 = read_u64(rdr.buffer, at);
            Ok(Value::Int(Integer::from_u64(v)))
        },
        None => Err(StructError::BufferUnderrun),
    }
}

/// Reads a field of code `f`: four bytes, the bit pattern of a single-precision
/// number.
pub fn unpack_f32(rdr: &mut Reader) -> (r: Result<Value, StructError>)
    ensures
        unpacked(Code::Float, old(rdr)@, final(rdr)@, r),
{
    match rdr.advance(4) {
        Some(at) => {
            let bits: u32 = read_u32(rdr.buffer, at);
            Ok(Value::Single(bits))
        },
        None => Err(StructError::BufferUnderrun),
    }
}

/// Reads a field of code `d`: eight bytes, the bit pattern of a double-precision
/// number.
pub fn unpack_f64(rdr: &mut Reader) -> (r: Result<Value, StructError>)
    ensures
        unpacked(Code::Double, old(rdr)@, final(rdr)@, r),
{
    match rdr.advance(8) {
        Some(at) => {
            let bits: u64 = read_u64(rdr.buffer, at);
            Ok(Value::Double(bits))
        },
        None => Err(StructError::BufferUnderrun),
    }
}

/// Reads a field of `code`.
pub fn unpack_one(code: Code, rdr: &mut Reader) -> (r: Result<Value, StructError>)
    ensures
        unpacked(code, old(rdr)@, final(rdr)@, r),
{
    match code {
        Code::SignedChar => unpack_i8(rdr),
        Code::UnsignedChar => unpack_u8(rdr),
        Code::Bool => unpack_bool(rdr),
        Code::Short => unpack_i16(rdr),
        Code::UnsignedShort => unpack_u16(rdr),
        Code::Int => unpack_i32(rdr),
        Code::UnsignedInt => unpack_u32(rdr),
        Code::Long => unpack_i32(rdr),
        Code::UnsignedLong => unpack_u32(rdr),
        Code::LongLong => unpack_i64(rdr),
        Code::UnsignedLongLong => unpack_u64(rdr),
        Code::Float => unpack_f32(rdr),
        Code::Double => unpack_f64(rdr),
    }
}

/// `prefix` put in front of the data of `r`, where `r` holds data.
pub open spec fn following(prefix: Seq<Datum>, r: Result<Seq<Datum>, StructError>) -> Result<
    Seq<Datum>,
    StructError,
> {
    match r {
        Ok(rest) => Ok(prefix + rest),
        Err(e) => Err(e),
    }
}

/// What the fields that `codes` describe hold, where they lie one after the other
/// from the start of `bytes`; or a buffer underrun, where `bytes` ends before the
/// last field does. Bytes beyond the last field are passed over.
pub open spec fn unpack_fields(codes: Seq<FormatCode>, bytes: Seq<u8>) -> Result<
    Seq<Datum>,
    StructError,
>
    decreases codes.len(),
{
    if codes.len() == 0 {
        Ok(Seq::empty())
    } else {
        let width = codes[0].code.spec_width() as int;
        if bytes.len() >= width {
            following(
                seq![decode(codes[0].code, bytes.take(width))],
                unpack_fields(codes.drop_first(), bytes.skip(width)),
            )
        } else {
            Err(StructError::BufferUnderrun)
        }
    }
}

/// What unpacking `buffer` under the format string `format` gives.
pub open spec fn unpacking(format: Seq<char>, buffer: Seq<u8>) -> Result<Seq<Datum>, StructError> {
    match parse_format(format) {
        Ok(codes) => unpack_fields(codes, buffer),
        Err(e) => Err(e),
    }
}

/// Unpacks `buffer` under the format string `fmt`: one value for each code, read
/// from the fields that lie one after the other from the start of `buffer`.
///
/// Fails, with no values to show, where `fmt` holds a character that is no code or
/// where `buffer` ends before the last field does. A buffer that goes on beyond the
/// last field is in order.
pub fn struct_unpack(fmt: &str, buffer: &[u8]) -> (r: Result<Vec<Value>, StructError>)
    ensures
        match unpacking(fmt@, buffer@) {
            Ok(found) => r matches Ok(items) && data(items@) == found,
            Err(e) => r matches Err(x) && x == e,
        },
{
    let codes = match parse_format_string(fmt) {
        Ok(codes) => codes,
        Err(e) => {
            return Err(e);
        },
    };
    let mut rdr = Reader::new(buffer);
    let mut items: Vec<Value> = Vec::new();
    let mut i: usize = 0;
    assert(codes@.skip(0) =~= codes@);
    assert(following(data(items@), unpack_fields(codes@, buffer@)) == unpack_fields(
        codes@,
        buffer@,
    )) by {
        if let Ok(rest) = unpack_fields(codes@, buffer@) {
            assert(data(items@) + rest =~= rest);
        }
    }
    while i < codes.len()
        invariant
            parse_format(fmt@) == Ok::<Seq<FormatCode>, StructError>(codes@),
            i <= codes@.len(),
            unpack_fields(codes@, buffer@) == following(
                data(items@),
                unpack_fields(codes@.skip(i as int), rdr@),
            ),
        decreases codes@.len() - i,
    {
        let ghost found = data(items@);
        let ghost left = rdr@;
        let ghost codes_left = codes@.skip(i as int);
        let ghost width = codes@[i as int].code.spec_width() as int;
        assert(codes_left[0] == codes@[i as int]);
        assert(codes_left.drop_first() =~= codes@.skip(i + 1));
        let item = match unpack_one(codes[i].code, &mut rdr) {
            Ok(item) => item,
            Err(e) => {
                return Err(e);
            },
        };
        items.push(item);
        proof {
            let one = seq![decode(codes@[i as int].code, left.take(width))];
            assert(data(items@) =~= found + one);
            if let Ok(rest) = unpack_fields(codes@.skip(i + 1), rdr@) {
                assert((found + one) + rest =~= found + (one + rest));
            }
        }
        i = i + 1;
    }
    assert(unpack_fields(codes@.skip(i as int), rdr@) == Ok::<Seq<Datum>, StructError>(
        Seq::empty(),
    ));
    assert(data(items@) + Seq::<Datum>::empty() =~= data(items@));
    Ok(items)
}

} // verus!
