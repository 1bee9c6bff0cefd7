//! What holds of packing and unpacking taken together.
//!
//! The executable functions promise to return what [`packing`] and [`unpacking`]
//! say; the laws here are proved of those two, and so hold of every call.

use vstd::prelude::*;
use crate::codec::{decode, encode, in_range};
use crate::endian::{
    lemma_le_bytes_len, lemma_le_value_of_le_bytes, lemma_radix_pow_values,
    lemma_signed_round_trip, to_unsigned,
};
use crate::error::StructError;
use crate::format::{
    lemma_first_unknown, lemma_first_unknown_is, parse_format, Code, FormatCode, Kind,
};
use crate::pack::{pack_fields, packing};
use crate::unpack::{unpack_fields, unpacking};
use crate::value::Datum;

verus! {

/// The number of bytes that the fields of `codes` take together.
pub open spec fn total_width(codes: Seq<FormatCode>) -> nat
    decreases codes.len(),
{
    if codes.len() == 0 {
        0
    } else {
        codes[0].code.spec_width() + total_width(codes.drop_first())
    }
}

/// Each code is the code that its own character stands for.
pub proof fn law_letter_names_code(code: Code)
    ensures
        Code::spec_from_char(code.spec_letter()) == Some(code),
{
}

/// A format string parses exactly if each of its characters is a format code, and
/// then gives one entry for each character, in the order of the characters, each
/// with a repeat count of 1. Otherwise the error names the first character that is
/// no code, and its place.
pub proof fn law_parse(format: Seq<char>)
    requires
        format.len() <= usize::MAX,
    ensures
        parse_format(format) is Ok <==> forall|j: int|
            0 <= j < format.len() ==> Code::spec_from_char(#[trigger] format[j]) is Some,
        parse_format(format) matches Ok(codes) ==> {
            &&& codes.len() == format.len()
            &&& forall|j: int|
                0 <= j < codes.len() ==> (#[trigger] codes[j]).code.spec_letter() == format[j]
                    && codes[j].repeat == 1
        },
        parse_format(format) matches Err(e) ==> {
            &&& e matches StructError::Format { code, position }
            &&& position < format.len()
            &&& format[position as int] == code
            &&& Code::spec_from_char(code) is None
            &&& forall|j: int| 0 <= j < position ==> Code::spec_from_char(#[trigger] format[j]) is Some
        },
{
    lemma_first_unknown(format);
    if let Ok(codes) = parse_format(format) {
        assert forall|j: int| 0 <= j < codes.len() implies (#[trigger] codes[j]).code.spec_letter()
            == format[j] && codes[j].repeat == 1 by {
            assert(Code::spec_from_char(format[j]) is Some);
        }
    }
}

/// The range of each integer code, in numbers: what one, two, four and eight bytes
/// hold, signed and unsigned. The other codes hold no integer.
pub proof fn law_ranges(x: int)
    ensures
        in_range(Code::SignedChar, x) <==> -0x80 <= x <= 0x7f,
        in_range(Code::UnsignedChar, x) <==> 0 <= x <= 0xff,
        in_range(Code::Short, x) <==> -0x8000 <= x <= 0x7fff,
        in_range(Code::UnsignedShort, x) <==> 0 <= x <= 0xffff,
        in_range(Code::Int, x) <==> -0x8000_0000 <= x <= 0x7fff_ffff,
        in_range(Code::UnsignedInt, x) <==> 0 <= x <= 0xffff_ffff,
        in_range(Code::Long, x) <==> -0x8000_0000 <= x <= 0x7fff_ffff,
        in_range(Code::UnsignedLong, x) <==> 0 <= x <= 0xffff_ffff,
        in_range(Code::LongLong, x) <==> -0x8000_0000_0000_0000 <= x <= 0x7fff_ffff_ffff_ffff,
        in_range(Code::UnsignedLongLong, x) <==> 0 <= x <= 0xffff_ffff_ffff_ffff,
        !in_range(Code::Bool, x),
        !in_range(Code::Float, x),
        !in_range(Code::Double, x),
{
    lemma_radix_pow_values();
}

/// When a field can hold a datum: an integer field holds the integers of its range,
/// and each other field holds the data of its own kind. An integer that is beyond
/// the range of its integer field is a range error; every other mismatch is a type
/// error.
pub proof fn law_encodable(code: Code, datum: Datum)
    ensures
        encode(code, datum) is Ok <==> match datum {
            Datum::Int(x) => in_range(code, x),
            Datum::Bool(_) => code.spec_kind() == Kind::Bool,
            Datum::Single(_) => code.spec_kind() == Kind::Single,
            Datum::Double(_) => code.spec_kind() == Kind::Double,
            Datum::Other => false,
        },
        encode(code, datum) matches Err(e) ==> (e == StructError::Range || e == StructError::Type),
        encode(code, datum) == Err::<Seq<u8>, StructError>(StructError::Range) <==> {
            &&& datum matches Datum::Int(x)
            &&& code.spec_kind() == Kind::Signed || code.spec_kind() == Kind::Unsigned
            &&& !in_range(code, x)
        },
{
}

/// The codes `l` and `L` are `i` and `I` under another name.
pub proof fn law_long_is_int(datum: Datum, bytes: Seq<u8>)
    ensures
        encode(Code::Long, datum) == encode(Code::Int, datum),
        encode(Code::UnsignedLong, datum) == encode(Code::UnsignedInt, datum),
        decode(Code::Long, bytes) == decode(Code::Int, bytes),
        decode(Code::UnsignedLong, bytes) == decode(Code::UnsignedInt, bytes),
{
}

/// A field that can be encoded takes exactly the width of its code.
pub proof fn law_encoded_width(code: Code, datum: Datum)
    requires
        encode(code, datum) is Ok,
    ensures
        encode(code, datum)->Ok_0.len() == code.spec_width(),
{
    let width = code.spec_width();
    match datum {
        Datum::Int(x) => {
            lemma_le_bytes_len(to_unsigned(x, width), width);
            lemma_le_bytes_len(x as nat, width);
        },
        Datum::Bool(b) => {
            lemma_le_bytes_len(if b { 1 } else { 0 }, width);
        },
        Datum::Single(bits) => {
            lemma_le_bytes_len(bits as nat, width);
        },
        Datum::Double(bits) => {
            lemma_le_bytes_len(bits as nat, width);
        },
        Datum::Other => {},
    }
}

/// Decoding the bytes of a field gives back the datum that was encoded.
pub proof fn law_field_round_trip(code: Code, datum: Datum)
    requires
        encode(code, datum) is Ok,
    ensures
        decode(code, encode(code, datum)->Ok_0) == datum,
{
    let width = code.spec_width();
    lemma_radix_pow_values();
    match datum {
        Datum::Int(x) => {
            if code.spec_kind() == Kind::Signed {
                lemma_signed_round_trip(x, width);
                lemma_le_value_of_le_bytes(to_unsigned(x, width), width);
            } else {
                lemma_le_value_of_le_bytes(x as nat, width);
            }
        },
        Datum::Bool(b) => {
            lemma_le_value_of_le_bytes(if b { 1 } else { 0 }, width);
        },
        Datum::Single(bits) => {
            lemma_le_value_of_le_bytes(bits as nat, width);
        },
        Datum::Double(bits) => {
            lemma_le_value_of_le_bytes(bits as nat, width);
        },
        Datum::Other => {},
    }
}

/// A packed buffer is as long as the widths of its fields add up to.
pub proof fn law_packed_length(codes: Seq<FormatCode>, data: Seq<Datum>)
    requires
        codes.len() == data.len(),
        pack_fields(codes, data) is Ok,
    ensures
        pack_fields(codes, data)->Ok_0.len() == total_width(codes),
    decreases codes.len(),
{
    if codes.len() > 0 {
        law_encoded_width(codes[0].code, data[0]);
        law_packed_length(codes.drop_first(), data.drop_first());
    }
}

/// Unpacking fails exactly if the buffer is shorter than the widths of the fields
/// add up to, and then with a buffer underrun; otherwise it gives one datum for each
/// field.
pub proof fn law_underrun(codes: Seq<FormatCode>, bytes: Seq<u8>)
    ensures
        bytes.len() < total_width(codes) ==> unpack_fields(codes, bytes) == Err::<
            Seq<Datum>,
            StructError,
        >(StructError::BufferUnderrun),
        bytes.len() >= total_width(codes) ==> unpack_fields(codes, bytes) is Ok
            && unpack_fields(codes, bytes)->Ok_0.len() == codes.len(),
    decreases codes.len(),
{
    if codes.len() > 0 {
        let width = codes[0].code.spec_width() as int;
        if bytes.len() >= width {
            law_underrun(codes.drop_first(), bytes.skip(width));
        }
    }
}

/// Bytes beyond the last field change nothing of what is unpacked.
pub proof fn law_trailing_bytes(codes: Seq<FormatCode>, bytes: Seq<u8>, extra: Seq<u8>)
    requires
        bytes.len() >= total_width(codes),
    ensures
        unpack_fields(codes, bytes + extra) == unpack_fields(codes, bytes),
    decreases codes.len(),
{
    if codes.len() > 0 {
        let width = codes[0].code.spec_width() as int;
        assert((bytes + extra).take(width) =~= bytes.take(width));
        assert((bytes + extra).skip(width) =~= bytes.skip(width) + extra);
        law_trailing_bytes(codes.drop_first(), bytes.skip(width), extra);
    }
}

/// Unpacking what was packed gives back the data, field for field.
pub proof fn law_fields_round_trip(codes: Seq<FormatCode>, data: Seq<Datum>)
    requires
        codes.len() == data.len(),
        pack_fields(codes, data) is Ok,
    ensures
        unpack_fields(codes, pack_fields(codes, data)->Ok_0) == Ok::<Seq<Datum>, StructError>(
            data,
        ),
    decreases codes.len(),
{
    let bytes = pack_fields(codes, data)->Ok_0;
    if codes.len() == 0 {
        assert(data =~= Seq::<Datum>::empty());
    } else {
        let width = codes[0].code.spec_width() as int;
        let first = encode(codes[0].code, data[0])->Ok_0;
        let rest = pack_fields(codes.drop_first(), data.drop_first())->Ok_0;
        law_encoded_width(codes[0].code, data[0]);
        law_field_round_trip(codes[0].code, data[0]);
        law_fields_round_trip(codes.drop_first(), data.drop_first());
        assert(bytes.take(width) =~= first);
        assert(bytes.skip(width) =~= rest);
        assert(seq![data[0]] + data.drop_first() =~= data);
    }
}

/// Round trip: where `data` can be packed under `format`, unpacking the packed
/// bytes under the same format gives `data` back.
pub proof fn law_round_trip(format: Seq<char>, data: Seq<Datum>)
    requires
        packing(format, data) is Ok,
    ensures
        unpacking(format, packing(format, data)->Ok_0) == Ok::<Seq<Datum>, StructError>(data),
{
    let codes = parse_format(format)->Ok_0;
    law_fields_round_trip(codes, data);
}

/// Round trip for one field: for each code and each datum that a field of the code
/// can hold, packing the datum under the code's character and unpacking the result
/// under the same character gives the datum back.
pub proof fn law_round_trip_one(code: Code, datum: Datum)
    requires
        encode(code, datum) is Ok,
    ensures
        packing(seq![code.spec_letter()], seq![datum]) is Ok,
        unpacking(seq![code.spec_letter()], packing(seq![code.spec_letter()], seq![datum])->Ok_0)
            == Ok::<Seq<Datum>, StructError>(seq![datum]),
{
    let format = seq![code.spec_letter()];
    let data = seq![datum];
    law_letter_names_code(code);
    lemma_first_unknown_is(format, 1);
    let codes = parse_format(format)->Ok_0;
    assert(codes =~= seq![FormatCode { code, repeat: 1 }]);
    assert(codes.drop_first() =~= Seq::<FormatCode>::empty());
    assert(data.drop_first() =~= Seq::<Datum>::empty());
    assert(pack_fields(codes.drop_first(), data.drop_first()) == Ok::<Seq<u8>, StructError>(
        Seq::empty(),
    ));
    assert(pack_fields(codes, data) is Ok);
    law_round_trip(format, data);
}

/// Arity: where the format string parses, data of another number than its fields
/// are refused for that reason, whatever the data are.
pub proof fn law_arity(format: Seq<char>, data: Seq<Datum>)
    requires
        parse_format(format) is Ok,
        format.len() != data.len(),
    ensures
        packing(format, data) == Err::<Seq<u8>, StructError>(
            StructError::Arity { expected: format.len() as usize, got: data.len() as usize },
        ),
{
}

} // verus!
