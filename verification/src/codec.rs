//! What each format code puts on the wire, and what it makes of what it finds there.

use vstd::prelude::*;
use crate::endian::{le_bytes, le_value, radix_pow, to_signed, to_unsigned};
use crate::error::StructError;
use crate::format::{Code, Kind};
use crate::value::{Datum, Value};

verus! {

/// Whether a field of `code` can hold the integer `x`.
pub open spec fn in_range(code: Code, x: int) -> bool {
    let limit = radix_pow(code.spec_width()) as int;
    match code.spec_kind() {
        Kind::Signed => -limit <= 2 * x < limit,
        Kind::Unsigned => 0 <= x < limit,
        _ => false,
    }
}

/// The bytes of a field of `code` that holds `datum`, or why it cannot hold it.
///
/// A datum of another kind than the code's is a [`StructError::Type`]; an integer
/// beyond the field's range is a [`StructError::Range`]. Integers are never cut down
/// to fit.
pub open spec fn encode(code: Code, datum: Datum) -> Result<Seq<u8>, StructError> {
    let width = code.spec_width();
    match (code.spec_kind(), datum) {
        (Kind::Signed, Datum::Int(x)) => if in_range(code, x) {
            Ok(le_bytes(to_unsigned(x, width), width))
        } else {
            Err(StructError::Range)
        },
        (Kind::Unsigned, Datum::Int(x)) => if in_range(code, x) {
            Ok(le_bytes(x as nat, width))
        } else {
            Err(StructError::Range)
        },
        (Kind::Bool, Datum::Bool(b)) => Ok(le_bytes(if b { 1 } else { 0 }, width)),
        (Kind::Single, Datum::Single(bits)) => Ok(le_bytes(bits as nat, width)),
        (Kind::Double, Datum::Double(bits)) => Ok(le_bytes(bits as nat, width)),
        _ => Err(StructError::Type),
    }
}

/// What a field of `code` holds whose bytes are `bytes`. Any byte but zero is a true
/// truth value.
pub open spec fn decode(code: Code, bytes: Seq<u8>) -> Datum
    recommends
        bytes.len() == code.spec_width(),
{
    match code.spec_kind() {
        Kind::Signed => Datum::Int(to_signed(le_value(bytes), code.spec_width())),
        Kind::Unsigned => Datum::Int(le_value(bytes) as int),
        Kind::Bool => Datum::Bool(le_value(bytes) > 0),
        Kind::Single => Datum::Single(le_value(bytes) as u32),
        Kind::Double => Datum::Double(le_value(bytes) as u64),
    }
}

/// How packing one field of `code` with `datum` may end: either the field's bytes
/// were appended to `before`, giving `after`, or the error is the one that
/// [`encode`] names and nothing was appended.
pub open spec fn packed(
    code: Code,
    datum: Datum,
    before: Seq<u8>,
    after: Seq<u8>,
    r: Result<(), StructError>,
) -> bool {
    match encode(code, datum) {
        Ok(bytes) => r is Ok && after == before + bytes,
        Err(e) => r == Err::<(), StructError>(e) && after == before,
    }
}

/// How unpacking one field of `code` may end, where `before` is what was left to
/// read and `after` is what is left then: either the field's bytes were taken from
/// the front and `r` holds what they [`decode`] to, or fewer bytes were left than
/// the field takes, and none was taken.
pub open spec fn unpacked(
    code: Code,
    before: Seq<u8>,
    after: Seq<u8>,
    r: Result<Value, StructError>,
) -> bool {
    let width = code.spec_width() as int;
    if before.len() >= width {
        &&& r matches Ok(value)
        &&& value@ == decode(code, before.take(width))
        &&& after == before.skip(width)
    } else {
        &&& r matches Err(e)
        &&& e == StructError::BufferUnderrun
        &&& after == before
    }
}

} // verus!
