//! The values that fields hold.

use vstd::prelude::*;
use crate::integer::Integer;

verus! {

/// A value to pack, or a value that was unpacked.
///
/// Floating-point numbers are held as what goes on the wire: their IEEE 754 bit
/// pattern, in single precision for a `Single` and in double precision for a
/// `Double`. Turning a number into its pattern, and rounding it to single precision
/// first where the field asks for that, is arithmetic that is left to the caller.
#[derive(Debug, PartialEq, Eq)]
pub enum Value {
    /// An integer of any size.
    Int(Integer),
    /// A truth value.
    Bool(bool),
    /// The bit pattern of a single-precision number.
    Single(u32),
    /// The bit pattern of a double-precision number.
    Double(u64),
    /// A value of any other kind, such as a host may hold. No field holds one.
    Other,
}

/// What a [`Value`] stands for: the same as the value, with the integer as a
/// mathematical integer.
pub ghost enum Datum {
    /// An integer.
    Int(int),
    /// A truth value.
    Bool(bool),
    /// The bit pattern of a single-precision number.
    Single(u32),
    /// The bit pattern of a double-precision number.
    Double(u64),
    /// A value of any other kind.
    Other,
}

impl View for Value {
    type V = Datum;

    open spec fn view(&self) -> Datum {
        match self {
            Value::Int(i) => Datum::Int(i@),
            Value::Bool(b) => Datum::Bool(*b),
            Value::Single(bits) => Datum::Single(*bits),
            Value::Double(bits) => Datum::Double(*bits),
            Value::Other => Datum::Other,
        }
    }
}

impl Clone for Value {
    fn clone(&self) -> (r: Value)
        ensures
            r@ == self@,
    {
        match self {
            Value::Int(i) => Value::Int(i.clone()),
            Value::Bool(b) => Value::Bool(*b),
            Value::Single(bits) => Value::Single(*bits),
            Value::Double(bits) => Value::Double(*bits),
            Value::Other => Value::Other,
        }
    }
}

/// What each of `values` stands for, in order.
pub open spec fn data(values: Seq<Value>) -> Seq<Datum> {
    values.map_values(|v: Value| v@)
}

} // verus!
