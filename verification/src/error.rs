//! The ways in which packing and unpacking can fail.

use vstd::prelude::*;

verus! {

/// Why a call was refused. Every failure leaves the caller without a partial result.
#[derive(Debug, Clone, Copy, PartialEq, Eq, Structural)]
pub enum StructError {
    /// The format string holds `code`, which is no format code, as its character
    /// number `position` (counted from zero).
    Format { code: char, position: usize },
    /// The format string describes `expected` fields, but `got` values were supplied.
    Arity { expected: usize, got: usize },
    /// A value is of another kind than its field's code asks for.
    Type,
    /// An integer does not fit the width and signedness of its field.
    Range,
    /// The buffer ends before the last field does.
    BufferUnderrun,
}

} // verus!
