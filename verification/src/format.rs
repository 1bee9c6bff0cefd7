//! Format strings: the codes, what each stands for, and the parser.

use vstd::prelude::*;
use crate::error::StructError;

verus! {

/// A format code: what one character of a format string asks for.
#[derive(Debug, Clone, Copy, PartialEq, Eq, Structural)]
pub enum Code {
    /// `b`
    SignedChar,
    /// `B`
    UnsignedChar,
    /// `?`
    Bool,
    /// `h`
    Short,
    /// `H`
    UnsignedShort,
    /// `i`
    Int,
    /// `I`
    UnsignedInt,
    /// `l`
    Long,
    /// `L`
    UnsignedLong,
    /// `q`
    LongLong,
    /// `Q`
    UnsignedLongLong,
    /// `f`
    Float,
    /// `d`
    Double,
}

/// The kind of value that a field holds.
#[derive(Debug, Clone, Copy, PartialEq, Eq, Structural)]
pub enum Kind {
    /// An integer, stored in two's complement.
    Signed,
    /// An integer that is not negative.
    Unsigned,
    /// A truth value, stored as 0 or 1.
    Bool,
    /// A floating-point number in single precision.
    Single,
    /// A floating-point number in double precision.
    Double,
}

impl Code {
    /// The code that `c` stands for, if it stands for one.
    pub open spec fn spec_from_char(c: char) -> Option<Code> {
        if c == 'b' {
            Some(Code::SignedChar)
        } else if c == 'B' {
            Some(Code::UnsignedChar)
        } else if c == '?' {
            Some(Code::Bool)
        } else if c == 'h' {
            Some(Code::Short)
        } else if c == 'H' {
            Some(Code::UnsignedShort)
        } else if c == 'i' {
            Some(Code::Int)
        } else if c == 'I' {
            Some(Code::UnsignedInt)
        } else if c == 'l' {
            Some(Code::Long)
        } else if c == 'L' {
            Some(Code::UnsignedLong)
        } else if c == 'q' {
            Some(Code::LongLong)
        } else if c == 'Q' {
            Some(Code::UnsignedLongLong)
        } else if c == 'f' {
            Some(Code::Float)
        } else if c == 'd' {
            Some(Code::Double)
        } else {
            None
        }
    }

    /// The code that `c` stands for, if it stands for one.
    #[verifier::when_used_as_spec(spec_from_char)]
    pub fn from_char(c: char) -> (r: Option<Code>)
        ensures
            r == Code::spec_from_char(c),
    {
        match c {
            'b' => Some(Code::SignedChar),
            'B' => Some(Code::UnsignedChar),
            '?' => Some(Code::Bool),
            'h' => Some(Code::Short),
            'H' => Some(Code::UnsignedShort),
            'i' => Some(Code::Int),
            'I' => Some(Code::UnsignedInt),
            'l' => Some(Code::Long),
            'L' => Some(Code::UnsignedLong),
            'q' => Some(Code::LongLong),
            'Q' => Some(Code::UnsignedLongLong),
            'f' => Some(Code::Float),
            'd' => Some(Code::Double),
            _ => None,
        }
    }

    /// The character that stands for the code.
    pub open spec fn spec_letter(self) -> char {
        match self {
            Code::SignedChar => 'b',
            Code::UnsignedChar => 'B',
            Code::Bool => '?',
            Code::Short => 'h',
            Code::UnsignedShort => 'H',
            Code::Int => 'i',
            Code::UnsignedInt => 'I',
            Code::Long => 'l',
            Code::UnsignedLong => 'L',
            Code::LongLong => 'q',
            Code::UnsignedLongLong => 'Q',
            Code::Float => 'f',
            Code::Double => 'd',
        }
    }

    /// The character that stands for the code.
    #[verifier::when_used_as_spec(spec_letter)]
    pub fn letter(self) -> (c: char)
        ensures
            c == self.spec_letter(),
    {
        match self {
            Code::SignedChar => 'b',
            Code::UnsignedChar => 'B',
            Code::Bool => '?',
            Code::Short => 'h',
            Code::UnsignedShort => 'H',
            Code::Int => 'i',
            Code::UnsignedInt => 'I',
            Code::Long => 'l',
            Code::UnsignedLong => 'L',
            Code::LongLong => 'q',
            Code::UnsignedLongLong => 'Q',
            Code::Float => 'f',
            Code::Double => 'd',
        }
    }

    /// The number of bytes that a field of the code takes.
    pub open spec fn spec_width(self) -> nat {
        match self {
            Code::SignedChar | Code::UnsignedChar | Code::Bool => 1,
            Code::Short | Code::UnsignedShort => 2,
            Code::Int | Code::UnsignedInt | Code::Long | Code::UnsignedLong | Code::Float => 4,
            Code::LongLong | Code::UnsignedLongLong | Code::Double => 8,
        }
    }

    /// The number of bytes that a field of the code takes.
    pub fn width(self) -> (w: usize)
        ensures
            w == self.spec_width(),
    {
        match self {
            Code::SignedChar | Code::UnsignedChar | Code::Bool => 1,
            Code::Short | Code::UnsignedShort => 2,
            Code::Int | Code::UnsignedInt | Code::Long | Code::UnsignedLong | Code::Float => 4,
            Code::LongLong | Code::UnsignedLongLong | Code::Double => 8,
        }
    }

    /// The kind of value that a field of the code holds.
    pub open spec fn spec_kind(self) -> Kind {
        match self {
            Code::SignedChar | Code::Short | Code::Int | Code::Long | Code::LongLong => Kind::Signed,
            Code::UnsignedChar
            | Code::UnsignedShort
            | Code::UnsignedInt
            | Code::UnsignedLong
            | Code::UnsignedLongLong => Kind::Unsigned,
            Code::Bool => Kind::Bool,
            Code::Float => Kind::Single,
            Code::Double => Kind::Double,
        }
    }

    /// The kind of value that a field of the code holds.
    #[verifier::when_used_as_spec(spec_kind)]
    pub fn kind(self) -> (k: Kind)
        ensures
            k == self.spec_kind(),
    {
        match self {
            Code::SignedChar | Code::Short | Code::Int | Code::Long | Code::LongLong => Kind::Signed,
            Code::UnsignedChar
            | Code::UnsignedShort
            | Code::UnsignedInt
            | Code::UnsignedLong
            | Code::UnsignedLongLong => Kind::Unsigned,
            Code::Bool => Kind::Bool,
            Code::Float => Kind::Single,
            Code::Double => Kind::Double,
        }
    }
}

/// One entry of a parsed format string.
#[derive(Debug, Clone, Copy, PartialEq, Eq, Structural)]
pub struct FormatCode {
    /// What the fields hold.
    pub code: Code,
    /// How many fields in a row the entry stands for. Format strings have no way to
    /// write a count, so this is always 1.
    pub repeat: i32,
}

/// The entry that the character `c` gives, where `c` is a format code.
pub open spec fn entry_of(c: char) -> FormatCode {
    FormatCode { code: Code::spec_from_char(c)->0, repeat: 1 }
}

/// The place of the first character of `s` that is no format code, or the length
/// of `s` where every character is one.
pub open spec fn first_unknown(s: Seq<char>) -> nat
    decreases s.len(),
{
    if s.len() == 0 || Code::spec_from_char(s[0]) is None {
        0
    } else {
        1 + first_unknown(s.drop_first())
    }
}

/// What parsing the format string `s` gives: one entry for each character, in
/// order, or the first character that is no format code, with its place.
pub open spec fn parse_format(s: Seq<char>) -> Result<Seq<FormatCode>, StructError> {
    let k = first_unknown(s);
    if k == s.len() {
        Ok(s.map_values(|c: char| entry_of(c)))
    } else {
        Err(StructError::Format { code: s[k as int], position: k as usize })
    }
}

/// `first_unknown` is the least place of a character that is no format code.
pub proof fn lemma_first_unknown(s: Seq<char>)
    ensures
        first_unknown(s) <= s.len(),
        forall|j: int| 0 <= j < first_unknown(s) ==> Code::spec_from_char(#[trigger] s[j]) is Some,
        first_unknown(s) < s.len() ==> Code::spec_from_char(s[first_unknown(s) as int]) is None,
    decreases s.len(),
{
    if s.len() == 0 || Code::spec_from_char(s[0]) is None {
    } else {
        let rest = s.drop_first();
        lemma_first_unknown(rest);
        assert forall|j: int| 0 <= j < first_unknown(s) implies Code::spec_from_char(
            #[trigger] s[j],
        ) is Some by {
            if j > 0 {
                assert(s[j] == rest[j - 1]);
            }
        }
    }
}

/// A place whose character is no format code, with only format codes before it, is
/// the place that `first_unknown` names.
pub proof fn lemma_first_unknown_is(s: Seq<char>, k: nat)
    requires
        k <= s.len(),
        forall|j: int| 0 <= j < k ==> Code::spec_from_char(#[trigger] s[j]) is Some,
        k < s.len() ==> Code::spec_from_char(s[k as int]) is None,
    ensures
        first_unknown(s) == k,
{
    lemma_first_unknown(s);
    let f = first_unknown(s);
    if f < k {
        assert(Code::spec_from_char(s[f as int]) is Some);
    } else if k < f {
        assert(Code::spec_from_char(s[k as int]) is Some);
    }
}

/// Parses a format string.
///
/// Each character must be one of the format codes `b B ? h H i I l L q Q f d`, and
/// gives one entry. There is no syntax for byte order, repeat counts or padding:
/// such characters are refused like any other that is no code.
pub fn parse_format_string(fmt: &str) -> (r: Result<Vec<FormatCode>, StructError>)
    ensures
        match parse_format(fmt@) {
            Ok(codes) => r is Ok && r->Ok_0@ == codes,
            Err(e) => r == Err::<Vec<FormatCode>, StructError>(e),
        },
{
    let mut codes: Vec<FormatCode> = Vec::new();
    let mut chars = fmt.chars();
    proof {
        vstd::string::axiom_spec_iter(fmt);
    }
    for c in iter: chars
        invariant
            iter.seq() == fmt@,
            codes@.len() == iter.index(),
            forall|j: int|
                0 <= j < iter.index() ==> Code::spec_from_char(#[trigger] fmt@[j]) is Some,
            forall|j: int| 0 <= j < iter.index() ==> #[trigger] codes@[j] == entry_of(fmt@[j]),
    {
        let ghost at = iter.index();
        assert(c == fmt@[at]);
        match Code::from_char(c) {
            Some(code) => {
                codes.push(FormatCode { code, repeat: 1 });
            },
            None => {
                proof {
                    lemma_first_unknown_is(fmt@, at as nat);
                }
                return Err(StructError::Format { code: c, position: codes.len() });
            },
        }
    }
    proof {
        lemma_first_unknown_is(fmt@, fmt@.len());
        assert(codes@ =~= fmt@.map_values(|c: char| entry_of(c)));
    }
    Ok(codes)
}

} // verus!
