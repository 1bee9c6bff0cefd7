//! Little-endian positional notation in base 256, and two's complement on top of it.
//!
//! Everything here is specification and proof: the functions say what a run of bytes
//! means as a number, and the lemmas relate the two directions.

use vstd::prelude::*;

verus! {

/// 256 to the power `width`: the number of values that `width` bytes can tell apart.
pub open spec fn radix_pow(width: nat) -> nat
    decreases width,
{
    if width == 0 {
        1
    } else {
        256 * radix_pow((width - 1) as nat)
    }
}

/// The number that `bytes` denote, least significant byte first.
pub open spec fn le_value(bytes: Seq<u8>) -> nat
    decreases bytes.len(),
{
    if bytes.len() == 0 {
        0
    } else {
        bytes[0] as nat + 256 * le_value(bytes.drop_first())
    }
}

/// The `width` low-order base-256 digits of `n`, least significant first.
pub open spec fn le_bytes(n: nat, width: nat) -> Seq<u8>
    decreases width,
{
    if width == 0 {
        Seq::empty()
    } else {
        seq![(n % 256) as u8] + le_bytes(n / 256, (width - 1) as nat)
    }
}

/// The two's-complement pattern of `v` in `width` bytes, as an unsigned number.
pub open spec fn to_unsigned(v: int, width: nat) -> nat {
    if v < 0 {
        (v + radix_pow(width)) as nat
    } else {
        v as nat
    }
}

/// What the unsigned pattern `n` means when `width` bytes are read as two's complement.
pub open spec fn to_signed(n: nat, width: nat) -> int {
    if 2 * n >= radix_pow(width) {
        n - radix_pow(width)
    } else {
        n as int
    }
}

/// The number that `bytes` denote when read as two's complement, least significant
/// byte first. The empty sequence denotes zero.
pub open spec fn signed_le_value(bytes: Seq<u8>) -> int {
    to_signed(le_value(bytes), bytes.len())
}

/// The powers of 256 for the four field widths.
pub proof fn lemma_radix_pow_values()
    ensures
        radix_pow(0) == 1,
        radix_pow(1) == 0x100,
        radix_pow(2) == 0x1_0000,
        radix_pow(4) == 0x1_0000_0000,
        radix_pow(8) == 0x1_0000_0000_0000_0000,
{
    reveal_with_fuel(radix_pow, 9);
}

/// `le_bytes` yields exactly `width` bytes.
pub proof fn lemma_le_bytes_len(n: nat, width: nat)
    ensures
        le_bytes(n, width).len() == width,
    decreases width,
{
    if width > 0 {
        lemma_le_bytes_len(n / 256, (width - 1) as nat);
    }
}

/// A run of bytes denotes a number below 256 to the power of its length.
pub proof fn lemma_le_value_bound(bytes: Seq<u8>)
    ensures
        le_value(bytes) < radix_pow(bytes.len()),
    decreases bytes.len(),
{
    if bytes.len() > 0 {
        lemma_le_value_bound(bytes.drop_first());
    }
}

/// Reading back the digits of a number that fits gives the number.
pub proof fn lemma_le_value_of_le_bytes(n: nat, width: nat)
    requires
        n < radix_pow(width),
    ensures
        le_value(le_bytes(n, width)) == n,
    decreases width,
{
    if width > 0 {
        let rest = le_bytes(n / 256, (width - 1) as nat);
        lemma_le_value_of_le_bytes(n / 256, (width - 1) as nat);
        assert(le_bytes(n, width).drop_first() =~= rest);
    }
}

/// Writing out the number that a run of bytes denotes gives the bytes.
pub proof fn lemma_le_bytes_of_le_value(bytes: Seq<u8>)
    ensures
        le_bytes(le_value(bytes), bytes.len()) == bytes,
    decreases bytes.len(),
{
    if bytes.len() > 0 {
        let rest = bytes.drop_first();
        lemma_le_bytes_of_le_value(rest);
        assert(le_value(bytes) % 256 == bytes[0] as nat);
        assert(le_value(bytes) / 256 == le_value(rest));
        assert(le_bytes(le_value(bytes), bytes.len()) =~= bytes);
    } else {
        assert(le_bytes(le_value(bytes), bytes.len()) =~= bytes);
    }
}

/// Appending a byte adds it at the next power of 256.
pub proof fn lemma_le_value_push(bytes: Seq<u8>, top: u8)
    ensures
        le_value(bytes.push(top)) == le_value(bytes) + top * radix_pow(bytes.len()),
    decreases bytes.len(),
{
    let longer = bytes.push(top);
    if bytes.len() == 0 {
        assert(longer.drop_first() =~= Seq::<u8>::empty());
        assert(le_value(longer.drop_first()) == 0);
        assert(longer[0] == top);
        assert(top * radix_pow(0) == top) by (nonlinear_arith)
            requires
                radix_pow(0) == 1,
        ;
    } else {
        let rest = bytes.drop_first();
        lemma_le_value_push(rest, top);
        assert(longer.drop_first() =~= rest.push(top));
        assert(longer[0] == bytes[0]);
        let p = radix_pow(rest.len());
        assert(radix_pow(bytes.len()) == 256 * p);
        assert(256 * (top * p) == top * (256 * p)) by (nonlinear_arith);
    }
}

/// Two's complement loses nothing on the range that `width` bytes can hold.
pub proof fn lemma_signed_round_trip(v: int, width: nat)
    requires
        -(radix_pow(width) as int) <= 2 * v < radix_pow(width),
    ensures
        to_unsigned(v, width) < radix_pow(width),
        to_signed(to_unsigned(v, width), width) == v,
{
}

/// Whether the top byte of `bytes` only repeats the sign that the byte below it
/// already shows, so that the number is the same without it.
pub open spec fn has_spare_byte(bytes: Seq<u8>) -> bool {
    let n = bytes.len() as int;
    n >= 2 && (bytes[n - 1] == 0 && bytes[n - 2] < 128 || bytes[n - 1] == 255 && bytes[n - 2] >= 128)
}

/// Whether `bytes` are the shortest two's-complement form of their number: at least
/// one byte, and no spare byte on top.
pub open spec fn is_minimal(bytes: Seq<u8>) -> bool {
    bytes.len() >= 1 && !has_spare_byte(bytes)
}

/// Powers of 256 grow with the exponent.
pub proof fn lemma_radix_pow_monotonic(small: nat, large: nat)
    requires
        small <= large,
    ensures
        radix_pow(small) <= radix_pow(large),
    decreases large,
{
    if small < large {
        lemma_radix_pow_monotonic(small, (large - 1) as nat);
    }
}

/// The top byte shows the sign: the number is negative exactly if its top byte is
/// 128 or more.
pub proof fn lemma_sign_byte(bytes: Seq<u8>)
    requires
        bytes.len() >= 1,
    ensures
        2 * le_value(bytes) >= radix_pow(bytes.len()) <==> bytes.last() >= 128,
{
    let low = bytes.drop_last();
    let top = bytes.last();
    let p = radix_pow(low.len());
    assert(bytes =~= low.push(top));
    lemma_le_value_push(low, top);
    lemma_le_value_bound(low);
    assert(radix_pow(bytes.len()) == 256 * p);
    assert(top >= 128 ==> 2 * (top * p) >= 256 * p) by (nonlinear_arith)
        requires
            p > 0,
    ;
    assert(top <= 127 ==> 2 * (top * p) <= 254 * p) by (nonlinear_arith)
        requires
            p > 0,
    ;
}

/// A spare byte can go: the number stays the same.
pub proof fn lemma_drop_spare_byte(bytes: Seq<u8>)
    requires
        has_spare_byte(bytes),
    ensures
        signed_le_value(bytes.drop_last()) == signed_le_value(bytes),
{
    let low = bytes.drop_last();
    let top = bytes.last();
    let p = radix_pow(low.len());
    assert(bytes =~= low.push(top));
    assert(low.last() == bytes[bytes.len() - 2]);
    lemma_le_value_push(low, top);
    lemma_le_value_bound(low);
    lemma_sign_byte(low);
    assert(radix_pow(bytes.len()) == 256 * p);
    if top == 0 {
        assert(top * p == 0) by (nonlinear_arith)
            requires
                top == 0,
        ;
    } else {
        assert(top * p == 255 * p) by (nonlinear_arith)
            requires
                top == 255,
        ;
    }
}

/// A number in minimal form does not fit in fewer bytes.
pub proof fn lemma_minimal_needs_all(bytes: Seq<u8>)
    requires
        is_minimal(bytes),
        bytes.len() >= 2,
    ensures
        ({
            let v = signed_le_value(bytes);
            let p = radix_pow((bytes.len() - 1) as nat) as int;
            2 * v >= p || 2 * v < -p
        }),
{
    let low = bytes.drop_last();
    let top = bytes.last();
    let p = radix_pow(low.len());
    assert(bytes =~= low.push(top));
    assert(low.last() == bytes[bytes.len() - 2]);
    lemma_le_value_push(low, top);
    lemma_le_value_bound(low);
    lemma_sign_byte(low);
    lemma_sign_byte(bytes);
    assert(radix_pow(bytes.len()) == 256 * p);
    assert(top >= 1 ==> top * p >= p) by (nonlinear_arith)
        requires
            p > 0,
    ;
    assert(top <= 254 ==> top * p <= 254 * p) by (nonlinear_arith)
        requires
            p > 0,
    ;
    assert(top == 0 ==> top * p == 0) by (nonlinear_arith);
    assert(top == 255 ==> top * p == 255 * p) by (nonlinear_arith);
}

/// Any run of bytes holds a number that its length suffices for.
pub proof fn lemma_signed_le_value_bound(bytes: Seq<u8>)
    ensures
        -(radix_pow(bytes.len()) as int) <= 2 * signed_le_value(bytes) < radix_pow(bytes.len()),
{
    lemma_le_value_bound(bytes);
}

/// The minimal form of a number is unique: two minimal runs of bytes that hold the
/// same number are the same bytes.
pub proof fn lemma_minimal_unique(a: Seq<u8>, b: Seq<u8>)
    requires
        is_minimal(a),
        is_minimal(b),
        signed_le_value(a) == signed_le_value(b),
    ensures
        a == b,
{
    lemma_signed_le_value_bound(a);
    lemma_signed_le_value_bound(b);
    if a.len() < b.len() {
        lemma_minimal_needs_all(b);
        lemma_radix_pow_monotonic(a.len(), (b.len() - 1) as nat);
    } else if b.len() < a.len() {
        lemma_minimal_needs_all(a);
        lemma_radix_pow_monotonic(b.len(), (a.len() - 1) as nat);
    } else {
        lemma_le_value_bound(a);
        lemma_le_value_bound(b);
        lemma_le_bytes_of_le_value(a);
        lemma_le_bytes_of_le_value(b);
    }
}

} // verus!
