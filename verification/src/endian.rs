//! Integers as sequences of bytes.

use vstd::prelude::*;

verus! {

/// The number that `bytes` stand for in little-endian order.
pub open spec fn le_value(bytes: Seq<u8>) -> nat
    decreases bytes.len(),
{
    if bytes.len() == 0 {
        0
    } else {
        bytes.first() as nat + 256 * le_value(bytes.drop_first())
    }
}

/// The number that `bytes` stand for in big-endian order.
pub open spec fn be_value(bytes: Seq<u8>) -> nat
    decreases bytes.len(),
{
    if bytes.len() == 0 {
        0
    } else {
        256 * be_value(bytes.drop_last()) + bytes.last() as nat
    }
}

/// How many numbers `n` bytes can stand for.
pub open spec fn radix(n: nat) -> nat
    decreases n,
{
    if n == 0 {
        1
    } else {
        256 * radix((n - 1) as nat)
    }
}

/// The signed number that `n` bytes stand for in two's complement, where they stand for `value` as
/// an unsigned number.
pub open spec fn signed(value: nat, n: nat) -> int {
    if 2 * value < radix(n) {
        value as int
    } else {
        value - radix(n)
    }
}

/// The bytes of a number read in little-endian order are, in reverse, its bytes in big-endian order.
pub proof fn byte_orders_mirror_each_other(bytes: Seq<u8>)
    ensures
        be_value(bytes) == le_value(bytes.reverse()),
        le_value(bytes) == be_value(bytes.reverse()),
    decreases bytes.len(),
{
    if bytes.len() > 0 {
        byte_orders_mirror_each_other(bytes.drop_last());
        byte_orders_mirror_each_other(bytes.drop_first());
        assert(bytes.reverse().drop_first() =~= bytes.drop_last().reverse());
        assert(bytes.reverse().drop_last() =~= bytes.drop_first().reverse());
    }
}

/// `n` bytes stand for a number below `radix(n)`, in either order.
pub proof fn value_is_below_radix(bytes: Seq<u8>)
    ensures
        le_value(bytes) < radix(bytes.len()),
        be_value(bytes) < radix(bytes.len()),
    decreases bytes.len(),
{
    if bytes.len() > 0 {
        value_is_below_radix(bytes.drop_first());
        value_is_below_radix(bytes.drop_last());
    }
}

/// Nothing is lost when bytes are read as an integer: different bytes stand for different numbers,
/// in either order.
pub proof fn value_tells_bytes_apart(a: Seq<u8>, b: Seq<u8>)
    requires
        a.len() == b.len(),
    ensures
        le_value(a) == le_value(b) ==> a == b,
        be_value(a) == be_value(b) ==> a == b,
    decreases a.len(),
{
    if a.len() > 0 {
        value_tells_bytes_apart(a.drop_first(), b.drop_first());
        value_tells_bytes_apart(a.drop_last(), b.drop_last());
        assert(a =~= seq![a.first()] + a.drop_first());
        assert(b =~= seq![b.first()] + b.drop_first());
        assert(a =~= a.drop_last().push(a.last()));
        assert(b =~= b.drop_last().push(b.last()));
    } else {
        assert(a =~= b);
    }
}

/// Nothing is lost when a number is taken as a signed one: different numbers stay different, and
/// every signed number lies in the range of `n` bytes.
pub proof fn signed_tells_values_apart(a: nat, b: nat, n: nat)
    requires
        a < radix(n),
        b < radix(n),
    ensures
        signed(a, n) == signed(b, n) ==> a == b,
        -(radix(n) as int) <= 2 * signed(a, n) < radix(n),
{
}

/// `radix` counts in powers of 256.
pub proof fn radix_is_a_power(n: nat)
    ensures
        radix(n) == vstd::arithmetic::power::pow(256, n),
    decreases n,
{
    vstd::arithmetic::power::lemma_pow0(256);
    if n > 0 {
        radix_is_a_power((n - 1) as nat);
        vstd::arithmetic::power::lemma_pow_adds(256, 1, (n - 1) as nat);
        vstd::arithmetic::power::lemma_pow1(256);
    }
}

/// `256 * rest + low` divided by a higher power of 256 is `rest` divided by the power below.
proof fn shift_out(low: int, rest: int, e: nat)
    requires
        0 <= low < 256,
        e > 0,
        rest >= 0,
    ensures
        (256 * rest + low) / vstd::arithmetic::power::pow(256, e) == rest
            / vstd::arithmetic::power::pow(256, (e - 1) as nat),
{
    let p = vstd::arithmetic::power::pow(256, (e - 1) as nat);
    vstd::arithmetic::power::lemma_pow_positive(256, (e - 1) as nat);
    vstd::arithmetic::power::lemma_pow_adds(256, 1, (e - 1) as nat);
    vstd::arithmetic::power::lemma_pow1(256);
    vstd::arithmetic::div_mod::lemma_div_denominator(256 * rest + low, 256, p);
}

/// Byte `i` is digit `i` to the base 256 of the number that the bytes stand for: counted from the
/// least significant digit in little-endian order, from the most significant one in big-endian order.
pub proof fn bytes_are_digits(bytes: Seq<u8>, i: int)
    requires
        0 <= i < bytes.len(),
    ensures
        le_value(bytes) as int / vstd::arithmetic::power::pow(256, i as nat) % 256 == bytes[i],
        be_value(bytes) as int / vstd::arithmetic::power::pow(256, (bytes.len() - 1 - i) as nat)
            % 256 == bytes[i],
        le_value(bytes) < vstd::arithmetic::power::pow(256, bytes.len()),
        be_value(bytes) < vstd::arithmetic::power::pow(256, bytes.len()),
    decreases bytes.len(),
{
    value_is_below_radix(bytes);
    radix_is_a_power(bytes.len());
    vstd::arithmetic::power::lemma_pow0(256);
    let tail = bytes.drop_first();
    let head = bytes.drop_last();
    if i > 0 {
        bytes_are_digits(tail, i - 1);
        shift_out(bytes.first() as int, le_value(tail) as int, i as nat);
    }
    if i < bytes.len() - 1 {
        bytes_are_digits(head, i);
        shift_out(bytes.last() as int, be_value(head) as int, (bytes.len() - 1 - i) as nat);
    }
}

/// A signed number and the unsigned number of the same bytes differ by nothing, or by the number of
/// values that the bytes have. They have the same bytes, and the signed one is the unsigned one where
/// that is in the lower half.
pub proof fn signed_agrees_with_unsigned(value: nat, n: nat, i: nat)
    requires
        value < vstd::arithmetic::power::pow(256, n),
        i < n,
    ensures
        2 * value < vstd::arithmetic::power::pow(256, n) ==> signed(value, n) == value,
        2 * value >= vstd::arithmetic::power::pow(256, n) ==> signed(value, n) == value
            - vstd::arithmetic::power::pow(256, n),
        signed(value, n) / vstd::arithmetic::power::pow(256, i) % 256 == value as int
            / vstd::arithmetic::power::pow(256, i) % 256,
{
    radix_is_a_power(n);
    let p = vstd::arithmetic::power::pow(256, i);
    let q = vstd::arithmetic::power::pow(256, (n - i) as nat);
    let r = vstd::arithmetic::power::pow(256, (n - i - 1) as nat);
    vstd::arithmetic::power::lemma_pow_positive(256, i);
    vstd::arithmetic::power::lemma_pow_adds(256, i, (n - i) as nat);
    vstd::arithmetic::power::lemma_pow_adds(256, 1, (n - i - 1) as nat);
    vstd::arithmetic::power::lemma_pow1(256);
    let d = value as int / p;
    assert((value - p * q) / p == d - q) by {
        vstd::arithmetic::div_mod::lemma_hoist_over_denominator(value as int, -q, p as nat);
        assert(value - p * q == -q * p + value) by (nonlinear_arith);
        assert(value as int / p + -q == (value + -q * p) / p);
    }
    assert((d - 256 * r) % 256 == d % 256);
}

/// [`bytes_are_digits`] and [`signed_agrees_with_unsigned`], of all bytes.
pub(crate) proof fn all_bytes_are_digits()
    ensures
        forall|bytes: Seq<u8>, i: nat|
            #![trigger le_value(bytes), vstd::arithmetic::power::pow(256, i)]
            i < bytes.len() ==> le_value(bytes) as int / vstd::arithmetic::power::pow(256, i) % 256 == bytes[i as int],
        forall|bytes: Seq<u8>, i: nat|
            #![trigger be_value(bytes), vstd::arithmetic::power::pow(256, i)]
            i < bytes.len() ==> be_value(bytes) as int / vstd::arithmetic::power::pow(256, i) % 256 == bytes[bytes.len() - 1 - i],
        forall|bytes: Seq<u8>, n: nat, i: nat|
            #![trigger signed(le_value(bytes), n), vstd::arithmetic::power::pow(256, i)]
            i < bytes.len() && n == bytes.len() ==> signed(le_value(bytes), n) / vstd::arithmetic::power::pow(256, i) % 256 == bytes[i as int],
        forall|bytes: Seq<u8>, n: nat, i: nat|
            #![trigger signed(be_value(bytes), n), vstd::arithmetic::power::pow(256, i)]
            i < bytes.len() && n == bytes.len() ==> signed(be_value(bytes), n) / vstd::arithmetic::power::pow(256, i) % 256 == bytes[bytes.len() - 1 - i],
        forall|bytes: Seq<u8>| #[trigger] le_value(bytes) < radix(bytes.len()),
        forall|bytes: Seq<u8>| #[trigger] be_value(bytes) < radix(bytes.len()),
{
    assert forall|bytes: Seq<u8>, i: nat|
        #![trigger le_value(bytes), vstd::arithmetic::power::pow(256, i)]
        i < bytes.len() implies le_value(bytes) as int / vstd::arithmetic::power::pow(256, i) % 256 == bytes[i as int] by {
        bytes_are_digits(bytes, i as int);
    }
    assert forall|bytes: Seq<u8>, i: nat|
        #![trigger be_value(bytes), vstd::arithmetic::power::pow(256, i)]
        i < bytes.len() implies be_value(bytes) as int / vstd::arithmetic::power::pow(256, i) % 256 == bytes[bytes.len() - 1 - i] by {
        bytes_are_digits(bytes, bytes.len() - 1 - i);
    }
    assert forall|bytes: Seq<u8>, n: nat, i: nat|
        #![trigger signed(le_value(bytes), n), vstd::arithmetic::power::pow(256, i)]
        i < bytes.len() && n == bytes.len() implies signed(le_value(bytes), n) / vstd::arithmetic::power::pow(256, i) % 256 == bytes[i as int] by {
        bytes_are_digits(bytes, i as int);
        signed_agrees_with_unsigned(le_value(bytes), n, i);
    }
    assert forall|bytes: Seq<u8>, n: nat, i: nat|
        #![trigger signed(be_value(bytes), n), vstd::arithmetic::power::pow(256, i)]
        i < bytes.len() && n == bytes.len() implies signed(be_value(bytes), n) / vstd::arithmetic::power::pow(256, i) % 256 == bytes[bytes.len() - 1 - i] by {
        bytes_are_digits(bytes, bytes.len() - 1 - i);
        signed_agrees_with_unsigned(be_value(bytes), n, i);
    }
    assert forall|bytes: Seq<u8>| #[trigger] le_value(bytes) < radix(bytes.len()) by {
        value_is_below_radix(bytes);
    }
    assert forall|bytes: Seq<u8>| #[trigger] be_value(bytes) < radix(bytes.len()) by {
        value_is_below_radix(bytes);
    }
}

/// `radix` at the widths that are read.
pub(crate) proof fn radixes()
    ensures
        radix(1) == 0x100,
        radix(2) == 0x1_0000,
        radix(3) == 0x100_0000,
        radix(4) == 0x1_0000_0000,
        radix(8) == 0x1_0000_0000_0000_0000,
{
    reveal_with_fuel(radix, 9);
}

/// Interprets two bytes as a little-endian integer.
pub(crate) fn u16_from_le(b: [u8; 2]) -> (v: u16)
    ensures
        v == le_value(b@),
{
    proof {
        reveal_with_fuel(le_value, 3);
    }
    b[0] as u16 + 0x100 * (b[1] as u16)
}

/// Interprets two bytes as a big-endian integer.
pub(crate) fn u16_from_be(b: [u8; 2]) -> (v: u16)
    ensures
        v == be_value(b@),
{
    proof {
        reveal_with_fuel(be_value, 3);
    }
    0x100 * (b[0] as u16) + b[1] as u16
}

/// Interprets three bytes as a little-endian integer.
pub(crate) fn u24_from_le(b: [u8; 3]) -> (v: u32)
    ensures
        v == le_value(b@),
{
    proof {
        reveal_with_fuel(le_value, 4);
    }
    b[0] as u32 + 0x100 * (b[1] as u32) + 0x1_0000 * (b[2] as u32)
}

/// Interprets three bytes as a big-endian integer.
pub(crate) fn u24_from_be(b: [u8; 3]) -> (v: u32)
    ensures
        v == be_value(b@),
{
    proof {
        reveal_with_fuel(be_value, 4);
    }
    0x1_0000 * (b[0] as u32) + 0x100 * (b[1] as u32) + b[2] as u32
}

/// Interprets four bytes as a little-endian integer.
pub(crate) fn u32_from_le(b: [u8; 4]) -> (v: u32)
    ensures
        v == le_value(b@),
{
    proof {
        reveal_with_fuel(le_value, 5);
    }
    b[0] as u32 + 0x100 * (b[1] as u32) + 0x1_0000 * (b[2] as u32) + 0x100_0000 * (b[3] as u32)
}

/// Interprets four bytes as a big-endian integer.
pub(crate) fn u32_from_be(b: [u8; 4]) -> (v: u32)
    ensures
        v == be_value(b@),
{
    proof {
        reveal_with_fuel(be_value, 5);
    }
    0x100_0000 * (b[0] as u32) + 0x1_0000 * (b[1] as u32) + 0x100 * (b[2] as u32) + b[3] as u32
}

/// Interprets eight bytes as a little-endian integer.
pub(crate) fn u64_from_le(b: [u8; 8]) -> (v: u64)
    ensures
        v == le_value(b@),
{
    proof {
        reveal_with_fuel(le_value, 9);
    }
    b[0] as u64 + 0x100 * (b[1] as u64) + 0x1_0000 * (b[2] as u64) + 0x100_0000 * (b[3] as u64)
        + 0x1_0000_0000 * (b[4] as u64) + 0x100_0000_0000 * (b[5] as u64) + 0x1_0000_0000_0000 * (
    b[6] as u64) + 0x100_0000_0000_0000 * (b[7] as u64)
}

/// Interprets eight bytes as a big-endian integer.
pub(crate) fn u64_from_be(b: [u8; 8]) -> (v: u64)
    ensures
        v == be_value(b@),
{
    proof {
        reveal_with_fuel(be_value, 9);
    }
    0x100_0000_0000_0000 * (b[0] as u64) + 0x1_0000_0000_0000 * (b[1] as u64) + 0x100_0000_0000 * (
    b[2] as u64) + 0x1_0000_0000 * (b[3] as u64) + 0x100_0000 * (b[4] as u64) + 0x1_0000 * (
    b[5] as u64) + 0x100 * (b[6] as u64) + b[7] as u64
}

/// Takes a byte as a signed integer.
pub(crate) fn to_i8(v: u8) -> (s: i8)
    ensures
        s == signed(v as nat, 1),
{
    proof {
        radixes();
    }
    assert(v < 0x80u8 ==> v as i8 == v) by (bit_vector);
    assert(v >= 0x80u8 ==> v as i8 == v - 0x100) by (bit_vector);
    v as i8
}

/// Takes a 16-bit integer as a signed one.
pub(crate) fn to_i16(v: u16) -> (s: i16)
    ensures
        s == signed(v as nat, 2),
{
    proof {
        radixes();
    }
    assert(v < 0x8000u16 ==> v as i16 == v) by (bit_vector);
    assert(v >= 0x8000u16 ==> v as i16 == v - 0x1_0000) by (bit_vector);
    v as i16
}

/// Takes a 24-bit integer as a signed one.
pub(crate) fn to_i24(v: u32) -> (s: i32)
    requires
        v < 0x100_0000,
    ensures
        s == signed(v as nat, 3),
{
    proof {
        radixes();
    }
    assert(v < 0x80_0000u32 ==> ((v << 8) as i32) >> 8 == v) by (bit_vector);
    assert(0x80_0000u32 <= v < 0x100_0000u32 ==> ((v << 8) as i32) >> 8 == v - 0x100_0000)
        by (bit_vector);
    ((v << 8) as i32) >> 8
}

/// Takes a 32-bit integer as a signed one.
pub(crate) fn to_i32(v: u32) -> (s: i32)
    ensures
        s == signed(v as nat, 4),
{
    proof {
        radixes();
    }
    assert(v < 0x8000_0000u32 ==> v as i32 == v) by (bit_vector);
    assert(v >= 0x8000_0000u32 ==> v as i32 == v - 0x1_0000_0000) by (bit_vector);
    v as i32
}

/// Takes a 64-bit integer as a signed one.
pub(crate) fn to_i64(v: u64) -> (s: i64)
    ensures
        s == signed(v as nat, 8),
{
    proof {
        radixes();
    }
    assert(v < 0x8000_0000_0000_0000u64 ==> v as i64 == v) by (bit_vector);
    assert(v >= 0x8000_0000_0000_0000u64 ==> v as i64 == v - 0x1_0000_0000_0000_0000)
        by (bit_vector);
    v as i64
}

} // verus!
