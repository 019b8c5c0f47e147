//! Little-endian integers as they stand on the wire.

use vstd::prelude::*;

verus! {

/// The two bytes of `x`, least significant first.
pub open spec fn u16_le(x: u16) -> Seq<u8> {
    seq![(x % 256) as u8, (x / 256) as u8]
}

/// The four bytes of `x`, least significant first.
pub open spec fn u32_le(x: u32) -> Seq<u8> {
    seq![
        (x % 256) as u8,
        (x / 256 % 256) as u8,
        (x / 65536 % 256) as u8,
        (x / 16777216) as u8,
    ]
}

/// The number that the first two bytes of `s` stand for.
pub open spec fn u16_value(s: Seq<u8>) -> nat {
    (s[0] + 256 * s[1]) as nat
}

/// The number that the first four bytes of `s` stand for.
pub open spec fn u32_value(s: Seq<u8>) -> nat {
    (s[0] + 256 * s[1] + 65536 * s[2] + 16777216 * s[3]) as nat
}

/// The unsigned number with the same 32 bits as `x` in two's complement.
pub open spec fn i32_bits(x: i32) -> u32 {
    if x < 0 {
        (x + 0x1_0000_0000) as u32
    } else {
        x as u32
    }
}

/// The signed number whose two's complement bits are those of `n`.
pub open spec fn i32_of_bits(n: nat) -> i32 {
    if n < 0x8000_0000 {
        n as i32
    } else {
        (n - 0x1_0000_0000) as i32
    }
}

/// Reading the bytes of a `u16` gives the number back.
pub proof fn lemma_u16_le_value(x: u16)
    ensures
        u16_value(u16_le(x)) == x,
{
}

/// Reading the bytes of a `u32` gives the number back.
pub proof fn lemma_u32_le_value(x: u32)
    ensures
        u32_value(u32_le(x)) == x,
{
}

/// Two bytes are the bytes of the number that they stand for.
pub proof fn lemma_u16_value_le(s: Seq<u8>)
    requires
        s.len() == 2,
    ensures
        u16_le(u16_value(s) as u16) == s,
{
    assert(u16_le(u16_value(s) as u16) =~= s);
}

/// Four bytes are the bytes of the number that they stand for.
pub proof fn lemma_u32_value_le(s: Seq<u8>)
    requires
        s.len() == 4,
    ensures
        u32_le(u32_value(s) as u32) == s,
{
    let (a, b, c, d) = (s[0] as int, s[1] as int, s[2] as int, s[3] as int);
    let x = u32_value(s) as u32;
    assert(x / 256 == b + 256 * c + 65536 * d);
    assert(x % 256 == a);
    assert(x / 65536 == c + 256 * d);
    assert(x / 16777216 == d);
    assert(x / 256 % 256 == b);
    assert(x / 65536 % 256 == c);
    assert(u32_le(x) =~= s);
}

/// A signed number comes back from its two's complement bits.
pub proof fn lemma_i32_bits(x: i32)
    ensures
        i32_of_bits(i32_bits(x) as nat) == x,
{
}

/// Appends the two bytes of `x` to `out`.
pub fn push_u16_le(out: &mut Vec<u8>, x: u16)
    ensures
        final(out)@ == old(out)@ + u16_le(x),
{
    out.push((x % 256) as u8);
    out.push((x / 256) as u8);
    assert(out@ =~= old(out)@ + u16_le(x));
}

/// Appends the four bytes of `x` to `out`.
pub fn push_u32_le(out: &mut Vec<u8>, x: u32)
    ensures
        final(out)@ == old(out)@ + u32_le(x),
{
    out.push((x % 256) as u8);
    out.push((x / 256 % 256) as u8);
    out.push((x / 65536 % 256) as u8);
    out.push((x / 16777216) as u8);
    assert(out@ =~= old(out)@ + u32_le(x));
}

/// Appends the four bytes of `x`, in two's complement, to `out`.
pub fn push_i32_le(out: &mut Vec<u8>, x: i32)
    ensures
        final(out)@ == old(out)@ + u32_le(i32_bits(x)),
{
    let bits: u32 = if x < 0 {
        (x as i64 + 0x1_0000_0000i64) as u32
    } else {
        x as u32
    };
    push_u32_le(out, bits);
}

/// Reads the two bytes at `at`.
pub fn read_u16_le(buf: &[u8], at: usize) -> (x: u16)
    requires
        at + 2 <= buf@.len(),
    ensures
        x == u16_value(buf@.skip(at as int)),
{
    buf[at] as u16 + 256 * buf[at + 1] as u16
}

/// Reads the four bytes at `at`.
pub fn read_u32_le(buf: &[u8], at: usize) -> (x: u32)
    requires
        at + 4 <= buf@.len(),
    ensures
        x == u32_value(buf@.skip(at as int)),
{
    buf[at] as u32 + 256 * buf[at + 1] as u32 + 65536 * buf[at + 2] as u32 + 16777216 * buf[at
        + 3] as u32
}

/// Reads the four bytes at `at` as a signed number in two's complement.
pub fn read_i32_le(buf: &[u8], at: usize) -> (x: i32)
    requires
        at + 4 <= buf@.len(),
    ensures
        x == i32_of_bits(u32_value(buf@.skip(at as int))),
{
    let bits: u32 = read_u32_le(buf, at);
    if bits < 0x8000_0000 {
        bits as i32
    } else {
        (bits as i64 - 0x1_0000_0000i64) as i32
    }
}

/// The bytes of a number are its digits to the base 256, the lowest first.
pub proof fn lemma_bytes_are_digits(x: u16, y: u32)
    ensures
        u16_le(x).len() == 2,
        u16_le(x)[0] + 256 * u16_le(x)[1] == x,
        u32_le(y).len() == 4,
        u32_le(y)[0] + 256 * u32_le(y)[1] + 65536 * u32_le(y)[2] + 16777216 * u32_le(y)[3] == y,
{
}

/// What bytes stand for is told by the same digits, whatever follows them.
pub proof fn lemma_value_is_digits(s: Seq<u8>)
    ensures
        s.len() >= 2 ==> u16_value(s) == s[0] + 256 * s[1],
        s.len() >= 4 ==> u32_value(s) == s[0] + 256 * s[1] + 65536 * s[2] + 16777216 * s[3],
{
}

/// A signed number and its bits differ by a multiple of 2^32, and the bits of a
/// number that is not negative are the number.
pub proof fn lemma_i32_bits_wrap(x: i32, n: u32)
    ensures
        x >= 0 ==> i32_bits(x) == x,
        x < 0 ==> i32_bits(x) == x + 0x1_0000_0000,
        i32_bits(x) == n <==> i32_of_bits(n as nat) == x,
{
}

} // verus!
