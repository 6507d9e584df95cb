//! Big-endian integers on the wire.

use vstd::prelude::*;

verus! {

/// The two bytes of `x`, most significant first.
pub open spec fn be_u16(x: u16) -> Seq<u8> {
    seq![(x / 0x100) as u8, (x % 0x100) as u8]
}

/// The four bytes of `x`, most significant first.
pub open spec fn be_u32(x: u32) -> Seq<u8> {
    seq![
        (x / 0x100_0000) as u8,
        (x / 0x1_0000 % 0x100) as u8,
        (x / 0x100 % 0x100) as u8,
        (x % 0x100) as u8,
    ]
}

/// The value of two bytes, most significant first.
pub open spec fn from_be_u16(b0: u8, b1: u8) -> u16 {
    (b0 * 0x100 + b1) as u16
}

/// The value of four bytes, most significant first.
pub open spec fn from_be_u32(b0: u8, b1: u8, b2: u8, b3: u8) -> u32 {
    (b0 * 0x100_0000 + b1 * 0x1_0000 + b2 * 0x100 + b3) as u32
}

/// The contents of a list of byte strings.
pub open spec fn strings(list: Seq<Vec<u8>>) -> Seq<Seq<u8>> {
    list.map_values(|b: Vec<u8>| b@)
}

/// The bytes of a list of byte strings, one after the other.
pub open spec fn joined(list: Seq<Seq<u8>>) -> Seq<u8>
    decreases list.len(),
{
    if list.len() == 0 {
        Seq::empty()
    } else {
        list.first() + joined(list.drop_first())
    }
}

/// Splits a 16-bit value into its big-endian bytes.
pub fn split_u16(x: u16) -> (r: (u8, u8))
    ensures
        seq![r.0, r.1] == be_u16(x),
{
    ((x / 0x100) as u8, (x % 0x100) as u8)
}

/// Splits a 32-bit value into its big-endian bytes.
pub fn split_u32(x: u32) -> (r: (u8, u8, u8, u8))
    ensures
        seq![r.0, r.1, r.2, r.3] == be_u32(x),
{
    (
        (x / 0x100_0000) as u8,
        (x / 0x1_0000 % 0x100) as u8,
        (x / 0x100 % 0x100) as u8,
        (x % 0x100) as u8,
    )
}

/// Joins two big-endian bytes.
pub fn join_u16(b0: u8, b1: u8) -> (x: u16)
    ensures
        x == from_be_u16(b0, b1),
        x == b0 * 0x100 + b1,
{
    b0 as u16 * 0x100 + b1 as u16
}

/// Joins four big-endian bytes.
pub fn join_u32(b0: u8, b1: u8, b2: u8, b3: u8) -> (x: u32)
    ensures
        x == from_be_u32(b0, b1, b2, b3),
        x == b0 * 0x100_0000 + b1 * 0x1_0000 + b2 * 0x100 + b3,
{
    b0 as u32 * 0x100_0000 + b1 as u32 * 0x1_0000 + b2 as u32 * 0x100 + b3 as u32
}

/// The low 32 bits of a length.
pub fn low_u32(n: usize) -> (r: u32)
    ensures
        r == n as int % 0x1_0000_0000,
{
    let wide: u64 = n as u64;
    assert(wide as u32 == wide % 0x1_0000_0000) by (bit_vector);
    wide as u32
}

/// Splitting a 16-bit value and joining the bytes gives the value back.
pub proof fn law_u16_round_trip(x: u16)
    ensures
        from_be_u16(be_u16(x)[0], be_u16(x)[1]) == x,
{
}

/// Splitting a 32-bit value and joining the bytes gives the value back.
pub proof fn law_u32_round_trip(x: u32)
    ensures
        from_be_u32(be_u32(x)[0], be_u32(x)[1], be_u32(x)[2], be_u32(x)[3]) == x,
{
}

/// Joining two bytes and splitting the value gives the bytes back.
pub proof fn law_u16_bytes_round_trip(b0: u8, b1: u8)
    ensures
        be_u16(from_be_u16(b0, b1)) == seq![b0, b1],
{
}

/// The top digit of a two-digit number, and what is left below it.
proof fn lemma_top_digit(top: int, rest: int, base: int)
    by (nonlinear_arith)
    requires
        0 <= rest < base,
    ensures
        (top * base + rest) / base == top,
        (top * base + rest) % base == rest,
{
}

/// Joining four bytes and splitting the value gives the bytes back.
pub proof fn law_u32_bytes_round_trip(b0: u8, b1: u8, b2: u8, b3: u8)
    ensures
        be_u32(from_be_u32(b0, b1, b2, b3)) == seq![b0, b1, b2, b3],
{
    let x = from_be_u32(b0, b1, b2, b3);
    let top3 = b0 * 0x1_0000 + b1 * 0x100 + b2;
    let top2 = b0 * 0x100 + b1;
    assert(x == top3 * 0x100 + b3);
    assert(x == top2 * 0x1_0000 + (b2 * 0x100 + b3));
    assert(x == b0 * 0x100_0000 + (b1 * 0x1_0000 + b2 * 0x100 + b3));
    lemma_top_digit(top3, b3 as int, 0x100);
    lemma_top_digit(top2, b2 * 0x100 + b3, 0x1_0000);
    lemma_top_digit(b0 as int, b1 * 0x1_0000 + b2 * 0x100 + b3, 0x100_0000);
    lemma_top_digit(top2, b2 as int, 0x100);
    lemma_top_digit(b0 as int, b1 as int, 0x100);
}

} // verus!
