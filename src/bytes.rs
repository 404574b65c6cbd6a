//! Integer fields stored in byte sequences.
use vstd::prelude::*;

verus! {

/// Big-endian unsigned value of the two bytes at `at`.
pub open spec fn be16(d: Seq<u8>, at: int) -> nat {
    (d[at] * 0x100 + d[at + 1]) as nat
}

/// Big-endian unsigned value of the four bytes at `at`.
pub open spec fn be32(d: Seq<u8>, at: int) -> nat {
    (d[at] * 0x100_0000 + d[at + 1] * 0x1_0000 + d[at + 2] * 0x100 + d[at + 3]) as nat
}

/// Big-endian unsigned value of the eight bytes at `at`.
pub open spec fn be64(d: Seq<u8>, at: int) -> nat {
    be32(d, at) * 0x1_0000_0000 + be32(d, at + 4)
}

/// Little-endian unsigned value of the two bytes at `at`.
pub open spec fn le16(d: Seq<u8>, at: int) -> nat {
    (d[at] + d[at + 1] * 0x100) as nat
}

/// Little-endian unsigned value of the four bytes at `at`.
pub open spec fn le32(d: Seq<u8>, at: int) -> nat {
    (d[at] + d[at + 1] * 0x100 + d[at + 2] * 0x1_0000 + d[at + 3] * 0x100_0000) as nat
}

/// The two bytes of `v` modulo 2^16, least significant first.
pub open spec fn le16_bytes(v: int) -> Seq<u8> {
    seq![(v % 0x100) as u8, (v / 0x100 % 0x100) as u8]
}

/// The four bytes of `v` modulo 2^32, least significant first.
pub open spec fn le32_bytes(v: int) -> Seq<u8> {
    seq![
        (v % 0x100) as u8,
        (v / 0x100 % 0x100) as u8,
        (v / 0x1_0000 % 0x100) as u8,
        (v / 0x100_0000 % 0x100) as u8,
    ]
}

/// Reading back the bytes written for a 16-bit value gives the value.
pub proof fn lemma_le16_round_trip(v: int)
    requires
        0 <= v < 0x1_0000,
    ensures
        le16(le16_bytes(v), 0) == v,
{
    assert(v == v % 0x100 + (v / 0x100 % 0x100) * 0x100) by (nonlinear_arith)
        requires
            0 <= v < 0x1_0000,
    ;
}

/// Reading back the bytes written for a 32-bit value gives the value.
pub proof fn lemma_le32_round_trip(v: int)
    requires
        0 <= v < 0x1_0000_0000,
    ensures
        le32(le32_bytes(v), 0) == v,
{
    let a = v / 0x100;
    let b = a / 0x100;
    let c = b / 0x100;
    assert(v / 0x1_0000 == b) by (nonlinear_arith)
        requires
            a == v / 0x100,
            b == a / 0x100,
            0 <= v,
    ;
    assert(v / 0x100_0000 == c) by (nonlinear_arith)
        requires
            b == v / 0x1_0000,
            c == b / 0x100,
            0 <= v,
    ;
    assert(v == v % 0x100 + (a % 0x100) * 0x100 + (b % 0x100) * 0x1_0000 + (c % 0x100)
        * 0x100_0000) by (nonlinear_arith)
        requires
            a == v / 0x100,
            b == a / 0x100,
            c == b / 0x100,
            0 <= v < 0x1_0000_0000,
    ;
}

/// Reads the big-endian 16-bit value at `at`.
pub fn read_be16(d: &[u8], at: usize) -> (r: u16)
    requires
        at + 2 <= d.len(),
    ensures
        r == be16(d@, at as int),
{
    d[at] as u16 * 0x100 + d[at + 1] as u16
}

/// Reads the big-endian 32-bit value at `at`.
pub fn read_be32(d: &[u8], at: usize) -> (r: u32)
    requires
        at + 4 <= d.len(),
    ensures
        r == be32(d@, at as int),
{
    d[at] as u32 * 0x100_0000 + d[at + 1] as u32 * 0x1_0000 + d[at + 2] as u32 * 0x100
        + d[at + 3] as u32
}

/// Reads the big-endian 64-bit value at `at`.
pub fn read_be64(d: &[u8], at: usize) -> (r: u64)
    requires
        at + 8 <= d.len(),
    ensures
        r == be64(d@, at as int),
{
    let hi = read_be32(d, at);
    let lo = read_be32(d, at + 4);
    hi as u64 * 0x1_0000_0000 + lo as u64
}

/// Appends the two bytes of `v`, least significant first.
pub fn push_le16(d: &mut Vec<u8>, v: u16)
    ensures
        final(d)@ == old(d)@ + le16_bytes(v as int),
{
    d.push((v % 0x100) as u8);
    d.push((v / 0x100) as u8);
    assert(final(d)@ =~= old(d)@ + le16_bytes(v as int));
}

/// Appends the four bytes of `v`, least significant first.
pub fn push_le32(d: &mut Vec<u8>, v: u32)
    ensures
        final(d)@ == old(d)@ + le32_bytes(v as int),
{
    d.push((v % 0x100) as u8);
    d.push((v / 0x100 % 0x100) as u8);
    d.push((v / 0x1_0000 % 0x100) as u8);
    d.push((v / 0x100_0000) as u8);
    assert(final(d)@ =~= old(d)@ + le32_bytes(v as int));
}

/// Appends the four bytes of `tag`, in order.
pub fn push_tag(d: &mut Vec<u8>, tag: &[u8; 4])
    ensures
        final(d)@ == old(d)@ + tag@,
{
    d.push(tag[0]);
    d.push(tag[1]);
    d.push(tag[2]);
    d.push(tag[3]);
    assert(final(d)@ =~= old(d)@ + tag@);
}

} // verus!
