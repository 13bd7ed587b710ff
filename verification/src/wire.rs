//! Integers as they lie in registers and descriptors: little-endian in PCI
//! configuration space, big-endian on the fw_cfg wire.

use vstd::prelude::*;

verus! {

/// The little-endian 16-bit value at `at`.
pub open spec fn le16(s: Seq<u8>, at: int) -> int {
    s[at] + 0x100 * s[at + 1]
}

/// The little-endian 32-bit value at `at`.
pub open spec fn le32(s: Seq<u8>, at: int) -> int {
    s[at] + 0x100 * s[at + 1] + 0x1_0000 * s[at + 2] + 0x100_0000 * s[at + 3]
}

/// The big-endian 16-bit value at `at`.
pub open spec fn be16(s: Seq<u8>, at: int) -> int {
    0x100 * s[at] + s[at + 1]
}

/// The big-endian 32-bit value at `at`.
pub open spec fn be32(s: Seq<u8>, at: int) -> int {
    0x100_0000 * s[at] + 0x1_0000 * s[at + 1] + 0x100 * s[at + 2] + s[at + 3]
}

/// The big-endian 64-bit value at `at`.
pub open spec fn be64(s: Seq<u8>, at: int) -> int {
    0x1_0000_0000 * be32(s, at) + be32(s, at + 4)
}

/// The two bytes of `v`, least significant first.
pub open spec fn le16_bytes(v: u16) -> Seq<u8> {
    seq![(v % 0x100) as u8, (v / 0x100) as u8]
}

/// The four bytes of `v`, least significant first.
pub open spec fn le32_bytes(v: u32) -> Seq<u8> {
    seq![
        (v % 0x100) as u8,
        (v / 0x100 % 0x100) as u8,
        (v / 0x1_0000 % 0x100) as u8,
        (v / 0x100_0000) as u8,
    ]
}

/// The two bytes of `v`, most significant first.
pub open spec fn be16_bytes(v: u16) -> Seq<u8> {
    seq![(v / 0x100) as u8, (v % 0x100) as u8]
}

/// The four bytes of `v`, most significant first.
pub open spec fn be32_bytes(v: u32) -> Seq<u8> {
    seq![
        (v / 0x100_0000) as u8,
        (v / 0x1_0000 % 0x100) as u8,
        (v / 0x100 % 0x100) as u8,
        (v % 0x100) as u8,
    ]
}

/// The eight bytes of `v`, most significant first.
pub open spec fn be64_bytes(v: u64) -> Seq<u8> {
    be32_bytes((v / 0x1_0000_0000) as u32) + be32_bytes((v % 0x1_0000_0000) as u32)
}

/// Reads a little-endian `u16`.
pub fn read_le16(bytes: &[u8], at: usize) -> (v: u16)
    requires
        at + 2 <= bytes@.len(),
    ensures
        v == le16(bytes@, at as int),
{
    let b0: u16 = bytes[at] as u16;
    let b1: u16 = bytes[at + 1] as u16;
    b0 + 0x100 * b1
}

/// Reads a little-endian `u32`.
pub fn read_le32(bytes: &[u8], at: usize) -> (v: u32)
    requires
        at + 4 <= bytes@.len(),
    ensures
        v == le32(bytes@, at as int),
{
    let b0: u32 = bytes[at] as u32;
    let b1: u32 = bytes[at + 1] as u32;
    let b2: u32 = bytes[at + 2] as u32;
    let b3: u32 = bytes[at + 3] as u32;
    b0 + 0x100 * b1 + 0x1_0000 * b2 + 0x100_0000 * b3
}

/// Reads a big-endian `u16`.
pub fn read_be16(bytes: &[u8], at: usize) -> (v: u16)
    requires
        at + 2 <= bytes@.len(),
    ensures
        v == be16(bytes@, at as int),
{
    let b0: u16 = bytes[at] as u16;
    let b1: u16 = bytes[at + 1] as u16;
    0x100 * b0 + b1
}

/// Reads a big-endian `u32`.
pub fn read_be32(bytes: &[u8], at: usize) -> (v: u32)
    requires
        at + 4 <= bytes@.len(),
    ensures
        v == be32(bytes@, at as int),
{
    let b0: u32 = bytes[at] as u32;
    let b1: u32 = bytes[at + 1] as u32;
    let b2: u32 = bytes[at + 2] as u32;
    let b3: u32 = bytes[at + 3] as u32;
    0x100_0000 * b0 + 0x1_0000 * b1 + 0x100 * b2 + b3
}

/// Reads a big-endian `u64`.
pub fn read_be64(bytes: &[u8], at: usize) -> (v: u64)
    requires
        at + 8 <= bytes@.len(),
    ensures
        v == be64(bytes@, at as int),
{
    let b0: u64 = bytes[at] as u64;
    let b1: u64 = bytes[at + 1] as u64;
    let b2: u64 = bytes[at + 2] as u64;
    let b3: u64 = bytes[at + 3] as u64;
    let b4: u64 = bytes[at + 4] as u64;
    let b5: u64 = bytes[at + 5] as u64;
    let b6: u64 = bytes[at + 6] as u64;
    let b7: u64 = bytes[at + 7] as u64;
    let high: u64 = 0x100_0000 * b0 + 0x1_0000 * b1 + 0x100 * b2 + b3;
    let low: u64 = 0x100_0000 * b4 + 0x1_0000 * b5 + 0x100 * b6 + b7;
    0x1_0000_0000 * high + low
}

/// Splits a `u16` into its little-endian bytes.
pub fn u16_to_le(v: u16) -> (b: [u8; 2])
    ensures
        b@ == le16_bytes(v),
{
    [(v % 0x100) as u8, (v / 0x100) as u8]
}

/// Splits a `u32` into its little-endian bytes.
pub fn u32_to_le(v: u32) -> (b: [u8; 4])
    ensures
        b@ == le32_bytes(v),
{
    [
        (v % 0x100) as u8,
        (v / 0x100 % 0x100) as u8,
        (v / 0x1_0000 % 0x100) as u8,
        (v / 0x100_0000) as u8,
    ]
}

/// Splits a `u16` into its big-endian bytes.
pub fn u16_to_be(v: u16) -> (b: [u8; 2])
    ensures
        b@ == be16_bytes(v),
{
    [(v / 0x100) as u8, (v % 0x100) as u8]
}

/// Splits a `u32` into its big-endian bytes.
pub fn u32_to_be(v: u32) -> (b: [u8; 4])
    ensures
        b@ == be32_bytes(v),
{
    [
        (v / 0x100_0000) as u8,
        (v / 0x1_0000 % 0x100) as u8,
        (v / 0x100 % 0x100) as u8,
        (v % 0x100) as u8,
    ]
}

/// Splits a `u64` into its big-endian bytes.
pub fn u64_to_be(v: u64) -> (b: [u8; 8])
    ensures
        b@ == be64_bytes(v),
{
    let high: [u8; 4] = u32_to_be((v / 0x1_0000_0000) as u32);
    let low: [u8; 4] = u32_to_be((v % 0x1_0000_0000) as u32);
    [high[0], high[1], high[2], high[3], low[0], low[1], low[2], low[3]]
}

/// Decoding the big-endian bytes of a `u32` gives the value back.
pub proof fn lemma_be32_round_trip(v: u32)
    ensures
        be32_bytes(v).len() == 4,
        be32(be32_bytes(v), 0) == v,
{
}

/// Decoding the big-endian bytes of a `u64` gives the value back.
pub proof fn lemma_be64_round_trip(v: u64)
    ensures
        be64_bytes(v).len() == 8,
        be64(be64_bytes(v), 0) == v,
{
    lemma_be32_round_trip((v / 0x1_0000_0000) as u32);
    lemma_be32_round_trip((v % 0x1_0000_0000) as u32);
}

} // verus!
