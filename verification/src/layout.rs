//! How values are laid out as bytes: the little-endian integers, the
//! length prefix, strings and versions.

use vstd::prelude::*;
use vstd::utf8::encode_utf8;
use crate::version::Version;

verus! {

/// The 16-bit number whose little-endian bytes are `b0`, `b1`.
pub open spec fn u16_of(b0: u8, b1: u8) -> u16 {
    (b0 as int + 0x100 * (b1 as int)) as u16
}

/// The 32-bit number whose little-endian bytes are `b0` to `b3`.
pub open spec fn u32_of(b0: u8, b1: u8, b2: u8, b3: u8) -> u32 {
    (b0 as int + 0x100 * (b1 as int) + 0x1_0000 * (b2 as int) + 0x100_0000 * (b3 as int)) as u32
}

/// The 64-bit number whose little-endian bytes are the first eight of `s`.
pub open spec fn u64_of(s: Seq<u8>) -> u64 {
    (u32_of(s[0], s[1], s[2], s[3]) as int + 0x1_0000_0000 * (u32_of(s[4], s[5], s[6], s[7]) as int)) as u64
}

/// The two little-endian bytes of `v`.
pub open spec fn u16_bytes(v: u16) -> Seq<u8> {
    seq![(v % 0x100) as u8, (v / 0x100) as u8]
}

/// The four little-endian bytes of `v`.
pub open spec fn u32_bytes(v: u32) -> Seq<u8> {
    seq![
        (v % 0x100) as u8,
        ((v / 0x100) % 0x100) as u8,
        ((v / 0x1_0000) % 0x100) as u8,
        (v / 0x100_0000) as u8,
    ]
}

/// The eight little-endian bytes of `v`.
pub open spec fn u64_bytes(v: u64) -> Seq<u8> {
    u32_bytes((v % 0x1_0000_0000) as u32) + u32_bytes((v / 0x1_0000_0000) as u32)
}

/// One byte for a boolean: 1 for true, 0 for false.
pub open spec fn bool_bytes(b: bool) -> Seq<u8> {
    seq![if b { 1u8 } else { 0u8 }]
}

/// A length in the space-saving form: one byte where it is below 255, else
/// the byte 255 and the low 32 bits of the length, little-endian.
pub open spec fn length_bytes(n: nat) -> Seq<u8> {
    if n < 255 {
        seq![n as u8]
    } else {
        seq![255u8] + u32_bytes((n % 0x1_0000_0000) as u32)
    }
}

/// A string as a property tree holds it: the byte 1 alone where it is empty,
/// else the byte 0, the length of its UTF-8 form and that form.
pub open spec fn string_bytes(text: Seq<char>) -> Seq<u8> {
    if text.len() == 0 {
        seq![1u8]
    } else {
        seq![0u8] + length_bytes(encode_utf8(text).len()) + encode_utf8(text)
    }
}

/// A full version: its four components in order, two bytes each.
pub open spec fn version_bytes(v: Version) -> Seq<u8> {
    u16_bytes(v.main) + u16_bytes(v.major) + u16_bytes(v.minor) + u16_bytes(v.developer)
}

/// The two bytes of a number give the number back.
pub proof fn lemma_u16_of_bytes(v: u16)
    ensures
        u16_of(u16_bytes(v)[0], u16_bytes(v)[1]) == v,
{
}

/// The four bytes of a number give the number back.
pub proof fn lemma_u32_of_bytes(v: u32)
    ensures
        u32_of(u32_bytes(v)[0], u32_bytes(v)[1], u32_bytes(v)[2], u32_bytes(v)[3]) == v,
{
}

/// The eight bytes of a number give the number back.
pub proof fn lemma_u64_of_bytes(v: u64)
    ensures
        u64_bytes(v).len() == 8,
        u64_of(u64_bytes(v)) == v,
{
    lemma_u32_of_bytes((v % 0x1_0000_0000) as u32);
    lemma_u32_of_bytes((v / 0x1_0000_0000) as u32);
}

} // verus!
