//! Fixed-offset, little-endian fields of announcements and headers.
use vstd::prelude::*;

verus! {

/// The value of the four bytes of `s` that start at `off`, read little-endian.
pub open spec fn le32_at(s: Seq<u8>, off: int) -> nat {
    (s[off] + s[off + 1] * 0x100 + s[off + 2] * 0x1_0000 + s[off + 3] * 0x100_0000) as nat
}

/// The four little-endian bytes of `v`.
pub open spec fn le32_bytes(v: u32) -> Seq<u8> {
    seq![
        (v % 0x100) as u8,
        ((v / 0x100) % 0x100) as u8,
        ((v / 0x1_0000) % 0x100) as u8,
        ((v / 0x100_0000) % 0x100) as u8,
    ]
}

/// The soft nonce: bytes 1..4 read little-endian, shifted left by eight
/// bits. The version in byte 0 is not part of it.
pub open spec fn soft_nonce_of(s: Seq<u8>) -> u32 {
    (le32_at(s, 0) / 0x100 * 0x100) as u32
}

/// The hard nonce, bytes 4..8.
pub open spec fn hard_nonce_of(s: Seq<u8>) -> u32 {
    le32_at(s, 4) as u32
}

/// The compact difficulty target, bytes 8..12.
pub open spec fn work_bits_of(s: Seq<u8>) -> u32 {
    le32_at(s, 8) as u32
}

/// The parent block height, bytes 12..16, as a two's-complement value.
pub open spec fn parent_block_height_of(s: Seq<u8>) -> i32 {
    let v = le32_at(s, 12);
    if v < 0x8000_0000 {
        v as i32
    } else {
        (v - 0x1_0000_0000) as i32
    }
}

/// Bytes 24..56: the hash of the announcement's content.
pub open spec fn content_hash_of(s: Seq<u8>) -> Seq<u8> {
    s.subrange(24, 56)
}

/// Bytes 56..88: the announcer's public key.
pub open spec fn signing_key_of(s: Seq<u8>) -> Seq<u8> {
    s.subrange(56, 88)
}

/// Reads four bytes at `off` as a little-endian `u32`.
pub fn read_le32(bytes: &[u8], off: usize) -> (r: u32)
    requires
        off + 4 <= bytes@.len(),
    ensures
        r == le32_at(bytes@, off as int),
{
    let b0 = bytes[off] as u32;
    let b1 = bytes[off + 1] as u32;
    let b2 = bytes[off + 2] as u32;
    let b3 = bytes[off + 3] as u32;
    b0 + b1 * 0x100 + b2 * 0x1_0000 + b3 * 0x100_0000
}

/// The hard nonce of an announcement or header buffer.
pub fn hard_nonce(bytes: &[u8]) -> (r: u32)
    requires
        bytes@.len() >= 8,
    ensures
        r == hard_nonce_of(bytes@),
{
    read_le32(bytes, 4)
}

/// The compact difficulty target of an announcement or header buffer.
pub fn work_bits(bytes: &[u8]) -> (r: u32)
    requires
        bytes@.len() >= 12,
    ensures
        r == work_bits_of(bytes@),
{
    read_le32(bytes, 8)
}

/// The parent block height of an announcement or header buffer.
pub fn parent_block_height(bytes: &[u8]) -> (r: i32)
    requires
        bytes@.len() >= 16,
    ensures
        r == parent_block_height_of(bytes@),
{
    let v = read_le32(bytes, 12);
    if v < 0x8000_0000 {
        v as i32
    } else {
        let low: u32 = v - 0x8000_0000;
        let r: i32 = (low as i32) - 0x7fff_ffff - 1;
        r
    }
}

/// Soft nonce of a buffer: bytes 1..4, little-endian, shifted left by eight
/// bits, leaving out the version in byte 0.
pub fn soft_nonce_from(bytes: &[u8]) -> (r: u32)
    requires
        bytes@.len() >= 4,
    ensures
        r == soft_nonce_of(bytes@),
{
    let v = read_le32(bytes, 0);
    v / 0x100 * 0x100
}

} // verus!
