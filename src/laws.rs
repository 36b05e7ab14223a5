//! Properties that hold across calls and across all inputs.
use vstd::prelude::*;
use crate::announce::{ann_check_result, ann_hash, ann_well_formed, ANN_SIZE};
use crate::block::{
    block_check_result, block_hash, hap_bytes, item4_repeated, share_well_formed,
    soft_nonce_too_high, ANN_COUNT, HEADER_SIZE,
};
use crate::difficulty::{compact_target, meets_target};
use crate::primitives::blake2b_256_of;
use crate::layout::{
    hard_nonce_of, le32_at, le32_bytes, parent_block_height_of, soft_nonce_of, work_bits_of,
};

verus! {

/// Checking an announcement is deterministic: two checks of the same
/// announcement under the same parent hash, with any contexts, return the
/// same result.
pub proof fn lemma_check_ann_deterministic(
    a: Seq<u8>,
    parent: Seq<u8>,
    r1: Result<Seq<u8>, Seq<char>>,
    r2: Result<Seq<u8>, Seq<char>>,
)
    requires
        ann_check_result(a, parent, r1),
        ann_check_result(a, parent, r2),
    ensures
        r1 == r2,
{
}

/// A well-formed announcement whose hash exceeds the target of its work
/// bits is refused for insufficient work, and for no other reason.
pub proof fn lemma_insufficient_work(a: Seq<u8>, parent: Seq<u8>, r: Result<Seq<u8>, Seq<char>>)
    requires
        ann_well_formed(a),
        !meets_target(ann_hash(a, parent), compact_target(work_bits_of(a))),
        ann_check_result(a, parent, r),
    ensures
        r == Err::<Seq<u8>, Seq<char>>("INSUF_POW"@),
{
}

/// A buffer shorter than an announcement is refused as invalid.
pub proof fn lemma_short_ann_invalid(a: Seq<u8>, parent: Seq<u8>, r: Result<Seq<u8>, Seq<char>>)
    requires
        a.len() < ANN_SIZE,
        ann_check_result(a, parent, r),
    ensures
        r == Err::<Seq<u8>, Seq<char>>("INVAL"@),
{
}

/// Checking an announcement never ends in `UNKNOWN`.
pub proof fn lemma_ann_never_unknown(a: Seq<u8>, parent: Seq<u8>, r: Result<Seq<u8>, Seq<char>>)
    requires
        ann_check_result(a, parent, r),
    ensures
        r != Err::<Seq<u8>, Seq<char>>("UNKNOWN"@),
{
    reveal_strlit("UNKNOWN");
    reveal_strlit("INVAL");
    reveal_strlit("INSUF_POW");
    assert("UNKNOWN"@[0] != "INVAL"@[0]);
    assert("UNKNOWN"@ != "INVAL"@);
    assert("UNKNOWN"@[0] != "INSUF_POW"@[0]);
    assert("UNKNOWN"@ != "INSUF_POW"@);
}

/// A well-formed share whose hash meets the share target is accepted, and
/// the hash returned is the digest of its header-and-proof buffer followed
/// by the coinbase.
pub proof fn lemma_share_accepted(
    header: Seq<u8>,
    low_nonce: u32,
    share_target: u32,
    anns: Seq<[u8; 1024]>,
    coinbase: Seq<u8>,
    r: Result<Seq<u8>, Seq<char>>,
)
    requires
        share_well_formed(header, share_target, anns),
        !item4_repeated(anns),
        !soft_nonce_too_high(anns),
        meets_target(block_hash(header, low_nonce, anns, coinbase), compact_target(share_target)),
        block_check_result(header, low_nonce, share_target, anns, coinbase, r),
    ensures
        r == Ok::<Seq<u8>, Seq<char>>(block_hash(header, low_nonce, anns, coinbase)),
        r == Ok::<Seq<u8>, Seq<char>>(
            blake2b_256_of(hap_bytes(header, low_nonce, anns) + coinbase),
        ),
{
}

/// A well-formed share whose hash misses the share target is refused for
/// insufficient work.
pub proof fn lemma_share_insufficient_work(
    header: Seq<u8>,
    low_nonce: u32,
    share_target: u32,
    anns: Seq<[u8; 1024]>,
    coinbase: Seq<u8>,
    r: Result<Seq<u8>, Seq<char>>,
)
    requires
        share_well_formed(header, share_target, anns),
        !item4_repeated(anns),
        !soft_nonce_too_high(anns),
        !meets_target(block_hash(header, low_nonce, anns, coinbase), compact_target(share_target)),
        block_check_result(header, low_nonce, share_target, anns, coinbase, r),
    ensures
        r == Err::<Seq<u8>, Seq<char>>("INSUF_POW"@),
{
}

/// Checking a share never ends in `UNKNOWN`.
pub proof fn lemma_share_never_unknown(
    header: Seq<u8>,
    low_nonce: u32,
    share_target: u32,
    anns: Seq<[u8; 1024]>,
    coinbase: Seq<u8>,
    r: Result<Seq<u8>, Seq<char>>,
)
    requires
        block_check_result(header, low_nonce, share_target, anns, coinbase, r),
    ensures
        r != Err::<Seq<u8>, Seq<char>>("UNKNOWN"@),
{
    reveal_strlit("UNKNOWN");
    reveal_strlit("INVAL");
    reveal_strlit("INVAL_ITEM4");
    reveal_strlit("SOFT_NONCE_HIGH");
    reveal_strlit("INSUF_POW");
    assert("UNKNOWN"@[0] != "INVAL"@[0]);
    assert("UNKNOWN"@ != "INVAL"@);
    assert("UNKNOWN"@[0] != "INVAL_ITEM4"@[0]);
    assert("UNKNOWN"@ != "INVAL_ITEM4"@);
    assert("UNKNOWN"@[0] != "SOFT_NONCE_HIGH"@[0]);
    assert("UNKNOWN"@ != "SOFT_NONCE_HIGH"@);
    assert("UNKNOWN"@[0] != "INSUF_POW"@[0]);
    assert("UNKNOWN"@ != "INSUF_POW"@);
}

/// Changing any byte of any of the four announcement slots changes the
/// input that the share hash is computed from.
pub proof fn lemma_share_input_depends_on_every_ann_byte(
    header: Seq<u8>,
    low_nonce: u32,
    anns1: Seq<[u8; 1024]>,
    anns2: Seq<[u8; 1024]>,
    coinbase: Seq<u8>,
    slot: int,
    at: int,
)
    requires
        header.len() == HEADER_SIZE,
        anns1.len() == ANN_COUNT,
        anns2.len() == ANN_COUNT,
        0 <= slot < 4,
        0 <= at < 1024,
        anns1[slot]@[at] != anns2[slot]@[at],
    ensures
        hap_bytes(header, low_nonce, anns1) + coinbase != hap_bytes(header, low_nonce, anns2)
            + coinbase,
{
    let s1 = hap_bytes(header, low_nonce, anns1) + coinbase;
    let s2 = hap_bytes(header, low_nonce, anns2) + coinbase;
    let i = 88 + 1024 * slot + at;
    assert(s1[i] == anns1[slot]@[at]);
    assert(s2[i] == anns2[slot]@[at]);
}

/// Reading four little-endian bytes back gives the value they were written
/// from.
pub proof fn lemma_le32_round_trip(v: u32)
    ensures
        le32_at(le32_bytes(v), 0) == v,
{
    let b = le32_bytes(v);
    assert(b[0] == v % 0x100);
    assert(b[1] == (v / 0x100) % 0x100);
    assert(b[2] == (v / 0x1_0000) % 0x100);
    assert(b[3] == (v / 0x100_0000) % 0x100);
    assert(v % 0x100 + ((v / 0x100) % 0x100) * 0x100 + ((v / 0x1_0000) % 0x100) * 0x1_0000 + ((v
        / 0x100_0000) % 0x100) * 0x100_0000 == v) by (nonlinear_arith)
        requires
            0 <= v < 0x1_0000_0000,
    ;
}

/// The soft nonce does not depend on the version byte: two buffers that
/// agree on bytes 1..4 have the same soft nonce.
pub proof fn lemma_soft_nonce_ignores_version(s: Seq<u8>, t: Seq<u8>)
    requires
        s.len() >= 4,
        t.len() >= 4,
        s[1] == t[1],
        s[2] == t[2],
        s[3] == t[3],
    ensures
        soft_nonce_of(s) == soft_nonce_of(t),
{
    let hi: int = s[1] + s[2] * 0x100 + s[3] * 0x1_0000;
    assert(le32_at(s, 0) == s[0] + hi * 0x100);
    assert(le32_at(t, 0) == t[0] + hi * 0x100);
    let bs: int = s[0] as int;
    let bt: int = t[0] as int;
    assert((bs + hi * 0x100) / 0x100 == hi) by (nonlinear_arith)
        requires
            0 <= bs < 0x100,
            hi >= 0,
    ;
    assert((bt + hi * 0x100) / 0x100 == hi) by (nonlinear_arith)
        requires
            0 <= bt < 0x100,
            hi >= 0,
    ;
}

/// The 32 bits of a signed height, as an unsigned value.
pub open spec fn i32_bits(h: i32) -> u32 {
    if h >= 0 {
        h as u32
    } else {
        (h + 0x1_0000_0000) as u32
    }
}

/// Fields written at their documented offsets read back unchanged: the
/// version at byte 0, and the hard nonce, work bits and parent height
/// little-endian at 4, 8 and 12.
pub proof fn lemma_layout_round_trip(s: Seq<u8>, version: u8, hard_nonce: u32, work_bits: u32, height: i32)
    requires
        s.len() >= 16,
        s[0] == version,
        s.subrange(4, 8) == le32_bytes(hard_nonce),
        s.subrange(8, 12) == le32_bytes(work_bits),
        s.subrange(12, 16) == le32_bytes(i32_bits(height)),
    ensures
        s[0] == version,
        hard_nonce_of(s) == hard_nonce,
        work_bits_of(s) == work_bits,
        parent_block_height_of(s) == height,
{
    lemma_le32_round_trip(hard_nonce);
    lemma_le32_round_trip(work_bits);
    lemma_le32_round_trip(i32_bits(height));
    assert(le32_at(s, 4) == le32_at(s.subrange(4, 8), 0));
    assert(le32_at(s, 8) == le32_at(s.subrange(8, 12), 0));
    assert(le32_at(s, 12) == le32_at(s.subrange(12, 16), 0));
}

} // verus!
