//! Block proof-of-work shares: a header, a low nonce and four announcements,
//! hashed with a coinbase and checked against a share target.
use vstd::prelude::*;
use crate::announce::{ann_is_well_formed, ann_well_formed, result_view, ANN_SIZE};
use crate::difficulty::{compact_target, compact_to_target, compact_valid, hash_meets_target, meets_target};
use crate::layout::{content_hash_of, le32_bytes, soft_nonce_from, soft_nonce_of};
use crate::primitives::{blake2b_256, blake2b_256_of};

verus! {

/// The size of a block header in bytes.
pub const HEADER_SIZE: usize = 80;

/// The number of announcements in a share.
pub const ANN_COUNT: usize = 4;

/// The size of the header-and-proof buffer: header, nonce field, and four
/// announcements.
pub const HAP_SIZE: usize = 4184;

/// The largest soft nonce that an announcement in a share may carry: the
/// nonce must fit in 24 bits, so byte 3 of the announcement must be zero.
pub const SOFT_NONCE_MAX: u32 = 0x00ff_ffff;

/// The header-and-proof buffer: the header, four zero bytes, the low nonce
/// little-endian, then the four announcements in order.
pub open spec fn hap_bytes(header: Seq<u8>, low_nonce: u32, anns: Seq<[u8; 1024]>) -> Seq<u8> {
    header + seq![0u8, 0u8, 0u8, 0u8] + le32_bytes(low_nonce) + anns[0]@ + anns[1]@ + anns[2]@
        + anns[3]@
}

/// The hash of a share: the digest of its header-and-proof buffer followed
/// by the coinbase.
pub open spec fn block_hash(
    header: Seq<u8>,
    low_nonce: u32,
    anns: Seq<[u8; 1024]>,
    coinbase: Seq<u8>,
) -> Seq<u8> {
    blake2b_256_of(hap_bytes(header, low_nonce, anns) + coinbase)
}

/// A share is well formed when the header has 80 bytes, there are four
/// announcements, each well formed, and the share target is valid.
pub open spec fn share_well_formed(header: Seq<u8>, share_target: u32, anns: Seq<[u8; 1024]>) -> bool {
    &&& header.len() == HEADER_SIZE
    &&& anns.len() == ANN_COUNT
    &&& compact_valid(share_target)
    &&& forall|i: int| 0 <= i < 4 ==> ann_well_formed(#[trigger] anns[i]@)
}

/// The fourth announcement repeats the content hash of one of the first three.
pub open spec fn item4_repeated(anns: Seq<[u8; 1024]>) -> bool {
    exists|i: int| 0 <= i < 3 && content_hash_of(#[trigger] anns[i]@) == content_hash_of(anns[3]@)
}

/// Some announcement carries a soft nonce above the allowed maximum.
pub open spec fn soft_nonce_too_high(anns: Seq<[u8; 1024]>) -> bool {
    exists|i: int| 0 <= i < 4 && soft_nonce_of(#[trigger] anns[i]@) > SOFT_NONCE_MAX
}

/// What checking a share returns, given the hash `h` computed for it.
pub open spec fn block_outcome(
    header: Seq<u8>,
    share_target: u32,
    anns: Seq<[u8; 1024]>,
    h: Seq<u8>,
) -> Result<Seq<u8>, Seq<char>> {
    if !share_well_formed(header, share_target, anns) {
        Err("INVAL"@)
    } else if item4_repeated(anns) {
        Err("INVAL_ITEM4"@)
    } else if soft_nonce_too_high(anns) {
        Err("SOFT_NONCE_HIGH"@)
    } else if meets_target(h, compact_target(share_target)) {
        Ok(h)
    } else {
        Err("INSUF_POW"@)
    }
}

/// What checking a share returns: the outcome for its hash.
pub open spec fn block_check_result(
    header: Seq<u8>,
    low_nonce: u32,
    share_target: u32,
    anns: Seq<[u8; 1024]>,
    coinbase: Seq<u8>,
    r: Result<Seq<u8>, Seq<char>>,
) -> bool {
    r == block_outcome(header, share_target, anns, block_hash(header, low_nonce, anns, coinbase))
}

/// Whether two announcements carry the same content hash.
fn same_content_hash(a: &[u8; 1024], b: &[u8; 1024]) -> (r: bool)
    ensures
        r == (content_hash_of(a@) == content_hash_of(b@)),
{
    let mut i: usize = 24;
    while i < 56
        invariant
            24 <= i <= 56,
            forall|j: int| 24 <= j < i ==> a@[j] == b@[j],
        decreases 56 - i,
    {
        if a[i] != b[i] {
            assert(content_hash_of(a@)[i - 24] != content_hash_of(b@)[i - 24]);
            return false;
        }
        i = i + 1;
    }
    assert(content_hash_of(a@) =~= content_hash_of(b@));
    true
}

/// Builds the header-and-proof buffer of a share.
pub fn header_and_proof(header: &[u8], low_nonce: u32, anns: &[[u8; 1024]]) -> (r: Vec<u8>)
    requires
        header@.len() == HEADER_SIZE,
        anns@.len() == ANN_COUNT,
    ensures
        r@ == hap_bytes(header@, low_nonce, anns@),
{
    let mut hap: Vec<u8> = Vec::new();
    let mut i: usize = 0;
    while i < HEADER_SIZE
        invariant
            i <= HEADER_SIZE,
            header@.len() == HEADER_SIZE,
            hap@ == header@.subrange(0, i as int),
        decreases HEADER_SIZE - i,
    {
        hap.push(header[i]);
        i = i + 1;
    }
    assert(hap@ =~= header@);
    hap.push(0u8);
    hap.push(0u8);
    hap.push(0u8);
    hap.push(0u8);
    hap.push((low_nonce % 0x100) as u8);
    hap.push(((low_nonce / 0x100) % 0x100) as u8);
    hap.push(((low_nonce / 0x1_0000) % 0x100) as u8);
    hap.push(((low_nonce / 0x100_0000) % 0x100) as u8);
    assert(hap@ =~= header@ + seq![0u8, 0u8, 0u8, 0u8] + le32_bytes(low_nonce));
    let ghost prefix = hap@;
    let mut k: usize = 0;
    while k < ANN_COUNT
        invariant
            k <= ANN_COUNT,
            anns@.len() == ANN_COUNT,
            hap@.len() == 88 + 1024 * k,
            prefix.len() == 88,
            hap@.subrange(0, 88) == prefix,
            forall|kk: int, j: int|
                0 <= kk < k && 0 <= j < 1024 ==> hap@[88 + 1024 * kk + j] == #[trigger] anns@[kk]@[j],
        decreases ANN_COUNT - k,
    {
        let mut j: usize = 0;
        while j < ANN_SIZE
            invariant
                k < ANN_COUNT,
                anns@.len() == ANN_COUNT,
                j <= ANN_SIZE,
                hap@.len() == 88 + 1024 * k + j,
                prefix.len() == 88,
                hap@.subrange(0, 88) == prefix,
                forall|kk: int, jj: int|
                    0 <= kk < k && 0 <= jj < 1024 ==> hap@[88 + 1024 * kk + jj]
                        == #[trigger] anns@[kk]@[jj],
                forall|jj: int| 0 <= jj < j ==> hap@[88 + 1024 * k + jj] == anns@[k as int]@[jj],
            decreases ANN_SIZE - j,
        {
            hap.push(anns[k][j]);
            j = j + 1;
        }
        k = k + 1;
    }
    let ghost spec_hap = hap_bytes(header@, low_nonce, anns@);
    assert(hap@ =~= spec_hap) by {
        assert(spec_hap.len() == 4184);
        assert forall|i: int| 0 <= i < 4184 implies hap@[i] == spec_hap[i] by {
            if i < 88 {
                assert(hap@[i] == hap@.subrange(0, 88)[i]);
            } else {
                let kk = (i - 88) / 1024;
                let jj = (i - 88) % 1024;
                assert(i == 88 + 1024 * kk + jj);
                assert(hap@[88 + 1024 * kk + jj] == anns@[kk]@[jj]);
            }
        }
    }
    hap
}

/// The result of checking a share whose hash came out as `hash`.
pub fn check_block_hashed(header: &[u8], share_target: u32, anns: &[[u8; 1024]], hash: [u8; 32]) -> (r:
    Result<[u8; 32], &'static str>)
    ensures
        result_view(r) == block_outcome(header@, share_target, anns@, hash@),
{
    if header.len() != HEADER_SIZE || anns.len() != ANN_COUNT {
        return Err("INVAL");
    }
    let target = match compact_to_target(share_target) {
        Some(t) => t,
        None => {
            return Err("INVAL");
        },
    };
    let mut i: usize = 0;
    while i < ANN_COUNT
        invariant
            i <= ANN_COUNT,
            anns@.len() == ANN_COUNT,
            header@.len() == HEADER_SIZE,
            compact_valid(share_target),
            target@ == compact_target(share_target),
            forall|k: int| 0 <= k < i ==> ann_well_formed(#[trigger] anns@[k]@),
        decreases ANN_COUNT - i,
    {
        if !ann_is_well_formed(anns[i].as_slice()) {
            return Err("INVAL");
        }
        i = i + 1;
    }
    let mut i: usize = 0;
    while i < 3
        invariant
            i <= 3,
            anns@.len() == ANN_COUNT,
            share_well_formed(header@, share_target, anns@),
            target@ == compact_target(share_target),
            forall|k: int|
                0 <= k < i ==> content_hash_of(#[trigger] anns@[k]@) != content_hash_of(anns@[3]@),
        decreases 3 - i,
    {
        if same_content_hash(&anns[i], &anns[3]) {
            assert(item4_repeated(anns@)) by {
                let k = i as int;
                assert(content_hash_of(anns@[k]@) == content_hash_of(anns@[3]@));
            }
            return Err("INVAL_ITEM4");
        }
        i = i + 1;
    }
    let mut i: usize = 0;
    while i < ANN_COUNT
        invariant
            i <= ANN_COUNT,
            anns@.len() == ANN_COUNT,
            share_well_formed(header@, share_target, anns@),
            !item4_repeated(anns@),
            target@ == compact_target(share_target),
            forall|k: int| 0 <= k < i ==> soft_nonce_of(#[trigger] anns@[k]@) <= SOFT_NONCE_MAX,
        decreases ANN_COUNT - i,
    {
        if soft_nonce_from(anns[i].as_slice()) > SOFT_NONCE_MAX {
            assert(soft_nonce_too_high(anns@)) by {
                let k = i as int;
                assert(soft_nonce_of(anns@[k]@) > SOFT_NONCE_MAX);
            }
            return Err("SOFT_NONCE_HIGH");
        }
        i = i + 1;
    }
    if hash_meets_target(&hash, &target) {
        Ok(hash)
    } else {
        Err("INSUF_POW")
    }
}

/// Checks a share: a header, a low nonce written at offset 84, four
/// announcements, a compact share target and a coinbase. Returns the hash
/// of the share where it meets the target.
pub fn check_block_work(
    header: &[u8],
    low_nonce: u32,
    share_target: u32,
    anns: &[[u8; 1024]],
    coinbase: &[u8],
) -> (r: Result<[u8; 32], &'static str>)
    ensures
        block_check_result(header@, low_nonce, share_target, anns@, coinbase@, result_view(r)),
{
    if header.len() != HEADER_SIZE || anns.len() != ANN_COUNT {
        return Err("INVAL");
    }
    let mut buf = header_and_proof(header, low_nonce, anns);
    let ghost hap = buf@;
    let mut i: usize = 0;
    while i < coinbase.len()
        invariant
            i <= coinbase@.len(),
            buf@ == hap + coinbase@.subrange(0, i as int),
        decreases coinbase@.len() - i,
    {
        buf.push(coinbase[i]);
        i = i + 1;
    }
    assert(buf@ =~= hap + coinbase@);
    let hash = blake2b_256(buf.as_slice()).unwrap();
    check_block_hashed(header, share_target, anns, hash)
}

} // verus!
