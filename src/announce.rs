//! Announcements and their validation.
use vstd::prelude::*;
use crate::difficulty::{compact_target, compact_to_target, compact_valid, hash_meets_target, meets_target};
use crate::layout::{
    content_hash_of, hard_nonce_of, parent_block_height_of, read_le32, signing_key_of, soft_nonce_of,
    work_bits_of,
};
use crate::primitives::{blake2b_256, blake2b_256_of, bytes_as_slice, bytes_contents, sodium_init};

verus! {

/// The size of an announcement in bytes.
pub const ANN_SIZE: usize = 1024;

/// The one announcement format version that is accepted.
pub const ANN_VERSION: u8 = 1;

/// An announcement, held in a shared byte buffer.
#[derive(Clone, Debug)]
pub struct PacketCryptAnn {
    pub bytes: bytes::Bytes,
}

impl View for PacketCryptAnn {
    type V = Seq<u8>;

    open spec fn view(&self) -> Seq<u8> {
        bytes_contents(self.bytes)
    }
}

impl PacketCryptAnn {
    /// Byte 0: the format version.
    pub fn version(&self) -> (r: u8)
        requires
            self@.len() >= 1,
        ensures
            r == self@[0],
    {
        bytes_as_slice(&self.bytes)[0]
    }

    /// Bytes 1..4, little-endian, shifted left by eight bits.
    pub fn soft_nonce(&self) -> (r: u32)
        requires
            self@.len() >= 4,
        ensures
            r == soft_nonce_of(self@),
    {
        crate::layout::soft_nonce_from(bytes_as_slice(&self.bytes))
    }

    /// Bytes 4..8, little-endian.
    pub fn hard_nonce(&self) -> (r: u32)
        requires
            self@.len() >= 8,
        ensures
            r == hard_nonce_of(self@),
    {
        crate::layout::hard_nonce(bytes_as_slice(&self.bytes))
    }

    /// Bytes 8..12, little-endian: the compact target of this announcement.
    pub fn work_bits(&self) -> (r: u32)
        requires
            self@.len() >= 12,
        ensures
            r == work_bits_of(self@),
    {
        crate::layout::work_bits(bytes_as_slice(&self.bytes))
    }

    /// Bytes 12..16, little-endian and signed.
    pub fn parent_block_height(&self) -> (r: i32)
        requires
            self@.len() >= 16,
        ensures
            r == parent_block_height_of(self@),
    {
        crate::layout::parent_block_height(bytes_as_slice(&self.bytes))
    }

    /// Bytes 24..56.
    pub fn content_hash(&self) -> (r: &[u8])
        requires
            self@.len() >= 56,
        ensures
            r@ == content_hash_of(self@),
    {
        &bytes_as_slice(&self.bytes)[24..56]
    }

    /// Bytes 56..88.
    pub fn signing_key(&self) -> (r: &[u8])
        requires
            self@.len() >= 88,
        ensures
            r@ == signing_key_of(self@),
    {
        &bytes_as_slice(&self.bytes)[56..88]
    }
}

/// Initialises the hash library once per process, before the first check.
/// Returns whether it succeeded; calling it again is harmless.
pub fn init() -> (r: bool) {
    match sodium_init() {
        Ok(()) => true,
        Err(()) => false,
    }
}

/// Scratch space reused across announcement checks, so that each check
/// does not allocate its hash input anew. It holds no state that changes
/// what a check returns.
pub struct ValidateCtx {
    scratch: Vec<u8>,
}

impl View for ValidateCtx {
    type V = Seq<u8>;

    closed spec fn view(&self) -> Seq<u8> {
        self.scratch@
    }
}

impl Default for ValidateCtx {
    fn default() -> (r: ValidateCtx)
        ensures
            r@.len() == 0,
    {
        ValidateCtx { scratch: Vec::new() }
    }
}

/// An announcement is well formed when it is exactly 1024 bytes long, has
/// the accepted version, and its work bits encode a valid target.
pub open spec fn ann_well_formed(a: Seq<u8>) -> bool {
    &&& a.len() == ANN_SIZE
    &&& a[0] == ANN_VERSION
    &&& compact_valid(work_bits_of(a))
}

/// The hash of an announcement under a parent block hash: the digest of
/// the announcement's bytes followed by the parent hash.
pub open spec fn ann_hash(a: Seq<u8>, parent: Seq<u8>) -> Seq<u8> {
    blake2b_256_of(a + parent)
}

/// A check's result, with the hash and the error code as sequences.
pub open spec fn result_view(r: Result<[u8; 32], &'static str>) -> Result<Seq<u8>, Seq<char>> {
    match r {
        Ok(h) => Ok(h@),
        Err(e) => Err(e@),
    }
}

/// What checking announcement `a` returns, given the hash `h` computed for
/// it.
pub open spec fn ann_outcome(a: Seq<u8>, h: Seq<u8>) -> Result<Seq<u8>, Seq<char>> {
    if !ann_well_formed(a) {
        Err("INVAL"@)
    } else if meets_target(h, compact_target(work_bits_of(a))) {
        Ok(h)
    } else {
        Err("INSUF_POW"@)
    }
}

/// What checking announcement `a` under parent hash `parent` returns: the
/// outcome for its hash.
pub open spec fn ann_check_result(a: Seq<u8>, parent: Seq<u8>, r: Result<Seq<u8>, Seq<char>>) -> bool {
    r == ann_outcome(a, ann_hash(a, parent))
}

/// Whether a buffer is a well-formed announcement.
pub fn ann_is_well_formed(a: &[u8]) -> (r: bool)
    ensures
        r == ann_well_formed(a@),
{
    if a.len() != ANN_SIZE || a[0] != ANN_VERSION {
        return false;
    }
    compact_to_target(read_le32(a, 8)).is_some()
}

/// The result of checking announcement `a` whose hash came out as `hash`.
pub fn check_ann_hashed(a: &[u8], hash: [u8; 32]) -> (r: Result<[u8; 32], &'static str>)
    ensures
        result_view(r) == ann_outcome(a@, hash@),
{
    if a.len() != ANN_SIZE || a[0] != ANN_VERSION {
        return Err("INVAL");
    }
    let target = match compact_to_target(read_le32(a, 8)) {
        Some(t) => t,
        None => {
            return Err("INVAL");
        },
    };
    if hash_meets_target(&hash, &target) {
        Ok(hash)
    } else {
        Err("INSUF_POW")
    }
}

/// Checks one announcement against its parent block hash: it must be well
/// formed and its hash must meet the target of its own work bits. Returns
/// that hash. The context only holds the hash input; it does not affect the
/// result.
pub fn check_ann(ann: &PacketCryptAnn, parent_block_hash: &[u8; 32], vctx: &mut ValidateCtx) -> (r:
    Result<[u8; 32], &'static str>)
    ensures
        ann_check_result(ann@, parent_block_hash@, result_view(r)),
        ann_well_formed(ann@) ==> final(vctx)@ == ann@ + parent_block_hash@,
        !ann_well_formed(ann@) ==> final(vctx)@ == old(vctx)@,
{
    let a = bytes_as_slice(&ann.bytes);
    if !ann_is_well_formed(a) {
        return Err("INVAL");
    }
    vctx.scratch.clear();
    let mut i: usize = 0;
    while i < a.len()
        invariant
            i <= a@.len(),
            vctx.scratch@ == a@.subrange(0, i as int),
        decreases a@.len() - i,
    {
        vctx.scratch.push(a[i]);
        i = i + 1;
    }
    let mut j: usize = 0;
    while j < 32
        invariant
            j <= 32,
            vctx.scratch@ == a@ + parent_block_hash@.subrange(0, j as int),
        decreases 32 - j,
    {
        vctx.scratch.push(parent_block_hash[j]);
        j = j + 1;
    }
    assert(vctx.scratch@ =~= a@ + parent_block_hash@);
    let hash = blake2b_256(vctx.scratch.as_slice()).unwrap();
    check_ann_hashed(a, hash)
}

} // verus!
