//! The outside code that the checks rest on: the byte container of
//! announcements and the BLAKE2b hash of libsodium.
use vstd::prelude::*;

verus! {

/// An immutable, cheaply cloned byte buffer of the `bytes` crate.
#[verifier::external_type_specification]
#[verifier::external_body]
pub struct ExBytes(bytes::Bytes);

/// The bytes that a `bytes::Bytes` buffer holds, in order.
pub uninterp spec fn bytes_contents(b: bytes::Bytes) -> Seq<u8>;

/// Relies on `<bytes::Bytes as Clone>::clone`: the clone holds the same bytes.
pub assume_specification[ <bytes::Bytes as Clone>::clone ](b: &bytes::Bytes) -> (r: bytes::Bytes)
    ensures
        bytes_contents(r) == bytes_contents(*b),
;

/// Relies on `<bytes::Bytes as Deref>::deref`: the slice of the bytes that the
/// buffer holds.
#[verifier::external_body]
pub(crate) fn bytes_as_slice(b: &bytes::Bytes) -> (r: &[u8])
    ensures
        r@ == bytes_contents(*b),
{
    b
}

/// The 32-byte BLAKE2b digest (libsodium's `crypto_generichash`, no key) of
/// a byte sequence.
pub uninterp spec fn blake2b_256_of(data: Seq<u8>) -> Seq<u8>;

/// Relies on `sodiumoxide::crypto::generichash::hash` with an output length
/// of 32 and no key: the 32-byte BLAKE2b digest of `data`. It fails only for
/// an output length outside 16..=64 or a key of the wrong size, so with these
/// arguments it always succeeds.
#[verifier::external_body]
pub(crate) fn blake2b_256(data: &[u8]) -> (r: Result<[u8; 32], ()>)
    ensures
        r is Ok,
        r is Ok ==> r->Ok_0@ == blake2b_256_of(data@),
{
    match sodiumoxide::crypto::generichash::hash(data, Some(32), None) {
        Ok(digest) => {
            let mut out = [0u8; 32];
            out.copy_from_slice(&digest[..]);
            Ok(out)
        },
        Err(e) => Err(e),
    }
}

/// Relies on `sodiumoxide::init`: initialises libsodium, `Err` if that failed.
#[verifier::external_body]
pub(crate) fn sodium_init() -> (r: Result<(), ()>) {
    sodiumoxide::init()
}

} // verus!
