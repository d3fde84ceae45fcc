//! SHA-256 over a stream of chunks.

use sha2::Digest;
use vstd::prelude::*;

verus! {

/// The hasher of the `sha2` crate.
#[verifier::external_type_specification]
#[verifier::external_body]
pub struct ExSha256(sha2::Sha256);

/// The bytes that a hasher has been fed so far.
pub uninterp spec fn hashed_bytes(hasher: sha2::Sha256) -> Seq<u8>;

/// The SHA-256 digest of a message.
pub uninterp spec fn sha256(message: Seq<u8>) -> Seq<u8>;

/// The longest message, in bytes, whose length in bits fits the digest's
/// 64-bit length field.
pub const MAX_HASHED_BYTES: u64 = 0x1fff_ffff_ffff_ffff;

/// `Sha256::new` starts a hasher that has been fed nothing.
#[verifier::external_body]
pub(crate) fn new_hasher() -> (hasher: sha2::Sha256)
    ensures
        hashed_bytes(hasher) == Seq::<u8>::empty(),
{
    sha2::Sha256::new()
}

/// `Digest::update` feeds the hasher the bytes of one more chunk, behind those
/// that it has been fed before.
#[verifier::external_body]
pub(crate) fn feed(hasher: &mut sha2::Sha256, chunk: &[u8])
    requires
        hashed_bytes(*old(hasher)).len() + chunk@.len() <= MAX_HASHED_BYTES,
    ensures
        hashed_bytes(*final(hasher)) == hashed_bytes(*old(hasher)) + chunk@,
{
    hasher.update(chunk);
}

/// `Digest::finalize` gives the digest of everything that the hasher was fed:
/// thirty-two bytes that depend on those bytes alone, however they were cut
/// into chunks.
#[verifier::external_body]
pub(crate) fn finish(hasher: sha2::Sha256) -> (digest: Vec<u8>)
    requires
        hashed_bytes(hasher).len() <= MAX_HASHED_BYTES,
    ensures
        digest@ == sha256(hashed_bytes(hasher)),
        digest@.len() == 32,
{
    hasher.finalize().to_vec()
}

} // verus!
