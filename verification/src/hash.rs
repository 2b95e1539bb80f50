//! SHA-256 digests.
use vstd::prelude::*;

use sha2::Digest;

verus! {

/// A hasher of `sha2`, which collects bytes.
#[verifier::external_body]
pub struct Sha256Hasher {
    inner: sha2::Sha256,
}

/// The bytes that a hasher has taken.
pub uninterp spec fn hashed_bytes(hasher: Sha256Hasher) -> Seq<u8>;

/// The SHA-256 digest of a byte sequence in lower-case hexadecimal.
pub uninterp spec fn sha256_text(bytes: Seq<u8>) -> Seq<char>;

/// `sha2::Sha256::new`: a hasher that has taken nothing.
#[verifier::external_body]
pub(crate) fn new_hasher() -> (hasher: Sha256Hasher)
    ensures
        hashed_bytes(hasher) == Seq::<u8>::empty(),
{
    Sha256Hasher { inner: sha2::Sha256::new() }
}

/// `Digest::update`: takes more bytes.
#[verifier::external_body]
pub(crate) fn take_bytes(hasher: &mut Sha256Hasher, bytes: &[u8])
    ensures
        hashed_bytes(*final(hasher)) == hashed_bytes(*old(hasher)) + bytes@,
{
    hasher.inner.update(bytes);
}

/// `Digest::finalize`, written in hexadecimal: the digest of what the hasher has taken.
#[verifier::external_body]
pub(crate) fn digest_text(hasher: Sha256Hasher) -> (text: String)
    ensures
        text@ == sha256_text(hashed_bytes(hasher)),
{
    format!("{:x}", hasher.inner.finalize())
}

} // verus!
