//! Digests, authentication tags, random bytes and the wiping of secrets.

use hmac::Mac;
use rand_core::RngCore;
use sha2::Digest;
use subtle::ConstantTimeEq;
use vstd::prelude::*;
use zeroize::Zeroize;

verus! {

/// The SHA-256 digest of `data`, as `sha2::Sha256::digest` computes it.
pub uninterp spec fn sha256_digest(data: Seq<u8>) -> [u8; 32];

/// The HMAC-SHA-256 tag of `data` under `key`, as `hmac::Hmac` computes it.
pub uninterp spec fn hmac_sha256_tag(key: Seq<u8>, data: Seq<u8>) -> [u8; 32];

/// `sha2::Sha256::digest`: the digest depends on the data alone.
#[verifier::external_body]
pub(crate) fn sha256(data: &[u8]) -> (digest: [u8; 32])
    ensures
        digest == sha256_digest(data@),
{
    sha2::Sha256::digest(data).into()
}

/// `hmac::Hmac<Sha256>`: keyed with `key`, fed `data` and finalized. A key of any length is
/// accepted, and the tag depends on the key and the data alone.
#[verifier::external_body]
pub(crate) fn hmac_sha256(key: &[u8], data: &[u8]) -> (tag: [u8; 32])
    ensures
        tag == hmac_sha256_tag(key@, data@),
{
    let mut mac = hmac::Hmac::<sha2::Sha256>::new_from_slice(key)
        .expect("HMAC accepts a key of any length");
    mac.update(data);
    mac.finalize().into_bytes().into()
}

/// `subtle::ConstantTimeEq::ct_eq` on slices: equal exactly when the lengths and all the bytes
/// are.
#[verifier::external_body]
pub(crate) fn constant_time_equal(left: &[u8], right: &[u8]) -> (equal: bool)
    ensures
        equal == (left@ == right@),
{
    bool::from(left.ct_eq(right))
}

/// `zeroize::Zeroize::zeroize` on a vector: overwrites the bytes and leaves the vector empty.
#[verifier::external_body]
pub(crate) fn wipe(secret: &mut Vec<u8>)
    ensures
        final(secret)@ == Seq::<u8>::empty(),
{
    secret.zeroize();
}

/// `rand_core::OsRng::try_fill_bytes`: 16 bytes from the operating system's generator, or
/// nothing where the generator fails. Nothing is known of the bytes.
#[verifier::external_body]
pub(crate) fn random_16() -> (bytes: Option<[u8; 16]>)
{
    let mut bytes = [0u8; 16];
    match rand_core::OsRng.try_fill_bytes(&mut bytes) {
        Ok(()) => Some(bytes),
        Err(_) => None,
    }
}

/// The SHA-256 digest of `data`.
pub fn digest_of(data: &[u8]) -> (digest: [u8; 32])
    ensures
        digest == sha256_digest(data@),
{
    sha256(data)
}

/// A `sha2::Sha256` that collects bytes piece by piece. The type has parameters that cannot be
/// written down, so it is kept inside.
#[verifier::external_body]
pub struct StreamDigest {
    hasher: sha2::Sha256,
}

/// The bytes that a running digest has collected.
pub uninterp spec fn collected_bytes(digest: StreamDigest) -> Seq<u8>;

impl StreamDigest {
    /// `sha2::Sha256::new`: nothing is collected yet.
    #[verifier::external_body]
    pub(crate) fn new() -> (digest: Self)
        ensures
            collected_bytes(digest) == Seq::<u8>::empty(),
    {
        StreamDigest { hasher: sha2::Sha256::new() }
    }

    /// `sha2::Digest::update`: collects the bytes behind those collected before.
    #[verifier::external_body]
    pub(crate) fn update(&mut self, bytes: &[u8])
        ensures
            collected_bytes(*final(self)) == collected_bytes(*old(self)) + bytes@,
    {
        self.hasher.update(bytes);
    }

    /// `sha2::Digest::finalize`: the digest of everything that was collected.
    #[verifier::external_body]
    pub(crate) fn finish(self) -> (digest: [u8; 32])
        ensures
            digest == sha256_digest(collected_bytes(self)),
    {
        self.hasher.finalize().into()
    }
}

} // verus!
