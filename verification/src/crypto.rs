//! Ed25519 signature checks through the `ed25519-dalek` crate and
//! SHA-256 digests through the `sha2` crate.

use vstd::prelude::*;

use ed25519_dalek::Verifier;
use sha2::Digest;

verus! {

/// Whether 32 bytes are the compressed form of a point on the curve, as
/// `ed25519_dalek::VerifyingKey::from_bytes` decides it.
pub uninterp spec fn ed25519_point_ok(pk: Seq<u8>) -> bool;

/// Whether `sig` is an Ed25519 signature of `msg` under the key `pk`, as
/// `ed25519_dalek::VerifyingKey::verify` decides it.
pub uninterp spec fn ed25519_accepts(pk: Seq<u8>, msg: Seq<u8>, sig: Seq<u8>) -> bool;

/// `ed25519_dalek::VerifyingKey::from_bytes(pk).is_ok()`: whether the
/// bytes decompress to a curve point. The decision is named, not stated.
#[verifier::external_body]
pub(crate) fn ed25519_key_valid(pk: &[u8; 32]) -> (r: bool)
    ensures
        r == ed25519_point_ok(pk@),
{
    ed25519_dalek::VerifyingKey::from_bytes(pk).is_ok()
}

/// `ed25519_dalek::VerifyingKey::verify` of `msg` against the signature
/// `ed25519_dalek::Signature::from_bytes(sig)`, under the key decoded
/// from `pk`: whether the signature is valid. The decision is named, not
/// stated.
#[verifier::external_body]
pub(crate) fn ed25519_verify(pk: &[u8; 32], msg: &[u8], sig: &[u8; 64]) -> (r: bool)
    requires
        ed25519_point_ok(pk@),
    ensures
        r == ed25519_accepts(pk@, msg@, sig@),
{
    match ed25519_dalek::VerifyingKey::from_bytes(pk) {
        Ok(vk) => vk.verify(msg, &ed25519_dalek::Signature::from_bytes(sig)).is_ok(),
        Err(_) => false,
    }
}

/// The Ed25519 public key that belongs to a 32-byte secret seed.
pub uninterp spec fn ed25519_public(seed: Seq<u8>) -> Seq<u8>;

/// `ed25519_dalek::SigningKey::from_bytes(seed).verifying_key()`, as its
/// 32 bytes: the public key of the seed. The derivation is named, not
/// stated.
#[verifier::external_body]
pub(crate) fn ed25519_public_of_seed(seed: &[u8; 32]) -> (p: [u8; 32])
    ensures
        p@ == ed25519_public(seed@),
{
    ed25519_dalek::SigningKey::from_bytes(seed).verifying_key().to_bytes()
}

/// The SHA-256 digest of a byte string.
pub uninterp spec fn sha256_spec(data: Seq<u8>) -> Seq<u8>;

/// `sha2::Sha256::digest(data)`: the 32-byte SHA-256 digest. The
/// digest is named, not stated.
#[verifier::external_body]
pub(crate) fn sha256(data: &[u8]) -> (d: [u8; 32])
    ensures
        d@ == sha256_spec(data@),
{
    sha2::Sha256::digest(data).into()
}

} // verus!
