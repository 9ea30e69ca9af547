//! Hashing, base64 and ECDSA P-256, provided by the `sha2`, `base64` and `p256` crates.
use vstd::prelude::*;
use base64::Engine;
use crate::wire::base64_standard_decode;
use p256::ecdsa::signature::{Signer, Verifier};

verus! {

/// The SHA-256 digest of a byte string.
pub uninterp spec fn sha256_digest(data: Seq<u8>) -> Seq<u8>;

/// The standard (RFC 4648, padded) base64 text of a byte string.
pub uninterp spec fn base64_standard(data: Seq<u8>) -> Seq<char>;

/// The ECDSA P-256 signature (SHA-256, RFC 6979 nonces) of a message under the secret
/// scalar given as 32 big-endian bytes; `None` when those bytes are not a valid secret key.
pub uninterp spec fn p256_signature(secret: Seq<u8>, message: Seq<u8>) -> Option<Seq<u8>>;

/// Whether a 64-byte signature verifies for a message under a SEC1-encoded P-256 public key.
pub uninterp spec fn p256_verifies(public_key: Seq<u8>, message: Seq<u8>, signature: Seq<u8>) -> bool;

/// Length of the padded base64 text of `n` bytes.
pub open spec fn base64_len(n: nat) -> nat {
    4 * ((n + 2) / 3)
}

/// `sha2::Sha256::digest`: the contract names the digest of exactly the bytes given.
#[verifier::external_body]
pub(crate) fn sha256(data: &[u8]) -> (hash: [u8; 32])
    ensures
        hash@ == sha256_digest(data@),
{
    <sha2::Sha256 as sha2::Digest>::digest(data).into()
}

/// `base64::engine::general_purpose::STANDARD.encode`: the contract names the encoding of the
/// bytes given, states its padded length, `4 * ceil(n / 3)`, and that `STANDARD.decode` reads
/// the text back as the same bytes.
#[verifier::external_body]
pub(crate) fn base64_encode(data: &[u8]) -> (text: String)
    requires
        base64_len(data@.len()) <= usize::MAX,
    ensures
        text@ == base64_standard(data@),
        text@.len() == base64_len(data@.len()),
        base64_standard_decode(text@) == Some(data@),
{
    base64::engine::general_purpose::STANDARD.encode(data)
}

/// `p256::ecdsa::SigningKey::from_bytes` then `Signer::sign`: the contract names the signature
/// of the message under the secret bytes, `None` when `from_bytes` rejects them.
#[verifier::external_body]
pub(crate) fn p256_sign(secret: &[u8; 32], message: &[u8]) -> (signature: Option<[u8; 64]>)
    ensures
        signature matches Some(s) ==> p256_signature(secret@, message@) == Some(s@),
        signature is None ==> p256_signature(secret@, message@) is None,
{
    match p256::ecdsa::SigningKey::from_bytes(secret.into()) {
        Ok(key) => {
            let sig: p256::ecdsa::Signature = key.sign(message);
            Some(sig.to_bytes().into())
        },
        Err(_) => None,
    }
}

/// `p256::ecdsa::VerifyingKey::from_sec1_bytes`, `Signature::from_bytes` and
/// `Verifier::verify`: the contract names whether the signature verifies; a key or signature
/// that does not decode counts as not verifying.
#[verifier::external_body]
pub(crate) fn p256_verify(public_key: &[u8], message: &[u8], signature: &[u8; 64]) -> (ok: bool)
    ensures
        ok == p256_verifies(public_key@, message@, signature@),
{
    match (
        p256::ecdsa::VerifyingKey::from_sec1_bytes(public_key),
        p256::ecdsa::Signature::from_bytes(signature.into()),
    ) {
        (Ok(key), Ok(sig)) => key.verify(message, &sig).is_ok(),
        _ => false,
    }
}

} // verus!
