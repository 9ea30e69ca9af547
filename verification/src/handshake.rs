//! Sealing the device's key announcement for the server: a fresh AES-256-GCM key encrypts the
//! payload, the server's RSA key encrypts that AES key, and the encrypted key, the nonce and
//! the ciphertext travel together as one base64 text. The ciphers come from the `aes-gcm` and
//! `rsa` crates.
use vstd::prelude::*;
use vstd::string::StringExecFns;
use crate::bytes::append_bytes;
use crate::crypto::{base64_encode, base64_len, base64_standard};

verus! {

#[verifier::external_type_specification]
#[verifier::external_body]
pub struct ExRsaPublicKey(rsa::RsaPublicKey);

/// Whether `pem` is a PEM-encoded RSA public key that the `rsa` crate accepts.
pub uninterp spec fn rsa_pem_parses(pem: Seq<char>) -> bool;

/// The AES-256-GCM sealing of `plaintext` under `key` and `nonce`: the ciphertext followed
/// by the 16-byte tag; `None` when the plaintext is too long for the mode.
pub uninterp spec fn aes256gcm_seal(key: Seq<u8>, nonce: Seq<u8>, plaintext: Seq<u8>) -> Option<Seq<u8>>;

/// `rsa::RsaPublicKey::from_public_key_pem`: a key exactly when the text parses; otherwise the
/// text of the crate's error, of which nothing is stated.
#[verifier::external_body]
fn rsa_key_from_pem(pem: &str) -> (key: Result<rsa::RsaPublicKey, String>)
    ensures
        key is Ok <==> rsa_pem_parses(pem@),
{
    match <rsa::RsaPublicKey as rsa::pkcs8::DecodePublicKey>::from_public_key_pem(pem) {
        Ok(k) => Ok(k),
        Err(e) => Err(format!("{}", e)),
    }
}

/// `Aes256Gcm::generate_key` with the operating system's random source. Nothing is promised of
/// the bytes: they are random.
#[verifier::external_body]
fn random_aes_key() -> [u8; 32] {
    <aes_gcm::Aes256Gcm as aes_gcm::KeyInit>::generate_key(&mut aes_gcm::aead::OsRng).into()
}

/// `Aes256Gcm::generate_nonce` with the operating system's random source. Nothing is promised
/// of the bytes: they are random.
#[verifier::external_body]
fn random_gcm_nonce() -> [u8; 12] {
    <aes_gcm::Aes256Gcm as aes_gcm::AeadCore>::generate_nonce(&mut aes_gcm::aead::OsRng).into()
}

/// `Aead::encrypt` of `Aes256Gcm`: the contract names the sealed bytes of the key, nonce and
/// plaintext given; when the crate refuses the plaintext, the text of its error, of which
/// nothing is stated.
#[verifier::external_body]
fn aes256gcm_encrypt(key: &[u8; 32], nonce: &[u8; 12], plaintext: &[u8]) -> (sealed: Result<Vec<u8>, String>)
    ensures
        match sealed {
            Ok(c) => aes256gcm_seal(key@, nonce@, plaintext@) == Some(c@),
            Err(_) => aes256gcm_seal(key@, nonce@, plaintext@) is None,
        },
{
    let cipher = <aes_gcm::Aes256Gcm as aes_gcm::KeyInit>::new(key.into());
    match aes_gcm::aead::Aead::encrypt(&cipher, nonce.into(), plaintext) {
        Ok(c) => Ok(c),
        Err(e) => Err(format!("{}", e)),
    }
}

/// `RsaPublicKey::encrypt` with PKCS#1 v1.5 padding and the operating system's random
/// source. Nothing is promised of the result: the padding is random, and the crate refuses a
/// message too long for the key, with an error whose text is passed on.
#[verifier::external_body]
fn rsa_encrypt(key: &rsa::RsaPublicKey, message: &[u8]) -> Result<Vec<u8>, String> {
    match key.encrypt(&mut aes_gcm::aead::OsRng, rsa::Pkcs1v15Encrypt, message) {
        Ok(c) => Ok(c),
        Err(e) => Err(format!("{}", e)),
    }
}

/// Why a key announcement could not be sealed, with the text of the outside error where
/// there is one.
#[derive(Debug, Clone, PartialEq, Eq)]
pub enum HandshakeError {
    /// The server's certificate text is not an RSA public key.
    InvalidServerKey(String),
    /// AES-GCM refused the payload.
    PayloadEncryption(String),
    /// RSA refused the AES key.
    KeyEncryption(String),
    /// The sealed message is too long to encode.
    TooLong,
}

impl HandshakeError {
    /// The sentence shown to a user: what failed, then the outside error's text.
    pub open spec fn message(self) -> Seq<char> {
        match self {
            HandshakeError::InvalidServerKey(d) => "Failed to parse server public key: "@ + d@,
            HandshakeError::PayloadEncryption(d) => "AES encryption failed: "@ + d@,
            HandshakeError::KeyEncryption(d) => "RSA encryption failed: "@ + d@,
            HandshakeError::TooLong => "Sealed message too long"@,
        }
    }

    /// The sentence shown to a user.
    pub fn to_string(&self) -> (s: String)
        ensures
            s@ == self.message(),
    {
        match self {
            HandshakeError::InvalidServerKey(d) => {
                let mut s = String::from_str("Failed to parse server public key: ");
                s.append(d.as_str());
                s
            },
            HandshakeError::PayloadEncryption(d) => {
                let mut s = String::from_str("AES encryption failed: ");
                s.append(d.as_str());
                s
            },
            HandshakeError::KeyEncryption(d) => {
                let mut s = String::from_str("RSA encryption failed: ");
                s.append(d.as_str());
                s
            },
            HandshakeError::TooLong => String::from_str("Sealed message too long"),
        }
    }
}

/// The sealed message: the encrypted key, then the nonce, then the ciphertext, as base64.
pub fn frame_handshake(encrypted_key: &[u8], nonce: &[u8; 12], ciphertext: &[u8]) -> (text: Option<
    String,
>)
    ensures
        match text {
            Some(t) => t@ == base64_standard(encrypted_key@ + nonce@ + ciphertext@),
            None => base64_len((encrypted_key@.len() + 12 + ciphertext@.len()) as nat) > usize::MAX,
        },
{
    let mut message: Vec<u8> = Vec::new();
    append_bytes(&mut message, encrypted_key);
    append_bytes(&mut message, nonce);
    append_bytes(&mut message, ciphertext);
    let n = message.len();
    let needed: u128 = 4 * ((n as u128 + 2) / 3);
    if needed > usize::MAX as u128 {
        return None;
    }
    assert(message@ =~= encrypted_key@ + nonce@ + ciphertext@);
    Some(base64_encode(message.as_slice()))
}

/// Seals `payload` for the server whose RSA public key is the PEM text `server_pem`: a fresh
/// AES-256 key and GCM nonce seal the payload, RSA encrypts the key, and the result is the
/// base64 text of the encrypted key, the nonce and the sealed payload. The server key is read
/// first: an unreadable key is `InvalidServerKey`, whatever else happens.
pub fn seal_handshake(server_pem: &str, payload: &[u8]) -> (r: Result<String, HandshakeError>)
    ensures
        (r matches Err(HandshakeError::InvalidServerKey(_))) <==> !rsa_pem_parses(server_pem@),
        r matches Ok(text) ==> exists|key: Seq<u8>, nonce: Seq<u8>, encrypted_key: Seq<u8>, sealed: Seq<u8>|
            #![trigger aes256gcm_seal(key, nonce, payload@), base64_standard(encrypted_key + nonce + sealed)]
            key.len() == 32 && nonce.len() == 12 && aes256gcm_seal(key, nonce, payload@) == Some(sealed)
                && base64_standard(encrypted_key + nonce + sealed) == text@,
        r matches Err(HandshakeError::PayloadEncryption(_)) ==> exists|key: Seq<u8>, nonce: Seq<u8>|
            #![trigger aes256gcm_seal(key, nonce, payload@)]
            key.len() == 32 && nonce.len() == 12 && aes256gcm_seal(key, nonce, payload@) is None,
        r matches Err(HandshakeError::KeyEncryption(_)) ==> exists|key: Seq<u8>, nonce: Seq<u8>|
            #![trigger aes256gcm_seal(key, nonce, payload@)]
            key.len() == 32 && nonce.len() == 12 && aes256gcm_seal(key, nonce, payload@) is Some,
        r matches Err(HandshakeError::TooLong) ==> exists|key: Seq<u8>, nonce: Seq<u8>, encrypted_key: Seq<u8>, sealed: Seq<u8>|
            #![trigger aes256gcm_seal(key, nonce, payload@), encrypted_key.len(), sealed.len()]
            key.len() == 32 && nonce.len() == 12 && aes256gcm_seal(key, nonce, payload@) == Some(sealed)
                && base64_len((encrypted_key.len() + 12 + sealed.len()) as nat) > usize::MAX,
{
    let server_key = match rsa_key_from_pem(server_pem) {
        Ok(k) => k,
        Err(e) => return Err(HandshakeError::InvalidServerKey(e)),
    };
    let key = random_aes_key();
    let nonce = random_gcm_nonce();
    let sealed = match aes256gcm_encrypt(&key, &nonce, payload) {
        Ok(c) => c,
        Err(e) => {
            assert(aes256gcm_seal(key@, nonce@, payload@) is None);
            return Err(HandshakeError::PayloadEncryption(e));
        },
    };
    assert(aes256gcm_seal(key@, nonce@, payload@) == Some(sealed@));
    let encrypted_key = match rsa_encrypt(&server_key, &key) {
        Ok(e) => e,
        Err(e) => {
            assert(aes256gcm_seal(key@, nonce@, payload@) is Some);
            return Err(HandshakeError::KeyEncryption(e));
        },
    };
    match frame_handshake(encrypted_key.as_slice(), &nonce, sealed.as_slice()) {
        Some(text) => {
            assert(base64_standard(encrypted_key@ + nonce@ + sealed@) == text@);
            Ok(text)
        },
        None => Err(HandshakeError::TooLong),
    }
}

} // verus!
