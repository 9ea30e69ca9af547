use vstd::prelude::*;
use vstd::string::StringSliceAdditionalSpecFns;
use crate::bytes::{append_bytes, take_24, take_8, u64_be_bytes, u64_to_be_bytes};
use crate::wire::base64_standard_decode;
use crate::crypto::{
    base64_encode, base64_len, base64_standard, p256_sign, p256_signature, sha256, sha256_digest,
};

verus! {

/// The challenge the server issues for one unlock: beacon nonce, unlock instance, time, user.
#[derive(Debug, Clone)]
pub struct ServerChallenge {
    pub nonce: [u8; 16],
    pub instance_id: [u8; 24],
    pub timestamp: u64,
    pub user_id: [u8; 24],
}

impl ServerChallenge {
    /// Builds a challenge from the UTF-8 bytes of a 24-byte instance id and user id.
    pub fn new(nonce: [u8; 16], instance_id: &str, timestamp: u64, user_id: String) -> (c: Self)
        requires
            instance_id.spec_bytes().len() == 24,
            vstd::utf8::encode_utf8(user_id@).len() == 24,
        ensures
            c.nonce == nonce,
            c.instance_id@ == instance_id.spec_bytes(),
            c.timestamp == timestamp,
            c.user_id@ == vstd::utf8::encode_utf8(user_id@),
    {
        let user_id_bytes = take_24(user_id.as_str().as_bytes(), 0);
        let instance_id_bytes = take_24(instance_id.as_bytes(), 0);
        proof {
            assert(user_id_bytes@ =~= vstd::utf8::encode_utf8(user_id@));
            assert(instance_id_bytes@ =~= instance_id.spec_bytes());
        }
        Self { nonce, timestamp, instance_id: instance_id_bytes, user_id: user_id_bytes }
    }

    /// The bytes that are hashed: nonce, instance id, big-endian timestamp, user id.
    pub open spec fn hash_input(&self) -> Seq<u8> {
        self.nonce@ + self.instance_id@ + u64_be_bytes(self.timestamp) + self.user_id@
    }

    /// SHA-256 of the nonce, instance id, big-endian timestamp and user id.
    pub fn get_hash(&self) -> (hash: [u8; 32])
        ensures
            hash@ == sha256_digest(self.hash_input()),
    {
        let mut data: Vec<u8> = Vec::with_capacity(16 + 24 + 8 + 24);
        append_bytes(&mut data, &self.nonce);
        append_bytes(&mut data, &self.instance_id);
        let ts = u64_to_be_bytes(self.timestamp);
        append_bytes(&mut data, &ts);
        append_bytes(&mut data, &self.user_id);
        sha256(data.as_slice())
    }

    /// Signs the hash of the challenge with the device key, given as its 32 secret bytes;
    /// `None` when those bytes are not a valid P-256 secret key.
    pub fn sign(&self, device_key: &[u8; 32]) -> (signature: Option<[u8; 64]>)
        ensures
            signature matches Some(s) ==> p256_signature(
                device_key@,
                sha256_digest(self.hash_input()),
            ) == Some(s@),
            signature is None ==> p256_signature(
                device_key@,
                sha256_digest(self.hash_input()),
            ) is None,
    {
        let hash = self.get_hash();
        p256_sign(device_key, &hash)
    }

    /// The packet a signature is sent in: the base64 text of the big-endian timestamp followed
    /// by the signature, and the last eight bytes of the signature as the validator.
    pub fn packetize_with_signature(&self, signature: &[u8; 64]) -> (res: (String, [u8; 8]))
        ensures
            res.0@ == base64_standard(u64_be_bytes(self.timestamp) + signature@),
            res.0@.len() == 96,
            base64_standard_decode(res.0@) == Some(u64_be_bytes(self.timestamp) + signature@),
            res.1@ == signature@.subrange(56, 64),
    {
        let mut packet: Vec<u8> = Vec::with_capacity(8 + 64);
        let ts = u64_to_be_bytes(self.timestamp);
        append_bytes(&mut packet, &ts);
        append_bytes(&mut packet, signature);
        let validator = take_8(signature, 56);
        (base64_encode(packet.as_slice()), validator)
    }

    /// Signs the challenge and packetizes the signature; `None` when the key bytes are not a
    /// valid secret key.
    pub fn packetize(&self, signing_key: &[u8; 32]) -> (res: Option<(String, [u8; 8])>)
        ensures
            res is Some <==> p256_signature(signing_key@, sha256_digest(self.hash_input())) is Some,
            res matches Some(r) ==> {
                let s = p256_signature(signing_key@, sha256_digest(self.hash_input())).unwrap();
                &&& r.0@ == base64_standard(u64_be_bytes(self.timestamp) + s)
                &&& r.0@.len() == 96
                &&& base64_standard_decode(r.0@) == Some(u64_be_bytes(self.timestamp) + s)
                &&& r.1@ == s.subrange(56, 64)
            },
    {
        match self.sign(signing_key) {
            Some(signature) => Some(self.packetize_with_signature(&signature)),
            None => None,
        }
    }
}

/// What a challenge's hash covers, in order: the nonce in bytes 0-15, the instance id in
/// 16-39, the timestamp big-endian in 40-47 and the user id in 48-71.
pub proof fn law_challenge_hash_layout(c: ServerChallenge)
    ensures
        c.hash_input().len() == 72,
        c.hash_input().subrange(0, 16) == c.nonce@,
        c.hash_input().subrange(16, 40) == c.instance_id@,
        c.hash_input().subrange(40, 48) == u64_be_bytes(c.timestamp),
        c.hash_input().subrange(48, 72) == c.user_id@,
{
    let h = c.hash_input();
    assert(h.subrange(0, 16) =~= c.nonce@);
    assert(h.subrange(16, 40) =~= c.instance_id@);
    assert(h.subrange(40, 48) =~= u64_be_bytes(c.timestamp));
    assert(h.subrange(48, 72) =~= c.user_id@);
}

} // verus!
