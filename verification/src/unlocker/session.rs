use vstd::prelude::*;
use crate::bytes::{append_bytes, u64_be_bytes, u64_to_be_bytes};
use crate::crypto::{p256_sign, p256_signature, p256_verifies, p256_verify, sha256, sha256_digest};

verus! {

/// A challenge the server answered an unlock request with.
#[derive(Debug)]
pub struct Challenge {
    pub nonce: [u8; 16],
    pub timestamp: u64,
    pub server_signature: [u8; 64],
}

/// What the device proves for one challenge.
#[derive(Debug)]
pub struct DeviceProof {
    pub challenge_hash: [u8; 32],
    pub device_signature: [u8; 64],
    pub timestamp: u64,
    pub counter: u64,
}

/// The bytes of a challenge that are hashed into a device proof:
/// nonce, big-endian timestamp, server signature.
pub open spec fn challenge_hash_input(challenge: &Challenge) -> Seq<u8> {
    challenge.nonce@ + u64_be_bytes(challenge.timestamp) + challenge.server_signature@
}

/// The bytes the server signs for a challenge: nonce, big-endian timestamp.
pub open spec fn challenge_signed_data(challenge: &Challenge) -> Seq<u8> {
    challenge.nonce@ + u64_be_bytes(challenge.timestamp)
}

/// The unlocking session of one user: the server's public key (SEC1 bytes), the user,
/// the session token and a counter of the device proofs issued so far.
pub struct Unlocker {
    server_public_key: Vec<u8>,
    user_id: String,
    counter: u64,
    user_token: String,
}

/// The time a beacon counts from its boot: the device time less the beacon's boot time,
/// `None` when the boot time lies after the device time.
pub fn beacon_timestamp(device_timestamp: u64, last_boot: u64) -> (t: Option<u64>)
    ensures
        t is Some <==> last_boot <= device_timestamp,
        t matches Some(v) ==> v == device_timestamp - last_boot,
{
    device_timestamp.checked_sub(last_boot)
}

impl Unlocker {
    pub closed spec fn spec_server_public_key(&self) -> Seq<u8> {
        self.server_public_key@
    }

    pub closed spec fn spec_user_id(&self) -> Seq<char> {
        self.user_id@
    }

    pub closed spec fn spec_user_token(&self) -> Seq<char> {
        self.user_token@
    }

    /// The number of device proofs issued in this session.
    pub closed spec fn spec_counter(&self) -> u64 {
        self.counter
    }

    pub fn new(server_public_key: Vec<u8>, user_id: String, user_token: String) -> (u: Self)
        ensures
            u.spec_server_public_key() == server_public_key@,
            u.spec_user_id() == user_id@,
            u.spec_user_token() == user_token@,
            u.spec_counter() == 0,
    {
        Self { server_public_key, user_id, counter: 0, user_token }
    }

    pub fn user_id(&self) -> (id: &str)
        ensures
            id@ == self.spec_user_id(),
    {
        self.user_id.as_str()
    }

    pub fn get_user_token(&self) -> (token: &str)
        ensures
            token@ == self.spec_user_token(),
    {
        self.user_token.as_str()
    }

    /// The number of device proofs issued in this session.
    pub fn counter(&self) -> (c: u64)
        ensures
            c == self.spec_counter(),
    {
        self.counter
    }

    pub fn set_user_token(&mut self, token: String)
        ensures
            final(self).spec_user_token() == token@,
            final(self).spec_user_id() == old(self).spec_user_id(),
            final(self).spec_counter() == old(self).spec_counter(),
            final(self).spec_server_public_key() == old(self).spec_server_public_key(),
    {
        self.user_token = token;
    }

    pub fn set_user_id(&mut self, user_id: String)
        ensures
            final(self).spec_user_id() == user_id@,
            final(self).spec_user_token() == old(self).spec_user_token(),
            final(self).spec_counter() == old(self).spec_counter(),
            final(self).spec_server_public_key() == old(self).spec_server_public_key(),
    {
        self.user_id = user_id;
    }

    /// Signs a 32-byte server challenge with the device's P-256 secret key, given as its 32
    /// big-endian bytes; `None` when those bytes are no valid secret key.
    pub fn sign_server_challenge(&self, buffer: [u8; 32], device_key: &[u8; 32]) -> (signature: Option<[u8; 64]>)
        ensures
            signature matches Some(s) ==> p256_signature(device_key@, buffer@) == Some(s@),
            signature is None <==> p256_signature(device_key@, buffer@) is None,
    {
        p256_sign(device_key, &buffer)
    }

    /// Whether the server's signature on a challenge verifies: it signs the SHA-256 of the
    /// nonce and the big-endian timestamp.
    fn verify_server_challenge(&self, challenge: &Challenge) -> (ok: bool)
        ensures
            ok == p256_verifies(
                self.spec_server_public_key(),
                sha256_digest(challenge_signed_data(challenge)),
                challenge.server_signature@,
            ),
    {
        let mut signed_data: Vec<u8> = Vec::with_capacity(16 + 8);
        append_bytes(&mut signed_data, &challenge.nonce);
        let ts = u64_to_be_bytes(challenge.timestamp);
        append_bytes(&mut signed_data, &ts);
        let digest = sha256(signed_data.as_slice());
        p256_verify(self.server_public_key.as_slice(), &digest, &challenge.server_signature)
    }

    fn hash_challenge(challenge: &Challenge) -> (hash: [u8; 32])
        ensures
            hash@ == sha256_digest(challenge_hash_input(challenge)),
    {
        let mut data: Vec<u8> = Vec::with_capacity(16 + 8 + 64);
        append_bytes(&mut data, &challenge.nonce);
        let ts = u64_to_be_bytes(challenge.timestamp);
        append_bytes(&mut data, &ts);
        append_bytes(&mut data, &challenge.server_signature);
        sha256(data.as_slice())
    }

    /// Issues the next device proof for a challenge: the counter goes up by one and the proof
    /// carries the new count, the challenge hash, the server signature and the timestamp.
    pub fn generate_device_proof(&mut self, challenge: &Challenge) -> (proof: DeviceProof)
        requires
            old(self).spec_counter() < u64::MAX,
        ensures
            final(self).spec_counter() == old(self).spec_counter() + 1,
            final(self).spec_user_id() == old(self).spec_user_id(),
            final(self).spec_user_token() == old(self).spec_user_token(),
            final(self).spec_server_public_key() == old(self).spec_server_public_key(),
            proof.counter == final(self).spec_counter(),
            proof.challenge_hash@ == sha256_digest(challenge_hash_input(challenge)),
            proof.device_signature == challenge.server_signature,
            proof.timestamp == challenge.timestamp,
    {
        self.counter = self.counter + 1;
        let challenge_hash = Self::hash_challenge(challenge);
        DeviceProof {
            challenge_hash,
            device_signature: challenge.server_signature,
            timestamp: challenge.timestamp,
            counter: self.counter,
        }
    }
}

/// What the server signs of a challenge is its nonce followed by its timestamp big-endian;
/// what a device proof hashes adds the server signature after them.
pub proof fn law_challenge_bytes_layout(c: Challenge)
    ensures
        challenge_signed_data(&c).len() == 24,
        challenge_signed_data(&c).subrange(0, 16) == c.nonce@,
        challenge_signed_data(&c).subrange(16, 24) == u64_be_bytes(c.timestamp),
        challenge_hash_input(&c) == challenge_signed_data(&c) + c.server_signature@,
{
    let d = challenge_signed_data(&c);
    assert(d.subrange(0, 16) =~= c.nonce@);
    assert(d.subrange(16, 24) =~= u64_be_bytes(c.timestamp));
    assert(challenge_hash_input(&c) =~= d + c.server_signature@);
}

} // verus!
