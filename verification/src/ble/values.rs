use vstd::prelude::*;
use crate::ble::packet::{Depacketize, Packetize};
use crate::bytes::{append_bytes, take_16, take_24, take_64, take_8};
use vstd::std_specs::convert::FromSpecImpl;
use crate::wire::{
    lemma_varint_nonempty, postcard_read_u32, postcard_read_u64, postcard_take_u32,
    postcard_take_u64, postcard_u32, postcard_u64, varint,
};

verus! {

/// A 16-byte nonce issued by a beacon.
#[derive(Debug, Clone, Copy, PartialEq, Eq, Hash, Default)]
pub struct Nonce([u8; 16]);

impl View for Nonce {
    type V = Seq<u8>;

    closed spec fn view(&self) -> Seq<u8> {
        self.0@
    }
}

impl Nonce {
    pub fn new(bytes: [u8; 16]) -> (n: Self)
        ensures
            n@ == bytes@,
    {
        Nonce(bytes)
    }

    /// The nonce's bytes.
    pub fn as_bytes(&self) -> (b: &[u8; 16])
        ensures
            b@ == self@,
    {
        &self.0
    }

    /// Nonces with the same bytes are the same nonce.
    pub proof fn lemma_view_injective(a: Nonce, b: Nonce)
        requires
            a@ == b@,
        ensures
            a == b,
    {
        assert(a.0 =~= b.0);
    }

    /// A nonce always has sixteen bytes.
    pub proof fn lemma_view_len(a: Nonce)
        ensures
            a@.len() == 16,
    {
    }
}

impl Packetize for Nonce {
    /// The sixteen raw bytes.
    open spec fn spec_packet(&self) -> Seq<u8> {
        self@
    }

    fn packetize(&self) -> (packet: Vec<u8>) {
        let mut v: Vec<u8> = Vec::new();
        append_bytes(&mut v, &self.0);
        v
    }
}

impl Depacketize for Nonce {
    /// At least sixteen bytes; the first sixteen are the nonce, the rest is ignored.
    open spec fn spec_accepts(packet: Seq<u8>) -> bool {
        packet.len() >= 16
    }

    open spec fn spec_reads(packet: Seq<u8>, value: Self) -> bool {
        value@ == packet.subrange(0, 16)
    }

    fn depacketize(packet: &[u8]) -> (res: Option<Self>) {
        if packet.len() < 16 {
            None
        } else {
            Some(Nonce(take_16(packet, 0)))
        }
    }
}

/// Depacketizing the packet of a nonce gives the same nonce.
pub proof fn law_nonce_roundtrip(n: Nonce, m: Nonce)
    ensures
        Nonce::spec_accepts(n.spec_packet()),
        Nonce::spec_reads(n.spec_packet(), m) ==> m == n,
{
    Nonce::lemma_view_len(n);
    if Nonce::spec_reads(n.spec_packet(), m) {
        assert(n.spec_packet().subrange(0, 16) =~= n@);
        Nonce::lemma_view_injective(m, n);
    }
}

/// Why a beacon refused (or could not check) an unlock request.
#[derive(Debug, Clone, Copy, Eq, PartialEq, Structural)]
pub enum CryptoError {
    InvalidSignature,
    InvalidKey,
    InvalidNonce,
    VerificationFailed,
    BufferFull,
    RateLimited,
    ReplayDetected,
    ServerPublicKeyNotSet,
}

impl CryptoError {
    /// The position of the variant, which postcard writes as its tag.
    pub open spec fn index(self) -> u32 {
        match self {
            CryptoError::InvalidSignature => 0,
            CryptoError::InvalidKey => 1,
            CryptoError::InvalidNonce => 2,
            CryptoError::VerificationFailed => 3,
            CryptoError::BufferFull => 4,
            CryptoError::RateLimited => 5,
            CryptoError::ReplayDetected => 6,
            CryptoError::ServerPublicKeyNotSet => 7,
        }
    }

    /// The status code of the error (`From<CryptoError> for u8`).
    pub open spec fn code(self) -> u8 {
        (self.index() + 1) as u8
    }

    fn variant_index(&self) -> (i: u32)
        ensures
            i == self.index(),
    {
        match self {
            CryptoError::InvalidSignature => 0,
            CryptoError::InvalidKey => 1,
            CryptoError::InvalidNonce => 2,
            CryptoError::VerificationFailed => 3,
            CryptoError::BufferFull => 4,
            CryptoError::RateLimited => 5,
            CryptoError::ReplayDetected => 6,
            CryptoError::ServerPublicKeyNotSet => 7,
        }
    }

    fn from_index(i: u32) -> (res: Option<Self>)
        ensures
            res is Some <==> i < 8,
            res matches Some(e) ==> e.index() == i,
    {
        match i {
            0 => Some(CryptoError::InvalidSignature),
            1 => Some(CryptoError::InvalidKey),
            2 => Some(CryptoError::InvalidNonce),
            3 => Some(CryptoError::VerificationFailed),
            4 => Some(CryptoError::BufferFull),
            5 => Some(CryptoError::RateLimited),
            6 => Some(CryptoError::ReplayDetected),
            7 => Some(CryptoError::ServerPublicKeyNotSet),
            _ => None,
        }
    }

    /// The status code of the error: `0x01` for `InvalidSignature` up to `0x08`.
    pub fn to_code(&self) -> (c: u8)
        ensures
            c == self.code(),
    {
        match self {
            CryptoError::InvalidSignature => 0x01,
            CryptoError::InvalidKey => 0x02,
            CryptoError::InvalidNonce => 0x03,
            CryptoError::VerificationFailed => 0x04,
            CryptoError::BufferFull => 0x05,
            CryptoError::RateLimited => 0x06,
            CryptoError::ReplayDetected => 0x07,
            CryptoError::ServerPublicKeyNotSet => 0x08,
        }
    }

    /// The human-readable message of the error.
    pub open spec fn message(self) -> Seq<char> {
        match self {
            CryptoError::InvalidSignature => "Invalid Signature"@,
            CryptoError::InvalidKey => "Invalid Key"@,
            CryptoError::InvalidNonce => "Invalid Nonce"@,
            CryptoError::VerificationFailed => "Verification Failed"@,
            CryptoError::BufferFull => "Buffer Full"@,
            CryptoError::RateLimited => "Rate Limited"@,
            CryptoError::ReplayDetected => "Replay Detected"@,
            CryptoError::ServerPublicKeyNotSet => "Server Public Key Not Set"@,
        }
    }

    /// The human-readable message of the error.
    pub fn to_string(&self) -> (s: String)
        ensures
            s@ == self.message(),
    {
        match self {
            CryptoError::InvalidSignature => "Invalid Signature".to_string(),
            CryptoError::InvalidKey => "Invalid Key".to_string(),
            CryptoError::InvalidNonce => "Invalid Nonce".to_string(),
            CryptoError::VerificationFailed => "Verification Failed".to_string(),
            CryptoError::BufferFull => "Buffer Full".to_string(),
            CryptoError::RateLimited => "Rate Limited".to_string(),
            CryptoError::ReplayDetected => "Replay Detected".to_string(),
            CryptoError::ServerPublicKeyNotSet => "Server Public Key Not Set".to_string(),
        }
    }
}

impl From<CryptoError> for u8 {
    /// The status code of the error.
    fn from(error: CryptoError) -> (c: u8) {
        error.to_code()
    }
}

impl FromSpecImpl<CryptoError> for u8 {
    open spec fn obeys_from_spec() -> bool {
        true
    }

    open spec fn from_spec(v: CryptoError) -> u8 {
        v.code()
    }
}

impl Packetize for CryptoError {
    /// The varint of the variant index (one byte).
    open spec fn spec_packet(&self) -> Seq<u8> {
        varint(self.index() as nat)
    }

    fn packetize(&self) -> (packet: Vec<u8>) {
        postcard_u32(self.variant_index())
    }
}

impl Depacketize for CryptoError {
    /// A packet whose leading varint is a variant index below eight; the rest is ignored.
    open spec fn spec_accepts(packet: Seq<u8>) -> bool {
        postcard_take_u32(packet) matches Some((i, _)) && i < 8
    }

    open spec fn spec_reads(packet: Seq<u8>, value: Self) -> bool {
        postcard_take_u32(packet) matches Some((i, _)) && value.index() == i
    }

    /// Depacketizing the packet of an error, followed by anything, gives the same error.
    fn depacketize(packet: &[u8]) -> (res: Option<Self>)
        ensures
            forall|e: CryptoError, tail: Seq<u8>|
                packet@ == e.spec_packet() + tail ==> res == Some(e),
    {
        match postcard_read_u32(packet) {
            Some((i, _)) => {
                let r = Self::from_index(i);
                assert forall|e: CryptoError, tail: Seq<u8>|
                    packet@ == e.spec_packet() + tail implies r == Some(e) by {
                    assert(i == e.index());
                }
                r
            },
            None => None,
        }
    }
}

/// The proof a client hands a beacon to unlock it.
#[derive(Debug, Clone)]
pub struct Proof {
    pub nonce: [u8; 16],
    pub device_bytes: [u8; 8],
    pub verify_bytes: [u8; 8],
    pub timestamp: u64,
    pub server_signature: [u8; 64],
}

impl Proof {
    pub fn new(
        nonce: [u8; 16],
        device_bytes: [u8; 8],
        verify_bytes: [u8; 8],
        timestamp: u64,
        server_signature: [u8; 64],
    ) -> (p: Self)
        ensures
            p.nonce == nonce,
            p.device_bytes == device_bytes,
            p.verify_bytes == verify_bytes,
            p.timestamp == timestamp,
            p.server_signature == server_signature,
    {
        Proof { nonce, device_bytes, verify_bytes, timestamp, server_signature }
    }
}

impl Packetize for Proof {
    /// Nonce, device bytes, verify bytes, varint timestamp, signature.
    open spec fn spec_packet(&self) -> Seq<u8> {
        self.nonce@ + self.device_bytes@ + self.verify_bytes@ + varint(self.timestamp as nat)
            + self.server_signature@
    }

    fn packetize(&self) -> (packet: Vec<u8>) {
        let mut v: Vec<u8> = Vec::new();
        append_bytes(&mut v, &self.nonce);
        append_bytes(&mut v, &self.device_bytes);
        append_bytes(&mut v, &self.verify_bytes);
        let ts = postcard_u64(self.timestamp);
        append_bytes(&mut v, ts.as_slice());
        append_bytes(&mut v, &self.server_signature);
        v
    }
}

impl Depacketize for Proof {
    /// Thirty-two bytes, a timestamp varint, then at least sixty-four bytes of signature;
    /// anything after the signature is ignored.
    open spec fn spec_accepts(packet: Seq<u8>) -> bool {
        &&& packet.len() >= 32
        &&& postcard_take_u64(packet.subrange(32, packet.len() as int)) matches Some((_, rest))
        &&& rest.len() >= 64
    }

    open spec fn spec_reads(packet: Seq<u8>, value: Self) -> bool {
        &&& value.nonce@ == packet.subrange(0, 16)
        &&& value.device_bytes@ == packet.subrange(16, 24)
        &&& value.verify_bytes@ == packet.subrange(24, 32)
        &&& postcard_take_u64(packet.subrange(32, packet.len() as int)) matches Some((t, rest))
        &&& value.timestamp == t
        &&& value.server_signature@ == rest.subrange(0, 64)
    }

    /// Depacketizing the packet of a proof, followed by anything, gives the same proof.
    fn depacketize(packet: &[u8]) -> (res: Option<Self>)
        ensures
            forall|p: Proof, tail: Seq<u8>|
                packet@ == p.spec_packet() + tail ==> res is Some && res.unwrap() == p,
    {
        if packet.len() < 32 {
            assert forall|p: Proof, tail: Seq<u8>|
                packet@ == p.spec_packet() + tail implies false by {
                lemma_varint_nonempty(p.timestamp as nat);
            }
            return None;
        }
        let nonce = take_16(packet, 0);
        let device_bytes = take_8(packet, 16);
        let verify_bytes = take_8(packet, 24);
        let (_, tail) = packet.split_at(32);
        proof {
            assert forall|p: Proof, t: Seq<u8>| packet@ == p.spec_packet() + t implies tail@
                == varint(p.timestamp as nat) + (p.server_signature@ + t) by {
                assert(tail@ =~= varint(p.timestamp as nat) + (p.server_signature@ + t));
            }
        }
        match postcard_read_u64(tail) {
            Some((timestamp, rest)) => {
                if rest.len() < 64 {
                    None
                } else {
                    let server_signature = take_64(rest, 0);
                    let q = Proof { nonce, device_bytes, verify_bytes, timestamp, server_signature };
                    proof {
                        assert forall|p: Proof, t: Seq<u8>| packet@ == p.spec_packet() + t implies q
                            == p by {
                            assert(packet@.subrange(0, 16) =~= p.nonce@);
                            assert(packet@.subrange(16, 24) =~= p.device_bytes@);
                            assert(packet@.subrange(24, 32) =~= p.verify_bytes@);
                            assert(rest@ == p.server_signature@ + t);
                            assert(rest@.subrange(0, 64) =~= p.server_signature@);
                            assert(q.nonce =~= p.nonce);
                            assert(q.device_bytes =~= p.device_bytes);
                            assert(q.verify_bytes =~= p.verify_bytes);
                            assert(q.server_signature =~= p.server_signature);
                        }
                    }
                    Some(q)
                }
            },
            None => None,
        }
    }
}

/// The challenge the server issues for one unlock.
#[derive(Debug, Clone)]
pub struct ServerChallenge {
    pub nonce: [u8; 16],
    pub instance_id: [u8; 24],
    pub timestamp: u64,
    pub user_id: [u8; 24],
}

impl ServerChallenge {
    pub fn new(nonce: [u8; 16], instance_id: [u8; 24], timestamp: u64, user_id: [u8; 24]) -> (c:
        Self)
        ensures
            c.nonce == nonce,
            c.instance_id == instance_id,
            c.timestamp == timestamp,
            c.user_id == user_id,
    {
        ServerChallenge { nonce, instance_id, timestamp, user_id }
    }
}

impl Packetize for ServerChallenge {
    /// Nonce, instance id, varint timestamp, user id.
    open spec fn spec_packet(&self) -> Seq<u8> {
        self.nonce@ + self.instance_id@ + varint(self.timestamp as nat) + self.user_id@
    }

    fn packetize(&self) -> (packet: Vec<u8>) {
        let mut v: Vec<u8> = Vec::new();
        append_bytes(&mut v, &self.nonce);
        append_bytes(&mut v, &self.instance_id);
        let ts = postcard_u64(self.timestamp);
        append_bytes(&mut v, ts.as_slice());
        append_bytes(&mut v, &self.user_id);
        v
    }
}

/// The postcard tag of each unlock error is its fixed position, from 0 for an invalid signature to 7 for a server key never set; its status code is one more.
pub proof fn law_crypto_error_tags(e: CryptoError)
    ensures
        e == CryptoError::InvalidSignature ==> e.index() == 0,
        e == CryptoError::InvalidKey ==> e.index() == 1,
        e == CryptoError::InvalidNonce ==> e.index() == 2,
        e == CryptoError::VerificationFailed ==> e.index() == 3,
        e == CryptoError::BufferFull ==> e.index() == 4,
        e == CryptoError::RateLimited ==> e.index() == 5,
        e == CryptoError::ReplayDetected ==> e.index() == 6,
        e == CryptoError::ServerPublicKeyNotSet ==> e.index() == 7,
        e.code() == e.index() + 1,
{
}

/// Where the fields of a shared proof travel: nonce in bytes 0-15, device bytes in 16-23,
/// verify bytes in 24-31, then the timestamp's varint and the 64-byte server signature.
pub proof fn law_proof_layout(p: Proof)
    ensures
        p.spec_packet().subrange(0, 16) == p.nonce@,
        p.spec_packet().subrange(16, 24) == p.device_bytes@,
        p.spec_packet().subrange(24, 32) == p.verify_bytes@,
        p.spec_packet().subrange(32, 32int + varint(p.timestamp as nat).len()) == varint(p.timestamp as nat),
        p.spec_packet().subrange(32int + varint(p.timestamp as nat).len(), p.spec_packet().len() as int)
            == p.server_signature@,
{
    let pk = p.spec_packet();
    let k = varint(p.timestamp as nat).len();
    assert(pk.subrange(0, 16) =~= p.nonce@);
    assert(pk.subrange(16, 24) =~= p.device_bytes@);
    assert(pk.subrange(24, 32) =~= p.verify_bytes@);
    assert(pk.subrange(32, 32int + k) =~= varint(p.timestamp as nat));
    assert(pk.subrange(32int + k, pk.len() as int) =~= p.server_signature@);
}

/// Where the fields of a shared challenge travel: nonce in bytes 0-15, instance id in 16-39,
/// then the timestamp's varint and the 24-byte user id.
pub proof fn law_server_challenge_layout(c: ServerChallenge)
    ensures
        c.spec_packet().subrange(0, 16) == c.nonce@,
        c.spec_packet().subrange(16, 40) == c.instance_id@,
        c.spec_packet().subrange(40, 40int + varint(c.timestamp as nat).len()) == varint(c.timestamp as nat),
        c.spec_packet().subrange(40int + varint(c.timestamp as nat).len(), c.spec_packet().len() as int)
            == c.user_id@,
{
    let pk = c.spec_packet();
    let k = varint(c.timestamp as nat).len();
    assert(pk.subrange(0, 16) =~= c.nonce@);
    assert(pk.subrange(16, 40) =~= c.instance_id@);
    assert(pk.subrange(40, 40int + k) =~= varint(c.timestamp as nat));
    assert(pk.subrange(40int + k, pk.len() as int) =~= c.user_id@);
}

} // verus!
