use vstd::prelude::*;
use crate::bytes::{
    append_bytes, lemma_u64_be_roundtrip, lemma_u64_from_be_roundtrip, take_16, take_64, take_8,
    u64_be_bytes, u64_from_be, u64_read_be, u64_to_be_bytes,
};
use crate::constants::{
    DEVICE_BYTES_LENGTH, NONCE_LENGTH, TIMESTAMP_LENGTH, UNLOCK_REQUEST_LENGTH,
    VERIFY_BYTES_LENGTH,
};

verus! {

/// The proof a client hands a beacon to unlock it: the beacon's nonce, device and
/// verification bytes, the timestamp and the server's signature over the challenge.
#[derive(Debug, Clone)]
pub struct Proof {
    pub nonce: [u8; 16],
    pub device_bytes: [u8; 8],
    pub verify_bytes: [u8; 8],
    pub timestamp: u64,
    pub server_signature: [u8; 64],
}

/// A proof as plain byte sequences.
pub struct ProofView {
    pub nonce: Seq<u8>,
    pub device_bytes: Seq<u8>,
    pub verify_bytes: Seq<u8>,
    pub timestamp: u64,
    pub server_signature: Seq<u8>,
}

/// Number of bytes of a packetized proof (the unlock request without its identifier).
pub open spec fn proof_packet_len() -> nat {
    (UNLOCK_REQUEST_LENGTH - 1) as nat
}

impl ProofView {
    /// Whether every field has its fixed length (16, 8, 8 and 64 bytes).
    pub open spec fn well_formed(self) -> bool {
        &&& self.nonce.len() == 16
        &&& self.device_bytes.len() == 8
        &&& self.verify_bytes.len() == 8
        &&& self.server_signature.len() == 64
    }

    /// The wire layout: nonce, device bytes, verify bytes, big-endian timestamp, signature.
    pub open spec fn packet(self) -> Seq<u8> {
        self.nonce + self.device_bytes + self.verify_bytes + u64_be_bytes(self.timestamp)
            + self.server_signature
    }

    /// The proof that a packet of `proof_packet_len()` bytes spells.
    pub open spec fn parse(data: Seq<u8>) -> ProofView {
        ProofView {
            nonce: data.subrange(0, 16),
            device_bytes: data.subrange(16, 24),
            verify_bytes: data.subrange(24, 32),
            timestamp: u64_from_be(data.subrange(32, 40)),
            server_signature: data.subrange(40, 104),
        }
    }
}

impl View for Proof {
    type V = ProofView;

    open spec fn view(&self) -> ProofView {
        ProofView {
            nonce: self.nonce@,
            device_bytes: self.device_bytes@,
            verify_bytes: self.verify_bytes@,
            timestamp: self.timestamp,
            server_signature: self.server_signature@,
        }
    }
}

impl Proof {
    pub fn new(
        nonce: [u8; 16],
        device_bytes: [u8; 8],
        verify_bytes: [u8; 8],
        timestamp: u64,
        server_signature: [u8; 64],
    ) -> (p: Self)
        ensures
            p.nonce == nonce,
            p.device_bytes == device_bytes,
            p.verify_bytes == verify_bytes,
            p.timestamp == timestamp,
            p.server_signature == server_signature,
    {
        Self { nonce, device_bytes, verify_bytes, timestamp, server_signature }
    }

    pub fn packetize(&self) -> (packet: Vec<u8>)
        ensures
            packet@ == self@.packet(),
            packet@.len() == proof_packet_len(),
    {
        let mut packet: Vec<u8> = Vec::with_capacity(16 + 8 + 8 + 8 + 64);
        append_bytes(&mut packet, &self.nonce);
        append_bytes(&mut packet, &self.device_bytes);
        append_bytes(&mut packet, &self.verify_bytes);
        let ts = u64_to_be_bytes(self.timestamp);
        append_bytes(&mut packet, &ts);
        append_bytes(&mut packet, &self.server_signature);
        packet
    }

    /// Reads a proof from exactly `UNLOCK_REQUEST_LENGTH - 1` bytes; any other length gives `None`.
    pub fn depacketize(data: &[u8]) -> (res: Option<Self>)
        ensures
            res is Some <==> data@.len() == proof_packet_len(),
            res matches Some(p) ==> p@ == ProofView::parse(data@),
    {
        if data.len() != UNLOCK_REQUEST_LENGTH - 1 {
            return None;
        }
        let device_bytes_offset = NONCE_LENGTH;
        let verify_bytes_offset = device_bytes_offset + DEVICE_BYTES_LENGTH;
        let timestamp_offset = verify_bytes_offset + VERIFY_BYTES_LENGTH;
        let server_signature_offset = timestamp_offset + TIMESTAMP_LENGTH;
        let nonce = take_16(data, 0);
        let device_bytes = take_8(data, device_bytes_offset);
        let verify_bytes = take_8(data, verify_bytes_offset);
        let timestamp = u64_read_be(data, timestamp_offset);
        let server_signature = take_64(data, server_signature_offset);
        Some(Self { nonce, device_bytes, verify_bytes, timestamp, server_signature })
    }
}

/// Depacketizing a packetized proof gives the same proof.
pub proof fn law_proof_parse_packet(v: ProofView)
    requires
        v.well_formed(),
    ensures
        v.packet().len() == proof_packet_len(),
        ProofView::parse(v.packet()) == v,
{
    let s = v.packet();
    lemma_u64_be_roundtrip(v.timestamp);
    assert(s.subrange(0, 16) =~= v.nonce);
    assert(s.subrange(16, 24) =~= v.device_bytes);
    assert(s.subrange(24, 32) =~= v.verify_bytes);
    assert(s.subrange(32, 40) =~= u64_be_bytes(v.timestamp));
    assert(s.subrange(40, 104) =~= v.server_signature);
}

/// Packetizing a depacketized proof gives back the same bytes.
pub proof fn law_proof_packet_parse(data: Seq<u8>)
    requires
        data.len() == proof_packet_len(),
    ensures
        ProofView::parse(data).well_formed(),
        ProofView::parse(data).packet() == data,
{
    lemma_u64_from_be_roundtrip(data.subrange(32, 40));
    assert(ProofView::parse(data).packet() =~= data);
}

/// The view of a proof always has the fixed field lengths.
pub proof fn lemma_proof_view_well_formed(p: Proof)
    ensures
        p@.well_formed(),
{
}

/// The wire layout of a proof is fixed: the nonce in bytes 0-15, the device bytes in 16-23,
/// the verify bytes in 24-31, the timestamp big-endian in 32-39 and the server signature in
/// 40-103.
pub proof fn law_proof_layout(v: ProofView)
    requires
        v.well_formed(),
    ensures
        v.packet().len() == 104,
        v.packet().subrange(0, 16) == v.nonce,
        v.packet().subrange(16, 24) == v.device_bytes,
        v.packet().subrange(24, 32) == v.verify_bytes,
        v.packet().subrange(32, 40) == u64_be_bytes(v.timestamp),
        v.packet().subrange(40, 104) == v.server_signature,
{
    let p = v.packet();
    assert(p.subrange(0, 16) =~= v.nonce);
    assert(p.subrange(16, 24) =~= v.device_bytes);
    assert(p.subrange(24, 32) =~= v.verify_bytes);
    assert(p.subrange(32, 40) =~= u64_be_bytes(v.timestamp));
    assert(p.subrange(40, 104) =~= v.server_signature);
}

} // verus!
