use vstd::prelude::*;
use crate::crypto::{
    base64_encode, base64_len, base64_standard, p256_sign, p256_signature, p256_verifies,
    p256_verify, sha256, sha256_digest,
};
use crate::wire::{base64_decode, base64_standard_decode};

verus! {

/// A value with a byte form.
pub trait Packetize {
    /// The bytes the value is sent as.
    spec fn spec_packet(&self) -> Seq<u8>;

    fn packetize(&self) -> (packet: Vec<u8>)
        ensures
            packet@ == self.spec_packet(),
    ;

    /// The standard base64 text of the packet.
    fn packetize_to_base64(&self) -> (text: String)
        requires
            base64_len(self.spec_packet().len()) <= usize::MAX,
        ensures
            text@ == base64_standard(self.spec_packet()),
    {
        let packet = self.packetize();
        base64_encode(packet.as_slice())
    }

    /// SHA-256 of the packet.
    fn get_hash(&self) -> (hash: [u8; 32])
        ensures
            hash@ == sha256_digest(self.spec_packet()),
    {
        let packet = self.packetize();
        sha256(packet.as_slice())
    }

    /// ECDSA P-256 signature of the packet's hash, under a secret key given as its 32 bytes;
    /// `None` when those bytes are not a valid secret key.
    fn sign(&self, signing_key: &[u8; 32]) -> (signature: Option<[u8; 64]>)
        ensures
            signature matches Some(s) ==> p256_signature(
                signing_key@,
                sha256_digest(self.spec_packet()),
            ) == Some(s@),
            signature is None ==> p256_signature(
                signing_key@,
                sha256_digest(self.spec_packet()),
            ) is None,
    {
        let hash = self.get_hash();
        p256_sign(signing_key, &hash)
    }

    /// Whether a signature of the packet's hash verifies under a SEC1-encoded public key.
    fn verify(&self, verify_key: &[u8], signature: &[u8; 64]) -> (ok: bool)
        ensures
            ok == p256_verifies(verify_key@, sha256_digest(self.spec_packet()), signature@),
    {
        let hash = self.get_hash();
        p256_verify(verify_key, &hash, signature)
    }
}

/// A value that can be read back from bytes.
pub trait Depacketize: Sized {
    /// Whether a packet reads as some value.
    spec fn spec_accepts(packet: Seq<u8>) -> bool;

    /// Whether `value` is what a packet reads as.
    spec fn spec_reads(packet: Seq<u8>, value: Self) -> bool;

    fn depacketize(packet: &[u8]) -> (res: Option<Self>)
        ensures
            res is Some <==> Self::spec_accepts(packet@),
            res matches Some(v) ==> Self::spec_reads(packet@, v),
    ;

    /// Decodes standard base64 text, then depacketizes the bytes.
    fn depacketize_from_base64(b64: &str) -> (res: Option<Self>)
        ensures
            res is Some <==> (base64_standard_decode(b64@) matches Some(bytes)
                && Self::spec_accepts(bytes)),
            res matches Some(v) ==> Self::spec_reads(base64_standard_decode(b64@).unwrap(), v),
    {
        match base64_decode(b64) {
            Some(decoded) => Self::depacketize(decoded.as_slice()),
            None => None,
        }
    }
}

impl Packetize for [u8] {
    open spec fn spec_packet(&self) -> Seq<u8> {
        self@
    }

    fn packetize(&self) -> (packet: Vec<u8>) {
        let mut out: Vec<u8> = Vec::new();
        crate::bytes::append_bytes(&mut out, self);
        out
    }
}

} // verus!
