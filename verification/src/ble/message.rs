use vstd::prelude::*;
use crate::ble::flags::{DeviceCapabilities, DeviceTypes};
use crate::ble::packet::Packetize;
use crate::ble::values::{CryptoError, Proof};
use crate::bytes::append_bytes;
use crate::wire::{lemma_varint_nonempty, lemma_varint_u64_len};
use vstd::std_specs::convert::FromSpecImpl;
use crate::constants::{
    DEVICE_REQUEST, DEVICE_RESPONSE, NONCE_REQUEST, NONCE_RESPONSE, UNLOCK_FAILURE,
    UNLOCK_REQUEST, UNLOCK_RESPONSE, UNLOCK_SUCCESS,
};

verus! {

/// A message of the BLE unlock protocol, in the form beacons use.
#[derive(Debug, Clone)]
pub enum BleMessage {
    DeviceRequest,
    /// Device types, capabilities, 24-byte object-id segment.
    DeviceResponse(DeviceTypes, DeviceCapabilities, [u8; 24]),
    NonceRequest,
    /// Nonce and verify bytes.
    NonceResponse([u8; 16], [u8; 8]),
    UnlockRequest(Proof),
    UnlockResponse(bool, CryptoError),
}

impl BleMessage {
    /// The message an identifier byte alone stands for: only the two requests without fields.
    pub fn try_from(value: u8) -> (res: Result<Self, ()>)
        ensures
            res is Ok <==> (value == DEVICE_REQUEST || value == NONCE_REQUEST),
            res matches Ok(m) ==> (value == DEVICE_REQUEST ==> m is DeviceRequest) && (value
                == NONCE_REQUEST ==> m is NonceRequest),
    {
        match value {
            0x01 => Ok(BleMessage::DeviceRequest),
            0x03 => Ok(BleMessage::NonceRequest),
            _ => Err(()),
        }
    }
}

impl From<(DeviceTypes, DeviceCapabilities, [u8; 24])> for BleMessage {
    /// A device response.
    fn from(value: (DeviceTypes, DeviceCapabilities, [u8; 24])) -> (m: Self) {
        BleMessage::DeviceResponse(value.0, value.1, value.2)
    }
}

impl FromSpecImpl<(DeviceTypes, DeviceCapabilities, [u8; 24])> for BleMessage {
    open spec fn obeys_from_spec() -> bool {
        true
    }

    open spec fn from_spec(v: (DeviceTypes, DeviceCapabilities, [u8; 24])) -> BleMessage {
        BleMessage::DeviceResponse(v.0, v.1, v.2)
    }
}

impl From<([u8; 16], [u8; 8])> for BleMessage {
    /// A nonce response.
    fn from(value: ([u8; 16], [u8; 8])) -> (m: Self) {
        BleMessage::NonceResponse(value.0, value.1)
    }
}

impl FromSpecImpl<([u8; 16], [u8; 8])> for BleMessage {
    open spec fn obeys_from_spec() -> bool {
        true
    }

    open spec fn from_spec(v: ([u8; 16], [u8; 8])) -> BleMessage {
        BleMessage::NonceResponse(v.0, v.1)
    }
}

impl From<Proof> for BleMessage {
    /// An unlock request.
    fn from(value: Proof) -> (m: Self) {
        BleMessage::UnlockRequest(value)
    }
}

impl FromSpecImpl<Proof> for BleMessage {
    open spec fn obeys_from_spec() -> bool {
        true
    }

    open spec fn from_spec(v: Proof) -> BleMessage {
        BleMessage::UnlockRequest(v)
    }
}

impl Packetize for BleMessage {
    /// The identifier byte of the kind, then the packets of the fields in order; an unlock
    /// response carries `UNLOCK_SUCCESS` or `UNLOCK_FAILURE` for its flag.
    open spec fn spec_packet(&self) -> Seq<u8> {
        match self {
            BleMessage::DeviceRequest => seq![DEVICE_REQUEST],
            BleMessage::DeviceResponse(t, c, id) => seq![DEVICE_RESPONSE] + t.spec_packet()
                + c.spec_packet() + id@,
            BleMessage::NonceRequest => seq![NONCE_REQUEST],
            BleMessage::NonceResponse(n, v) => seq![NONCE_RESPONSE] + n@ + v@,
            BleMessage::UnlockRequest(p) => seq![UNLOCK_REQUEST] + p.spec_packet(),
            BleMessage::UnlockResponse(ok, e) => seq![
                UNLOCK_RESPONSE,
                if *ok {
                    UNLOCK_SUCCESS
                } else {
                    UNLOCK_FAILURE
                },
            ] + e.spec_packet(),
        }
    }

    /// The packet is at most 107 bytes long, the length of an unlock request.
    fn packetize(&self) -> (packet: Vec<u8>)
        ensures
            packet@.len() <= 107,
    {
        let mut vec: Vec<u8> = Vec::new();
        match self {
            BleMessage::DeviceRequest => {
                vec.push(DEVICE_REQUEST);
                assert(vec@ =~= self.spec_packet());
            },
            BleMessage::DeviceResponse(device_types, device_capabilities, object_id_segment) => {
                vec.push(DEVICE_RESPONSE);
                let t = device_types.packetize();
                append_bytes(&mut vec, t.as_slice());
                let c = device_capabilities.packetize();
                append_bytes(&mut vec, c.as_slice());
                append_bytes(&mut vec, object_id_segment);
                assert(vec@ =~= self.spec_packet());
            },
            BleMessage::NonceRequest => {
                vec.push(NONCE_REQUEST);
                assert(vec@ =~= self.spec_packet());
            },
            BleMessage::NonceResponse(nonce, verify_bytes) => {
                vec.push(NONCE_RESPONSE);
                append_bytes(&mut vec, nonce);
                append_bytes(&mut vec, verify_bytes);
                assert(vec@ =~= self.spec_packet());
            },
            BleMessage::UnlockRequest(proof) => {
                vec.push(UNLOCK_REQUEST);
                let proof_packet = proof.packetize();
                append_bytes(&mut vec, proof_packet.as_slice());
                assert(vec@ =~= self.spec_packet());
                proof {
                    lemma_varint_u64_len(proof.timestamp);
                }
            },
            BleMessage::UnlockResponse(success, error) => {
                vec.push(UNLOCK_RESPONSE);
                vec.push(
                    if *success {
                        UNLOCK_SUCCESS
                    } else {
                        UNLOCK_FAILURE
                    },
                );
                let e = error.packetize();
                append_bytes(&mut vec, e.as_slice());
                assert(vec@ =~= self.spec_packet());
                proof {
                    lemma_varint_nonempty(error.index() as nat);
                }
            },
        }
        vec
    }
}

/// Each kind of message starts with its fixed identifier byte: device request 0x01, device
/// response 0x02, nonce request 0x03, nonce response 0x04, unlock request 0x05, unlock
/// response 0x06; an unlock response's second byte is 0x01 for success and 0x00 for failure.
pub proof fn law_message_identifiers(m: BleMessage)
    ensures
        m is DeviceRequest ==> m.spec_packet() == seq![0x01u8],
        m is DeviceResponse ==> m.spec_packet()[0] == 0x02,
        m is NonceRequest ==> m.spec_packet() == seq![0x03u8],
        m is NonceResponse ==> m.spec_packet()[0] == 0x04,
        m is UnlockRequest ==> m.spec_packet()[0] == 0x05,
        m matches BleMessage::UnlockResponse(ok, _) ==> m.spec_packet()[0] == 0x06
            && m.spec_packet()[1] == (if ok { 0x01u8 } else { 0x00u8 }),
{
}

/// Where the fields of a message travel: a device response carries the device-type byte at
/// byte 1, the capability byte at byte 2 and the object-id segment in bytes 3-26; a nonce
/// response the nonce in bytes 1-16 and the verify bytes in 17-24; an unlock request the
/// proof from byte 1; an unlock response the error after its two leading bytes.
pub proof fn law_message_layout(m: BleMessage)
    ensures
        m matches BleMessage::DeviceResponse(t, c, id) ==> m.spec_packet()[1] == t.spec_bits()
            && m.spec_packet()[2] == c.spec_bits() && m.spec_packet().subrange(3, 27) == id@,
        m matches BleMessage::NonceResponse(n, v) ==> m.spec_packet().subrange(1, 17) == n@
            && m.spec_packet().subrange(17, 25) == v@,
        m matches BleMessage::UnlockRequest(p) ==> m.spec_packet().subrange(1, 1int + p.spec_packet().len())
            == p.spec_packet(),
        m matches BleMessage::UnlockResponse(_, e) ==> m.spec_packet().subrange(2, 2int + e.spec_packet().len())
            == e.spec_packet(),
{
    let pk = m.spec_packet();
    match m {
        BleMessage::DeviceResponse(t, c, id) => {
            assert(pk.subrange(3, 27) =~= id@);
        },
        BleMessage::NonceResponse(n, v) => {
            assert(pk.subrange(1, 17) =~= n@);
            assert(pk.subrange(17, 25) =~= v@);
        },
        BleMessage::UnlockRequest(p) => {
            assert(pk.subrange(1, 1int + p.spec_packet().len()) =~= p.spec_packet());
        },
        BleMessage::UnlockResponse(ok, e) => {
            assert(pk.subrange(2, 2int + e.spec_packet().len()) =~= e.spec_packet());
        },
        _ => {},
    }
}

} // verus!
