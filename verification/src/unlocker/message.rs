use vstd::prelude::*;
use crate::bytes::{append_bytes, take_16, take_24, take_8};
use crate::constants::{
    DEVICE_REQUEST, DEVICE_REQUEST_LENGTH, DEVICE_RESPONSE, DEVICE_RESPONSE_LENGTH, NONCE_LENGTH,
    NONCE_REQUEST, NONCE_REQUEST_LENGTH, NONCE_RESPONSE, NONCE_RESPONSE_LENGTH, UNLOCK_REQUEST,
    UNLOCK_REQUEST_LENGTH, UNLOCK_RESPONSE, UNLOCK_RESPONSE_LENGTH, UNLOCK_SUCCESS,
};
use crate::unlocker::codes::{
    capabilities_byte, capabilities_of_byte, CryptoError, DeviceCapability, DeviceType,
};
use crate::unlocker::unlock_proof::{
    law_proof_packet_parse, law_proof_parse_packet, proof_packet_len, Proof, ProofView,
};

verus! {

/// A message of the BLE unlock protocol, as the client sends and reads it.
#[derive(Debug, Clone)]
pub enum BleMessage {
    DeviceRequest(u8),
    /// Device type, capabilities, 24-byte object-id segment.
    DeviceResponse(DeviceType, Vec<DeviceCapability>, [u8; 24]),
    NonceRequest,
    /// Nonce and signature tail.
    NonceResponse([u8; 16], [u8; 8]),
    UnlockRequest(Proof),
    UnlockResponse(bool, CryptoError),
}

/// A BLE message with its byte arrays and lists as sequences.
pub enum MessageView {
    DeviceRequest(u8),
    DeviceResponse(DeviceType, Seq<DeviceCapability>, Seq<u8>),
    NonceRequest,
    NonceResponse(Seq<u8>, Seq<u8>),
    UnlockRequest(ProofView),
    UnlockResponse(bool, CryptoError),
}

impl View for BleMessage {
    type V = MessageView;

    open spec fn view(&self) -> MessageView {
        match self {
            BleMessage::DeviceRequest(s) => MessageView::DeviceRequest(*s),
            BleMessage::DeviceResponse(t, caps, id) => MessageView::DeviceResponse(
                *t,
                caps@,
                id@,
            ),
            BleMessage::NonceRequest => MessageView::NonceRequest,
            BleMessage::NonceResponse(n, s) => MessageView::NonceResponse(n@, s@),
            BleMessage::UnlockRequest(p) => MessageView::UnlockRequest(p@),
            BleMessage::UnlockResponse(b, e) => MessageView::UnlockResponse(*b, *e),
        }
    }
}

impl MessageView {
    /// The bytes a message is sent as: an identifier byte, then the fields.
    pub open spec fn packet(self) -> Seq<u8> {
        match self {
            MessageView::DeviceRequest(s) => seq![DEVICE_REQUEST, s],
            MessageView::DeviceResponse(t, caps, id) => seq![
                DEVICE_RESPONSE,
                t.code(),
                capabilities_byte(caps),
            ] + id,
            MessageView::NonceRequest => seq![NONCE_REQUEST],
            MessageView::NonceResponse(n, s) => seq![NONCE_RESPONSE] + n + s,
            MessageView::UnlockRequest(p) => seq![UNLOCK_REQUEST] + p.packet(),
            MessageView::UnlockResponse(b, e) => seq![
                UNLOCK_RESPONSE,
                if b {
                    1u8
                } else {
                    0u8
                },
                e.code(),
            ],
        }
    }

    /// The message a received packet spells, if any. The identifier byte selects the kind and
    /// the packet must have that kind's exact length. An unlock response reads its flag as
    /// `byte != UNLOCK_SUCCESS`.
    pub open spec fn parse(data: Seq<u8>) -> Option<MessageView> {
        if data.len() == 0 {
            None
        } else if data[0] == DEVICE_REQUEST && data.len() == DEVICE_REQUEST_LENGTH {
            Some(MessageView::DeviceRequest(data[1]))
        } else if data[0] == DEVICE_RESPONSE && data.len() == DEVICE_RESPONSE_LENGTH {
            match DeviceType::from_code(data[1]) {
                Some(t) => Some(
                    MessageView::DeviceResponse(
                        t,
                        capabilities_of_byte(data[2]),
                        data.subrange(3, 27),
                    ),
                ),
                None => None,
            }
        } else if data[0] == NONCE_REQUEST && data.len() == NONCE_REQUEST_LENGTH {
            Some(MessageView::NonceRequest)
        } else if data[0] == NONCE_RESPONSE && data.len() == NONCE_RESPONSE_LENGTH {
            Some(MessageView::NonceResponse(data.subrange(1, 17), data.subrange(17, 25)))
        } else if data[0] == UNLOCK_REQUEST && data.len() == UNLOCK_REQUEST_LENGTH {
            Some(MessageView::UnlockRequest(ProofView::parse(data.subrange(1, 105))))
        } else if data[0] == UNLOCK_RESPONSE && data.len() == UNLOCK_RESPONSE_LENGTH {
            match CryptoError::from_code(data[2]) {
                Some(e) => Some(MessageView::UnlockResponse(data[1] != UNLOCK_SUCCESS, e)),
                None => None,
            }
        } else {
            None
        }
    }
}

impl BleMessage {
    pub fn packetize(&self) -> (packet: Vec<u8>)
        ensures
            packet@ == self@.packet(),
    {
        let mut packet: Vec<u8> = Vec::new();
        match self {
            BleMessage::DeviceRequest(segment) => {
                packet.push(DEVICE_REQUEST);
                packet.push(*segment);
                assert(packet@ =~= self@.packet());
            },
            BleMessage::DeviceResponse(device_type, capabilities, object_id) => {
                packet.push(DEVICE_RESPONSE);
                packet.push(device_type.packetize());
                packet.push(DeviceCapability::packetize(capabilities.as_slice()));
                append_bytes(&mut packet, object_id);
                assert(packet@ =~= self@.packet());
            },
            BleMessage::NonceRequest => {
                packet.push(NONCE_REQUEST);
                assert(packet@ =~= self@.packet());
            },
            BleMessage::NonceResponse(nonce, signature) => {
                packet.push(NONCE_RESPONSE);
                append_bytes(&mut packet, nonce);
                append_bytes(&mut packet, signature);
                assert(packet@ =~= self@.packet());
            },
            BleMessage::UnlockRequest(proof) => {
                packet.push(UNLOCK_REQUEST);
                let proof_packet = proof.packetize();
                append_bytes(&mut packet, proof_packet.as_slice());
                assert(packet@ =~= self@.packet());
            },
            BleMessage::UnlockResponse(success, error) => {
                packet.push(UNLOCK_RESPONSE);
                packet.push(
                    if *success {
                        1
                    } else {
                        0
                    },
                );
                packet.push(error.packetize());
                assert(packet@ =~= self@.packet());
            },
        }
        packet
    }

    pub fn depacketize(data: &[u8]) -> (res: Option<Self>)
        ensures
            res is Some <==> MessageView::parse(data@) is Some,
            res matches Some(m) ==> MessageView::parse(data@) == Some(m@),
    {
        if data.len() == 0 {
            return None;
        }
        let id = data[0];
        if id == DEVICE_REQUEST && data.len() == DEVICE_REQUEST_LENGTH {
            Some(BleMessage::DeviceRequest(data[1]))
        } else if id == DEVICE_RESPONSE && data.len() == DEVICE_RESPONSE_LENGTH {
            let device_type = match DeviceType::depacketize(data[1]) {
                Some(t) => t,
                None => return None,
            };
            let capabilities = DeviceCapability::depacketize(data[2]);
            let object_id = take_24(data, 3);
            Some(BleMessage::DeviceResponse(device_type, capabilities, object_id))
        } else if id == NONCE_REQUEST && data.len() == NONCE_REQUEST_LENGTH {
            Some(BleMessage::NonceRequest)
        } else if id == NONCE_RESPONSE && data.len() == NONCE_RESPONSE_LENGTH {
            let nonce = take_16(data, 1);
            let signature_tail = take_8(data, NONCE_LENGTH + 1);
            Some(BleMessage::NonceResponse(nonce, signature_tail))
        } else if id == UNLOCK_REQUEST && data.len() == UNLOCK_REQUEST_LENGTH {
            let rest = slice_from(data, 1);
            let proof = match Proof::depacketize(rest) {
                Some(p) => p,
                None => return None,
            };
            Some(BleMessage::UnlockRequest(proof))
        } else if id == UNLOCK_RESPONSE && data.len() == UNLOCK_RESPONSE_LENGTH {
            let success = data[1] != UNLOCK_SUCCESS;
            let error = match CryptoError::depacketize(data[2]) {
                Some(e) => e,
                None => return None,
            };
            Some(BleMessage::UnlockResponse(success, error))
        } else {
            None
        }
    }
}

/// `data[start..]`.
fn slice_from(data: &[u8], start: usize) -> (out: &[u8])
    requires
        start <= data@.len(),
    ensures
        out@ == data@.subrange(start as int, data@.len() as int),
{
    let (_, rest) = data.split_at(start);
    rest
}

/// Whether a list of capabilities is in the form `depacketize` produces:
/// each capability at most once, in bit order.
pub open spec fn canonical_capabilities(caps: Seq<DeviceCapability>) -> bool {
    caps == capabilities_of_byte(capabilities_byte(caps))
}

/// Every message other than an unlock response comes back unchanged from its own packet,
/// device capabilities being compared in the canonical form that the byte carries.
pub proof fn law_message_parse_packet(m: MessageView)
    requires
        !(m is UnlockResponse),
        m matches MessageView::DeviceResponse(_, caps, id) ==> canonical_capabilities(caps)
            && id.len() == 24,
        m matches MessageView::NonceResponse(n, s) ==> n.len() == 16 && s.len() == 8,
        m matches MessageView::UnlockRequest(p) ==> p.well_formed(),
    ensures
        MessageView::parse(m.packet()) == Some(m),
{
    let s = m.packet();
    match m {
        MessageView::DeviceRequest(x) => {},
        MessageView::DeviceResponse(t, caps, id) => {
            assert(s.subrange(3, 27) =~= id);
            assert(DeviceType::from_code(t.code()) == Some(t));
        },
        MessageView::NonceRequest => {},
        MessageView::NonceResponse(n, sig) => {
            assert(s.subrange(1, 17) =~= n);
            assert(s.subrange(17, 25) =~= sig);
        },
        MessageView::UnlockRequest(p) => {
            law_proof_parse_packet(p);
            assert(s.subrange(1, 105) =~= p.packet());
        },
        MessageView::UnlockResponse(b, e) => {},
    }
}

/// An unlock response comes back from its own packet with its success flag negated:
/// the reader takes any byte other than `UNLOCK_SUCCESS` as success.
pub proof fn law_unlock_response_flag_inverted(success: bool, error: CryptoError)
    ensures
        MessageView::parse(MessageView::UnlockResponse(success, error).packet()) == Some(
            MessageView::UnlockResponse(!success, error),
        ),
{
    assert(CryptoError::from_code(error.code()) == Some(error));
}

/// Every packet the reader accepts is re-sent as the same bytes, except that an unlock
/// response flips its flag byte, device capabilities drop unknown bits, and a device
/// request keeps its two bytes.
pub proof fn law_message_packet_parse(data: Seq<u8>)
    requires
        MessageView::parse(data) is Some,
        !(MessageView::parse(data).unwrap() is UnlockResponse),
        MessageView::parse(data).unwrap() is DeviceResponse ==> data[2] & 0xf8u8 == 0,
    ensures
        MessageView::parse(data).unwrap().packet() == data,
{
    let m = MessageView::parse(data).unwrap();
    match m {
        MessageView::DeviceRequest(x) => {
            assert(m.packet() =~= data);
        },
        MessageView::DeviceResponse(t, caps, id) => {
            let b = data[2];
            lemma_capabilities_byte_of_byte(b);
            assert(b & 0xf8u8 == 0 ==> b & 7u8 == b) by (bit_vector);
            assert(t.code() == data[1]);
            assert(m.packet() =~= data);
        },
        MessageView::NonceRequest => {
            assert(m.packet() =~= data);
        },
        MessageView::NonceResponse(n, sig) => {
            assert(m.packet() =~= data);
        },
        MessageView::UnlockRequest(p) => {
            law_proof_packet_parse(data.subrange(1, 105));
            assert(m.packet() =~= data);
        },
        MessageView::UnlockResponse(b, e) => {},
    }
}

/// Reading the capabilities of a byte and folding them back gives the byte's low three bits.
pub proof fn lemma_capabilities_byte_of_byte(b: u8)
    ensures
        capabilities_byte(capabilities_of_byte(b)) == b & 7u8,
{
    let caps = capabilities_of_byte(b);
    let u = DeviceCapability::UnlockGate;
    let e = DeviceCapability::EnvironmentalData;
    let r = DeviceCapability::RssiCalibration;
    if b & 1 != 0 {
        assert(caps[0] == u);
    }
    if caps.contains(u) {
        let k = choose|k: int| 0 <= k < caps.len() && caps[k] == u;
        assert(b & 1 != 0);
    }
    assert(caps.contains(u) == (b & 1 != 0));
    assert(caps.contains(e) == (b & 2 != 0)) by {
        if b & 2 != 0 {
            let k: int = if b & 1 != 0 { 1 } else { 0 };
            assert(caps[k] == e);
        }
        if caps.contains(e) {
            let k = choose|k: int| 0 <= k < caps.len() && caps[k] == e;
        }
    }
    assert(caps.contains(r) == (b & 4 != 0)) by {
        if b & 4 != 0 {
            let k: int = caps.len() - 1;
            assert(caps[k] == r);
        }
        if caps.contains(r) {
            let k = choose|k: int| 0 <= k < caps.len() && caps[k] == r;
        }
    }
    assert(((if b & 1 != 0 { 1u8 } else { 0u8 }) | (if b & 2 != 0 { 2u8 } else { 0u8 })) | (if b
        & 4 != 0 {
        4u8
    } else {
        0u8
    }) == b & 7u8) by (bit_vector);
}

/// Each kind of message starts with its fixed identifier byte: device request 0x01, device
/// response 0x02, nonce request 0x03, nonce response 0x04, unlock request 0x05, unlock
/// response 0x06; an unlock response then carries 0x01 for success and 0x00 for failure, and
/// the error's code. A packet is read only as the kind its first byte names.
pub proof fn law_message_identifiers(m: MessageView, data: Seq<u8>)
    ensures
        m is DeviceRequest ==> m.packet()[0] == 0x01 && m.packet().len() == 2,
        m is DeviceResponse ==> m.packet()[0] == 0x02,
        m is NonceRequest ==> m.packet()[0] == 0x03 && m.packet().len() == 1,
        m is NonceResponse ==> m.packet()[0] == 0x04,
        m is UnlockRequest ==> m.packet()[0] == 0x05,
        m matches MessageView::UnlockResponse(ok, e) ==> m.packet() == seq![0x06u8, if ok { 0x01u8 } else { 0x00u8 }, e.code()],
        MessageView::parse(data) matches Some(v) ==> data[0] == (match v {
            MessageView::DeviceRequest(_) => 0x01u8,
            MessageView::DeviceResponse(_, _, _) => 0x02u8,
            MessageView::NonceRequest => 0x03u8,
            MessageView::NonceResponse(_, _) => 0x04u8,
            MessageView::UnlockRequest(_) => 0x05u8,
            MessageView::UnlockResponse(_, _) => 0x06u8,
        }),
{
}

/// Where the fields of a message travel: a device response carries the type code at byte 1,
/// the capability byte at byte 2 and the object-id segment from byte 3; a nonce response the
/// nonce in bytes 1-16 and the signature tail from byte 17; an unlock request the proof from
/// byte 1; a device request its count at byte 1.
pub proof fn law_message_layout(m: MessageView)
    ensures
        m matches MessageView::DeviceRequest(c) ==> m.packet()[1] == c,
        m matches MessageView::DeviceResponse(t, caps, id) ==> m.packet()[1] == t.code()
            && m.packet()[2] == capabilities_byte(caps) && m.packet().subrange(3, 3int + id.len()) == id,
        m matches MessageView::NonceResponse(n, tail) ==> m.packet().subrange(1, 1int + n.len()) == n
            && m.packet().subrange(1int + n.len(), 1int + n.len() + tail.len()) == tail,
        m matches MessageView::UnlockRequest(p) ==> m.packet().subrange(1, 1int + p.packet().len()) == p.packet(),
{
    let pk = m.packet();
    match m {
        MessageView::DeviceResponse(t, caps, id) => {
            assert(pk.subrange(3, 3int + id.len()) =~= id);
        },
        MessageView::NonceResponse(n, tail) => {
            assert(pk.subrange(1, 1int + n.len()) =~= n);
            assert(pk.subrange(1int + n.len(), 1int + n.len() + tail.len()) =~= tail);
        },
        MessageView::UnlockRequest(p) => {
            assert(pk.subrange(1, 1int + p.packet().len()) =~= p.packet());
        },
        _ => {},
    }
}

} // verus!
