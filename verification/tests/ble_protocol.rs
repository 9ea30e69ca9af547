use navign::ble::flags::{DeviceCapabilities, DeviceTypes};
use navign::ble::message::BleMessage as SharedMessage;
use navign::ble::packet::{Depacketize, Packetize};
use navign::ble::values::{CryptoError as SharedCryptoError, Nonce, Proof as SharedProof, ServerChallenge};
use navign::unlocker::codes::{CryptoError, DeviceCapability, DeviceType};
use navign::unlocker::message::BleMessage;
use navign::unlocker::unlock_proof::Proof;
use navign::unlocker::challenge::ServerChallenge as ClientChallenge;
use base64::Engine;
use p256::ecdsa::SigningKey;
use p256::ecdsa::signature::Verifier;
use navign::unlocker::session::Unlocker;
use p256::elliptic_curve::rand_core::OsRng;

#[test]
fn test_server_challenge_packetize() {
    let challenge = ServerChallenge::new([0u8; 16], [1u8; 24], 1234567890, [2u8; 24]);
    let packet = challenge.packetize();
    assert!(packet.len() > 0);
}

#[test]
fn test_device_capabilities_packetize_depacketize() {
    let capabilities = DeviceCapabilities::from_bits_retain(
        DeviceCapabilities::UNLOCK_GATE
            | DeviceCapabilities::BATTERY_STATUS
            | DeviceCapabilities::ROBOT_CONTROL,
    );
    let packet = capabilities.packetize();
    assert_eq!(packet.len(), 1);
    let depacketized = DeviceCapabilities::depacketize(&packet).unwrap();
    assert_eq!(capabilities, depacketized);
}

#[test]
fn test_device_types_packetize_depacketize() {
    let device_types = DeviceTypes::from_bits_retain(DeviceTypes::MERCHANT);
    let packet = device_types.packetize();
    assert_eq!(packet.len(), 1);
    let depacketized = DeviceTypes::depacketize(&packet).unwrap();
    assert_eq!(device_types, depacketized);
}

#[test]
fn test_nonce_packetize_depacketize() {
    let nonce = Nonce::new([1u8; 16]);
    let packet = nonce.packetize();
    assert!(packet.len() > 0);
    let depacketized = Nonce::depacketize(&packet).unwrap();
    assert_eq!(nonce, depacketized);
}

#[test]
fn test_proof_packetize_depacketize() {
    let nonce = [1u8; 16];
    let device_bytes = [2u8; 8];
    let verify_bytes = [3u8; 8];
    let timestamp = 1234567890u64;
    let server_signature = [4u8; 64];

    let proof = Proof::new(nonce, device_bytes, verify_bytes, timestamp, server_signature);
    let packet = proof.packetize();
    let depacketized_proof = Proof::depacketize(&packet).unwrap();

    assert_eq!(proof.nonce, depacketized_proof.nonce);
    assert_eq!(proof.device_bytes, depacketized_proof.device_bytes);
    assert_eq!(proof.verify_bytes, depacketized_proof.verify_bytes);
    assert_eq!(proof.timestamp, depacketized_proof.timestamp);
    assert_eq!(proof.server_signature, depacketized_proof.server_signature);
}

#[test]
fn test_server_challenge() {
    let signing_key = SigningKey::random(&mut OsRng);
    let key_bytes: [u8; 32] = signing_key.to_bytes().into();

    let challenge = ClientChallenge::new(
        [1, 2, 3, 4, 5, 6, 7, 8, 9, 10, 11, 12, 13, 14, 15, 16],
        "abcdef123456abcdef123456",
        1625077765,
        "abcdef123456abcdef123456".to_string(),
    );

    let (packet_b64, validator) = challenge.packetize(&key_bytes).unwrap();

    assert_eq!(packet_b64.len(), 96);
    let decoded = base64::engine::general_purpose::STANDARD
        .decode(packet_b64)
        .unwrap();
    assert_eq!(decoded.len(), 72);
    let validator_from_packet: [u8; 8] = decoded[64..72].try_into().unwrap();
    assert_eq!(validator, validator_from_packet);
    assert_eq!(validator.len(), 8);
}

#[test]
fn proof_packet_is_fixed_layout() {
    let proof = Proof::new([1u8; 16], [2u8; 8], [3u8; 8], 0x0102030405060708, [4u8; 64]);
    let packet = proof.packetize();
    assert_eq!(packet.len(), 104);
    assert_eq!(&packet[0..16], &[1u8; 16]);
    assert_eq!(&packet[16..24], &[2u8; 8]);
    assert_eq!(&packet[24..32], &[3u8; 8]);
    assert_eq!(&packet[32..40], &[1, 2, 3, 4, 5, 6, 7, 8]);
    assert_eq!(&packet[40..104], &[4u8; 64][..]);
    assert!(Proof::depacketize(&packet[..103]).is_none());
}

#[test]
fn shared_proof_round_trip_uses_varint_timestamp() {
    let proof = SharedProof::new([9u8; 16], [8u8; 8], [7u8; 8], 300, [6u8; 64]);
    let packet = proof.packetize();
    // 16 + 8 + 8 bytes, then 300 as a two-byte varint, then the signature
    assert_eq!(packet.len(), 16 + 8 + 8 + 2 + 64);
    assert_eq!(&packet[32..34], &[0xAC, 0x02]);
    let back = SharedProof::depacketize(&packet).unwrap();
    assert_eq!(back.timestamp, 300);
    assert_eq!(back.server_signature, [6u8; 64]);
}

#[test]
fn crypto_error_codes_round_trip() {
    let all = [
        CryptoError::InvalidSignature,
        CryptoError::InvalidKey,
        CryptoError::InvalidNonce,
        CryptoError::VerificationFailed,
        CryptoError::BufferFull,
        CryptoError::RateLimited,
        CryptoError::ReplayDetected,
        CryptoError::ServerPublicKeyNotSet,
    ];
    for (i, e) in all.iter().enumerate() {
        let code = e.packetize();
        assert_eq!(code as usize, i + 1);
        assert_eq!(CryptoError::depacketize(code), Some(*e));
    }
    assert_eq!(CryptoError::depacketize(0), None);
    assert_eq!(CryptoError::depacketize(9), None);
}

#[test]
fn shared_crypto_error_messages_and_index() {
    let e = SharedCryptoError::ReplayDetected;
    assert_eq!(e.to_string(), "Replay Detected");
    assert_eq!(e.packetize(), vec![6u8]);
    assert_eq!(SharedCryptoError::depacketize(&[6u8, 0xAA]), Some(SharedCryptoError::ReplayDetected));
    assert_eq!(SharedCryptoError::depacketize(&[8u8]), None);
    assert_eq!(SharedCryptoError::ServerPublicKeyNotSet.to_string(), "Server Public Key Not Set");
}

#[test]
fn device_type_codes_round_trip() {
    for t in [DeviceType::Merchant, DeviceType::Pathway, DeviceType::Connection, DeviceType::Turnstile] {
        assert_eq!(DeviceType::depacketize(t.packetize()), Some(t));
    }
    assert_eq!(DeviceType::Turnstile.packetize(), 0x04);
    assert_eq!(DeviceType::depacketize(0x00), None);
    assert_eq!(DeviceType::depacketize(0x05), None);
}

#[test]
fn capability_lists_pack_to_bits() {
    let byte = DeviceCapability::packetize(&[DeviceCapability::UnlockGate, DeviceCapability::RssiCalibration]);
    assert_eq!(byte, 0b101);
    let caps = DeviceCapability::depacketize(byte);
    assert_eq!(caps, vec![DeviceCapability::UnlockGate, DeviceCapability::RssiCalibration]);
    assert_eq!(DeviceCapability::depacketize(0xF8), vec![]);
}

#[test]
fn unlock_messages_round_trip() {
    let msg = BleMessage::NonceResponse([5u8; 16], [6u8; 8]);
    let packet = msg.packetize();
    assert_eq!(packet.len(), 25);
    assert_eq!(packet[0], 0x04);
    match BleMessage::depacketize(&packet) {
        Some(BleMessage::NonceResponse(n, s)) => {
            assert_eq!(n, [5u8; 16]);
            assert_eq!(s, [6u8; 8]);
        }
        _ => panic!("expected a nonce response"),
    }
    let req = BleMessage::DeviceRequest(7).packetize();
    assert_eq!(req, vec![0x01, 7]);
    assert!(BleMessage::depacketize(&[0x01]).is_none());
    assert!(BleMessage::depacketize(&[]).is_none());
    assert!(BleMessage::depacketize(&[0x42]).is_none());
}

#[test]
fn unlock_response_flag_reads_inverted() {
    // A success flag is written as 1 and read back as "byte != 1".
    let packet = BleMessage::UnlockResponse(true, CryptoError::InvalidKey).packetize();
    assert_eq!(packet, vec![0x06, 1, 0x02]);
    match BleMessage::depacketize(&packet) {
        Some(BleMessage::UnlockResponse(flag, e)) => {
            assert!(!flag);
            assert_eq!(e, CryptoError::InvalidKey);
        }
        _ => panic!("expected an unlock response"),
    }
}

#[test]
fn device_response_round_trip() {
    let msg = BleMessage::DeviceResponse(DeviceType::Pathway, vec![DeviceCapability::EnvironmentalData], [9u8; 24]);
    let packet = msg.packetize();
    assert_eq!(packet.len(), 27);
    assert_eq!(&packet[0..3], &[0x02, 0x02, 0b010]);
    match BleMessage::depacketize(&packet) {
        Some(BleMessage::DeviceResponse(t, caps, id)) => {
            assert_eq!(t, DeviceType::Pathway);
            assert_eq!(caps, vec![DeviceCapability::EnvironmentalData]);
            assert_eq!(id, [9u8; 24]);
        }
        _ => panic!("expected a device response"),
    }
}

#[test]
fn shared_message_identifiers() {
    assert!(matches!(SharedMessage::try_from(0x01), Ok(SharedMessage::DeviceRequest)));
    assert!(matches!(SharedMessage::try_from(0x03), Ok(SharedMessage::NonceRequest)));
    assert!(SharedMessage::try_from(0x02).is_err());
    assert_eq!(SharedMessage::NonceRequest.packetize(), vec![0x03]);
    let resp = SharedMessage::UnlockResponse(false, SharedCryptoError::InvalidNonce).packetize();
    assert_eq!(resp, vec![0x06, 0x00, 2]);
}

#[test]
fn packet_hash_and_base64_differ_from_raw_bytes() {
    let nonce = Nonce::new([0u8; 16]);
    let text = nonce.packetize_to_base64();
    assert_eq!(text, "AAAAAAAAAAAAAAAAAAAAAA==");
    let hash = nonce.get_hash();
    // SHA-256 of sixteen zero bytes
    assert_eq!(hash[0..4], [0x37, 0x47, 0x08, 0xff]);
    let back = Nonce::depacketize_from_base64("AQEBAQEBAQEBAQEBAQEBAQ==").unwrap();
    assert_eq!(back, Nonce::new([1u8; 16]));
}

#[test]
fn shared_packets_sign_and_verify() {
    let key = SigningKey::random(&mut OsRng);
    let secret: [u8; 32] = key.to_bytes().into();
    let public = key.verifying_key().to_encoded_point(false);
    let nonce = Nonce::new([3u8; 16]);
    let sig = nonce.sign(&secret).unwrap();
    assert!(nonce.verify(public.as_bytes(), &sig));
    let other = Nonce::new([4u8; 16]);
    assert!(!other.verify(public.as_bytes(), &sig));
}

#[test]
fn test_sign_server_challenge_verifies() {
    let unlocker = Unlocker::new(vec![], "user".to_string(), "token".to_string());
    let secret = [7u8; 32];
    let buffer = [42u8; 32];
    let signature = unlocker.sign_server_challenge(buffer, &secret).expect("valid key");
    let key = SigningKey::from_bytes((&secret).into()).unwrap();
    let sig = p256::ecdsa::Signature::from_slice(&signature).unwrap();
    assert!(key.verifying_key().verify(&buffer, &sig).is_ok());
    let mut other = buffer;
    other[0] ^= 1;
    assert!(key.verifying_key().verify(&other, &sig).is_err());
}

#[test]
fn test_sign_server_challenge_rejects_zero_key() {
    let unlocker = Unlocker::new(vec![], "user".to_string(), "token".to_string());
    assert!(unlocker.sign_server_challenge([1u8; 32], &[0u8; 32]).is_none());
}
