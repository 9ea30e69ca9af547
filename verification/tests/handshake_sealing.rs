use aes_gcm::aead::Aead;
use aes_gcm::KeyInit;
use base64::Engine;
use navign::handshake::{frame_handshake, seal_handshake, HandshakeError};
use rsa::pkcs8::EncodePublicKey;

#[test]
fn sealed_announcement_opens_with_the_server_key() {
    let mut rng = rand::thread_rng();
    let private = rsa::RsaPrivateKey::new(&mut rng, 1024).unwrap();
    let pem = private
        .to_public_key()
        .to_public_key_pem(rsa::pkcs8::LineEnding::LF)
        .unwrap();
    let payload = b"{\"device_id\":\"d1\"}";
    let text = seal_handshake(&pem, payload).unwrap();
    let bytes = base64::engine::general_purpose::STANDARD.decode(text).unwrap();
    // 128 bytes of RSA ciphertext, 12 of nonce, the payload and a 16-byte tag
    assert_eq!(bytes.len(), 128 + 12 + payload.len() + 16);
    let aes_key = private.decrypt(rsa::Pkcs1v15Encrypt, &bytes[..128]).unwrap();
    assert_eq!(aes_key.len(), 32);
    let cipher = aes_gcm::Aes256Gcm::new_from_slice(&aes_key).unwrap();
    let opened = cipher
        .decrypt(aes_gcm::Nonce::from_slice(&bytes[128..140]), &bytes[140..])
        .unwrap();
    assert_eq!(opened, payload);
}

#[test]
fn unreadable_server_key_is_refused() {
    let err = seal_handshake("not a key", b"x").unwrap_err();
    assert!(matches!(err, HandshakeError::InvalidServerKey(_)));
    assert!(err.to_string().starts_with("Failed to parse server public key: "));
    assert!(err.to_string().len() > "Failed to parse server public key: ".len());
    assert_eq!(
        HandshakeError::InvalidServerKey("bad PEM".to_string()).to_string(),
        "Failed to parse server public key: bad PEM"
    );
    assert_eq!(HandshakeError::PayloadEncryption("aead::Error".to_string()).to_string(), "AES encryption failed: aead::Error");
    assert_eq!(HandshakeError::KeyEncryption("message too long".to_string()).to_string(), "RSA encryption failed: message too long");
    assert_eq!(HandshakeError::TooLong.to_string(), "Sealed message too long");
}

#[test]
fn frames_concatenate_before_encoding() {
    let text = frame_handshake(&[1, 2], &[0u8; 12], &[3]).unwrap();
    let expected = base64::engine::general_purpose::STANDARD.encode([1u8, 2, 0, 0, 0, 0, 0, 0, 0, 0, 0, 0, 0, 0, 3]);
    assert_eq!(text, expected);
}
