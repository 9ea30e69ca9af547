//! Client side of the beacon unlock protocol: byte codes, proofs and BLE messages.
pub mod codes;
pub mod unlock_proof;
pub mod message;
pub mod challenge;
pub mod session;
