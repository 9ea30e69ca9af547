//! Navign core: BLE unlock protocol framing, BluFi frame metadata,
//! grid routing and the schema rules shared by the server and the mobile client.
pub mod ble;
pub mod blufi;
pub mod bytes;
pub mod client;
pub mod constants;
pub mod handshake;
pub mod crypto;
pub mod pathfinding;
pub mod schema;
pub mod text;
pub mod unlocker;
pub mod wire;
