//! The shared BLE message types, as beacons and clients exchange them in postcard form.
pub mod packet;
pub mod flags;
pub mod values;
pub mod message;
