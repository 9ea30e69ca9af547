//! The records shared by the server, the beacons and the mobile client.
pub mod firmware;
pub mod places;
pub mod merchant;
pub mod account;
pub mod provisioning;
pub mod query;
