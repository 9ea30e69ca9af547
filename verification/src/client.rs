//! The mobile client's own rules: signing in, asking for routes, and sorting out what a Bluetooth
//! scan found.
pub mod auth;
pub mod map;
pub mod locate;
pub mod scan;
