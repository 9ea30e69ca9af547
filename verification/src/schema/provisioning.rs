//! Records of provisioning a beacon's Wi-Fi over BluFi.
use vstd::prelude::*;

verus! {

/// The security of a Wi-Fi network.
#[derive(Debug, Clone, Copy, PartialEq, Eq, Structural)]
pub enum WiFiSecurityMode {
    /// No password.
    Open,
    /// WEP (deprecated).
    Wep,
    WpaPsk,
    /// The most common mode.
    Wpa2Psk,
    WpaWpa2Psk,
    Wpa2Enterprise,
    Wpa3Psk,
    Wpa2Wpa3Psk,
}

/// A network seen in a Wi-Fi scan.
#[derive(Debug, Clone)]
pub struct WiFiNetwork {
    pub ssid: String,
    /// The access point's MAC address.
    pub bssid: Option<String>,
    /// Signal strength in dBm.
    pub rssi: i8,
    pub channel: u8,
    pub security: WiFiSecurityMode,
    pub hidden: bool,
}

/// The stages of provisioning a beacon.
#[derive(Debug, Clone, Copy, PartialEq, Eq, Structural)]
pub enum BluFiState {
    Idle,
    Scanning,
    Connecting,
    Negotiating,
    Provisioning,
    Verifying,
    Connected,
    Failed,
}

/// Why provisioning failed.
#[derive(Debug, Clone, Copy, PartialEq, Eq, Structural)]
pub enum BluFiErrorType {
    BluetoothDisabled,
    BeaconNotFound,
    ConnectionFailed,
    AuthenticationFailed,
    ProvisioningFailed,
    TimeoutError,
    UnknownError,
}

/// A provisioning failure with its description.
#[derive(Debug, Clone)]
pub struct BluFiError {
    pub error_type: BluFiErrorType,
    pub message: String,
    pub details: Option<String>,
    pub code: Option<i32>,
}

/// The outcome of a provisioning attempt.
#[derive(Debug, Clone)]
pub struct BluFiProvisioningResult {
    pub success: bool,
    pub state: BluFiState,
    pub message: Option<String>,
    pub ip_address: Option<String>,
    pub mac_address: Option<String>,
    pub connected_ssid: Option<String>,
    pub error: Option<BluFiError>,
}

/// What is known of a beacon while it is provisioned.
#[derive(Debug, Clone)]
pub struct BeaconProvisioningStatus {
    pub beacon_id: i32,
    pub device_id: String,
    pub state: BluFiState,
    pub wifi_connected: bool,
    pub orchestrator_connected: bool,
    pub ip_address: Option<String>,
    pub firmware_version: Option<String>,
}

} // verus!
