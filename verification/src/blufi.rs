//! BluFi frame metadata: the frame-control flags, the WiFi enumerations carried in frames,
//! and the type byte of control and data frames.
//!
//! The type byte keeps the frame type in bits 0-1 (control `0b00`, data `0b01`) and the
//! subtype in bits 2-7.
use vstd::prelude::*;

verus! {

/// Frame control flags (one byte).
#[derive(Debug, Clone, Copy, PartialEq, Eq, Structural)]
pub struct FrameControl(pub u8);

/// Whether bit `mask` is set in `b`.
pub open spec fn has_bit(b: u8, mask: u8) -> bool {
    b & mask != 0
}

impl FrameControl {
    pub const ENCRYPTED: u8 = 0x01;
    pub const CHECKSUM: u8 = 0x02;
    pub const DIRECTION_TO_PHONE: u8 = 0x04;
    pub const REQUIRE_ACK: u8 = 0x08;
    pub const FRAG: u8 = 0x10;

    pub fn new() -> (fc: Self)
        ensures
            fc.0 == 0,
    {
        Self(0)
    }

    pub fn with_encrypted(self) -> (fc: Self)
        ensures
            fc.0 == self.0 | 0x01u8,
    {
        Self(self.0 | Self::ENCRYPTED)
    }

    pub fn with_checksum(self) -> (fc: Self)
        ensures
            fc.0 == self.0 | 0x02u8,
    {
        Self(self.0 | Self::CHECKSUM)
    }

    pub fn with_direction_to_phone(self) -> (fc: Self)
        ensures
            fc.0 == self.0 | 0x04u8,
    {
        Self(self.0 | Self::DIRECTION_TO_PHONE)
    }

    pub fn with_require_ack(self) -> (fc: Self)
        ensures
            fc.0 == self.0 | 0x08u8,
    {
        Self(self.0 | Self::REQUIRE_ACK)
    }

    pub fn with_frag(self) -> (fc: Self)
        ensures
            fc.0 == self.0 | 0x10u8,
    {
        Self(self.0 | Self::FRAG)
    }

    pub fn is_encrypted(&self) -> (b: bool)
        ensures
            b == has_bit(self.0, 0x01),
    {
        self.0 & Self::ENCRYPTED != 0
    }

    pub fn has_checksum(&self) -> (b: bool)
        ensures
            b == has_bit(self.0, 0x02),
    {
        self.0 & Self::CHECKSUM != 0
    }

    pub fn is_direction_to_phone(&self) -> (b: bool)
        ensures
            b == has_bit(self.0, 0x04),
    {
        self.0 & Self::DIRECTION_TO_PHONE != 0
    }

    pub fn requires_ack(&self) -> (b: bool)
        ensures
            b == has_bit(self.0, 0x08),
    {
        self.0 & Self::REQUIRE_ACK != 0
    }

    pub fn is_frag(&self) -> (b: bool)
        ensures
            b == has_bit(self.0, 0x10),
    {
        self.0 & Self::FRAG != 0
    }
}

impl Default for FrameControl {
    fn default() -> (fc: Self)
        ensures
            fc.0 == 0,
    {
        Self::new()
    }
}

/// Setting one flag turns that flag on and leaves each of the other four flags as it was.
pub proof fn law_frame_control_flags(b: u8, mask: u8, other: u8)
    requires
        mask == 0x01 || mask == 0x02 || mask == 0x04 || mask == 0x08 || mask == 0x10,
        other == 0x01 || other == 0x02 || other == 0x04 || other == 0x08 || other == 0x10,
        other != mask,
    ensures
        has_bit(b | mask, mask),
        has_bit(b | mask, other) == has_bit(b, other),
{
    assert((mask == 0x01u8 || mask == 0x02u8 || mask == 0x04u8 || mask == 0x08u8 || mask
        == 0x10u8) && (other == 0x01u8 || other == 0x02u8 || other == 0x04u8 || other == 0x08u8
        || other == 0x10u8) && other != mask ==> ((b | mask) & mask != 0) && (((b | mask) & other
        != 0) == (b & other != 0))) by (bit_vector);
}

/// WiFi operation mode. Only `SoftAp` is supported so far; the others are defined for
/// protocol compliance.
#[derive(Debug, Clone, Copy, PartialEq, Eq, Structural)]
pub enum WifiOpmode {
    Null,
    Sta,
    SoftAp,
    StaSoftAp,
}

impl WifiOpmode {
    /// The byte that stands for this mode.
    pub open spec fn value(self) -> u8 {
        match self {
            WifiOpmode::Null => 0x00,
            WifiOpmode::Sta => 0x01,
            WifiOpmode::SoftAp => 0x02,
            WifiOpmode::StaSoftAp => 0x03,
        }
    }

    /// The mode a byte stands for: bytes `0x00..=0x03`; anything else is an error.
    pub fn try_from(value: u8) -> (res: Result<Self, ()>)
        ensures
            res is Ok <==> value <= 0x03,
            res matches Ok(m) ==> m.value() == value,
    {
        match value {
            0x00 => Ok(WifiOpmode::Null),
            0x01 => Ok(WifiOpmode::Sta),
            0x02 => Ok(WifiOpmode::SoftAp),
            0x03 => Ok(WifiOpmode::StaSoftAp),
            _ => Err(()),
        }
    }

    /// Whether the mode is implemented (only SoftAP).
    pub fn is_supported(&self) -> (b: bool)
        ensures
            b == (*self == WifiOpmode::SoftAp),
    {
        match self {
            WifiOpmode::SoftAp => true,
            _ => false,
        }
    }
}

/// WiFi authentication mode.
#[derive(Debug, Clone, Copy, PartialEq, Eq, Structural)]
pub enum WifiAuthMode {
    Open,
    Wep,
    WpaPsk,
    Wpa2Psk,
    WpaWpa2Psk,
}

impl WifiAuthMode {
    /// The byte that stands for this mode.
    pub open spec fn value(self) -> u8 {
        match self {
            WifiAuthMode::Open => 0x00,
            WifiAuthMode::Wep => 0x01,
            WifiAuthMode::WpaPsk => 0x02,
            WifiAuthMode::Wpa2Psk => 0x03,
            WifiAuthMode::WpaWpa2Psk => 0x04,
        }
    }

    /// The mode a byte stands for: bytes `0x00..=0x04`; anything else is an error.
    pub fn try_from(value: u8) -> (res: Result<Self, ()>)
        ensures
            res is Ok <==> value <= 0x04,
            res matches Ok(m) ==> m.value() == value,
    {
        match value {
            0x00 => Ok(WifiAuthMode::Open),
            0x01 => Ok(WifiAuthMode::Wep),
            0x02 => Ok(WifiAuthMode::WpaPsk),
            0x03 => Ok(WifiAuthMode::Wpa2Psk),
            0x04 => Ok(WifiAuthMode::WpaWpa2Psk),
            _ => Err(()),
        }
    }
}

/// WiFi connection state.
#[derive(Debug, Clone, Copy, PartialEq, Eq, Structural)]
pub enum WifiConnectionState {
    ConnectedWithIp,
    Disconnected,
    Connecting,
    ConnectedNoIp,
}

impl WifiConnectionState {
    /// The byte that stands for this state.
    pub open spec fn value(self) -> u8 {
        match self {
            WifiConnectionState::ConnectedWithIp => 0x00,
            WifiConnectionState::Disconnected => 0x01,
            WifiConnectionState::Connecting => 0x02,
            WifiConnectionState::ConnectedNoIp => 0x03,
        }
    }

    /// The state a byte stands for: bytes `0x00..=0x03`; anything else is an error.
    pub fn try_from(value: u8) -> (res: Result<Self, ()>)
        ensures
            res is Ok <==> value <= 0x03,
            res matches Ok(m) ==> m.value() == value,
    {
        match value {
            0x00 => Ok(WifiConnectionState::ConnectedWithIp),
            0x01 => Ok(WifiConnectionState::Disconnected),
            0x02 => Ok(WifiConnectionState::Connecting),
            0x03 => Ok(WifiConnectionState::ConnectedNoIp),
            _ => Err(()),
        }
    }
}

/// BluFi error codes.
#[derive(Debug, Clone, Copy, PartialEq, Eq, Structural)]
pub enum BlufiError {
    SequenceError,
    ChecksumError,
    DecryptError,
    EncryptError,
    InitSecurityError,
    DhMallocError,
    DhParamError,
    ReadParamError,
    MakePublicError,
    DataFormatError,
    CalculateMd5Error,
    WifiScanError,
}

impl BlufiError {
    /// The byte that stands for this error.
    pub open spec fn value(self) -> u8 {
        match self {
            BlufiError::SequenceError => 0x00,
            BlufiError::ChecksumError => 0x01,
            BlufiError::DecryptError => 0x02,
            BlufiError::EncryptError => 0x03,
            BlufiError::InitSecurityError => 0x04,
            BlufiError::DhMallocError => 0x05,
            BlufiError::DhParamError => 0x06,
            BlufiError::ReadParamError => 0x07,
            BlufiError::MakePublicError => 0x08,
            BlufiError::DataFormatError => 0x09,
            BlufiError::CalculateMd5Error => 0x0a,
            BlufiError::WifiScanError => 0x0b,
        }
    }

    /// The error a byte stands for: bytes `0x00..=0x0b`; anything else is an error.
    pub fn try_from(value: u8) -> (res: Result<Self, ()>)
        ensures
            res is Ok <==> value <= 0x0b,
            res matches Ok(m) ==> m.value() == value,
    {
        match value {
            0x00 => Ok(BlufiError::SequenceError),
            0x01 => Ok(BlufiError::ChecksumError),
            0x02 => Ok(BlufiError::DecryptError),
            0x03 => Ok(BlufiError::EncryptError),
            0x04 => Ok(BlufiError::InitSecurityError),
            0x05 => Ok(BlufiError::DhMallocError),
            0x06 => Ok(BlufiError::DhParamError),
            0x07 => Ok(BlufiError::ReadParamError),
            0x08 => Ok(BlufiError::MakePublicError),
            0x09 => Ok(BlufiError::DataFormatError),
            0x0a => Ok(BlufiError::CalculateMd5Error),
            0x0b => Ok(BlufiError::WifiScanError),
            _ => Err(()),
        }
    }
}

/// Reading back the byte of any mode, state or error gives it back.
pub proof fn law_blufi_enum_values_roundtrip(
    m: WifiOpmode,
    a: WifiAuthMode,
    s: WifiConnectionState,
    e: BlufiError,
)
    ensures
        m.value() <= 0x03,
        a.value() <= 0x04,
        s.value() <= 0x03,
        e.value() <= 0x0b,
        forall|n: WifiOpmode| n.value() == m.value() ==> n == m,
        forall|b: WifiAuthMode| b.value() == a.value() ==> b == a,
        forall|t: WifiConnectionState| t.value() == s.value() ==> t == s,
        forall|f: BlufiError| f.value() == e.value() ==> f == e,
{
}

/// Control frames (type `0b00`).
#[derive(Debug, Clone, PartialEq, Eq)]
pub enum ControlFrame {
    /// Acknowledges a received frame.
    Ack { acked_sequence: u8 },
    /// Security mode for later frames: upper four bits for control frames, lower four for
    /// data frames (`0b01` checksum, `0b10` encryption).
    SetSecurityMode { mode: u8 },
    /// WiFi operation mode; only SoftAP is supported.
    SetOpmode { opmode: WifiOpmode },
    ConnectWifi,
    DisconnectWifi,
    GetWifiStatus,
    /// Disconnects stations from the SoftAP.
    DisconnectSta { mac_addresses: Vec<[u8; 6]> },
    GetVersion,
    DisconnectBle,
    GetWifiList,
}

/// Data frames (type `0b01`).
#[derive(Debug, Clone, PartialEq, Eq)]
pub enum DataFrame {
    /// Key-exchange negotiation data.
    NegotiationData { data: Vec<u8> },
    StaBssid { bssid: [u8; 6] },
    StaSsid { ssid: String },
    StaPassword { password: String },
    SoftApSsid { ssid: String },
    SoftApPassword { password: String },
    /// Maximum number of stations of the SoftAP (1-4).
    SoftApMaxConnNum { max_conn: u8 },
    SoftApAuthMode { auth_mode: WifiAuthMode },
    /// SoftAP channel (1-14).
    SoftApChannel { channel: u8 },
    Username { username: String },
    CaCert { cert: Vec<u8> },
    ClientCert { cert: Vec<u8> },
    ServerCert { cert: Vec<u8> },
    ClientPrivateKey { key: Vec<u8> },
    ServerPrivateKey { key: Vec<u8> },
    WifiConnectionState {
        opmode: WifiOpmode,
        sta_connection_state: WifiConnectionState,
        softap_connection_count: u8,
        extra_info: Vec<u8>,
    },
    Version { major: u8, minor: u8 },
    /// Scan results as (RSSI, SSID).
    WifiList { ssid_list: Vec<(i8, String)> },
    Error { error: BlufiError },
    CustomData { data: Vec<u8> },
    MaxWifiReconnectTime { max_time: u8 },
    WifiConnectionEndReason { reason: u8 },
    /// RSSI at the end of a WiFi connection (-128 when unknown).
    WifiConnectionEndRssi { rssi: i8 },
}

/// A complete BluFi message with its frame metadata.
#[derive(Debug, Clone, PartialEq, Eq)]
pub struct BlufiMessage {
    pub frame_control: FrameControl,
    pub sequence: u8,
    pub payload: BlufiPayload,
}

/// The payload of a frame: a control frame or a data frame.
#[derive(Debug, Clone, PartialEq, Eq)]
pub enum BlufiPayload {
    Control(ControlFrame),
    Data(DataFrame),
}

/// Subtype number of a control frame.
pub open spec fn control_subtype(c: ControlFrame) -> u8 {
    match c {
        ControlFrame::Ack { .. } => 0x00,
        ControlFrame::SetSecurityMode { .. } => 0x01,
        ControlFrame::SetOpmode { .. } => 0x02,
        ControlFrame::ConnectWifi => 0x03,
        ControlFrame::DisconnectWifi => 0x04,
        ControlFrame::GetWifiStatus => 0x05,
        ControlFrame::DisconnectSta { .. } => 0x06,
        ControlFrame::GetVersion => 0x07,
        ControlFrame::DisconnectBle => 0x08,
        ControlFrame::GetWifiList => 0x09,
    }
}

/// Subtype number of a data frame.
pub open spec fn data_subtype(d: DataFrame) -> u8 {
    match d {
        DataFrame::NegotiationData { .. } => 0x00,
        DataFrame::StaBssid { .. } => 0x01,
        DataFrame::StaSsid { .. } => 0x02,
        DataFrame::StaPassword { .. } => 0x03,
        DataFrame::SoftApSsid { .. } => 0x04,
        DataFrame::SoftApPassword { .. } => 0x05,
        DataFrame::SoftApMaxConnNum { .. } => 0x06,
        DataFrame::SoftApAuthMode { .. } => 0x07,
        DataFrame::SoftApChannel { .. } => 0x08,
        DataFrame::Username { .. } => 0x09,
        DataFrame::CaCert { .. } => 0x0a,
        DataFrame::ClientCert { .. } => 0x0b,
        DataFrame::ServerCert { .. } => 0x0c,
        DataFrame::ClientPrivateKey { .. } => 0x0d,
        DataFrame::ServerPrivateKey { .. } => 0x0e,
        DataFrame::WifiConnectionState { .. } => 0x0f,
        DataFrame::Version { .. } => 0x10,
        DataFrame::WifiList { .. } => 0x11,
        DataFrame::Error { .. } => 0x12,
        DataFrame::CustomData { .. } => 0x13,
        DataFrame::MaxWifiReconnectTime { .. } => 0x14,
        DataFrame::WifiConnectionEndReason { .. } => 0x15,
        DataFrame::WifiConnectionEndRssi { .. } => 0x16,
    }
}

/// The type byte of a payload: subtype times four, plus one for data frames.
pub open spec fn payload_type_byte(p: BlufiPayload) -> u8 {
    match p {
        BlufiPayload::Control(c) => (control_subtype(c) * 4) as u8,
        BlufiPayload::Data(d) => (data_subtype(d) * 4 + 1) as u8,
    }
}

impl BlufiMessage {
    pub fn new_control(frame_control: FrameControl, sequence: u8, control: ControlFrame) -> (m:
        Self)
        ensures
            m.frame_control == frame_control,
            m.sequence == sequence,
            m.payload == BlufiPayload::Control(control),
    {
        Self { frame_control, sequence, payload: BlufiPayload::Control(control) }
    }

    pub fn new_data(frame_control: FrameControl, sequence: u8, data: DataFrame) -> (m: Self)
        ensures
            m.frame_control == frame_control,
            m.sequence == sequence,
            m.payload == BlufiPayload::Data(data),
    {
        Self { frame_control, sequence, payload: BlufiPayload::Data(data) }
    }

    /// The type byte of this message: the subtype in bits 2-7, the frame type in bits 0-1.
    pub fn type_byte(&self) -> (b: u8)
        ensures
            b == payload_type_byte(self.payload),
    {
        match &self.payload {
            BlufiPayload::Control(ctrl) => {
                let subtype: u8 = match ctrl {
                    ControlFrame::Ack { .. } => 0x00,
                    ControlFrame::SetSecurityMode { .. } => 0x01,
                    ControlFrame::SetOpmode { .. } => 0x02,
                    ControlFrame::ConnectWifi => 0x03,
                    ControlFrame::DisconnectWifi => 0x04,
                    ControlFrame::GetWifiStatus => 0x05,
                    ControlFrame::DisconnectSta { .. } => 0x06,
                    ControlFrame::GetVersion => 0x07,
                    ControlFrame::DisconnectBle => 0x08,
                    ControlFrame::GetWifiList => 0x09,
                };
                assert(subtype <= 0x09 ==> subtype << 2u8 == subtype * 4) by (bit_vector);
                subtype << 2u8
            },
            BlufiPayload::Data(data) => {
                let subtype: u8 = match data {
                    DataFrame::NegotiationData { .. } => 0x00,
                    DataFrame::StaBssid { .. } => 0x01,
                    DataFrame::StaSsid { .. } => 0x02,
                    DataFrame::StaPassword { .. } => 0x03,
                    DataFrame::SoftApSsid { .. } => 0x04,
                    DataFrame::SoftApPassword { .. } => 0x05,
                    DataFrame::SoftApMaxConnNum { .. } => 0x06,
                    DataFrame::SoftApAuthMode { .. } => 0x07,
                    DataFrame::SoftApChannel { .. } => 0x08,
                    DataFrame::Username { .. } => 0x09,
                    DataFrame::CaCert { .. } => 0x0a,
                    DataFrame::ClientCert { .. } => 0x0b,
                    DataFrame::ServerCert { .. } => 0x0c,
                    DataFrame::ClientPrivateKey { .. } => 0x0d,
                    DataFrame::ServerPrivateKey { .. } => 0x0e,
                    DataFrame::WifiConnectionState { .. } => 0x0f,
                    DataFrame::Version { .. } => 0x10,
                    DataFrame::WifiList { .. } => 0x11,
                    DataFrame::Error { .. } => 0x12,
                    DataFrame::CustomData { .. } => 0x13,
                    DataFrame::MaxWifiReconnectTime { .. } => 0x14,
                    DataFrame::WifiConnectionEndReason { .. } => 0x15,
                    DataFrame::WifiConnectionEndRssi { .. } => 0x16,
                };
                assert(subtype <= 0x16 ==> (subtype << 2u8) | 0b01u8 == subtype * 4 + 1) by (
                bit_vector);
                (subtype << 2u8) | 0b01u8
            },
        }
    }
}

/// The type byte tells control frames (low bits `0b00`) from data frames (low bits `0b01`),
/// and its upper six bits give back the subtype.
pub proof fn law_type_byte_decodes(p: BlufiPayload)
    ensures
        payload_type_byte(p) % 4 == (if p is Control {
            0int
        } else {
            1int
        }),
        payload_type_byte(p) / 4 == (match p {
            BlufiPayload::Control(c) => control_subtype(c),
            BlufiPayload::Data(d) => data_subtype(d),
        }),
{
}

/// The type byte of each kind of frame is its fixed BluFi number: the control subtypes 0x00
/// (ack) to 0x09 (WiFi list) shifted left by two, and the data subtypes 0x00 (negotiation
/// data), 0x01 (station BSSID), 0x02 (station SSID), 0x03 (station password) up to 0x16 (RSSI
/// at the end of a connection) shifted left by two with the low bits `0b01`.
pub proof fn law_type_byte_values(p: BlufiPayload)
    ensures
        (p matches BlufiPayload::Control(ControlFrame::Ack { .. })) ==> payload_type_byte(p) == 0x00,
        (p matches BlufiPayload::Control(ControlFrame::SetSecurityMode { .. })) ==> payload_type_byte(p) == 0x04,
        (p matches BlufiPayload::Control(ControlFrame::SetOpmode { .. })) ==> payload_type_byte(p) == 0x08,
        (p matches BlufiPayload::Control(ControlFrame::ConnectWifi)) ==> payload_type_byte(p) == 0x0c,
        (p matches BlufiPayload::Control(ControlFrame::DisconnectWifi)) ==> payload_type_byte(p) == 0x10,
        (p matches BlufiPayload::Control(ControlFrame::GetWifiStatus)) ==> payload_type_byte(p) == 0x14,
        (p matches BlufiPayload::Control(ControlFrame::DisconnectSta { .. })) ==> payload_type_byte(p) == 0x18,
        (p matches BlufiPayload::Control(ControlFrame::GetVersion)) ==> payload_type_byte(p) == 0x1c,
        (p matches BlufiPayload::Control(ControlFrame::DisconnectBle)) ==> payload_type_byte(p) == 0x20,
        (p matches BlufiPayload::Control(ControlFrame::GetWifiList)) ==> payload_type_byte(p) == 0x24,
        (p matches BlufiPayload::Data(DataFrame::NegotiationData { .. })) ==> payload_type_byte(p) == 0x01,
        (p matches BlufiPayload::Data(DataFrame::StaBssid { .. })) ==> payload_type_byte(p) == 0x05,
        (p matches BlufiPayload::Data(DataFrame::StaSsid { .. })) ==> payload_type_byte(p) == 0x09,
        (p matches BlufiPayload::Data(DataFrame::StaPassword { .. })) ==> payload_type_byte(p) == 0x0d,
        (p matches BlufiPayload::Data(DataFrame::SoftApSsid { .. })) ==> payload_type_byte(p) == 0x11,
        (p matches BlufiPayload::Data(DataFrame::SoftApPassword { .. })) ==> payload_type_byte(p) == 0x15,
        (p matches BlufiPayload::Data(DataFrame::SoftApMaxConnNum { .. })) ==> payload_type_byte(p) == 0x19,
        (p matches BlufiPayload::Data(DataFrame::SoftApAuthMode { .. })) ==> payload_type_byte(p) == 0x1d,
        (p matches BlufiPayload::Data(DataFrame::SoftApChannel { .. })) ==> payload_type_byte(p) == 0x21,
        (p matches BlufiPayload::Data(DataFrame::Username { .. })) ==> payload_type_byte(p) == 0x25,
        (p matches BlufiPayload::Data(DataFrame::CaCert { .. })) ==> payload_type_byte(p) == 0x29,
        (p matches BlufiPayload::Data(DataFrame::ClientCert { .. })) ==> payload_type_byte(p) == 0x2d,
        (p matches BlufiPayload::Data(DataFrame::ServerCert { .. })) ==> payload_type_byte(p) == 0x31,
        (p matches BlufiPayload::Data(DataFrame::ClientPrivateKey { .. })) ==> payload_type_byte(p) == 0x35,
        (p matches BlufiPayload::Data(DataFrame::ServerPrivateKey { .. })) ==> payload_type_byte(p) == 0x39,
        (p matches BlufiPayload::Data(DataFrame::WifiConnectionState { .. })) ==> payload_type_byte(p) == 0x3d,
        (p matches BlufiPayload::Data(DataFrame::Version { .. })) ==> payload_type_byte(p) == 0x41,
        (p matches BlufiPayload::Data(DataFrame::WifiList { .. })) ==> payload_type_byte(p) == 0x45,
        (p matches BlufiPayload::Data(DataFrame::Error { .. })) ==> payload_type_byte(p) == 0x49,
        (p matches BlufiPayload::Data(DataFrame::CustomData { .. })) ==> payload_type_byte(p) == 0x4d,
        (p matches BlufiPayload::Data(DataFrame::MaxWifiReconnectTime { .. })) ==> payload_type_byte(p) == 0x51,
        (p matches BlufiPayload::Data(DataFrame::WifiConnectionEndReason { .. })) ==> payload_type_byte(p) == 0x55,
        (p matches BlufiPayload::Data(DataFrame::WifiConnectionEndRssi { .. })) ==> payload_type_byte(p) == 0x59,
{
}

/// The byte of each WiFi operation mode is fixed: null 0x00, station 0x01, SoftAP 0x02, both 0x03.
pub proof fn law_wifi_opmode_values(m: WifiOpmode)
    ensures
        m == WifiOpmode::Null ==> m.value() == 0x00,
        m == WifiOpmode::Sta ==> m.value() == 0x01,
        m == WifiOpmode::SoftAp ==> m.value() == 0x02,
        m == WifiOpmode::StaSoftAp ==> m.value() == 0x03,
{
}

/// The byte of each WiFi authentication mode is fixed, from open 0x00 to WPA/WPA2-PSK 0x04.
pub proof fn law_wifi_auth_mode_values(m: WifiAuthMode)
    ensures
        m == WifiAuthMode::Open ==> m.value() == 0x00,
        m == WifiAuthMode::Wep ==> m.value() == 0x01,
        m == WifiAuthMode::WpaPsk ==> m.value() == 0x02,
        m == WifiAuthMode::Wpa2Psk ==> m.value() == 0x03,
        m == WifiAuthMode::WpaWpa2Psk ==> m.value() == 0x04,
{
}

/// The byte of each WiFi connection state is fixed, from connected with an address 0x00 to connected without one 0x03.
pub proof fn law_wifi_connection_state_values(c: WifiConnectionState)
    ensures
        c == WifiConnectionState::ConnectedWithIp ==> c.value() == 0x00,
        c == WifiConnectionState::Disconnected ==> c.value() == 0x01,
        c == WifiConnectionState::Connecting ==> c.value() == 0x02,
        c == WifiConnectionState::ConnectedNoIp ==> c.value() == 0x03,
{
}

/// The byte of each BluFi error is fixed, from a sequence error 0x00 to a WiFi scan error 0x0b.
pub proof fn law_blufi_error_values(e: BlufiError)
    ensures
        e == BlufiError::SequenceError ==> e.value() == 0x00,
        e == BlufiError::ChecksumError ==> e.value() == 0x01,
        e == BlufiError::DecryptError ==> e.value() == 0x02,
        e == BlufiError::EncryptError ==> e.value() == 0x03,
        e == BlufiError::InitSecurityError ==> e.value() == 0x04,
        e == BlufiError::DhMallocError ==> e.value() == 0x05,
        e == BlufiError::DhParamError ==> e.value() == 0x06,
        e == BlufiError::ReadParamError ==> e.value() == 0x07,
        e == BlufiError::MakePublicError ==> e.value() == 0x08,
        e == BlufiError::DataFormatError ==> e.value() == 0x09,
        e == BlufiError::CalculateMd5Error ==> e.value() == 0x0a,
        e == BlufiError::WifiScanError ==> e.value() == 0x0b,
{
}

} // verus!
