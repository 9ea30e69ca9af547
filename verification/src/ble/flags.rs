use vstd::prelude::*;
use crate::ble::packet::{Depacketize, Packetize};

verus! {

/// Capabilities a device reports to the client, one bit each; the set travels as one byte.
#[derive(Debug, Clone, Copy, PartialEq, Eq, Hash, Structural)]
pub struct DeviceCapabilities {
    bits: u8,
}

impl DeviceCapabilities {
    /// Capability to unlock the entrance it guards.
    pub const UNLOCK_GATE: u8 = 0b0000_0001;
    /// Capability to provide environmental data.
    pub const ENVIRONMENTAL_DATA: u8 = 0b0000_0010;
    /// Capability to report battery status.
    pub const BATTERY_STATUS: u8 = 0b0000_0100;
    /// Capability to perform RSSI calibration.
    pub const RSSI_CALIBRATION: u8 = 0b0000_1000;
    /// Capability to control a robot.
    pub const ROBOT_CONTROL: u8 = 0b0001_0000;

    pub closed spec fn spec_bits(self) -> u8 {
        self.bits
    }

    pub fn bits(&self) -> (b: u8)
        ensures
            b == self.spec_bits(),
    {
        self.bits
    }

    /// The set with exactly the bits given, unknown bits included.
    pub fn from_bits_retain(bits: u8) -> (c: Self)
        ensures
            c.spec_bits() == bits,
    {
        Self { bits }
    }

}

impl Packetize for DeviceCapabilities {
    /// The single byte of the bits.
    open spec fn spec_packet(&self) -> Seq<u8> {
        seq![self.spec_bits()]
    }

    fn packetize(&self) -> (packet: Vec<u8>) {
        let mut v: Vec<u8> = Vec::new();
        v.push(self.bits);
        v
    }
}

impl Depacketize for DeviceCapabilities {
    /// Any non-empty packet; its first byte is read as the bits, unknown bits retained.
    open spec fn spec_accepts(packet: Seq<u8>) -> bool {
        packet.len() >= 1
    }

    open spec fn spec_reads(packet: Seq<u8>, value: Self) -> bool {
        value.spec_bits() == packet[0]
    }

    fn depacketize(packet: &[u8]) -> (res: Option<Self>) {
        if packet.len() == 0 {
            None
        } else {
            Some(Self::from_bits_retain(packet[0]))
        }
    }
}

/// The kinds of place a device serves, one bit each; the set travels as one byte.
#[derive(Debug, Clone, Copy, PartialEq, Eq, Hash, Structural)]
pub struct DeviceTypes {
    bits: u8,
}

impl DeviceTypes {
    pub const MERCHANT: u8 = 0b0000_0001;
    pub const HOSPITAL: u8 = 0b0000_0010;
    pub const CAMPUS: u8 = 0b0000_0100;
    pub const TRANSPORT: u8 = 0b0000_1000;

    pub closed spec fn spec_bits(self) -> u8 {
        self.bits
    }

    pub fn bits(&self) -> (b: u8)
        ensures
            b == self.spec_bits(),
    {
        self.bits
    }

    /// The set with exactly the bits given, unknown bits included.
    pub fn from_bits_retain(bits: u8) -> (t: Self)
        ensures
            t.spec_bits() == bits,
    {
        Self { bits }
    }

}

impl Packetize for DeviceTypes {
    /// The single byte of the bits.
    open spec fn spec_packet(&self) -> Seq<u8> {
        seq![self.spec_bits()]
    }

    fn packetize(&self) -> (packet: Vec<u8>) {
        let mut v: Vec<u8> = Vec::new();
        v.push(self.bits);
        v
    }
}

impl Depacketize for DeviceTypes {
    /// Any non-empty packet; its first byte is read as the bits, unknown bits retained.
    open spec fn spec_accepts(packet: Seq<u8>) -> bool {
        packet.len() >= 1
    }

    open spec fn spec_reads(packet: Seq<u8>, value: Self) -> bool {
        value.spec_bits() == packet[0]
    }

    fn depacketize(packet: &[u8]) -> (res: Option<Self>) {
        if packet.len() == 0 {
            None
        } else {
            Some(Self::from_bits_retain(packet[0]))
        }
    }
}

/// Depacketizing the packet of a capability set or a device-type set gives the same set.
pub proof fn law_flags_roundtrip(c: DeviceCapabilities, t: DeviceTypes, d: DeviceCapabilities, u: DeviceTypes)
    ensures
        DeviceCapabilities::spec_accepts(c.spec_packet()),
        DeviceCapabilities::spec_reads(c.spec_packet(), d) ==> d == c,
        DeviceTypes::spec_accepts(t.spec_packet()),
        DeviceTypes::spec_reads(t.spec_packet(), u) ==> u == t,
{
}

/// Each capability and each device type owns one fixed bit: unlocking bit 0, environmental
/// data bit 1, battery status bit 2, RSSI calibration bit 3, robot control bit 4; merchant
/// bit 0, hospital bit 1, campus bit 2, transport bit 3.
pub proof fn law_flag_bits()
    ensures
        DeviceCapabilities::UNLOCK_GATE == 1u8 << 0u8,
        DeviceCapabilities::ENVIRONMENTAL_DATA == 1u8 << 1u8,
        DeviceCapabilities::BATTERY_STATUS == 1u8 << 2u8,
        DeviceCapabilities::RSSI_CALIBRATION == 1u8 << 3u8,
        DeviceCapabilities::ROBOT_CONTROL == 1u8 << 4u8,
        DeviceTypes::MERCHANT == 1u8 << 0u8,
        DeviceTypes::HOSPITAL == 1u8 << 1u8,
        DeviceTypes::CAMPUS == 1u8 << 2u8,
        DeviceTypes::TRANSPORT == 1u8 << 3u8,
{
    assert(1u8 << 0u8 == 1u8 && 1u8 << 1u8 == 2u8 && 1u8 << 2u8 == 4u8 && 1u8 << 3u8 == 8u8 && 1u8 << 4u8 == 16u8) by (bit_vector);
}

} // verus!
