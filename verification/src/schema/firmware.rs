//! Beacon firmware artifacts: target chips and the upload and query records.
use vstd::prelude::*;
use crate::text::str_eq;

verus! {

/// The chip a firmware image is built for.
#[derive(Debug, Clone, Copy, PartialEq, Eq, Structural)]
pub enum FirmwareDevice {
    Esp32,
    Esp32C3,
    Esp32C5,
    Esp32C6,
    Esp32S3,
}

impl FirmwareDevice {
    /// The lowercase chip name under which the device is stored and addressed.
    pub open spec fn name(self) -> Seq<char> {
        match self {
            FirmwareDevice::Esp32 => "esp32"@,
            FirmwareDevice::Esp32C3 => "esp32c3"@,
            FirmwareDevice::Esp32C5 => "esp32c5"@,
            FirmwareDevice::Esp32C6 => "esp32c6"@,
            FirmwareDevice::Esp32S3 => "esp32s3"@,
        }
    }

    /// The device whose name is exactly `s`, if any.
    pub open spec fn from_name(s: Seq<char>) -> Option<FirmwareDevice> {
        if s == "esp32"@ {
            Some(FirmwareDevice::Esp32)
        } else if s == "esp32c3"@ {
            Some(FirmwareDevice::Esp32C3)
        } else if s == "esp32c5"@ {
            Some(FirmwareDevice::Esp32C5)
        } else if s == "esp32c6"@ {
            Some(FirmwareDevice::Esp32C6)
        } else if s == "esp32s3"@ {
            Some(FirmwareDevice::Esp32S3)
        } else {
            None
        }
    }

    /// The lowercase chip name.
    pub fn as_str(&self) -> (s: &'static str)
        ensures
            s@ == self.name(),
    {
        match self {
            FirmwareDevice::Esp32 => "esp32",
            FirmwareDevice::Esp32C3 => "esp32c3",
            FirmwareDevice::Esp32C5 => "esp32c5",
            FirmwareDevice::Esp32C6 => "esp32c6",
            FirmwareDevice::Esp32S3 => "esp32s3",
        }
    }

    /// Parses a lowercase chip name; any other text gives `None`.
    pub fn from_str(s: &str) -> (d: Option<Self>)
        ensures
            d == Self::from_name(s@),
    {
        if str_eq(s, "esp32") {
            Some(FirmwareDevice::Esp32)
        } else if str_eq(s, "esp32c3") {
            Some(FirmwareDevice::Esp32C3)
        } else if str_eq(s, "esp32c5") {
            Some(FirmwareDevice::Esp32C5)
        } else if str_eq(s, "esp32c6") {
            Some(FirmwareDevice::Esp32C6)
        } else if str_eq(s, "esp32s3") {
            Some(FirmwareDevice::Esp32S3)
        } else {
            None
        }
    }
}

/// Parsing the name of a device gives that device back, so no two devices share a name.
pub proof fn law_firmware_device_name_roundtrip(d: FirmwareDevice, e: FirmwareDevice)
    ensures
        FirmwareDevice::from_name(d.name()) == Some(d),
        d.name() == e.name() ==> d == e,
{
    reveal_strlit("esp32");
    reveal_strlit("esp32c3");
    reveal_strlit("esp32c5");
    reveal_strlit("esp32c6");
    reveal_strlit("esp32s3");
    assert("esp32"@.len() == 5 && "esp32c3"@.len() == 7);
    assert("esp32c3"@[6] == '3' && "esp32c5"@[6] == '5' && "esp32c6"@[6] == '6');
    assert("esp32c3"@[5] == 'c' && "esp32s3"@[5] == 's');
    assert("esp32c5"@[5] == 'c' && "esp32c6"@[5] == 'c' && "esp32s3"@.len() == 7);
}

/// A request to publish a new firmware image.
#[derive(Debug, Clone)]
pub struct FirmwareUploadRequest {
    pub version: String,
    pub device: FirmwareDevice,
    pub description: Option<String>,
    pub checksum: String,
    pub git_commit: Option<String>,
    pub release_notes: Option<String>,
}

/// The record returned once a firmware image is stored.
#[derive(Debug, Clone)]
pub struct FirmwareUploadResponse {
    pub id: String,
    pub version: String,
    pub device: FirmwareDevice,
    pub file_size: u64,
    pub checksum: String,
    pub created_at: i64,
}

/// Filters for listing firmware images.
#[derive(Debug, Clone)]
pub struct FirmwareQuery {
    pub device: Option<FirmwareDevice>,
    pub version: Option<String>,
    pub latest_only: Option<bool>,
}

/// Each firmware device is stored under its fixed lowercase chip name.
pub proof fn law_firmware_device_names(d: FirmwareDevice)
    ensures
        d == FirmwareDevice::Esp32 ==> d.name() == "esp32"@,
        d == FirmwareDevice::Esp32C3 ==> d.name() == "esp32c3"@,
        d == FirmwareDevice::Esp32C5 ==> d.name() == "esp32c5"@,
        d == FirmwareDevice::Esp32C6 ==> d.name() == "esp32c6"@,
        d == FirmwareDevice::Esp32S3 ==> d.name() == "esp32s3"@,
{
}

} // verus!
