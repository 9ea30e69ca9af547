use vstd::prelude::*;

verus! {

/// A capability that a device can report to the client.
/// The capabilities of a device travel as one byte, one bit each.
#[derive(Debug, Clone, Copy, PartialEq, Eq, PartialOrd, Ord, Structural)]
pub enum DeviceCapability {
    UnlockGate,
    EnvironmentalData,
    RssiCalibration,
}

/// The byte whose bits are set exactly for the flags given:
/// bit 0 for unlocking, bit 1 for environmental data, bit 2 for RSSI calibration.
pub open spec fn capability_byte(unlock: bool, environmental: bool, rssi: bool) -> u8 {
    ((if unlock { 1u8 } else { 0u8 }) | (if environmental { 2u8 } else { 0u8 })) | (if rssi {
        4u8
    } else {
        0u8
    })
}

/// The capabilities named by a byte, in the order unlock, environmental data, RSSI calibration.
pub open spec fn capabilities_of_byte(byte: u8) -> Seq<DeviceCapability> {
    (if byte & 1 != 0 {
        seq![DeviceCapability::UnlockGate]
    } else {
        Seq::empty()
    }) + (if byte & 2 != 0 {
        seq![DeviceCapability::EnvironmentalData]
    } else {
        Seq::empty()
    }) + (if byte & 4 != 0 {
        seq![DeviceCapability::RssiCalibration]
    } else {
        Seq::empty()
    })
}

/// The byte that stands for a list of capabilities: each capability that occurs sets its bit.
pub open spec fn capabilities_byte(caps: Seq<DeviceCapability>) -> u8 {
    capability_byte(
        caps.contains(DeviceCapability::UnlockGate),
        caps.contains(DeviceCapability::EnvironmentalData),
        caps.contains(DeviceCapability::RssiCalibration),
    )
}

proof fn lemma_capability_byte_or(a: bool, b: bool, c: bool)
    ensures
        capability_byte(a, b, c) | 1u8 == capability_byte(true, b, c),
        capability_byte(a, b, c) | 2u8 == capability_byte(a, true, c),
        capability_byte(a, b, c) | 4u8 == capability_byte(a, b, true),
{
    let x: u8 = if a { 1u8 } else { 0u8 };
    let y: u8 = if b { 2u8 } else { 0u8 };
    let z: u8 = if c { 4u8 } else { 0u8 };
    assert((x == 0u8 || x == 1u8) && (y == 0u8 || y == 2u8) && (z == 0u8 || z == 4u8) ==> {
        &&& ((x | y) | z) | 1u8 == ((1u8 | y) | z)
        &&& ((x | y) | z) | 2u8 == ((x | 2u8) | z)
        &&& ((x | y) | z) | 4u8 == ((x | y) | 4u8)
    }) by (bit_vector);
}

impl DeviceCapability {
    /// The bit that stands for this capability.
    pub open spec fn bit(self) -> u8 {
        match self {
            DeviceCapability::UnlockGate => 0b0000_0001,
            DeviceCapability::EnvironmentalData => 0b0000_0010,
            DeviceCapability::RssiCalibration => 0b0000_0100,
        }
    }

    /// The bit that stands for this capability.
    pub fn bits(&self) -> (b: u8)
        ensures
            b == self.bit(),
    {
        match self {
            DeviceCapability::UnlockGate => 0b0000_0001,
            DeviceCapability::EnvironmentalData => 0b0000_0010,
            DeviceCapability::RssiCalibration => 0b0000_0100,
        }
    }

    /// Folds a list of capabilities into one byte by or-ing their bits.
    pub fn packetize(capabilities: &[DeviceCapability]) -> (byte: u8)
        ensures
            byte == capabilities_byte(capabilities@),
    {
        let mut acc: u8 = 0;
        let mut i: usize = 0;
        proof {
            assert(capabilities@.take(0) =~= Seq::<DeviceCapability>::empty());
            assert(capability_byte(false, false, false) == 0u8) by (bit_vector);
        }
        while i < capabilities.len()
            invariant
                i <= capabilities@.len(),
                acc == capabilities_byte(capabilities@.take(i as int)),
            decreases capabilities@.len() - i,
        {
            let cap = capabilities[i];
            let ghost pre = capabilities@.take(i as int);
            let ghost post = capabilities@.take(i + 1);
            proof {
                assert(post =~= pre.push(cap));
                lemma_capability_byte_or(
                    pre.contains(DeviceCapability::UnlockGate),
                    pre.contains(DeviceCapability::EnvironmentalData),
                    pre.contains(DeviceCapability::RssiCalibration),
                );
                assert(post[i as int] == cap);
                assert(post.contains(cap));
                assert forall|c: DeviceCapability| c != cap implies (post.contains(c)
                    == pre.contains(c)) by {
                    if post.contains(c) {
                        let k = choose|k: int| 0 <= k < post.len() && post[k] == c;
                        assert(pre[k] == c);
                    }
                    if pre.contains(c) {
                        let k = choose|k: int| 0 <= k < pre.len() && pre[k] == c;
                        assert(post[k] == c);
                    }
                }
            }
            acc = acc | cap.bits();
            i = i + 1;
        }
        proof {
            assert(capabilities@.take(capabilities@.len() as int) =~= capabilities@);
        }
        acc
    }

    /// The capabilities whose bits are set in a byte; other bits are ignored.
    pub fn depacketize(byte: u8) -> (caps: Vec<DeviceCapability>)
        ensures
            caps@ == capabilities_of_byte(byte),
    {
        let mut capabilities = Vec::new();
        if byte & 0b0000_0001 != 0 {
            capabilities.push(DeviceCapability::UnlockGate);
        }
        if byte & 0b0000_0010 != 0 {
            capabilities.push(DeviceCapability::EnvironmentalData);
        }
        if byte & 0b0000_0100 != 0 {
            capabilities.push(DeviceCapability::RssiCalibration);
        }
        proof {
            assert(capabilities@ =~= capabilities_of_byte(byte));
        }
        capabilities
    }
}

/// Kind of beacon a device reports itself as.
#[derive(Debug, Clone, Copy, PartialEq, Eq, Structural)]
pub enum DeviceType {
    Merchant,
    Pathway,
    Connection,
    Turnstile,
}

impl DeviceType {
    /// The byte that stands for this device type on the wire.
    pub open spec fn code(self) -> u8 {
        match self {
            DeviceType::Merchant => 0x01,
            DeviceType::Pathway => 0x02,
            DeviceType::Connection => 0x03,
            DeviceType::Turnstile => 0x04,
        }
    }

    /// The device type a byte stands for, if any.
    pub open spec fn from_code(byte: u8) -> Option<DeviceType> {
        if byte == 0x01 {
            Some(DeviceType::Merchant)
        } else if byte == 0x02 {
            Some(DeviceType::Pathway)
        } else if byte == 0x03 {
            Some(DeviceType::Connection)
        } else if byte == 0x04 {
            Some(DeviceType::Turnstile)
        } else {
            None
        }
    }

    pub fn packetize(&self) -> (byte: u8)
        ensures
            byte == self.code(),
    {
        match self {
            DeviceType::Merchant => 0x01,
            DeviceType::Pathway => 0x02,
            DeviceType::Connection => 0x03,
            DeviceType::Turnstile => 0x04,
        }
    }

    pub fn depacketize(byte: u8) -> (res: Option<Self>)
        ensures
            res == Self::from_code(byte),
    {
        match byte {
            0x01 => Some(DeviceType::Merchant),
            0x02 => Some(DeviceType::Pathway),
            0x03 => Some(DeviceType::Connection),
            0x04 => Some(DeviceType::Turnstile),
            _ => None,
        }
    }
}

/// Why the beacon refused (or could not check) an unlock request.
#[derive(Debug, Clone, Copy, PartialEq, Eq, Structural)]
pub enum CryptoError {
    InvalidSignature,
    InvalidKey,
    InvalidNonce,
    VerificationFailed,
    BufferFull,
    RateLimited,
    ReplayDetected,
    ServerPublicKeyNotSet,
}

impl CryptoError {
    /// The byte that stands for this error on the wire.
    pub open spec fn code(self) -> u8 {
        match self {
            CryptoError::InvalidSignature => 0x01,
            CryptoError::InvalidKey => 0x02,
            CryptoError::InvalidNonce => 0x03,
            CryptoError::VerificationFailed => 0x04,
            CryptoError::BufferFull => 0x05,
            CryptoError::RateLimited => 0x06,
            CryptoError::ReplayDetected => 0x07,
            CryptoError::ServerPublicKeyNotSet => 0x08,
        }
    }

    /// The error a byte stands for, if any.
    pub open spec fn from_code(code: u8) -> Option<CryptoError> {
        if code == 0x01 {
            Some(CryptoError::InvalidSignature)
        } else if code == 0x02 {
            Some(CryptoError::InvalidKey)
        } else if code == 0x03 {
            Some(CryptoError::InvalidNonce)
        } else if code == 0x04 {
            Some(CryptoError::VerificationFailed)
        } else if code == 0x05 {
            Some(CryptoError::BufferFull)
        } else if code == 0x06 {
            Some(CryptoError::RateLimited)
        } else if code == 0x07 {
            Some(CryptoError::ReplayDetected)
        } else if code == 0x08 {
            Some(CryptoError::ServerPublicKeyNotSet)
        } else {
            None
        }
    }

    pub fn packetize(&self) -> (code: u8)
        ensures
            code == self.code(),
    {
        match self {
            CryptoError::InvalidSignature => 0x01,
            CryptoError::InvalidKey => 0x02,
            CryptoError::InvalidNonce => 0x03,
            CryptoError::VerificationFailed => 0x04,
            CryptoError::BufferFull => 0x05,
            CryptoError::RateLimited => 0x06,
            CryptoError::ReplayDetected => 0x07,
            CryptoError::ServerPublicKeyNotSet => 0x08,
        }
    }

    pub fn depacketize(code: u8) -> (res: Option<Self>)
        ensures
            res == Self::from_code(code),
    {
        match code {
            0x01 => Some(CryptoError::InvalidSignature),
            0x02 => Some(CryptoError::InvalidKey),
            0x03 => Some(CryptoError::InvalidNonce),
            0x04 => Some(CryptoError::VerificationFailed),
            0x05 => Some(CryptoError::BufferFull),
            0x06 => Some(CryptoError::RateLimited),
            0x07 => Some(CryptoError::ReplayDetected),
            0x08 => Some(CryptoError::ServerPublicKeyNotSet),
            _ => None,
        }
    }
}

/// The device type of a byte is the one whose code is that byte, and every code reads back.
pub proof fn law_device_type_code_roundtrip(t: DeviceType, byte: u8)
    ensures
        DeviceType::from_code(t.code()) == Some(t),
        DeviceType::from_code(byte) matches Some(u) ==> u.code() == byte,
{
}

/// The error of a byte is the one whose code is that byte, and every code reads back.
pub proof fn law_crypto_error_code_roundtrip(e: CryptoError, code: u8)
    ensures
        CryptoError::from_code(e.code()) == Some(e),
        CryptoError::from_code(code) matches Some(f) ==> f.code() == code,
{
}

/// Folding a list of capabilities into a byte and reading it back keeps exactly the
/// capabilities that occur in the list, each once, in bit order.
pub proof fn law_capabilities_roundtrip(caps: Seq<DeviceCapability>)
    ensures
        capabilities_of_byte(capabilities_byte(caps)) == (if caps.contains(
            DeviceCapability::UnlockGate,
        ) {
            seq![DeviceCapability::UnlockGate]
        } else {
            Seq::empty()
        }) + (if caps.contains(DeviceCapability::EnvironmentalData) {
            seq![DeviceCapability::EnvironmentalData]
        } else {
            Seq::empty()
        }) + (if caps.contains(DeviceCapability::RssiCalibration) {
            seq![DeviceCapability::RssiCalibration]
        } else {
            Seq::empty()
        }),
{
    let a = caps.contains(DeviceCapability::UnlockGate);
    let b = caps.contains(DeviceCapability::EnvironmentalData);
    let c = caps.contains(DeviceCapability::RssiCalibration);
    let x = capability_byte(a, b, c);
    assert(((x & 1 != 0) == a && (x & 2 != 0) == b && (x & 4 != 0) == c)) by {
        let p: u8 = if a { 1u8 } else { 0u8 };
        let q: u8 = if b { 2u8 } else { 0u8 };
        let r: u8 = if c { 4u8 } else { 0u8 };
        assert((p == 0u8 || p == 1u8) && (q == 0u8 || q == 2u8) && (r == 0u8 || r == 4u8) ==> {
            &&& ((((p | q) | r) & 1u8 != 0) == (p == 1u8))
            &&& ((((p | q) | r) & 2u8 != 0) == (q == 2u8))
            &&& ((((p | q) | r) & 4u8 != 0) == (r == 4u8))
        }) by (bit_vector);
    }
}

/// The wire code of each device type is fixed: merchant 0x01, pathway 0x02, connection 0x03,
/// turnstile 0x04; and a byte reads as a device type exactly when it is that type's code.
pub proof fn law_device_type_codes(t: DeviceType, byte: u8)
    ensures
        t == DeviceType::Merchant ==> t.code() == 0x01,
        t == DeviceType::Pathway ==> t.code() == 0x02,
        t == DeviceType::Connection ==> t.code() == 0x03,
        t == DeviceType::Turnstile ==> t.code() == 0x04,
        (DeviceType::from_code(byte) == Some(DeviceType::Merchant)) <==> byte == 0x01,
        (DeviceType::from_code(byte) == Some(DeviceType::Pathway)) <==> byte == 0x02,
        (DeviceType::from_code(byte) == Some(DeviceType::Connection)) <==> byte == 0x03,
        (DeviceType::from_code(byte) == Some(DeviceType::Turnstile)) <==> byte == 0x04,
        DeviceType::from_code(byte) is None <==> (byte == 0 || byte > 4),
{
}

/// The wire code of each unlock error is fixed, from 0x01 for an invalid signature to 0x08
/// for a server key that was never set; and a byte reads as an error exactly when it is that
/// error's code.
pub proof fn law_crypto_error_codes(e: CryptoError, code: u8)
    ensures
        e == CryptoError::InvalidSignature ==> e.code() == 0x01,
        e == CryptoError::InvalidKey ==> e.code() == 0x02,
        e == CryptoError::InvalidNonce ==> e.code() == 0x03,
        e == CryptoError::VerificationFailed ==> e.code() == 0x04,
        e == CryptoError::BufferFull ==> e.code() == 0x05,
        e == CryptoError::RateLimited ==> e.code() == 0x06,
        e == CryptoError::ReplayDetected ==> e.code() == 0x07,
        e == CryptoError::ServerPublicKeyNotSet ==> e.code() == 0x08,
        (CryptoError::from_code(code) == Some(CryptoError::InvalidSignature)) <==> code == 0x01,
        (CryptoError::from_code(code) == Some(CryptoError::InvalidKey)) <==> code == 0x02,
        (CryptoError::from_code(code) == Some(CryptoError::InvalidNonce)) <==> code == 0x03,
        (CryptoError::from_code(code) == Some(CryptoError::VerificationFailed)) <==> code == 0x04,
        (CryptoError::from_code(code) == Some(CryptoError::BufferFull)) <==> code == 0x05,
        (CryptoError::from_code(code) == Some(CryptoError::RateLimited)) <==> code == 0x06,
        (CryptoError::from_code(code) == Some(CryptoError::ReplayDetected)) <==> code == 0x07,
        (CryptoError::from_code(code) == Some(CryptoError::ServerPublicKeyNotSet)) <==> code == 0x08,
        CryptoError::from_code(code) is None <==> (code == 0 || code > 8),
{
}

/// Each capability owns a fixed bit: unlocking bit 0, environmental data bit 1, RSSI
/// calibration bit 2. The byte of a list has exactly the bits of the capabilities in it, and
/// a byte names a capability exactly when its bit is set.
pub proof fn law_capability_bits(caps: Seq<DeviceCapability>, byte: u8)
    ensures
        DeviceCapability::UnlockGate.bit() == 1,
        DeviceCapability::EnvironmentalData.bit() == 2,
        DeviceCapability::RssiCalibration.bit() == 4,
        (capabilities_byte(caps) & 1 != 0) <==> caps.contains(DeviceCapability::UnlockGate),
        (capabilities_byte(caps) & 2 != 0) <==> caps.contains(DeviceCapability::EnvironmentalData),
        (capabilities_byte(caps) & 4 != 0) <==> caps.contains(DeviceCapability::RssiCalibration),
        capabilities_byte(caps) & 0xf8 == 0,
        capabilities_of_byte(byte).contains(DeviceCapability::UnlockGate) <==> byte & 1 != 0,
        capabilities_of_byte(byte).contains(DeviceCapability::EnvironmentalData) <==> byte & 2 != 0,
        capabilities_of_byte(byte).contains(DeviceCapability::RssiCalibration) <==> byte & 4 != 0,
{
    let a = caps.contains(DeviceCapability::UnlockGate);
    let b = caps.contains(DeviceCapability::EnvironmentalData);
    let c = caps.contains(DeviceCapability::RssiCalibration);
    let x: u8 = if a { 1u8 } else { 0u8 };
    let y: u8 = if b { 2u8 } else { 0u8 };
    let z: u8 = if c { 4u8 } else { 0u8 };
    assert((x == 0u8 || x == 1u8) && (y == 0u8 || y == 2u8) && (z == 0u8 || z == 4u8) ==> {
        &&& (((x | y) | z) & 1u8 != 0u8) == (x == 1u8)
        &&& (((x | y) | z) & 2u8 != 0u8) == (y == 2u8)
        &&& (((x | y) | z) & 4u8 != 0u8) == (z == 4u8)
        &&& ((x | y) | z) & 0xf8u8 == 0u8
    }) by (bit_vector);
    let u = DeviceCapability::UnlockGate;
    let e = DeviceCapability::EnvironmentalData;
    let r = DeviceCapability::RssiCalibration;
    let s1: Seq<DeviceCapability> = if byte & 1 != 0 { seq![u] } else { Seq::empty() };
    let s2: Seq<DeviceCapability> = if byte & 2 != 0 { seq![e] } else { Seq::empty() };
    let s3: Seq<DeviceCapability> = if byte & 4 != 0 { seq![r] } else { Seq::empty() };
    let all = s1 + s2 + s3;
    assert(all == capabilities_of_byte(byte));
    assert forall|d: DeviceCapability| all.contains(d) <==> (s1.contains(d) || s2.contains(d) || s3.contains(d)) by {
        if all.contains(d) {
            let k = choose|k: int| 0 <= k < all.len() && all[k] == d;
            if k < s1.len() {
                assert(s1[k] == d);
            } else if k < s1.len() + s2.len() {
                assert(s2[k - s1.len()] == d);
            } else {
                assert(s3[k - s1.len() - s2.len()] == d);
            }
        }
        if s1.contains(d) {
            let k = choose|k: int| 0 <= k < s1.len() && s1[k] == d;
            assert(all[k] == d);
        }
        if s2.contains(d) {
            let k = choose|k: int| 0 <= k < s2.len() && s2[k] == d;
            assert(all[s1.len() + k] == d);
        }
        if s3.contains(d) {
            let k = choose|k: int| 0 <= k < s3.len() && s3[k] == d;
            assert(all[s1.len() + s2.len() + k] == d);
        }
    }
    if byte & 1 != 0 {
        assert(s1[0] == u);
    }
    if byte & 2 != 0 {
        assert(s2[0] == e);
    }
    if byte & 4 != 0 {
        assert(s3[0] == r);
    }
}

} // verus!
