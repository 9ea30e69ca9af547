//! Sorting out what a Bluetooth scan found: which devices are navigation beacons, which of
//! them are still unknown, and in which order to ask them who they are.
use vstd::prelude::*;
use vstd::string::StringExecFns;
use crate::text::str_eq;

verus! {

/// Why a Bluetooth scan gave nothing.
#[derive(Debug, Clone, PartialEq)]
pub enum ScanError {
    NotInitialized,
    CannotStartScan,
    ScanFailed(String),
    NoDevicesFound,
}

impl ScanError {
    /// The sentence shown to a user.
    pub open spec fn message(&self) -> Seq<char> {
        match self {
            ScanError::NotInitialized => "BLE not initialized"@,
            ScanError::CannotStartScan => "Cannot start scan"@,
            ScanError::ScanFailed(err) => "Scan failed: "@ + err@,
            ScanError::NoDevicesFound => "No devices found"@,
        }
    }

    /// The sentence shown to a user.
    pub fn to_string(&self) -> (s: String)
        ensures
            s@ == self.message(),
    {
        match self {
            ScanError::NotInitialized => "BLE not initialized".to_string(),
            ScanError::CannotStartScan => "Cannot start scan".to_string(),
            ScanError::ScanFailed(err) => {
                let mut s = String::from_str("Scan failed: ");
                s.append(err.as_str());
                s
            },
            ScanError::NoDevicesFound => "No devices found".to_string(),
        }
    }
}

/// A device seen in a Bluetooth scan: its address, its advertised name, and its signal
/// strength when the scan measured one.
#[derive(Debug, Clone)]
pub struct ScannedDevice {
    pub address: String,
    pub name: String,
    pub rssi: Option<i16>,
}

impl ScannedDevice {
    /// A field-by-field copy.
    pub fn copy(&self) -> (c: Self)
        ensures
            c == *self,
    {
        ScannedDevice { address: self.address.clone(), name: self.name.clone(), rssi: self.rssi }
    }
}

/// The name every navigation beacon advertises.
pub open spec fn beacon_name() -> Seq<char> {
    "NAVIGN_BEACON"@
}

/// Whether a scanned device is a navigation beacon with a measured signal.
pub open spec fn is_beacon(d: ScannedDevice) -> bool {
    d.rssi is Some && d.name@ == beacon_name()
}

/// The navigation beacons among `s`, in scan order.
pub open spec fn beacons_in(s: Seq<ScannedDevice>) -> Seq<ScannedDevice>
    decreases s.len(),
{
    if s.len() == 0 {
        Seq::empty()
    } else if is_beacon(s.last()) {
        beacons_in(s.drop_last()).push(s.last())
    } else {
        beacons_in(s.drop_last())
    }
}

/// Keeps the navigation beacons of a scan, in scan order: devices with a measured signal
/// that advertise the beacon name. No beacon at all is `NoDevicesFound`.
pub fn filter_beacons(devices: Vec<ScannedDevice>) -> (r: Result<Vec<ScannedDevice>, ScanError>)
    ensures
        beacons_in(devices@).len() == 0 ==> r == Err::<Vec<ScannedDevice>, ScanError>(
            ScanError::NoDevicesFound,
        ),
        beacons_in(devices@).len() > 0 ==> (r matches Ok(v) && v@ == beacons_in(devices@)),
{
    let mut kept: Vec<ScannedDevice> = Vec::new();
    let mut i: usize = 0;
    while i < devices.len()
        invariant
            i <= devices@.len(),
            kept@ == beacons_in(devices@.subrange(0, i as int)),
        decreases devices@.len() - i,
    {
        let d = &devices[i];
        let keep = d.rssi.is_some() && str_eq(d.name.as_str(), "NAVIGN_BEACON");
        proof {
            let pre = devices@.subrange(0, i as int + 1);
            assert(pre.drop_last() =~= devices@.subrange(0, i as int));
            assert(pre.last() == devices@[i as int]);
        }
        if keep {
            kept.push(d.copy());
        }
        i = i + 1;
    }
    proof {
        assert(devices@.subrange(0, devices@.len() as int) =~= devices@);
    }
    if kept.len() == 0 {
        Err(ScanError::NoDevicesFound)
    } else {
        Ok(kept)
    }
}

/// The bytes of a UUID built from its four fields: the first three big-endian, then the eight
/// bytes of the last.
pub open spec fn uuid_field_bytes(d1: u32, d2: u16, d3: u16, d4: Seq<u8>) -> Seq<u8> {
    seq![
        (d1 >> 24u32) as u8,
        (d1 >> 16u32) as u8,
        (d1 >> 8u32) as u8,
        d1 as u8,
        (d2 >> 8u16) as u8,
        d2 as u8,
        (d3 >> 8u16) as u8,
        d3 as u8,
    ] + d4
}

/// `uuid::Uuid::from_fields`, as bytes: its source lays out `d1`, `d2` and `d3` big-endian,
/// followed by `d4`.
#[verifier::external_body]
fn uuid_from_fields(d1: u32, d2: u16, d3: u16, d4: &[u8; 8]) -> (b: [u8; 16])
    ensures
        b@ == uuid_field_bytes(d1, d2, d3, d4@),
{
    uuid::Uuid::from_fields(d1, d2, d3, d4).into_bytes()
}

/// The base UUID of the Bluetooth SIG, into whose first field a 16-bit service id goes.
pub open spec fn service_uuid_bytes(service_id: u16) -> Seq<u8> {
    uuid_field_bytes(service_id as u32, 0, 0x1000, seq![0x80u8, 0x00, 0x00, 0x80, 0x5F, 0x9B, 0x34, 0xFB])
}

/// The full 128-bit UUID of a 16-bit Bluetooth service id, as its sixteen bytes.
pub fn service_id_to_uuid(service_id: u16) -> (b: [u8; 16])
    ensures
        b@ == service_uuid_bytes(service_id),
{
    let tail: [u8; 8] = [0x80, 0x00, 0x00, 0x80, 0x5F, 0x9B, 0x34, 0xFB];
    assert(tail@ == seq![0x80u8, 0x00, 0x00, 0x80, 0x5F, 0x9B, 0x34, 0xFB]);
    uuid_from_fields(service_id as u32, 0x0000, 0x1000, &tail)
}

/// Where `x` goes among `s` when inserted after every entry whose signal is at least as
/// strong: the position just after the last such entry, scanning from the end over weaker ones.
pub open spec fn insertion_point(s: Seq<(String, i16)>, rssi: i16) -> int
    decreases s.len(),
{
    if s.len() == 0 {
        0
    } else if s.last().1 >= rssi {
        s.len() as int
    } else {
        insertion_point(s.drop_last(), rssi)
    }
}

/// `s` ordered by signal strength, strongest first; entries of equal strength keep their
/// order (a stable sort).
pub open spec fn by_signal(s: Seq<(String, i16)>) -> Seq<(String, i16)>
    decreases s.len(),
{
    if s.len() == 0 {
        Seq::empty()
    } else {
        let rest = by_signal(s.drop_last());
        rest.insert(insertion_point(rest, s.last().1), s.last())
    }
}

/// Whether the signals in `s` never increase.
pub open spec fn strongest_first(s: Seq<(String, i16)>) -> bool {
    forall|i: int, j: int| 0 <= i < j < s.len() ==> s[i].1 >= s[j].1
}

proof fn lemma_insertion_point(s: Seq<(String, i16)>, rssi: i16)
    ensures
        0 <= insertion_point(s, rssi) <= s.len(),
        forall|j: int| insertion_point(s, rssi) <= j < s.len() ==> s[j].1 < rssi,
        insertion_point(s, rssi) > 0 ==> s[insertion_point(s, rssi) - 1].1 >= rssi,
    decreases s.len(),
{
    if s.len() > 0 && s.last().1 < rssi {
        lemma_insertion_point(s.drop_last(), rssi);
        assert forall|j: int| insertion_point(s, rssi) <= j < s.len() implies s[j].1 < rssi by {
            if j < s.len() - 1 {
                assert(s.drop_last()[j] == s[j]);
            }
        }
    }
}

/// Ordering by signal gives the strongest first and keeps every entry: the result is a
/// rearrangement of its input.
pub proof fn law_by_signal_sorted(s: Seq<(String, i16)>)
    ensures
        strongest_first(by_signal(s)),
        by_signal(s).to_multiset() == s.to_multiset(),
    decreases s.len(),
{
    broadcast use vstd::seq_lib::group_to_multiset_ensures;
    if s.len() > 0 {
        let rest = by_signal(s.drop_last());
        law_by_signal_sorted(s.drop_last());
        let x = s.last();
        let p = insertion_point(rest, x.1);
        lemma_insertion_point(rest, x.1);
        let out = rest.insert(p, x);
        assert forall|i: int, j: int| 0 <= i < j < out.len() implies out[i].1 >= out[j].1 by {
            if j < p {
            } else if j == p {
                if i < p {
                    assert(rest[p - 1].1 >= x.1);
                    assert(rest[i].1 >= rest[p - 1].1 || i == p - 1);
                }
            } else if i < p {
                assert(rest[j - 1].1 < x.1);
                if i < p - 1 {
                    assert(rest[i].1 >= rest[p - 1].1);
                }
            } else if i == p {
                assert(rest[j - 1].1 < x.1);
            } else {
                assert(rest[i - 1].1 >= rest[j - 1].1);
            }
        }
        assert(out.remove(p) =~= rest);
        assert(out[p] == x);
        assert(out.to_multiset().remove(x) =~= rest.to_multiset());
        assert(out.contains(x));
        assert(out.to_multiset().count(x) > 0);
        assert(out.to_multiset() =~= rest.to_multiset().insert(x));
        assert(s =~= s.drop_last().push(x));
    }
}

/// Orders the unknown devices by signal strength, strongest first, keeping the scan order
/// among equal strengths.
pub fn sort_by_signal(devices: Vec<(String, i16)>) -> (sorted: Vec<(String, i16)>)
    ensures
        sorted@ == by_signal(devices@),
{
    let mut out: Vec<(String, i16)> = Vec::new();
    let mut rest = devices;
    let ghost all = rest@;
    let mut i: usize = 0;
    let n = rest.len();
    // take the entries out in order, from a reversed copy
    let mut pending: Vec<(String, i16)> = Vec::new();
    while rest.len() > 0
        invariant
            all.len() == n,
            rest@.len() + pending@.len() == n,
            forall|k: int| 0 <= k < rest@.len() ==> #[trigger] rest@[k] == all[k],
            forall|k: int| 0 <= k < pending@.len() ==> #[trigger] pending@[k] == all[n - 1 - k],
        decreases rest@.len(),
    {
        let x = rest.pop().unwrap();
        pending.push(x);
    }
    while i < n
        invariant
            i <= n,
            pending@.len() == n - i,
            all.len() == n,
            forall|k: int| 0 <= k < pending@.len() ==> #[trigger] pending@[k] == all[n - 1 - k],
            out@ == by_signal(all.subrange(0, i as int)),
        decreases n - i,
    {
        let x = pending.pop().unwrap();
        assert(x == all[i as int]);
        let mut p: usize = out.len();
        assert(out@.subrange(0, p as int) =~= out@);
        while p > 0 && out[p - 1].1 < x.1
            invariant
                p <= out@.len(),
                insertion_point(out@, x.1) == insertion_point(out@.subrange(0, p as int), x.1),
            decreases p,
        {
            assert(out@.subrange(0, p as int - 1) =~= out@.subrange(0, p as int).drop_last());
            p = p - 1;
        }
        proof {
            assert(out@.subrange(0, out@.len() as int) =~= out@);
            let sp = all.subrange(0, i as int + 1);
            assert(sp.drop_last() =~= all.subrange(0, i as int));
            assert(sp.last() == x);
            if p > 0 {
                assert(insertion_point(out@.subrange(0, p as int), x.1) == p);
            } else {
                assert(insertion_point(out@.subrange(0, 0), x.1) == 0);
            }
        }
        out.insert(p, x);
        i = i + 1;
    }
    assert(all.subrange(0, n as int) =~= all);
    out
}

/// The address and signal of each device that has a measured signal and is not `known`, in
/// scan order.
pub open spec fn unknown_devices(devices: Seq<ScannedDevice>, known: Seq<bool>) -> Seq<(String, i16)>
    decreases devices.len(),
{
    if devices.len() == 0 {
        Seq::empty()
    } else {
        let rest = unknown_devices(devices.drop_last(), known);
        let d = devices.last();
        if d.rssi is Some && !known[devices.len() - 1] {
            rest.push((d.address, d.rssi->0))
        } else {
            rest
        }
    }
}

/// The devices of a scan to ask who they are: those with a measured signal that the phone
/// does not know yet (`known[i]` for device `i`), strongest signal first.
pub fn unknown_by_signal(devices: &Vec<ScannedDevice>, known: &Vec<bool>) -> (r: Vec<(String, i16)>)
    requires
        known@.len() == devices@.len(),
    ensures
        r@ == by_signal(unknown_devices(devices@, known@)),
{
    let mut picked: Vec<(String, i16)> = Vec::new();
    let mut i: usize = 0;
    while i < devices.len()
        invariant
            i <= devices@.len(),
            known@.len() == devices@.len(),
            picked@ == unknown_devices(devices@.subrange(0, i as int), known@),
        decreases devices@.len() - i,
    {
        proof {
            let pre = devices@.subrange(0, i as int + 1);
            assert(pre.drop_last() =~= devices@.subrange(0, i as int));
            assert(pre.last() == devices@[i as int]);
        }
        match devices[i].rssi {
            Some(rssi) => {
                if !known[i] {
                    picked.push((devices[i].address.clone(), rssi));
                }
            },
            None => {},
        }
        i = i + 1;
    }
    assert(devices@.subrange(0, devices@.len() as int) =~= devices@);
    sort_by_signal(picked)
}

/// The lowercase hexadecimal digit of `d` (`d < 16`).
pub open spec fn hex_digit(d: nat) -> char {
    if d < 10 {
        (48 + d) as char
    } else {
        (87 + d) as char
    }
}

/// The bytes as lowercase hexadecimal, two digits per byte.
pub open spec fn hex_text(s: Seq<u8>) -> Seq<char>
    decreases s.len(),
{
    if s.len() == 0 {
        Seq::empty()
    } else {
        hex_text(s.drop_last()) + seq![hex_digit((s.last() / 16) as nat), hex_digit((s.last() % 16) as nat)]
    }
}

proof fn lemma_hex_text_len(s: Seq<u8>)
    ensures
        hex_text(s).len() == 2 * s.len(),
    decreases s.len(),
{
    if s.len() > 0 {
        lemma_hex_text_len(s.drop_last());
    }
}

fn hex_digit_str(d: u8) -> (s: &'static str)
    requires
        d < 16,
    ensures
        s@ == seq![hex_digit(d as nat)],
{
    let digits: [&'static str; 16] = ["0", "1", "2", "3", "4", "5", "6", "7", "8", "9", "a", "b", "c", "d", "e", "f"];
    proof {
        reveal_strlit("0");
        reveal_strlit("1");
        reveal_strlit("2");
        reveal_strlit("3");
        reveal_strlit("4");
        reveal_strlit("5");
        reveal_strlit("6");
        reveal_strlit("7");
        reveal_strlit("8");
        reveal_strlit("9");
        reveal_strlit("a");
        reveal_strlit("b");
        reveal_strlit("c");
        reveal_strlit("d");
        reveal_strlit("e");
        reveal_strlit("f");
    }
    digits[d as usize]
}

/// The bytes as lowercase hexadecimal, two digits per byte.
pub fn hex_string(bytes: &[u8]) -> (s: String)
    ensures
        s@ == hex_text(bytes@),
{
    let mut s = String::new();
    let mut i: usize = 0;
    while i < bytes.len()
        invariant
            i <= bytes@.len(),
            s@ == hex_text(bytes@.subrange(0, i as int)),
        decreases bytes@.len() - i,
    {
        let b = bytes[i];
        s.append(hex_digit_str(b / 16));
        s.append(hex_digit_str(b % 16));
        proof {
            let pre = bytes@.subrange(0, i as int + 1);
            assert(pre.drop_last() =~= bytes@.subrange(0, i as int));
        }
        i = i + 1;
    }
    assert(bytes@.subrange(0, bytes@.len() as int) =~= bytes@);
    s
}

/// The object id a beacon reports, as the hexadecimal text the server addresses it by; only
/// a text of exactly 24 characters is accepted. The id field of a beacon's answer holds 24
/// bytes, whose text has 48 characters, so no answer is ever accepted.
pub fn beacon_object_id(object_id: &[u8; 24]) -> (r: Option<String>)
    ensures
        hex_text(object_id@).len() == 24 ==> (r matches Some(s) && s@ == hex_text(object_id@)),
        hex_text(object_id@).len() != 24 ==> r is None,
        r is None,
{
    let text = hex_string(object_id);
    proof {
        lemma_hex_text_len(object_id@);
    }
    let n = object_id.len();
    if 2 * n != 24 {
        None
    } else {
        Some(text)
    }
}

/// Hexadecimal digits: below ten the digits '0' to '9', from ten the letters 'a' to 'f'.
pub proof fn law_hex_digits(d: nat)
    requires
        d < 16,
    ensures
        d < 10 ==> hex_digit(d) as int == '0' as int + d,
        d >= 10 ==> hex_digit(d) as int == 'a' as int + (d - 10),
{
}

/// The UUID of a 16-bit service id is the Bluetooth base UUID
/// `0000xxxx-0000-1000-8000-00805f9b34fb` with the id, big-endian, in bytes 2 and 3.
pub proof fn law_service_uuid_bytes(service_id: u16)
    ensures
        service_uuid_bytes(service_id) == seq![
            0x00u8, 0x00, (service_id / 256) as u8, (service_id % 256) as u8,
            0x00, 0x00, 0x10, 0x00,
            0x80, 0x00, 0x00, 0x80, 0x5F, 0x9B, 0x34, 0xFB,
        ],
{
    let d1 = service_id as u32;
    assert((d1 >> 24u32) as u8 == 0u8 && (d1 >> 16u32) as u8 == 0u8 && (d1 >> 8u32) as u8
        == (service_id / 256) as u8 && d1 as u8 == (service_id % 256) as u8) by (bit_vector)
        requires
            d1 == service_id as u32,
    ;
    assert((0u16 >> 8u16) as u8 == 0u8 && 0u16 as u8 == 0u8 && (0x1000u16 >> 8u16) as u8 == 0x10u8
        && 0x1000u16 as u8 == 0u8) by (bit_vector);
    assert(service_uuid_bytes(service_id) =~= seq![
        0x00u8, 0x00, (service_id / 256) as u8, (service_id % 256) as u8,
        0x00, 0x00, 0x10, 0x00,
        0x80, 0x00, 0x00, 0x80, 0x5F, 0x9B, 0x34, 0xFB,
    ]);
}

} // verus!
