//! Floors, beacons, connections and entities: the places a route runs through.
use vstd::prelude::*;
use vstd::std_specs::convert::FromSpecImpl;
use crate::text::{decimal, push_decimal};

verus! {

/// How a floor is numbered.
#[derive(Debug, Clone, Copy, PartialEq, Eq, Structural)]
pub enum FloorType {
    /// European or UK style: "Ground", "First", "Second".
    Level,
    /// US style: "1st", "2nd", "3rd".
    Floor,
    /// Below ground.
    Basement,
}

impl FloorType {
    /// The display name of the numbering style.
    pub open spec fn label(self) -> Seq<char> {
        match self {
            FloorType::Level => "Level"@,
            FloorType::Floor => "Floor"@,
            FloorType::Basement => "Basement"@,
        }
    }

    /// The display name of the numbering style.
    pub fn to_string(&self) -> (s: String)
        ensures
            s@ == self.label(),
    {
        match self {
            FloorType::Level => "Level".to_string(),
            FloorType::Floor => "Floor".to_string(),
            FloorType::Basement => "Basement".to_string(),
        }
    }
}

/// A floor: its numbering style and its number within that style.
#[derive(Debug, Clone, Copy, PartialEq, Eq, Structural)]
pub struct Floor {
    pub floor_type: FloorType,
    pub name: u32,
}

/// The signed storey index of a floor: level `n` is storey `n + 1`, floor `n` is storey `n`,
/// basement `n` is storey `-n`; the arithmetic wraps in 32 bits as two's complement does.
pub open spec fn storey(f: Floor) -> i32 {
    let n = f.name as i32;
    match f.floor_type {
        FloorType::Level => if n == i32::MAX {
            i32::MIN
        } else {
            (n + 1) as i32
        },
        FloorType::Floor => n,
        FloorType::Basement => if n == i32::MIN {
            i32::MIN
        } else {
            (-n) as i32
        },
    }
}

/// The short display label of a floor: "L2", "3F" or "B1".
pub open spec fn floor_label(f: Floor) -> Seq<char> {
    match f.floor_type {
        FloorType::Level => seq!['L'] + decimal(f.name as nat),
        FloorType::Floor => decimal(f.name as nat) + seq!['F'],
        FloorType::Basement => seq!['B'] + decimal(f.name as nat),
    }
}

impl Floor {
    /// The short display label: "L" and the number for a level, the number and "F" for a
    /// floor, "B" and the number for a basement.
    pub fn to_string(&self) -> (s: String)
        ensures
            s@ == floor_label(*self),
    {
        let mut s = String::new();
        match self.floor_type {
            FloorType::Level => {
                proof {
                    reveal_strlit("L");
                }
                s.append("L");
                push_decimal(&mut s, self.name as u64);
            },
            FloorType::Floor => {
                proof {
                    reveal_strlit("F");
                }
                push_decimal(&mut s, self.name as u64);
                s.append("F");
            },
            FloorType::Basement => {
                proof {
                    reveal_strlit("B");
                }
                s.append("B");
                push_decimal(&mut s, self.name as u64);
            },
        }
        s
    }
}

impl From<Floor> for i32 {
    fn from(val: Floor) -> (n: i32) {
        let n = val.name as i32;
        match val.floor_type {
            FloorType::Level => if n == i32::MAX {
                i32::MIN
            } else {
                n + 1
            },
            FloorType::Floor => n,
            FloorType::Basement => if n == i32::MIN {
                i32::MIN
            } else {
                -n
            },
        }
    }
}

impl FromSpecImpl<Floor> for i32 {
    open spec fn obeys_from_spec() -> bool {
        true
    }

    open spec fn from_spec(v: Floor) -> i32 {
        storey(v)
    }
}

/// On floors numbered below 2^31 - 1, the storey index is the level plus one, the floor
/// number, or the negated basement number.
pub proof fn law_storey_of_small_floor(f: Floor)
    requires
        f.name < 0x7fff_ffff,
    ensures
        storey(f) as int == match f.floor_type {
            FloorType::Level => f.name + 1,
            FloorType::Floor => f.name as int,
            FloorType::Basement => -(f.name as int),
        },
{
}

/// The chip a beacon runs on.
#[derive(Debug, Clone, Copy, PartialEq, Eq, Structural)]
pub enum BeaconDevice {
    Esp32,
    Esp32C3,
    Esp32C5,
    Esp32C6,
    Esp32S3,
}

impl BeaconDevice {
    /// The lowercase chip name.
    pub open spec fn name(self) -> Seq<char> {
        match self {
            BeaconDevice::Esp32 => "esp32"@,
            BeaconDevice::Esp32C3 => "esp32c3"@,
            BeaconDevice::Esp32C5 => "esp32c5"@,
            BeaconDevice::Esp32C6 => "esp32c6"@,
            BeaconDevice::Esp32S3 => "esp32s3"@,
        }
    }

    /// The lowercase chip name.
    pub fn to_string(&self) -> (s: String)
        ensures
            s@ == self.name(),
    {
        match self {
            BeaconDevice::Esp32 => "esp32".to_string(),
            BeaconDevice::Esp32C3 => "esp32c3".to_string(),
            BeaconDevice::Esp32C5 => "esp32c5".to_string(),
            BeaconDevice::Esp32C6 => "esp32c6".to_string(),
            BeaconDevice::Esp32S3 => "esp32s3".to_string(),
        }
    }
}

/// What a beacon is deployed for.
#[derive(Debug, Clone, Copy, PartialEq, Eq, Structural)]
pub enum BeaconType {
    Navigation,
    Marketing,
    Tracking,
    Environmental,
    Security,
    Other,
}

impl BeaconType {
    /// The lowercase purpose name.
    pub open spec fn name(self) -> Seq<char> {
        match self {
            BeaconType::Navigation => "navigation"@,
            BeaconType::Marketing => "marketing"@,
            BeaconType::Tracking => "tracking"@,
            BeaconType::Environmental => "environmental"@,
            BeaconType::Security => "security"@,
            BeaconType::Other => "other"@,
        }
    }

    /// The lowercase purpose name.
    pub fn to_string(&self) -> (s: String)
        ensures
            s@ == self.name(),
    {
        match self {
            BeaconType::Navigation => "navigation".to_string(),
            BeaconType::Marketing => "marketing".to_string(),
            BeaconType::Tracking => "tracking".to_string(),
            BeaconType::Environmental => "environmental".to_string(),
            BeaconType::Security => "security".to_string(),
            BeaconType::Other => "other".to_string(),
        }
    }
}

/// How two areas are linked.
#[derive(Debug, Clone, Copy, PartialEq, Eq, Structural)]
pub enum ConnectionType {
    Gate,
    Escalator,
    Elevator,
    Stairs,
    Rail,
    Shuttle,
}

impl ConnectionType {
    /// The lowercase connection name.
    pub open spec fn name(self) -> Seq<char> {
        match self {
            ConnectionType::Gate => "gate"@,
            ConnectionType::Escalator => "escalator"@,
            ConnectionType::Elevator => "elevator"@,
            ConnectionType::Stairs => "stairs"@,
            ConnectionType::Rail => "rail"@,
            ConnectionType::Shuttle => "shuttle"@,
        }
    }

    /// The lowercase connection name.
    pub fn to_string(&self) -> (s: String)
        ensures
            s@ == self.name(),
    {
        match self {
            ConnectionType::Gate => "gate".to_string(),
            ConnectionType::Escalator => "escalator".to_string(),
            ConnectionType::Elevator => "elevator".to_string(),
            ConnectionType::Stairs => "stairs".to_string(),
            ConnectionType::Rail => "rail".to_string(),
            ConnectionType::Shuttle => "shuttle".to_string(),
        }
    }
}

/// The kind of site a map belongs to.
#[derive(Debug, Clone, Copy, PartialEq, Eq, Structural)]
pub enum EntityType {
    Mall,
    Transportation,
    School,
    Hospital,
}

impl EntityType {
    /// The capitalised site kind.
    pub open spec fn name(self) -> Seq<char> {
        match self {
            EntityType::Mall => "Mall"@,
            EntityType::Transportation => "Transportation"@,
            EntityType::School => "School"@,
            EntityType::Hospital => "Hospital"@,
        }
    }

    /// The capitalised site kind.
    pub fn to_string(&self) -> (s: String)
        ensures
            s@ == self.name(),
    {
        match self {
            EntityType::Mall => "Mall".to_string(),
            EntityType::Transportation => "Transportation".to_string(),
            EntityType::School => "School".to_string(),
            EntityType::Hospital => "Hospital".to_string(),
        }
    }
}

/// Each floor numbering style has its fixed display name.
pub proof fn law_floor_type_labels(t: FloorType)
    ensures
        t == FloorType::Level ==> t.label() == "Level"@,
        t == FloorType::Floor ==> t.label() == "Floor"@,
        t == FloorType::Basement ==> t.label() == "Basement"@,
{
}

/// Each beacon device has its fixed lowercase chip name.
pub proof fn law_beacon_device_names(d: BeaconDevice)
    ensures
        d == BeaconDevice::Esp32 ==> d.name() == "esp32"@,
        d == BeaconDevice::Esp32C3 ==> d.name() == "esp32c3"@,
        d == BeaconDevice::Esp32C5 ==> d.name() == "esp32c5"@,
        d == BeaconDevice::Esp32C6 ==> d.name() == "esp32c6"@,
        d == BeaconDevice::Esp32S3 ==> d.name() == "esp32s3"@,
{
}

/// Each beacon type has its fixed lowercase name.
pub proof fn law_beacon_type_names(t: BeaconType)
    ensures
        t == BeaconType::Navigation ==> t.name() == "navigation"@,
        t == BeaconType::Marketing ==> t.name() == "marketing"@,
        t == BeaconType::Tracking ==> t.name() == "tracking"@,
        t == BeaconType::Environmental ==> t.name() == "environmental"@,
        t == BeaconType::Security ==> t.name() == "security"@,
        t == BeaconType::Other ==> t.name() == "other"@,
{
}

/// Each connection type has its fixed lowercase name.
pub proof fn law_connection_type_names(t: ConnectionType)
    ensures
        t == ConnectionType::Gate ==> t.name() == "gate"@,
        t == ConnectionType::Escalator ==> t.name() == "escalator"@,
        t == ConnectionType::Elevator ==> t.name() == "elevator"@,
        t == ConnectionType::Stairs ==> t.name() == "stairs"@,
        t == ConnectionType::Rail ==> t.name() == "rail"@,
        t == ConnectionType::Shuttle ==> t.name() == "shuttle"@,
{
}

/// Each entity type has its fixed display name.
pub proof fn law_entity_type_names(t: EntityType)
    ensures
        t == EntityType::Mall ==> t.name() == "Mall"@,
        t == EntityType::Transportation ==> t.name() == "Transportation"@,
        t == EntityType::School ==> t.name() == "School"@,
        t == EntityType::Hospital ==> t.name() == "Hospital"@,
{
}

} // verus!
