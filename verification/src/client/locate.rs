//! The areas and beacons cached on the phone for locating it.
use vstd::prelude::*;

verus! {

/// An area cached on the phone, with its outline as well-known text.
#[derive(Debug, Clone)]
pub struct ActiveArea {
    pub id: String,
    pub name: String,
    /// The outline, as a well-known-text polygon.
    pub polygon: String,
    pub entity: String,
    pub updated_at: u64,
    pub stored_at: u64,
}

/// The current time in seconds since the Unix epoch, from `chrono::Utc::now`.
/// Nothing is promised of the value: it is the machine's clock.
#[verifier::external_body]
fn unix_time_now() -> i64 {
    chrono::Utc::now().timestamp()
}

impl ActiveArea {
    /// An area record stored at time `stored_at`.
    pub fn new_at(
        id: String,
        name: String,
        polygon: String,
        entity: String,
        updated_at: u64,
        stored_at: u64,
    ) -> (a: Self)
        ensures
            a.id == id,
            a.name == name,
            a.polygon == polygon,
            a.entity == entity,
            a.updated_at == updated_at,
            a.stored_at == stored_at,
    {
        ActiveArea { id, name, polygon, entity, updated_at, stored_at }
    }

    /// An area record stored now: the clock's seconds, reinterpreted as unsigned, are the
    /// storage time.
    pub fn new(id: String, name: String, polygon: String, entity: String, updated_at: u64) -> (a:
        Self)
        ensures
            a.id == id,
            a.name == name,
            a.polygon == polygon,
            a.entity == entity,
            a.updated_at == updated_at,
    {
        let now = unix_time_now();
        Self::new_at(id, name, polygon, entity, updated_at, now as u64)
    }
}

impl Default for ActiveArea {
    /// Empty texts and zero times.
    fn default() -> (a: Self)
        ensures
            a.id@ == Seq::<char>::empty(),
            a.name@ == Seq::<char>::empty(),
            a.polygon@ == Seq::<char>::empty(),
            a.entity@ == Seq::<char>::empty(),
            a.updated_at == 0,
            a.stored_at == 0,
    {
        ActiveArea {
            id: String::new(),
            name: String::new(),
            polygon: String::new(),
            entity: String::new(),
            updated_at: 0,
            stored_at: 0,
        }
    }
}

/// A beacon cached on the phone, with its position as a well-known-text point.
#[derive(Debug, Clone)]
pub struct BeaconInfo {
    pub id: String,
    pub mac: String,
    pub location: String,
    pub merchant: String,
    pub area: String,
    pub entity: String,
}

/// A merchant cached on the phone, with its outline as well-known text.
#[derive(Debug, Clone)]
pub struct Merchant {
    pub id: String,
    pub name: String,
    pub description: Option<String>,
    pub polygon: String,
    pub entry: String,
    pub merchant_type: String,
}

impl Merchant {
    pub fn new(
        id: String,
        name: String,
        description: Option<String>,
        polygon: String,
        entry: String,
        merchant_type: String,
    ) -> (m: Self)
        ensures
            m.id == id,
            m.name == name,
            m.description == description,
            m.polygon == polygon,
            m.entry == entry,
            m.merchant_type == merchant_type,
    {
        Merchant { id, name, description, polygon, entry, merchant_type }
    }
}

impl Default for Merchant {
    /// Empty texts and no description.
    fn default() -> (m: Self)
        ensures
            m.id@ == Seq::<char>::empty(),
            m.name@ == Seq::<char>::empty(),
            m.description is None,
            m.polygon@ == Seq::<char>::empty(),
            m.entry@ == Seq::<char>::empty(),
            m.merchant_type@ == Seq::<char>::empty(),
    {
        Merchant {
            id: String::new(),
            name: String::new(),
            description: None,
            polygon: String::new(),
            entry: String::new(),
            merchant_type: String::new(),
        }
    }
}

} // verus!
