//! The text of the searches the server and the client run against their databases: one
//! query per table and database, matching a text anywhere in the searched fields, sorted by a
//! column and paged.
use vstd::prelude::*;
use vstd::string::StringExecFns;

verus! {

/// The database a query is written for.
#[derive(Debug, Clone, Copy, PartialEq, Eq, Structural)]
pub enum SqlDialect {
    Postgres,
    Sqlite,
}

/// What a search runs over.
#[derive(Debug, Clone, Copy, PartialEq, Eq, Structural)]
pub enum SearchTable {
    /// Accounts, by user name or email; the server's database only.
    Users,
    /// Entities (malls, transport hubs, schools, hospitals), by name or description; the
    /// server's database only.
    Entities,
    /// The areas of an entity, by name, description or beacon code.
    Areas,
    /// The beacons of an entity, by name, description or MAC address.
    Beacons,
    /// The connections of an entity, by name or description.
    Connections,
    /// The merchants of an entity, by name, description or beacon code.
    Merchants,
    /// The merchants of one area of an entity, by the same fields.
    MerchantsInArea,
}

/// Whether the database of `dialect` holds the table searched: the client's SQLite database
/// keeps no accounts and no entities.
pub open spec fn has_table(dialect: SqlDialect, table: SearchTable) -> bool {
    !(dialect == SqlDialect::Sqlite && (table == SearchTable::Users || table == SearchTable::Entities))
}

/// The query text up to the sort column: the selected columns, the scope filter and the
/// pattern match on the searched fields, case-insensitive when asked.
pub open spec fn search_head(dialect: SqlDialect, table: SearchTable, case_insensitive: bool) -> Seq<char> {
    match (dialect, table, case_insensitive) {
        (SqlDialect::Postgres, SearchTable::Users, true) => "SELECT id, username, email, hashed_password, activated, privileged,\n                          created_at, updated_at\n                   FROM users\n                   WHERE username ILIKE $1 OR email ILIKE $1\n                   ORDER BY "@,
        (SqlDialect::Postgres, SearchTable::Users, false) => "SELECT id, username, email, hashed_password, activated, privileged,\n                          created_at, updated_at\n                   FROM users\n                   WHERE username LIKE $1 OR email LIKE $1\n                   ORDER BY "@,
        (SqlDialect::Postgres, SearchTable::Entities, true) => "SELECT id, type, name, description, point_min, point_max,\n                          altitude_min, altitude_max, nation, region, city, tags,\n                          created_at, updated_at\n                   FROM entities\n                   WHERE name ILIKE $1 OR description ILIKE $1\n                   ORDER BY "@,
        (SqlDialect::Postgres, SearchTable::Entities, false) => "SELECT id, type, name, description, point_min, point_max,\n                          altitude_min, altitude_max, nation, region, city, tags,\n                          created_at, updated_at\n                   FROM entities\n                   WHERE name LIKE $1 OR description LIKE $1\n                   ORDER BY "@,
        (SqlDialect::Postgres, SearchTable::Areas, true) => "SELECT id, entity_id, name, description, floor_type, floor_name, beacon_code, polygon,\n                          created_at, updated_at\n                   FROM areas\n                   WHERE entity_id = $1 AND (name ILIKE $2 OR description ILIKE $2 OR beacon_code ILIKE $2)\n                   ORDER BY "@,
        (SqlDialect::Postgres, SearchTable::Areas, false) => "SELECT id, entity_id, name, description, floor_type, floor_name, beacon_code, polygon,\n                          created_at, updated_at\n                   FROM areas\n                   WHERE entity_id = $1 AND (name LIKE $2 OR description LIKE $2 OR beacon_code LIKE $2)\n                   ORDER BY "@,
        (SqlDialect::Postgres, SearchTable::Beacons, true) => "SELECT id, entity_id, area_id, merchant_id, connection_id, name, description, type, location, device, mac,\n                          created_at, updated_at\n                   FROM beacons\n                   WHERE entity_id = $1 AND (name ILIKE $2 OR description ILIKE $2 OR mac ILIKE $2)\n                   ORDER BY "@,
        (SqlDialect::Postgres, SearchTable::Beacons, false) => "SELECT id, entity_id, area_id, merchant_id, connection_id, name, description, type, location, device, mac,\n                          created_at, updated_at\n                   FROM beacons\n                   WHERE entity_id = $1 AND (name LIKE $2 OR description LIKE $2 OR mac LIKE $2)\n                   ORDER BY "@,
        (SqlDialect::Postgres, SearchTable::Connections, true) => "SELECT id, entity_id, name, description, type, connected_areas,\n                          available_period, tags, gnd, created_at, updated_at\n                   FROM connections\n                   WHERE entity_id = $1 AND (name ILIKE $2 OR description ILIKE $2)\n                   ORDER BY "@,
        (SqlDialect::Postgres, SearchTable::Connections, false) => "SELECT id, entity_id, name, description, type, connected_areas,\n                          available_period, tags, gnd, created_at, updated_at\n                   FROM connections\n                   WHERE entity_id = $1 AND (name LIKE $2 OR description LIKE $2)\n                   ORDER BY "@,
        (SqlDialect::Postgres, SearchTable::Merchants, true) => "SELECT id, entity_id, area_id, name, description, chain, beacon_code, type,\n                          color, tags, location, style, polygon, available_period, opening_hours,\n                          email, phone, website, social_media, created_at, updated_at\n                   FROM merchants\n                   WHERE entity_id = $1 AND (name ILIKE $2 OR description ILIKE $2 OR beacon_code ILIKE $2)\n                   ORDER BY "@,
        (SqlDialect::Postgres, SearchTable::Merchants, false) => "SELECT id, entity_id, area_id, name, description, chain, beacon_code, type,\n                          color, tags, location, style, polygon, available_period, opening_hours,\n                          email, phone, website, social_media, created_at, updated_at\n                   FROM merchants\n                   WHERE entity_id = $1 AND (name LIKE $2 OR description LIKE $2 OR beacon_code LIKE $2)\n                   ORDER BY "@,
        (SqlDialect::Postgres, SearchTable::MerchantsInArea, true) => "SELECT id, entity_id, area_id, name, description, chain, beacon_code, type,\n                          color, tags, location, style, polygon, available_period, opening_hours,\n                          email, phone, website, social_media, created_at, updated_at\n                   FROM merchants\n                   WHERE entity_id = $1 AND area_id = $2 AND (name ILIKE $3 OR description ILIKE $3 OR beacon_code ILIKE $3)\n                   ORDER BY "@,
        (SqlDialect::Postgres, SearchTable::MerchantsInArea, false) => "SELECT id, entity_id, area_id, name, description, chain, beacon_code, type,\n                          color, tags, location, style, polygon, available_period, opening_hours,\n                          email, phone, website, social_media, created_at, updated_at\n                   FROM merchants\n                   WHERE entity_id = $1 AND area_id = $2 AND (name LIKE $3 OR description LIKE $3 OR beacon_code LIKE $3)\n                   ORDER BY "@,
        (SqlDialect::Sqlite, SearchTable::Areas, true) => "SELECT id, entity_id, name, description, floor_type, floor_name, beacon_code, polygon_wkb,\n                          created_at, updated_at\n                   FROM areas\n                   WHERE entity_id = ?1 AND (name LIKE ?2 COLLATE NOCASE OR description LIKE ?2 COLLATE NOCASE OR beacon_code LIKE ?2 COLLATE NOCASE)\n                   ORDER BY "@,
        (SqlDialect::Sqlite, SearchTable::Areas, false) => "SELECT id, entity_id, name, description, floor_type, floor_name, beacon_code, polygon_wkb,\n                          created_at, updated_at\n                   FROM areas\n                   WHERE entity_id = ?1 AND (name LIKE ?2 OR description LIKE ?2 OR beacon_code LIKE ?2)\n                   ORDER BY "@,
        (SqlDialect::Sqlite, SearchTable::Beacons, true) => "SELECT id, entity_id, area_id, merchant_id, connection_id, name, description,\n                          type, location_wkb, device, mac, created_at, updated_at\n                   FROM beacons\n                   WHERE entity_id = ?1 AND (name LIKE ?2 COLLATE NOCASE OR description LIKE ?2 COLLATE NOCASE OR mac LIKE ?2 COLLATE NOCASE)\n                   ORDER BY "@,
        (SqlDialect::Sqlite, SearchTable::Beacons, false) => "SELECT id, entity_id, area_id, merchant_id, connection_id, name, description,\n                          type, location_wkb, device, mac, created_at, updated_at\n                   FROM beacons\n                   WHERE entity_id = ?1 AND (name LIKE ?2 OR description LIKE ?2 OR mac LIKE ?2)\n                   ORDER BY "@,
        (SqlDialect::Sqlite, SearchTable::Connections, true) => "SELECT id, entity_id, name, description, type, connected_areas,\n                          available_period, tags, gnd_wkb, created_at, updated_at\n                   FROM connections\n                   WHERE entity_id = ?1 AND (name LIKE ?2 COLLATE NOCASE OR description LIKE ?2 COLLATE NOCASE)\n                   ORDER BY "@,
        (SqlDialect::Sqlite, SearchTable::Connections, false) => "SELECT id, entity_id, name, description, type, connected_areas,\n                          available_period, tags, gnd_wkb, created_at, updated_at\n                   FROM connections\n                   WHERE entity_id = ?1 AND (name LIKE ?2 OR description LIKE ?2)\n                   ORDER BY "@,
        (SqlDialect::Sqlite, SearchTable::Merchants, true) => "SELECT id, entity_id, area_id, name, description, chain, beacon_code, type,\n                          color, tags, location_wkb, style, polygon_wkb, available_period, opening_hours,\n                          email, phone, website, social_media, created_at, updated_at\n                   FROM merchants\n                   WHERE entity_id = ?1 AND (name LIKE ?2 COLLATE NOCASE OR description LIKE ?2 COLLATE NOCASE OR beacon_code LIKE ?2 COLLATE NOCASE)\n                   ORDER BY "@,
        (SqlDialect::Sqlite, SearchTable::Merchants, false) => "SELECT id, entity_id, area_id, name, description, chain, beacon_code, type,\n                          color, tags, location_wkb, style, polygon_wkb, available_period, opening_hours,\n                          email, phone, website, social_media, created_at, updated_at\n                   FROM merchants\n                   WHERE entity_id = ?1 AND (name LIKE ?2 OR description LIKE ?2 OR beacon_code LIKE ?2)\n                   ORDER BY "@,
        (SqlDialect::Sqlite, SearchTable::MerchantsInArea, true) => "SELECT id, entity_id, area_id, name, description, chain, beacon_code, type,\n                          color, tags, location_wkb, style, polygon_wkb, available_period, opening_hours,\n                          email, phone, website, social_media, created_at, updated_at\n                   FROM merchants\n                   WHERE entity_id = ?1 AND area_id = ?2 AND (name LIKE ?3 COLLATE NOCASE OR description LIKE ?3 COLLATE NOCASE OR beacon_code LIKE ?3 COLLATE NOCASE)\n                   ORDER BY "@,
        (SqlDialect::Sqlite, SearchTable::MerchantsInArea, false) => "SELECT id, entity_id, area_id, name, description, chain, beacon_code, type,\n                          color, tags, location_wkb, style, polygon_wkb, available_period, opening_hours,\n                          email, phone, website, social_media, created_at, updated_at\n                   FROM merchants\n                   WHERE entity_id = ?1 AND area_id = ?2 AND (name LIKE ?3 OR description LIKE ?3 OR beacon_code LIKE ?3)\n                   ORDER BY "@,
        _ => Seq::empty(),
    }
}

/// The query text after the sort direction: the page limit and offset parameters.
pub open spec fn search_tail(dialect: SqlDialect, table: SearchTable) -> Seq<char> {
    match (dialect, table) {
        (SqlDialect::Postgres, SearchTable::Users) => "\n                   LIMIT $2 OFFSET $3"@,
        (SqlDialect::Postgres, SearchTable::Entities) => "\n                   LIMIT $2 OFFSET $3"@,
        (SqlDialect::Postgres, SearchTable::Areas) => "\n                   LIMIT $3 OFFSET $4"@,
        (SqlDialect::Postgres, SearchTable::Beacons) => "\n                   LIMIT $3 OFFSET $4"@,
        (SqlDialect::Postgres, SearchTable::Connections) => "\n                   LIMIT $3 OFFSET $4"@,
        (SqlDialect::Postgres, SearchTable::Merchants) => "\n                   LIMIT $3 OFFSET $4"@,
        (SqlDialect::Postgres, SearchTable::MerchantsInArea) => "\n                   LIMIT $4 OFFSET $5"@,
        (SqlDialect::Sqlite, SearchTable::Areas) => "\n                   LIMIT ?3 OFFSET ?4"@,
        (SqlDialect::Sqlite, SearchTable::Beacons) => "\n                   LIMIT ?3 OFFSET ?4"@,
        (SqlDialect::Sqlite, SearchTable::Connections) => "\n                   LIMIT ?3 OFFSET ?4"@,
        (SqlDialect::Sqlite, SearchTable::Merchants) => "\n                   LIMIT ?3 OFFSET ?4"@,
        (SqlDialect::Sqlite, SearchTable::MerchantsInArea) => "\n                   LIMIT ?4 OFFSET ?5"@,
        _ => Seq::empty(),
    }
}

fn search_head_text(dialect: SqlDialect, table: SearchTable, case_insensitive: bool) -> (s: &'static str)
    requires
        has_table(dialect, table),
    ensures
        s@ == search_head(dialect, table, case_insensitive),
{
    match (dialect, table, case_insensitive) {
        (SqlDialect::Postgres, SearchTable::Users, true) => "SELECT id, username, email, hashed_password, activated, privileged,\n                          created_at, updated_at\n                   FROM users\n                   WHERE username ILIKE $1 OR email ILIKE $1\n                   ORDER BY ",
        (SqlDialect::Postgres, SearchTable::Users, false) => "SELECT id, username, email, hashed_password, activated, privileged,\n                          created_at, updated_at\n                   FROM users\n                   WHERE username LIKE $1 OR email LIKE $1\n                   ORDER BY ",
        (SqlDialect::Postgres, SearchTable::Entities, true) => "SELECT id, type, name, description, point_min, point_max,\n                          altitude_min, altitude_max, nation, region, city, tags,\n                          created_at, updated_at\n                   FROM entities\n                   WHERE name ILIKE $1 OR description ILIKE $1\n                   ORDER BY ",
        (SqlDialect::Postgres, SearchTable::Entities, false) => "SELECT id, type, name, description, point_min, point_max,\n                          altitude_min, altitude_max, nation, region, city, tags,\n                          created_at, updated_at\n                   FROM entities\n                   WHERE name LIKE $1 OR description LIKE $1\n                   ORDER BY ",
        (SqlDialect::Postgres, SearchTable::Areas, true) => "SELECT id, entity_id, name, description, floor_type, floor_name, beacon_code, polygon,\n                          created_at, updated_at\n                   FROM areas\n                   WHERE entity_id = $1 AND (name ILIKE $2 OR description ILIKE $2 OR beacon_code ILIKE $2)\n                   ORDER BY ",
        (SqlDialect::Postgres, SearchTable::Areas, false) => "SELECT id, entity_id, name, description, floor_type, floor_name, beacon_code, polygon,\n                          created_at, updated_at\n                   FROM areas\n                   WHERE entity_id = $1 AND (name LIKE $2 OR description LIKE $2 OR beacon_code LIKE $2)\n                   ORDER BY ",
        (SqlDialect::Postgres, SearchTable::Beacons, true) => "SELECT id, entity_id, area_id, merchant_id, connection_id, name, description, type, location, device, mac,\n                          created_at, updated_at\n                   FROM beacons\n                   WHERE entity_id = $1 AND (name ILIKE $2 OR description ILIKE $2 OR mac ILIKE $2)\n                   ORDER BY ",
        (SqlDialect::Postgres, SearchTable::Beacons, false) => "SELECT id, entity_id, area_id, merchant_id, connection_id, name, description, type, location, device, mac,\n                          created_at, updated_at\n                   FROM beacons\n                   WHERE entity_id = $1 AND (name LIKE $2 OR description LIKE $2 OR mac LIKE $2)\n                   ORDER BY ",
        (SqlDialect::Postgres, SearchTable::Connections, true) => "SELECT id, entity_id, name, description, type, connected_areas,\n                          available_period, tags, gnd, created_at, updated_at\n                   FROM connections\n                   WHERE entity_id = $1 AND (name ILIKE $2 OR description ILIKE $2)\n                   ORDER BY ",
        (SqlDialect::Postgres, SearchTable::Connections, false) => "SELECT id, entity_id, name, description, type, connected_areas,\n                          available_period, tags, gnd, created_at, updated_at\n                   FROM connections\n                   WHERE entity_id = $1 AND (name LIKE $2 OR description LIKE $2)\n                   ORDER BY ",
        (SqlDialect::Postgres, SearchTable::Merchants, true) => "SELECT id, entity_id, area_id, name, description, chain, beacon_code, type,\n                          color, tags, location, style, polygon, available_period, opening_hours,\n                          email, phone, website, social_media, created_at, updated_at\n                   FROM merchants\n                   WHERE entity_id = $1 AND (name ILIKE $2 OR description ILIKE $2 OR beacon_code ILIKE $2)\n                   ORDER BY ",
        (SqlDialect::Postgres, SearchTable::Merchants, false) => "SELECT id, entity_id, area_id, name, description, chain, beacon_code, type,\n                          color, tags, location, style, polygon, available_period, opening_hours,\n                          email, phone, website, social_media, created_at, updated_at\n                   FROM merchants\n                   WHERE entity_id = $1 AND (name LIKE $2 OR description LIKE $2 OR beacon_code LIKE $2)\n                   ORDER BY ",
        (SqlDialect::Postgres, SearchTable::MerchantsInArea, true) => "SELECT id, entity_id, area_id, name, description, chain, beacon_code, type,\n                          color, tags, location, style, polygon, available_period, opening_hours,\n                          email, phone, website, social_media, created_at, updated_at\n                   FROM merchants\n                   WHERE entity_id = $1 AND area_id = $2 AND (name ILIKE $3 OR description ILIKE $3 OR beacon_code ILIKE $3)\n                   ORDER BY ",
        (SqlDialect::Postgres, SearchTable::MerchantsInArea, false) => "SELECT id, entity_id, area_id, name, description, chain, beacon_code, type,\n                          color, tags, location, style, polygon, available_period, opening_hours,\n                          email, phone, website, social_media, created_at, updated_at\n                   FROM merchants\n                   WHERE entity_id = $1 AND area_id = $2 AND (name LIKE $3 OR description LIKE $3 OR beacon_code LIKE $3)\n                   ORDER BY ",
        (SqlDialect::Sqlite, SearchTable::Areas, true) => "SELECT id, entity_id, name, description, floor_type, floor_name, beacon_code, polygon_wkb,\n                          created_at, updated_at\n                   FROM areas\n                   WHERE entity_id = ?1 AND (name LIKE ?2 COLLATE NOCASE OR description LIKE ?2 COLLATE NOCASE OR beacon_code LIKE ?2 COLLATE NOCASE)\n                   ORDER BY ",
        (SqlDialect::Sqlite, SearchTable::Areas, false) => "SELECT id, entity_id, name, description, floor_type, floor_name, beacon_code, polygon_wkb,\n                          created_at, updated_at\n                   FROM areas\n                   WHERE entity_id = ?1 AND (name LIKE ?2 OR description LIKE ?2 OR beacon_code LIKE ?2)\n                   ORDER BY ",
        (SqlDialect::Sqlite, SearchTable::Beacons, true) => "SELECT id, entity_id, area_id, merchant_id, connection_id, name, description,\n                          type, location_wkb, device, mac, created_at, updated_at\n                   FROM beacons\n                   WHERE entity_id = ?1 AND (name LIKE ?2 COLLATE NOCASE OR description LIKE ?2 COLLATE NOCASE OR mac LIKE ?2 COLLATE NOCASE)\n                   ORDER BY ",
        (SqlDialect::Sqlite, SearchTable::Beacons, false) => "SELECT id, entity_id, area_id, merchant_id, connection_id, name, description,\n                          type, location_wkb, device, mac, created_at, updated_at\n                   FROM beacons\n                   WHERE entity_id = ?1 AND (name LIKE ?2 OR description LIKE ?2 OR mac LIKE ?2)\n                   ORDER BY ",
        (SqlDialect::Sqlite, SearchTable::Connections, true) => "SELECT id, entity_id, name, description, type, connected_areas,\n                          available_period, tags, gnd_wkb, created_at, updated_at\n                   FROM connections\n                   WHERE entity_id = ?1 AND (name LIKE ?2 COLLATE NOCASE OR description LIKE ?2 COLLATE NOCASE)\n                   ORDER BY ",
        (SqlDialect::Sqlite, SearchTable::Connections, false) => "SELECT id, entity_id, name, description, type, connected_areas,\n                          available_period, tags, gnd_wkb, created_at, updated_at\n                   FROM connections\n                   WHERE entity_id = ?1 AND (name LIKE ?2 OR description LIKE ?2)\n                   ORDER BY ",
        (SqlDialect::Sqlite, SearchTable::Merchants, true) => "SELECT id, entity_id, area_id, name, description, chain, beacon_code, type,\n                          color, tags, location_wkb, style, polygon_wkb, available_period, opening_hours,\n                          email, phone, website, social_media, created_at, updated_at\n                   FROM merchants\n                   WHERE entity_id = ?1 AND (name LIKE ?2 COLLATE NOCASE OR description LIKE ?2 COLLATE NOCASE OR beacon_code LIKE ?2 COLLATE NOCASE)\n                   ORDER BY ",
        (SqlDialect::Sqlite, SearchTable::Merchants, false) => "SELECT id, entity_id, area_id, name, description, chain, beacon_code, type,\n                          color, tags, location_wkb, style, polygon_wkb, available_period, opening_hours,\n                          email, phone, website, social_media, created_at, updated_at\n                   FROM merchants\n                   WHERE entity_id = ?1 AND (name LIKE ?2 OR description LIKE ?2 OR beacon_code LIKE ?2)\n                   ORDER BY ",
        (SqlDialect::Sqlite, SearchTable::MerchantsInArea, true) => "SELECT id, entity_id, area_id, name, description, chain, beacon_code, type,\n                          color, tags, location_wkb, style, polygon_wkb, available_period, opening_hours,\n                          email, phone, website, social_media, created_at, updated_at\n                   FROM merchants\n                   WHERE entity_id = ?1 AND area_id = ?2 AND (name LIKE ?3 COLLATE NOCASE OR description LIKE ?3 COLLATE NOCASE OR beacon_code LIKE ?3 COLLATE NOCASE)\n                   ORDER BY ",
        (SqlDialect::Sqlite, SearchTable::MerchantsInArea, false) => "SELECT id, entity_id, area_id, name, description, chain, beacon_code, type,\n                          color, tags, location_wkb, style, polygon_wkb, available_period, opening_hours,\n                          email, phone, website, social_media, created_at, updated_at\n                   FROM merchants\n                   WHERE entity_id = ?1 AND area_id = ?2 AND (name LIKE ?3 OR description LIKE ?3 OR beacon_code LIKE ?3)\n                   ORDER BY ",
        _ => "",
    }
}

fn search_tail_text(dialect: SqlDialect, table: SearchTable) -> (s: &'static str)
    requires
        has_table(dialect, table),
    ensures
        s@ == search_tail(dialect, table),
{
    match (dialect, table) {
        (SqlDialect::Postgres, SearchTable::Users) => "\n                   LIMIT $2 OFFSET $3",
        (SqlDialect::Postgres, SearchTable::Entities) => "\n                   LIMIT $2 OFFSET $3",
        (SqlDialect::Postgres, SearchTable::Areas) => "\n                   LIMIT $3 OFFSET $4",
        (SqlDialect::Postgres, SearchTable::Beacons) => "\n                   LIMIT $3 OFFSET $4",
        (SqlDialect::Postgres, SearchTable::Connections) => "\n                   LIMIT $3 OFFSET $4",
        (SqlDialect::Postgres, SearchTable::Merchants) => "\n                   LIMIT $3 OFFSET $4",
        (SqlDialect::Postgres, SearchTable::MerchantsInArea) => "\n                   LIMIT $4 OFFSET $5",
        (SqlDialect::Sqlite, SearchTable::Areas) => "\n                   LIMIT ?3 OFFSET ?4",
        (SqlDialect::Sqlite, SearchTable::Beacons) => "\n                   LIMIT ?3 OFFSET ?4",
        (SqlDialect::Sqlite, SearchTable::Connections) => "\n                   LIMIT ?3 OFFSET ?4",
        (SqlDialect::Sqlite, SearchTable::Merchants) => "\n                   LIMIT ?3 OFFSET ?4",
        (SqlDialect::Sqlite, SearchTable::MerchantsInArea) => "\n                   LIMIT ?4 OFFSET ?5",
        _ => "",
    }
}

/// The full text of a search of `table` sorted by `order_by` in `direction`.
pub open spec fn search_sql(
    dialect: SqlDialect,
    table: SearchTable,
    case_insensitive: bool,
    order_by: Seq<char>,
    direction: Seq<char>,
) -> Seq<char> {
    search_head(dialect, table, case_insensitive) + order_by + seq![' '] + direction + search_tail(
        dialect,
        table,
    )
}

/// The pattern a search text is matched with: the text anywhere in the field.
pub fn like_pattern(query: &str) -> (p: String)
    ensures
        p@ == seq!['%'] + query@ + seq!['%'],
{
    proof {
        reveal_strlit("%");
    }
    let mut p = String::from_str("%");
    p.append(query);
    p.append("%");
    p
}

/// The column a search is sorted by: the one asked for, else the creation time.
pub fn order_column<'a>(sort: Option<&'a str>) -> (c: &'a str)
    ensures
        c@ == match sort {
            Some(s) => s@,
            None => "created_at"@,
        },
{
    match sort {
        Some(s) => s,
        None => "created_at",
    }
}

/// The sort direction keyword.
pub fn sort_direction(asc: bool) -> (d: &'static str)
    ensures
        d@ == if asc {
            "ASC"@
        } else {
            "DESC"@
        },
{
    if asc {
        "ASC"
    } else {
        "DESC"
    }
}

/// A search ready to run: its text and the pattern bound to it.
#[derive(Debug, Clone)]
pub struct SearchQuery {
    pub sql: String,
    pub pattern: String,
}

/// The search of `table` for a text: sorted by the column asked for (the creation time by
/// default), ascending or descending, matching the text anywhere in the searched fields;
/// `None` for a table the database of `dialect` does not hold.
pub fn search_query(
    dialect: SqlDialect,
    table: SearchTable,
    query: &str,
    case_insensitive: bool,
    sort: Option<&str>,
    asc: bool,
) -> (q: Option<SearchQuery>)
    ensures
        q is Some <==> has_table(dialect, table),
        q matches Some(q) ==> q.pattern@ == seq!['%'] + query@ + seq!['%'] && q.sql@ == search_sql(
            dialect,
            table,
            case_insensitive,
            match sort {
                Some(s) => s@,
                None => "created_at"@,
            },
            if asc {
                "ASC"@
            } else {
                "DESC"@
            },
        ),
{
    let held = match (dialect, table) {
        (SqlDialect::Sqlite, SearchTable::Users) => false,
        (SqlDialect::Sqlite, SearchTable::Entities) => false,
        _ => true,
    };
    if !held {
        return None;
    }
    let pattern = like_pattern(query);
    let order_by = order_column(sort);
    let direction = sort_direction(asc);
    let mut sql = String::from_str(search_head_text(dialect, table, case_insensitive));
    sql.append(order_by);
    proof {
        reveal_strlit(" ");
    }
    sql.append(" ");
    sql.append(direction);
    sql.append(search_tail_text(dialect, table));
    Some(SearchQuery { sql, pattern })
}

/// The fields a search of `table` matches its pattern against.
pub open spec fn searched_fields(table: SearchTable) -> Seq<Seq<char>> {
    match table {
        SearchTable::Users => seq!["username"@, "email"@],
        SearchTable::Entities => seq!["name"@, "description"@],
        SearchTable::Areas => seq!["name"@, "description"@, "beacon_code"@],
        SearchTable::Beacons => seq!["name"@, "description"@, "mac"@],
        SearchTable::Connections => seq!["name"@, "description"@],
        SearchTable::Merchants => seq!["name"@, "description"@, "beacon_code"@],
        SearchTable::MerchantsInArea => seq!["name"@, "description"@, "beacon_code"@],
    }
}

/// The placeholder the pattern is bound to in a search of `table`.
pub open spec fn pattern_param(dialect: SqlDialect, table: SearchTable) -> Seq<char> {
    match (dialect, table) {
        (SqlDialect::Postgres, SearchTable::Users) => "$1"@,
        (SqlDialect::Postgres, SearchTable::Entities) => "$1"@,
        (SqlDialect::Postgres, SearchTable::Areas) => "$2"@,
        (SqlDialect::Postgres, SearchTable::Beacons) => "$2"@,
        (SqlDialect::Postgres, SearchTable::Connections) => "$2"@,
        (SqlDialect::Postgres, SearchTable::Merchants) => "$2"@,
        (SqlDialect::Postgres, SearchTable::MerchantsInArea) => "$3"@,
        (SqlDialect::Sqlite, SearchTable::Users) => "?1"@,
        (SqlDialect::Sqlite, SearchTable::Entities) => "?1"@,
        (SqlDialect::Sqlite, SearchTable::Areas) => "?2"@,
        (SqlDialect::Sqlite, SearchTable::Beacons) => "?2"@,
        (SqlDialect::Sqlite, SearchTable::Connections) => "?2"@,
        (SqlDialect::Sqlite, SearchTable::Merchants) => "?2"@,
        (SqlDialect::Sqlite, SearchTable::MerchantsInArea) => "?3"@,
    }
}

/// Whether `p` occurs in `s` at position `k`.
pub open spec fn text_at(s: Seq<char>, k: int, p: Seq<char>) -> bool {
    0 <= k && k + p.len() <= s.len() && s.subrange(k, k + p.len()) == p
}

/// Whether `p` occurs somewhere in `s`.
pub open spec fn contains_text(s: Seq<char>, p: Seq<char>) -> bool {
    exists|k: int| #[trigger] text_at(s, k, p)
}

/// On Postgres, a case-insensitive search of any table matches every searched field with
/// `ILIKE` and a case-sensitive one with `LIKE`; the case-insensitive text is one character
/// longer per field, the `I`.
pub proof fn law_postgres_search_case(table: SearchTable)
    ensures
        forall|i: int|
            0 <= i < searched_fields(table).len() ==> contains_text(
                search_head(SqlDialect::Postgres, table, true),
                #[trigger] searched_fields(table)[i] + " ILIKE "@ + pattern_param(SqlDialect::Postgres, table),
            ) && contains_text(
                search_head(SqlDialect::Postgres, table, false),
                searched_fields(table)[i] + " LIKE "@ + pattern_param(SqlDialect::Postgres, table),
            ),
        search_head(SqlDialect::Postgres, table, true).len() == search_head(SqlDialect::Postgres, table, false).len()
            + searched_fields(table).len(),
{
    match table {
        SearchTable::Users => {
            reveal_strlit("SELECT id, username, email, hashed_password, activated, privileged,\n                          created_at, updated_at\n                   FROM users\n                   WHERE username ILIKE $1 OR email ILIKE $1\n                   ORDER BY ");
            reveal_strlit("SELECT id, username, email, hashed_password, activated, privileged,\n                          created_at, updated_at\n                   FROM users\n                   WHERE username LIKE $1 OR email LIKE $1\n                   ORDER BY ");
            reveal_strlit(" COLLATE NOCASE");
            reveal_strlit(" ILIKE ");
            reveal_strlit(" LIKE ");
            reveal_strlit(" OR");
            reveal_strlit("$1");
            reveal_strlit(")");
            reveal_strlit("email");
            reveal_strlit("username");
            assert forall|i: int| 0 <= i < searched_fields(table).len() implies (
                contains_text(search_head(SqlDialect::Postgres, table, true), #[trigger] searched_fields(table)[i] + " ILIKE "@ + pattern_param(SqlDialect::Postgres, table))
                && contains_text(search_head(SqlDialect::Postgres, table, false), searched_fields(table)[i] + " LIKE "@ + pattern_param(SqlDialect::Postgres, table))) by {
                if i == 0 {
                    assert(search_head(SqlDialect::Postgres, table, true).subrange(172, 189) =~= "username"@ + " ILIKE "@ + "$1"@);
                    assert(text_at(search_head(SqlDialect::Postgres, table, true), 172, "username"@ + " ILIKE "@ + "$1"@));
                    assert(search_head(SqlDialect::Postgres, table, false).subrange(172, 188) =~= "username"@ + " LIKE "@ + "$1"@);
                    assert(text_at(search_head(SqlDialect::Postgres, table, false), 172, "username"@ + " LIKE "@ + "$1"@));
                } else if i == 1 {
                    assert(search_head(SqlDialect::Postgres, table, true).subrange(193, 207) =~= "email"@ + " ILIKE "@ + "$1"@);
                    assert(text_at(search_head(SqlDialect::Postgres, table, true), 193, "email"@ + " ILIKE "@ + "$1"@));
                    assert(search_head(SqlDialect::Postgres, table, false).subrange(192, 205) =~= "email"@ + " LIKE "@ + "$1"@);
                    assert(text_at(search_head(SqlDialect::Postgres, table, false), 192, "email"@ + " LIKE "@ + "$1"@));
                }
            }
        },
        SearchTable::Entities => {
            reveal_strlit("SELECT id, type, name, description, point_min, point_max,\n                          altitude_min, altitude_max, nation, region, city, tags,\n                          created_at, updated_at\n                   FROM entities\n                   WHERE name ILIKE $1 OR description ILIKE $1\n                   ORDER BY ");
            reveal_strlit("SELECT id, type, name, description, point_min, point_max,\n                          altitude_min, altitude_max, nation, region, city, tags,\n                          created_at, updated_at\n                   FROM entities\n                   WHERE name LIKE $1 OR description LIKE $1\n                   ORDER BY ");
            reveal_strlit(" COLLATE NOCASE");
            reveal_strlit(" ILIKE ");
            reveal_strlit(" LIKE ");
            reveal_strlit(" OR");
            reveal_strlit("$1");
            reveal_strlit(")");
            reveal_strlit("description");
            reveal_strlit("name");
            assert forall|i: int| 0 <= i < searched_fields(table).len() implies (
                contains_text(search_head(SqlDialect::Postgres, table, true), #[trigger] searched_fields(table)[i] + " ILIKE "@ + pattern_param(SqlDialect::Postgres, table))
                && contains_text(search_head(SqlDialect::Postgres, table, false), searched_fields(table)[i] + " LIKE "@ + pattern_param(SqlDialect::Postgres, table))) by {
                if i == 0 {
                    assert(search_head(SqlDialect::Postgres, table, true).subrange(247, 260) =~= "name"@ + " ILIKE "@ + "$1"@);
                    assert(text_at(search_head(SqlDialect::Postgres, table, true), 247, "name"@ + " ILIKE "@ + "$1"@));
                    assert(search_head(SqlDialect::Postgres, table, false).subrange(247, 259) =~= "name"@ + " LIKE "@ + "$1"@);
                    assert(text_at(search_head(SqlDialect::Postgres, table, false), 247, "name"@ + " LIKE "@ + "$1"@));
                } else if i == 1 {
                    assert(search_head(SqlDialect::Postgres, table, true).subrange(264, 284) =~= "description"@ + " ILIKE "@ + "$1"@);
                    assert(text_at(search_head(SqlDialect::Postgres, table, true), 264, "description"@ + " ILIKE "@ + "$1"@));
                    assert(search_head(SqlDialect::Postgres, table, false).subrange(263, 282) =~= "description"@ + " LIKE "@ + "$1"@);
                    assert(text_at(search_head(SqlDialect::Postgres, table, false), 263, "description"@ + " LIKE "@ + "$1"@));
                }
            }
        },
        SearchTable::Areas => {
            reveal_strlit("SELECT id, entity_id, name, description, floor_type, floor_name, beacon_code, polygon,\n                          created_at, updated_at\n                   FROM areas\n                   WHERE entity_id = $1 AND (name ILIKE $2 OR description ILIKE $2 OR beacon_code ILIKE $2)\n                   ORDER BY ");
            reveal_strlit("SELECT id, entity_id, name, description, floor_type, floor_name, beacon_code, polygon,\n                          created_at, updated_at\n                   FROM areas\n                   WHERE entity_id = $1 AND (name LIKE $2 OR description LIKE $2 OR beacon_code LIKE $2)\n                   ORDER BY ");
            reveal_strlit(" COLLATE NOCASE");
            reveal_strlit(" ILIKE ");
            reveal_strlit(" LIKE ");
            reveal_strlit(" OR");
            reveal_strlit("$2");
            reveal_strlit(")");
            reveal_strlit("beacon_code");
            reveal_strlit("description");
            reveal_strlit("name");
            assert forall|i: int| 0 <= i < searched_fields(table).len() implies (
                contains_text(search_head(SqlDialect::Postgres, table, true), #[trigger] searched_fields(table)[i] + " ILIKE "@ + pattern_param(SqlDialect::Postgres, table))
                && contains_text(search_head(SqlDialect::Postgres, table, false), searched_fields(table)[i] + " LIKE "@ + pattern_param(SqlDialect::Postgres, table))) by {
                if i == 0 {
                    assert(search_head(SqlDialect::Postgres, table, true).subrange(211, 224) =~= "name"@ + " ILIKE "@ + "$2"@);
                    assert(text_at(search_head(SqlDialect::Postgres, table, true), 211, "name"@ + " ILIKE "@ + "$2"@));
                    assert(search_head(SqlDialect::Postgres, table, false).subrange(211, 223) =~= "name"@ + " LIKE "@ + "$2"@);
                    assert(text_at(search_head(SqlDialect::Postgres, table, false), 211, "name"@ + " LIKE "@ + "$2"@));
                } else if i == 1 {
                    assert(search_head(SqlDialect::Postgres, table, true).subrange(228, 248) =~= "description"@ + " ILIKE "@ + "$2"@);
                    assert(text_at(search_head(SqlDialect::Postgres, table, true), 228, "description"@ + " ILIKE "@ + "$2"@));
                    assert(search_head(SqlDialect::Postgres, table, false).subrange(227, 246) =~= "description"@ + " LIKE "@ + "$2"@);
                    assert(text_at(search_head(SqlDialect::Postgres, table, false), 227, "description"@ + " LIKE "@ + "$2"@));
                } else if i == 2 {
                    assert(search_head(SqlDialect::Postgres, table, true).subrange(252, 272) =~= "beacon_code"@ + " ILIKE "@ + "$2"@);
                    assert(text_at(search_head(SqlDialect::Postgres, table, true), 252, "beacon_code"@ + " ILIKE "@ + "$2"@));
                    assert(search_head(SqlDialect::Postgres, table, false).subrange(250, 269) =~= "beacon_code"@ + " LIKE "@ + "$2"@);
                    assert(text_at(search_head(SqlDialect::Postgres, table, false), 250, "beacon_code"@ + " LIKE "@ + "$2"@));
                }
            }
        },
        SearchTable::Beacons => {
            reveal_strlit("SELECT id, entity_id, area_id, merchant_id, connection_id, name, description, type, location, device, mac,\n                          created_at, updated_at\n                   FROM beacons\n                   WHERE entity_id = $1 AND (name ILIKE $2 OR description ILIKE $2 OR mac ILIKE $2)\n                   ORDER BY ");
            reveal_strlit("SELECT id, entity_id, area_id, merchant_id, connection_id, name, description, type, location, device, mac,\n                          created_at, updated_at\n                   FROM beacons\n                   WHERE entity_id = $1 AND (name LIKE $2 OR description LIKE $2 OR mac LIKE $2)\n                   ORDER BY ");
            reveal_strlit(" COLLATE NOCASE");
            reveal_strlit(" ILIKE ");
            reveal_strlit(" LIKE ");
            reveal_strlit(" OR");
            reveal_strlit("$2");
            reveal_strlit(")");
            reveal_strlit("description");
            reveal_strlit("mac");
            reveal_strlit("name");
            assert forall|i: int| 0 <= i < searched_fields(table).len() implies (
                contains_text(search_head(SqlDialect::Postgres, table, true), #[trigger] searched_fields(table)[i] + " ILIKE "@ + pattern_param(SqlDialect::Postgres, table))
                && contains_text(search_head(SqlDialect::Postgres, table, false), searched_fields(table)[i] + " LIKE "@ + pattern_param(SqlDialect::Postgres, table))) by {
                if i == 0 {
                    assert(search_head(SqlDialect::Postgres, table, true).subrange(233, 246) =~= "name"@ + " ILIKE "@ + "$2"@);
                    assert(text_at(search_head(SqlDialect::Postgres, table, true), 233, "name"@ + " ILIKE "@ + "$2"@));
                    assert(search_head(SqlDialect::Postgres, table, false).subrange(233, 245) =~= "name"@ + " LIKE "@ + "$2"@);
                    assert(text_at(search_head(SqlDialect::Postgres, table, false), 233, "name"@ + " LIKE "@ + "$2"@));
                } else if i == 1 {
                    assert(search_head(SqlDialect::Postgres, table, true).subrange(250, 270) =~= "description"@ + " ILIKE "@ + "$2"@);
                    assert(text_at(search_head(SqlDialect::Postgres, table, true), 250, "description"@ + " ILIKE "@ + "$2"@));
                    assert(search_head(SqlDialect::Postgres, table, false).subrange(249, 268) =~= "description"@ + " LIKE "@ + "$2"@);
                    assert(text_at(search_head(SqlDialect::Postgres, table, false), 249, "description"@ + " LIKE "@ + "$2"@));
                } else if i == 2 {
                    assert(search_head(SqlDialect::Postgres, table, true).subrange(274, 286) =~= "mac"@ + " ILIKE "@ + "$2"@);
                    assert(text_at(search_head(SqlDialect::Postgres, table, true), 274, "mac"@ + " ILIKE "@ + "$2"@));
                    assert(search_head(SqlDialect::Postgres, table, false).subrange(272, 283) =~= "mac"@ + " LIKE "@ + "$2"@);
                    assert(text_at(search_head(SqlDialect::Postgres, table, false), 272, "mac"@ + " LIKE "@ + "$2"@));
                }
            }
        },
        SearchTable::Connections => {
            reveal_strlit("SELECT id, entity_id, name, description, type, connected_areas,\n                          available_period, tags, gnd, created_at, updated_at\n                   FROM connections\n                   WHERE entity_id = $1 AND (name ILIKE $2 OR description ILIKE $2)\n                   ORDER BY ");
            reveal_strlit("SELECT id, entity_id, name, description, type, connected_areas,\n                          available_period, tags, gnd, created_at, updated_at\n                   FROM connections\n                   WHERE entity_id = $1 AND (name LIKE $2 OR description LIKE $2)\n                   ORDER BY ");
            reveal_strlit(" COLLATE NOCASE");
            reveal_strlit(" ILIKE ");
            reveal_strlit(" LIKE ");
            reveal_strlit(" OR");
            reveal_strlit("$2");
            reveal_strlit(")");
            reveal_strlit("description");
            reveal_strlit("name");
            assert forall|i: int| 0 <= i < searched_fields(table).len() implies (
                contains_text(search_head(SqlDialect::Postgres, table, true), #[trigger] searched_fields(table)[i] + " ILIKE "@ + pattern_param(SqlDialect::Postgres, table))
                && contains_text(search_head(SqlDialect::Postgres, table, false), searched_fields(table)[i] + " LIKE "@ + pattern_param(SqlDialect::Postgres, table))) by {
                if i == 0 {
                    assert(search_head(SqlDialect::Postgres, table, true).subrange(223, 236) =~= "name"@ + " ILIKE "@ + "$2"@);
                    assert(text_at(search_head(SqlDialect::Postgres, table, true), 223, "name"@ + " ILIKE "@ + "$2"@));
                    assert(search_head(SqlDialect::Postgres, table, false).subrange(223, 235) =~= "name"@ + " LIKE "@ + "$2"@);
                    assert(text_at(search_head(SqlDialect::Postgres, table, false), 223, "name"@ + " LIKE "@ + "$2"@));
                } else if i == 1 {
                    assert(search_head(SqlDialect::Postgres, table, true).subrange(240, 260) =~= "description"@ + " ILIKE "@ + "$2"@);
                    assert(text_at(search_head(SqlDialect::Postgres, table, true), 240, "description"@ + " ILIKE "@ + "$2"@));
                    assert(search_head(SqlDialect::Postgres, table, false).subrange(239, 258) =~= "description"@ + " LIKE "@ + "$2"@);
                    assert(text_at(search_head(SqlDialect::Postgres, table, false), 239, "description"@ + " LIKE "@ + "$2"@));
                }
            }
        },
        SearchTable::Merchants => {
            reveal_strlit("SELECT id, entity_id, area_id, name, description, chain, beacon_code, type,\n                          color, tags, location, style, polygon, available_period, opening_hours,\n                          email, phone, website, social_media, created_at, updated_at\n                   FROM merchants\n                   WHERE entity_id = $1 AND (name ILIKE $2 OR description ILIKE $2 OR beacon_code ILIKE $2)\n                   ORDER BY ");
            reveal_strlit("SELECT id, entity_id, area_id, name, description, chain, beacon_code, type,\n                          color, tags, location, style, polygon, available_period, opening_hours,\n                          email, phone, website, social_media, created_at, updated_at\n                   FROM merchants\n                   WHERE entity_id = $1 AND (name LIKE $2 OR description LIKE $2 OR beacon_code LIKE $2)\n                   ORDER BY ");
            reveal_strlit(" COLLATE NOCASE");
            reveal_strlit(" ILIKE ");
            reveal_strlit(" LIKE ");
            reveal_strlit(" OR");
            reveal_strlit("$2");
            reveal_strlit(")");
            reveal_strlit("beacon_code");
            reveal_strlit("description");
            reveal_strlit("name");
            assert forall|i: int| 0 <= i < searched_fields(table).len() implies (
                contains_text(search_head(SqlDialect::Postgres, table, true), #[trigger] searched_fields(table)[i] + " ILIKE "@ + pattern_param(SqlDialect::Postgres, table))
                && contains_text(search_head(SqlDialect::Postgres, table, false), searched_fields(table)[i] + " LIKE "@ + pattern_param(SqlDialect::Postgres, table))) by {
                if i == 0 {
                    assert(search_head(SqlDialect::Postgres, table, true).subrange(339, 352) =~= "name"@ + " ILIKE "@ + "$2"@);
                    assert(text_at(search_head(SqlDialect::Postgres, table, true), 339, "name"@ + " ILIKE "@ + "$2"@));
                    assert(search_head(SqlDialect::Postgres, table, false).subrange(339, 351) =~= "name"@ + " LIKE "@ + "$2"@);
                    assert(text_at(search_head(SqlDialect::Postgres, table, false), 339, "name"@ + " LIKE "@ + "$2"@));
                } else if i == 1 {
                    assert(search_head(SqlDialect::Postgres, table, true).subrange(356, 376) =~= "description"@ + " ILIKE "@ + "$2"@);
                    assert(text_at(search_head(SqlDialect::Postgres, table, true), 356, "description"@ + " ILIKE "@ + "$2"@));
                    assert(search_head(SqlDialect::Postgres, table, false).subrange(355, 374) =~= "description"@ + " LIKE "@ + "$2"@);
                    assert(text_at(search_head(SqlDialect::Postgres, table, false), 355, "description"@ + " LIKE "@ + "$2"@));
                } else if i == 2 {
                    assert(search_head(SqlDialect::Postgres, table, true).subrange(380, 400) =~= "beacon_code"@ + " ILIKE "@ + "$2"@);
                    assert(text_at(search_head(SqlDialect::Postgres, table, true), 380, "beacon_code"@ + " ILIKE "@ + "$2"@));
                    assert(search_head(SqlDialect::Postgres, table, false).subrange(378, 397) =~= "beacon_code"@ + " LIKE "@ + "$2"@);
                    assert(text_at(search_head(SqlDialect::Postgres, table, false), 378, "beacon_code"@ + " LIKE "@ + "$2"@));
                }
            }
        },
        SearchTable::MerchantsInArea => {
            reveal_strlit("SELECT id, entity_id, area_id, name, description, chain, beacon_code, type,\n                          color, tags, location, style, polygon, available_period, opening_hours,\n                          email, phone, website, social_media, created_at, updated_at\n                   FROM merchants\n                   WHERE entity_id = $1 AND area_id = $2 AND (name ILIKE $3 OR description ILIKE $3 OR beacon_code ILIKE $3)\n                   ORDER BY ");
            reveal_strlit("SELECT id, entity_id, area_id, name, description, chain, beacon_code, type,\n                          color, tags, location, style, polygon, available_period, opening_hours,\n                          email, phone, website, social_media, created_at, updated_at\n                   FROM merchants\n                   WHERE entity_id = $1 AND area_id = $2 AND (name LIKE $3 OR description LIKE $3 OR beacon_code LIKE $3)\n                   ORDER BY ");
            reveal_strlit(" COLLATE NOCASE");
            reveal_strlit(" ILIKE ");
            reveal_strlit(" LIKE ");
            reveal_strlit(" OR");
            reveal_strlit("$3");
            reveal_strlit(")");
            reveal_strlit("beacon_code");
            reveal_strlit("description");
            reveal_strlit("name");
            assert forall|i: int| 0 <= i < searched_fields(table).len() implies (
                contains_text(search_head(SqlDialect::Postgres, table, true), #[trigger] searched_fields(table)[i] + " ILIKE "@ + pattern_param(SqlDialect::Postgres, table))
                && contains_text(search_head(SqlDialect::Postgres, table, false), searched_fields(table)[i] + " LIKE "@ + pattern_param(SqlDialect::Postgres, table))) by {
                if i == 0 {
                    assert(search_head(SqlDialect::Postgres, table, true).subrange(356, 369) =~= "name"@ + " ILIKE "@ + "$3"@);
                    assert(text_at(search_head(SqlDialect::Postgres, table, true), 356, "name"@ + " ILIKE "@ + "$3"@));
                    assert(search_head(SqlDialect::Postgres, table, false).subrange(356, 368) =~= "name"@ + " LIKE "@ + "$3"@);
                    assert(text_at(search_head(SqlDialect::Postgres, table, false), 356, "name"@ + " LIKE "@ + "$3"@));
                } else if i == 1 {
                    assert(search_head(SqlDialect::Postgres, table, true).subrange(373, 393) =~= "description"@ + " ILIKE "@ + "$3"@);
                    assert(text_at(search_head(SqlDialect::Postgres, table, true), 373, "description"@ + " ILIKE "@ + "$3"@));
                    assert(search_head(SqlDialect::Postgres, table, false).subrange(372, 391) =~= "description"@ + " LIKE "@ + "$3"@);
                    assert(text_at(search_head(SqlDialect::Postgres, table, false), 372, "description"@ + " LIKE "@ + "$3"@));
                } else if i == 2 {
                    assert(search_head(SqlDialect::Postgres, table, true).subrange(397, 417) =~= "beacon_code"@ + " ILIKE "@ + "$3"@);
                    assert(text_at(search_head(SqlDialect::Postgres, table, true), 397, "beacon_code"@ + " ILIKE "@ + "$3"@));
                    assert(search_head(SqlDialect::Postgres, table, false).subrange(395, 414) =~= "beacon_code"@ + " LIKE "@ + "$3"@);
                    assert(text_at(search_head(SqlDialect::Postgres, table, false), 395, "beacon_code"@ + " LIKE "@ + "$3"@));
                }
            }
        },
    }
}

/// On SQLite, a case-insensitive search of any table it holds matches every searched field
/// with `LIKE .. COLLATE NOCASE`, and a case-sensitive one with a plain `LIKE` followed by the
/// next field or the closing bracket.
pub proof fn law_sqlite_search_case(table: SearchTable)
    requires
        has_table(SqlDialect::Sqlite, table),
    ensures
        forall|i: int|
            0 <= i < searched_fields(table).len() ==> contains_text(
                search_head(SqlDialect::Sqlite, table, true),
                #[trigger] searched_fields(table)[i] + " LIKE "@ + pattern_param(SqlDialect::Sqlite, table)
                    + " COLLATE NOCASE"@,
            ) && contains_text(
                search_head(SqlDialect::Sqlite, table, false),
                searched_fields(table)[i] + " LIKE "@ + pattern_param(SqlDialect::Sqlite, table) + (if i
                    + 1 < searched_fields(table).len() {
                    " OR"@
                } else {
                    ")"@
                }),
            ),
{
    match table {
        SearchTable::Users => {},
        SearchTable::Entities => {},
        SearchTable::Areas => {
            reveal_strlit("SELECT id, entity_id, name, description, floor_type, floor_name, beacon_code, polygon_wkb,\n                          created_at, updated_at\n                   FROM areas\n                   WHERE entity_id = ?1 AND (name LIKE ?2 COLLATE NOCASE OR description LIKE ?2 COLLATE NOCASE OR beacon_code LIKE ?2 COLLATE NOCASE)\n                   ORDER BY ");
            reveal_strlit("SELECT id, entity_id, name, description, floor_type, floor_name, beacon_code, polygon_wkb,\n                          created_at, updated_at\n                   FROM areas\n                   WHERE entity_id = ?1 AND (name LIKE ?2 OR description LIKE ?2 OR beacon_code LIKE ?2)\n                   ORDER BY ");
            reveal_strlit(" COLLATE NOCASE");
            reveal_strlit(" ILIKE ");
            reveal_strlit(" LIKE ");
            reveal_strlit(" OR");
            reveal_strlit(")");
            reveal_strlit("?2");
            reveal_strlit("beacon_code");
            reveal_strlit("description");
            reveal_strlit("name");
            assert forall|i: int| 0 <= i < searched_fields(table).len() implies (
                contains_text(search_head(SqlDialect::Sqlite, table, true), #[trigger] searched_fields(table)[i] + " LIKE "@ + pattern_param(SqlDialect::Sqlite, table) + " COLLATE NOCASE"@)
                && contains_text(search_head(SqlDialect::Sqlite, table, false), searched_fields(table)[i] + " LIKE "@ + pattern_param(SqlDialect::Sqlite, table) + (if i + 1 < searched_fields(table).len() { " OR"@ } else { ")"@ }))) by {
                if i == 0 {
                    assert(search_head(SqlDialect::Sqlite, table, true).subrange(215, 242) =~= "name"@ + " LIKE "@ + "?2"@ + " COLLATE NOCASE"@);
                    assert(text_at(search_head(SqlDialect::Sqlite, table, true), 215, "name"@ + " LIKE "@ + "?2"@ + " COLLATE NOCASE"@));
                    assert(search_head(SqlDialect::Sqlite, table, false).subrange(215, 230) =~= "name"@ + " LIKE "@ + "?2"@ + " OR"@);
                    assert(text_at(search_head(SqlDialect::Sqlite, table, false), 215, "name"@ + " LIKE "@ + "?2"@ + " OR"@));
                } else if i == 1 {
                    assert(search_head(SqlDialect::Sqlite, table, true).subrange(246, 280) =~= "description"@ + " LIKE "@ + "?2"@ + " COLLATE NOCASE"@);
                    assert(text_at(search_head(SqlDialect::Sqlite, table, true), 246, "description"@ + " LIKE "@ + "?2"@ + " COLLATE NOCASE"@));
                    assert(search_head(SqlDialect::Sqlite, table, false).subrange(231, 253) =~= "description"@ + " LIKE "@ + "?2"@ + " OR"@);
                    assert(text_at(search_head(SqlDialect::Sqlite, table, false), 231, "description"@ + " LIKE "@ + "?2"@ + " OR"@));
                } else if i == 2 {
                    assert(search_head(SqlDialect::Sqlite, table, true).subrange(284, 318) =~= "beacon_code"@ + " LIKE "@ + "?2"@ + " COLLATE NOCASE"@);
                    assert(text_at(search_head(SqlDialect::Sqlite, table, true), 284, "beacon_code"@ + " LIKE "@ + "?2"@ + " COLLATE NOCASE"@));
                    assert(search_head(SqlDialect::Sqlite, table, false).subrange(254, 274) =~= "beacon_code"@ + " LIKE "@ + "?2"@ + ")"@);
                    assert(text_at(search_head(SqlDialect::Sqlite, table, false), 254, "beacon_code"@ + " LIKE "@ + "?2"@ + ")"@));
                }
            }
        },
        SearchTable::Beacons => {
            reveal_strlit("SELECT id, entity_id, area_id, merchant_id, connection_id, name, description,\n                          type, location_wkb, device, mac, created_at, updated_at\n                   FROM beacons\n                   WHERE entity_id = ?1 AND (name LIKE ?2 COLLATE NOCASE OR description LIKE ?2 COLLATE NOCASE OR mac LIKE ?2 COLLATE NOCASE)\n                   ORDER BY ");
            reveal_strlit("SELECT id, entity_id, area_id, merchant_id, connection_id, name, description,\n                          type, location_wkb, device, mac, created_at, updated_at\n                   FROM beacons\n                   WHERE entity_id = ?1 AND (name LIKE ?2 OR description LIKE ?2 OR mac LIKE ?2)\n                   ORDER BY ");
            reveal_strlit(" COLLATE NOCASE");
            reveal_strlit(" ILIKE ");
            reveal_strlit(" LIKE ");
            reveal_strlit(" OR");
            reveal_strlit(")");
            reveal_strlit("?2");
            reveal_strlit("description");
            reveal_strlit("mac");
            reveal_strlit("name");
            assert forall|i: int| 0 <= i < searched_fields(table).len() implies (
                contains_text(search_head(SqlDialect::Sqlite, table, true), #[trigger] searched_fields(table)[i] + " LIKE "@ + pattern_param(SqlDialect::Sqlite, table) + " COLLATE NOCASE"@)
                && contains_text(search_head(SqlDialect::Sqlite, table, false), searched_fields(table)[i] + " LIKE "@ + pattern_param(SqlDialect::Sqlite, table) + (if i + 1 < searched_fields(table).len() { " OR"@ } else { ")"@ }))) by {
                if i == 0 {
                    assert(search_head(SqlDialect::Sqlite, table, true).subrange(237, 264) =~= "name"@ + " LIKE "@ + "?2"@ + " COLLATE NOCASE"@);
                    assert(text_at(search_head(SqlDialect::Sqlite, table, true), 237, "name"@ + " LIKE "@ + "?2"@ + " COLLATE NOCASE"@));
                    assert(search_head(SqlDialect::Sqlite, table, false).subrange(237, 252) =~= "name"@ + " LIKE "@ + "?2"@ + " OR"@);
                    assert(text_at(search_head(SqlDialect::Sqlite, table, false), 237, "name"@ + " LIKE "@ + "?2"@ + " OR"@));
                } else if i == 1 {
                    assert(search_head(SqlDialect::Sqlite, table, true).subrange(268, 302) =~= "description"@ + " LIKE "@ + "?2"@ + " COLLATE NOCASE"@);
                    assert(text_at(search_head(SqlDialect::Sqlite, table, true), 268, "description"@ + " LIKE "@ + "?2"@ + " COLLATE NOCASE"@));
                    assert(search_head(SqlDialect::Sqlite, table, false).subrange(253, 275) =~= "description"@ + " LIKE "@ + "?2"@ + " OR"@);
                    assert(text_at(search_head(SqlDialect::Sqlite, table, false), 253, "description"@ + " LIKE "@ + "?2"@ + " OR"@));
                } else if i == 2 {
                    assert(search_head(SqlDialect::Sqlite, table, true).subrange(306, 332) =~= "mac"@ + " LIKE "@ + "?2"@ + " COLLATE NOCASE"@);
                    assert(text_at(search_head(SqlDialect::Sqlite, table, true), 306, "mac"@ + " LIKE "@ + "?2"@ + " COLLATE NOCASE"@));
                    assert(search_head(SqlDialect::Sqlite, table, false).subrange(276, 288) =~= "mac"@ + " LIKE "@ + "?2"@ + ")"@);
                    assert(text_at(search_head(SqlDialect::Sqlite, table, false), 276, "mac"@ + " LIKE "@ + "?2"@ + ")"@));
                }
            }
        },
        SearchTable::Connections => {
            reveal_strlit("SELECT id, entity_id, name, description, type, connected_areas,\n                          available_period, tags, gnd_wkb, created_at, updated_at\n                   FROM connections\n                   WHERE entity_id = ?1 AND (name LIKE ?2 COLLATE NOCASE OR description LIKE ?2 COLLATE NOCASE)\n                   ORDER BY ");
            reveal_strlit("SELECT id, entity_id, name, description, type, connected_areas,\n                          available_period, tags, gnd_wkb, created_at, updated_at\n                   FROM connections\n                   WHERE entity_id = ?1 AND (name LIKE ?2 OR description LIKE ?2)\n                   ORDER BY ");
            reveal_strlit(" COLLATE NOCASE");
            reveal_strlit(" ILIKE ");
            reveal_strlit(" LIKE ");
            reveal_strlit(" OR");
            reveal_strlit(")");
            reveal_strlit("?2");
            reveal_strlit("description");
            reveal_strlit("name");
            assert forall|i: int| 0 <= i < searched_fields(table).len() implies (
                contains_text(search_head(SqlDialect::Sqlite, table, true), #[trigger] searched_fields(table)[i] + " LIKE "@ + pattern_param(SqlDialect::Sqlite, table) + " COLLATE NOCASE"@)
                && contains_text(search_head(SqlDialect::Sqlite, table, false), searched_fields(table)[i] + " LIKE "@ + pattern_param(SqlDialect::Sqlite, table) + (if i + 1 < searched_fields(table).len() { " OR"@ } else { ")"@ }))) by {
                if i == 0 {
                    assert(search_head(SqlDialect::Sqlite, table, true).subrange(227, 254) =~= "name"@ + " LIKE "@ + "?2"@ + " COLLATE NOCASE"@);
                    assert(text_at(search_head(SqlDialect::Sqlite, table, true), 227, "name"@ + " LIKE "@ + "?2"@ + " COLLATE NOCASE"@));
                    assert(search_head(SqlDialect::Sqlite, table, false).subrange(227, 242) =~= "name"@ + " LIKE "@ + "?2"@ + " OR"@);
                    assert(text_at(search_head(SqlDialect::Sqlite, table, false), 227, "name"@ + " LIKE "@ + "?2"@ + " OR"@));
                } else if i == 1 {
                    assert(search_head(SqlDialect::Sqlite, table, true).subrange(258, 292) =~= "description"@ + " LIKE "@ + "?2"@ + " COLLATE NOCASE"@);
                    assert(text_at(search_head(SqlDialect::Sqlite, table, true), 258, "description"@ + " LIKE "@ + "?2"@ + " COLLATE NOCASE"@));
                    assert(search_head(SqlDialect::Sqlite, table, false).subrange(243, 263) =~= "description"@ + " LIKE "@ + "?2"@ + ")"@);
                    assert(text_at(search_head(SqlDialect::Sqlite, table, false), 243, "description"@ + " LIKE "@ + "?2"@ + ")"@));
                }
            }
        },
        SearchTable::Merchants => {
            reveal_strlit("SELECT id, entity_id, area_id, name, description, chain, beacon_code, type,\n                          color, tags, location_wkb, style, polygon_wkb, available_period, opening_hours,\n                          email, phone, website, social_media, created_at, updated_at\n                   FROM merchants\n                   WHERE entity_id = ?1 AND (name LIKE ?2 COLLATE NOCASE OR description LIKE ?2 COLLATE NOCASE OR beacon_code LIKE ?2 COLLATE NOCASE)\n                   ORDER BY ");
            reveal_strlit("SELECT id, entity_id, area_id, name, description, chain, beacon_code, type,\n                          color, tags, location_wkb, style, polygon_wkb, available_period, opening_hours,\n                          email, phone, website, social_media, created_at, updated_at\n                   FROM merchants\n                   WHERE entity_id = ?1 AND (name LIKE ?2 OR description LIKE ?2 OR beacon_code LIKE ?2)\n                   ORDER BY ");
            reveal_strlit(" COLLATE NOCASE");
            reveal_strlit(" ILIKE ");
            reveal_strlit(" LIKE ");
            reveal_strlit(" OR");
            reveal_strlit(")");
            reveal_strlit("?2");
            reveal_strlit("beacon_code");
            reveal_strlit("description");
            reveal_strlit("name");
            assert forall|i: int| 0 <= i < searched_fields(table).len() implies (
                contains_text(search_head(SqlDialect::Sqlite, table, true), #[trigger] searched_fields(table)[i] + " LIKE "@ + pattern_param(SqlDialect::Sqlite, table) + " COLLATE NOCASE"@)
                && contains_text(search_head(SqlDialect::Sqlite, table, false), searched_fields(table)[i] + " LIKE "@ + pattern_param(SqlDialect::Sqlite, table) + (if i + 1 < searched_fields(table).len() { " OR"@ } else { ")"@ }))) by {
                if i == 0 {
                    assert(search_head(SqlDialect::Sqlite, table, true).subrange(347, 374) =~= "name"@ + " LIKE "@ + "?2"@ + " COLLATE NOCASE"@);
                    assert(text_at(search_head(SqlDialect::Sqlite, table, true), 347, "name"@ + " LIKE "@ + "?2"@ + " COLLATE NOCASE"@));
                    assert(search_head(SqlDialect::Sqlite, table, false).subrange(347, 362) =~= "name"@ + " LIKE "@ + "?2"@ + " OR"@);
                    assert(text_at(search_head(SqlDialect::Sqlite, table, false), 347, "name"@ + " LIKE "@ + "?2"@ + " OR"@));
                } else if i == 1 {
                    assert(search_head(SqlDialect::Sqlite, table, true).subrange(378, 412) =~= "description"@ + " LIKE "@ + "?2"@ + " COLLATE NOCASE"@);
                    assert(text_at(search_head(SqlDialect::Sqlite, table, true), 378, "description"@ + " LIKE "@ + "?2"@ + " COLLATE NOCASE"@));
                    assert(search_head(SqlDialect::Sqlite, table, false).subrange(363, 385) =~= "description"@ + " LIKE "@ + "?2"@ + " OR"@);
                    assert(text_at(search_head(SqlDialect::Sqlite, table, false), 363, "description"@ + " LIKE "@ + "?2"@ + " OR"@));
                } else if i == 2 {
                    assert(search_head(SqlDialect::Sqlite, table, true).subrange(416, 450) =~= "beacon_code"@ + " LIKE "@ + "?2"@ + " COLLATE NOCASE"@);
                    assert(text_at(search_head(SqlDialect::Sqlite, table, true), 416, "beacon_code"@ + " LIKE "@ + "?2"@ + " COLLATE NOCASE"@));
                    assert(search_head(SqlDialect::Sqlite, table, false).subrange(386, 406) =~= "beacon_code"@ + " LIKE "@ + "?2"@ + ")"@);
                    assert(text_at(search_head(SqlDialect::Sqlite, table, false), 386, "beacon_code"@ + " LIKE "@ + "?2"@ + ")"@));
                }
            }
        },
        SearchTable::MerchantsInArea => {
            reveal_strlit("SELECT id, entity_id, area_id, name, description, chain, beacon_code, type,\n                          color, tags, location_wkb, style, polygon_wkb, available_period, opening_hours,\n                          email, phone, website, social_media, created_at, updated_at\n                   FROM merchants\n                   WHERE entity_id = ?1 AND area_id = ?2 AND (name LIKE ?3 COLLATE NOCASE OR description LIKE ?3 COLLATE NOCASE OR beacon_code LIKE ?3 COLLATE NOCASE)\n                   ORDER BY ");
            reveal_strlit("SELECT id, entity_id, area_id, name, description, chain, beacon_code, type,\n                          color, tags, location_wkb, style, polygon_wkb, available_period, opening_hours,\n                          email, phone, website, social_media, created_at, updated_at\n                   FROM merchants\n                   WHERE entity_id = ?1 AND area_id = ?2 AND (name LIKE ?3 OR description LIKE ?3 OR beacon_code LIKE ?3)\n                   ORDER BY ");
            reveal_strlit(" COLLATE NOCASE");
            reveal_strlit(" ILIKE ");
            reveal_strlit(" LIKE ");
            reveal_strlit(" OR");
            reveal_strlit(")");
            reveal_strlit("?3");
            reveal_strlit("beacon_code");
            reveal_strlit("description");
            reveal_strlit("name");
            assert forall|i: int| 0 <= i < searched_fields(table).len() implies (
                contains_text(search_head(SqlDialect::Sqlite, table, true), #[trigger] searched_fields(table)[i] + " LIKE "@ + pattern_param(SqlDialect::Sqlite, table) + " COLLATE NOCASE"@)
                && contains_text(search_head(SqlDialect::Sqlite, table, false), searched_fields(table)[i] + " LIKE "@ + pattern_param(SqlDialect::Sqlite, table) + (if i + 1 < searched_fields(table).len() { " OR"@ } else { ")"@ }))) by {
                if i == 0 {
                    assert(search_head(SqlDialect::Sqlite, table, true).subrange(364, 391) =~= "name"@ + " LIKE "@ + "?3"@ + " COLLATE NOCASE"@);
                    assert(text_at(search_head(SqlDialect::Sqlite, table, true), 364, "name"@ + " LIKE "@ + "?3"@ + " COLLATE NOCASE"@));
                    assert(search_head(SqlDialect::Sqlite, table, false).subrange(364, 379) =~= "name"@ + " LIKE "@ + "?3"@ + " OR"@);
                    assert(text_at(search_head(SqlDialect::Sqlite, table, false), 364, "name"@ + " LIKE "@ + "?3"@ + " OR"@));
                } else if i == 1 {
                    assert(search_head(SqlDialect::Sqlite, table, true).subrange(395, 429) =~= "description"@ + " LIKE "@ + "?3"@ + " COLLATE NOCASE"@);
                    assert(text_at(search_head(SqlDialect::Sqlite, table, true), 395, "description"@ + " LIKE "@ + "?3"@ + " COLLATE NOCASE"@));
                    assert(search_head(SqlDialect::Sqlite, table, false).subrange(380, 402) =~= "description"@ + " LIKE "@ + "?3"@ + " OR"@);
                    assert(text_at(search_head(SqlDialect::Sqlite, table, false), 380, "description"@ + " LIKE "@ + "?3"@ + " OR"@));
                } else if i == 2 {
                    assert(search_head(SqlDialect::Sqlite, table, true).subrange(433, 467) =~= "beacon_code"@ + " LIKE "@ + "?3"@ + " COLLATE NOCASE"@);
                    assert(text_at(search_head(SqlDialect::Sqlite, table, true), 433, "beacon_code"@ + " LIKE "@ + "?3"@ + " COLLATE NOCASE"@));
                    assert(search_head(SqlDialect::Sqlite, table, false).subrange(403, 423) =~= "beacon_code"@ + " LIKE "@ + "?3"@ + ")"@);
                    assert(text_at(search_head(SqlDialect::Sqlite, table, false), 403, "beacon_code"@ + " LIKE "@ + "?3"@ + ")"@));
                }
            }
        },
    }
}

} // verus!
