use navign::schema::account::{AuthenticationType, ReadQuery, UnlockStage};
use navign::schema::firmware::FirmwareDevice;
use navign::schema::merchant::MerchantStyle;
use navign::schema::query::{search_query, SearchTable, SqlDialect};
use navign::schema::places::{BeaconDevice, BeaconType, ConnectionType, EntityType, Floor, FloorType};
use navign::schema::provisioning::{BluFiState, WiFiSecurityMode};

#[test]
fn test_wifi_security_modes() {
    let modes = [
        WiFiSecurityMode::Open,
        WiFiSecurityMode::Wpa2Psk,
        WiFiSecurityMode::Wpa3Psk,
    ];
    assert_eq!(modes.len(), 3);
}

#[test]
fn test_blufi_state_transitions() {
    let state = BluFiState::Idle;
    assert_eq!(state, BluFiState::Idle);
    let state = BluFiState::Scanning;
    assert_eq!(state, BluFiState::Scanning);
}

#[test]
fn test_read_query_default_none() {
    let query = ReadQuery {
        offset: None,
        limit: None,
        query: None,
        sort: None,
        asc: None,
        case_sensitive: None,
    };
    assert!(query.offset.is_none());
    assert!(query.limit.is_none());
    assert!(query.query.is_none());
    assert!(query.sort.is_none());
    assert!(query.asc.is_none());
    assert!(query.case_sensitive.is_none());
}

#[test]
fn test_read_query_with_pagination() {
    let query = ReadQuery {
        offset: Some(10),
        limit: Some(20),
        query: None,
        sort: None,
        asc: None,
        case_sensitive: None,
    };
    assert_eq!(query.offset, Some(10));
    assert_eq!(query.limit, Some(20));
}

#[test]
fn test_read_query_with_sorting() {
    let query = ReadQuery {
        offset: None,
        limit: None,
        query: None,
        sort: Some(String::from("name")),
        asc: Some(true),
        case_sensitive: None,
    };
    assert_eq!(query.sort, Some(String::from("name")));
    assert_eq!(query.asc, Some(true));
}

#[test]
fn test_read_query_default() {
    let query = ReadQuery::default();
    assert!(query.offset.is_none());
    assert!(query.limit.is_none());
    assert!(query.query.is_none());
    assert!(query.sort.is_none());
    assert!(query.asc.is_none());
    assert!(query.case_sensitive.is_none());
}

#[test]
fn firmware_device_names_round_trip() {
    let all = [
        FirmwareDevice::Esp32,
        FirmwareDevice::Esp32C3,
        FirmwareDevice::Esp32C5,
        FirmwareDevice::Esp32C6,
        FirmwareDevice::Esp32S3,
    ];
    for d in all {
        assert_eq!(FirmwareDevice::from_str(d.as_str()), Some(d));
    }
    assert_eq!(FirmwareDevice::Esp32C6.as_str(), "esp32c6");
    assert_eq!(FirmwareDevice::from_str("esp32s3"), Some(FirmwareDevice::Esp32S3));
    assert_eq!(FirmwareDevice::from_str("ESP32"), None);
    assert_eq!(FirmwareDevice::from_str("esp32c4"), None);
    assert_eq!(FirmwareDevice::from_str(""), None);
}

#[test]
fn floor_labels_and_storeys() {
    let level = Floor { floor_type: FloorType::Level, name: 0 };
    let floor = Floor { floor_type: FloorType::Floor, name: 12 };
    let basement = Floor { floor_type: FloorType::Basement, name: 2 };
    assert_eq!(level.to_string(), "L0");
    assert_eq!(floor.to_string(), "12F");
    assert_eq!(basement.to_string(), "B2");
    assert_eq!(i32::from(level), 1);
    assert_eq!(i32::from(floor), 12);
    assert_eq!(i32::from(basement), -2);
    assert_eq!(FloorType::Basement.to_string(), "Basement");
    assert_eq!(Floor { floor_type: FloorType::Level, name: 4_000_000_000 }.to_string(), "L4000000000");
}

#[test]
fn floor_storey_wraps_at_the_edges() {
    assert_eq!(i32::from(Floor { floor_type: FloorType::Level, name: 0x7fff_ffff }), i32::MIN);
    assert_eq!(i32::from(Floor { floor_type: FloorType::Basement, name: 0x8000_0000 }), i32::MIN);
    assert_eq!(i32::from(Floor { floor_type: FloorType::Floor, name: 0xffff_ffff }), -1);
}

#[test]
fn display_names_of_kinds() {
    assert_eq!(BeaconDevice::Esp32C3.to_string(), "esp32c3");
    assert_eq!(BeaconType::Environmental.to_string(), "environmental");
    assert_eq!(ConnectionType::Escalator.to_string(), "escalator");
    assert_eq!(EntityType::Transportation.to_string(), "Transportation");
    assert_eq!(MerchantStyle::FoodTruck.to_string(), "food-truck");
    assert_eq!(MerchantStyle::PopUp.to_string(), "pop-up");
    assert_eq!(AuthenticationType::Biometrics.to_string(), "biometrics");
    assert_eq!(UnlockStage::Completed.to_string(), "completed");
}

#[test]
fn merchant_style_names_read_back() {
    for style in [MerchantStyle::Store, MerchantStyle::Kiosk, MerchantStyle::PopUp, MerchantStyle::FoodTruck, MerchantStyle::Room] {
        assert_eq!(MerchantStyle::from_stored(&style.to_string()), style);
    }
    assert_eq!(MerchantStyle::from_stored("warehouse"), MerchantStyle::Store);
}

#[test]
fn merchant_search_text() {
    let q = search_query(SqlDialect::Postgres, SearchTable::Merchants, "cafe", true, None, false).unwrap();
    assert_eq!(q.pattern, "%cafe%");
    assert_eq!(
        q.sql,
        "SELECT id, entity_id, area_id, name, description, chain, beacon_code, type,\n                          color, tags, location, style, polygon, available_period, opening_hours,\n                          email, phone, website, social_media, created_at, updated_at\n                   FROM merchants\n                   WHERE entity_id = $1 AND (name ILIKE $2 OR description ILIKE $2 OR beacon_code ILIKE $2)\n                   ORDER BY created_at DESC\n                   LIMIT $3 OFFSET $4"
    );
    let in_area =
        search_query(SqlDialect::Sqlite, SearchTable::MerchantsInArea, "x", false, Some("name"), true).unwrap();
    assert!(in_area.sql.contains("WHERE entity_id = ?1 AND area_id = ?2 AND (name LIKE ?3 OR"));
    assert!(in_area.sql.contains("ORDER BY name ASC\n"));
    assert!(in_area.sql.ends_with("LIMIT ?4 OFFSET ?5"));
    let nocase = search_query(SqlDialect::Sqlite, SearchTable::Merchants, "x", true, None, true).unwrap();
    assert!(nocase.sql.contains("name LIKE ?2 COLLATE NOCASE"));
}

#[test]
fn account_search_text() {
    let q = search_query(SqlDialect::Postgres, SearchTable::Users, "ann", false, Some("email"), true).unwrap();
    assert_eq!(q.pattern, "%ann%");
    assert_eq!(
        q.sql,
        "SELECT id, username, email, hashed_password, activated, privileged,\n                          created_at, updated_at\n                   FROM users\n                   WHERE username LIKE $1 OR email LIKE $1\n                   ORDER BY email ASC\n                   LIMIT $2 OFFSET $3"
    );
}

#[test]
fn beacon_and_connection_search_text() {
    let b = search_query(SqlDialect::Sqlite, SearchTable::Beacons, "aa:bb", true, None, false).unwrap();
    assert!(b.sql.contains("FROM beacons"));
    assert!(b.sql.contains("mac LIKE ?2 COLLATE NOCASE"));
    assert!(b.sql.contains("ORDER BY created_at DESC\n"));
    let c = search_query(SqlDialect::Postgres, SearchTable::Connections, "lift", true, None, true).unwrap();
    assert!(c.sql.contains("WHERE entity_id = $1 AND (name ILIKE $2 OR description ILIKE $2)"));
    assert!(c.sql.ends_with("LIMIT $3 OFFSET $4"));
    let a = search_query(SqlDialect::Sqlite, SearchTable::Areas, "hall", false, None, true).unwrap();
    assert!(a.sql.contains("polygon_wkb"));
    assert!(a.sql.ends_with("LIMIT ?3 OFFSET ?4"));
}

#[test]
fn client_database_keeps_no_accounts_or_entities() {
    assert!(search_query(SqlDialect::Sqlite, SearchTable::Users, "x", true, None, true).is_none());
    assert!(search_query(SqlDialect::Sqlite, SearchTable::Entities, "x", true, None, true).is_none());
    let e = search_query(SqlDialect::Postgres, SearchTable::Entities, "mall", true, None, true).unwrap();
    assert!(e.sql.contains("FROM entities\n                   WHERE name ILIKE $1 OR description ILIKE $1"));
}
