use sha2::Digest;
use navign::client::auth::{apply_login, LoginRequest, LoginResponse, RegisterRequest, RegisterResponse};
use navign::client::locate::ActiveArea;
use navign::client::map::{route_url, ConnectivityLimits};
use navign::client::scan::{
    beacon_object_id, filter_beacons, hex_string, service_id_to_uuid, sort_by_signal,
    unknown_by_signal, ScanError, ScannedDevice,
};
use navign::unlocker::session::{beacon_timestamp, Challenge, Unlocker};

#[test]
fn test_connectivity_limits_default() {
    let limits = ConnectivityLimits::default();
    assert!(limits.elevator);
    assert!(limits.stairs);
    assert!(limits.escalator);
}

#[test]
fn test_connectivity_limits_custom() {
    let limits = ConnectivityLimits {
        elevator: false,
        stairs: true,
        escalator: false,
    };
    assert!(!limits.elevator);
    assert!(limits.stairs);
    assert!(!limits.escalator);
}

#[test]
fn test_scan_error_display() {
    assert_eq!(ScanError::NotInitialized.to_string(), "BLE not initialized");
    assert_eq!(ScanError::CannotStartScan.to_string(), "Cannot start scan");
    assert_eq!(ScanError::ScanFailed("test error".to_string()).to_string(), "Scan failed: test error");
    assert_eq!(ScanError::NoDevicesFound.to_string(), "No devices found");
}

#[test]
fn test_password_not_empty() {
    let request = LoginRequest {
        email: "user@test.com".to_string(),
        password: "mypassword".to_string(),
    };

    assert!(!request.password.is_empty());
    assert!(request.password.len() >= 5);
}

#[test]
fn test_service_id_to_uuid_conversion() {
    let uuid_1819 = uuid::Uuid::from_bytes(service_id_to_uuid(0x1819));
    assert_eq!(uuid_1819.to_string(), "00001819-0000-1000-8000-00805f9b34fb");

    let uuid_1821 = uuid::Uuid::from_bytes(service_id_to_uuid(0x1821));
    assert_eq!(uuid_1821.to_string(), "00001821-0000-1000-8000-00805f9b34fb");
}

#[test]
fn service_uuid_bytes_are_big_endian() {
    let b = service_id_to_uuid(0xABCD);
    assert_eq!(&b[0..4], &[0x00, 0x00, 0xAB, 0xCD]);
    assert_eq!(&b[4..8], &[0x00, 0x00, 0x10, 0x00]);
    assert_eq!(&b[8..16], &[0x80, 0x00, 0x00, 0x80, 0x5F, 0x9B, 0x34, 0xFB]);
}

#[test]
fn route_urls() {
    let all = route_url("https://h/", "e1", "a", "b", Some(ConnectivityLimits::default()));
    assert_eq!(all, "https://h/api/entities/e1/route?from=a&to=b");
    let none = route_url("https://h/", "e1", "a", "b", None);
    assert_eq!(none, "https://h/api/entities/e1/route?from=a&to=b");
    let limited = route_url(
        "https://h/",
        "e1",
        "a",
        "b",
        Some(ConnectivityLimits { elevator: false, stairs: true, escalator: false }),
    );
    assert_eq!(limited, "https://h/api/entities/e1/route?from=a&to=b&disallow=ec");
    let code = ConnectivityLimits { elevator: false, stairs: false, escalator: false }.disallow_code();
    assert_eq!(code, "esc");
}

fn device(address: &str, name: &str, rssi: Option<i16>) -> ScannedDevice {
    ScannedDevice { address: address.to_string(), name: name.to_string(), rssi }
}

#[test]
fn beacon_filtering_keeps_named_devices_with_signal() {
    let found = filter_beacons(vec![
        device("48:F6:EE:21:B0:7C", "NAVIGN_BEACON", Some(-45)),
        device("AA:AA:AA:AA:AA:AA", "OTHER", Some(-30)),
        device("BB:BB:BB:BB:BB:BB", "NAVIGN_BEACON", None),
        device("CC:CC:CC:CC:CC:CC", "NAVIGN_BEACON", Some(-80)),
    ])
    .unwrap();
    let addresses: Vec<&str> = found.iter().map(|d| d.address.as_str()).collect();
    assert_eq!(addresses, vec!["48:F6:EE:21:B0:7C", "CC:CC:CC:CC:CC:CC"]);
    let none = filter_beacons(vec![device("AA", "navign_beacon", Some(-1))]);
    assert_eq!(none.unwrap_err(), ScanError::NoDevicesFound);
    assert_eq!(filter_beacons(vec![]).unwrap_err(), ScanError::NoDevicesFound);
}

#[test]
fn unknown_devices_strongest_first_and_stable() {
    let devices = vec![
        device("A", "x", Some(-70)),
        device("B", "x", Some(-40)),
        device("C", "x", None),
        device("D", "x", Some(-70)),
        device("E", "x", Some(-20)),
    ];
    let known = vec![false, false, false, false, true];
    let order = unknown_by_signal(&devices, &known);
    assert_eq!(
        order,
        vec![("B".to_string(), -40), ("A".to_string(), -70), ("D".to_string(), -70)]
    );
    let sorted = sort_by_signal(vec![("p".to_string(), -5), ("q".to_string(), 3), ("r".to_string(), -5)]);
    assert_eq!(sorted, vec![("q".to_string(), 3), ("p".to_string(), -5), ("r".to_string(), -5)]);
}

#[test]
fn object_ids_are_never_accepted() {
    let id = [0xABu8; 24];
    assert_eq!(hex_string(&id).len(), 48);
    assert_eq!(beacon_object_id(&id), None);
    assert_eq!(hex_string(&[0x00, 0x0f, 0xa0, 0xff]), "000fa0ff");
}

#[test]
fn login_answers_update_the_session() {
    let mut unlocker = Unlocker::new(vec![4u8; 65], "old".to_string(), "t0".to_string());
    let ok = LoginResponse {
        success: true,
        token: Some("tok".to_string()),
        user_id: Some("user".to_string()),
        message: "welcome".to_string(),
    };
    assert_eq!(apply_login(&mut unlocker, ok), Ok(("tok".to_string(), "welcome".to_string())));
    assert_eq!(unlocker.get_user_token(), "tok");
    assert_eq!(unlocker.user_id(), "user");

    let missing = LoginResponse { success: true, token: None, user_id: Some("u2".to_string()), message: "m".to_string() };
    assert_eq!(apply_login(&mut unlocker, missing), Err("Login succeeded but token/user_id missing".to_string()));
    assert_eq!(unlocker.user_id(), "user");

    let refused = LoginResponse::rejected("401 Unauthorized");
    assert_eq!(refused.message, "Login failed with status: 401 Unauthorized");
    assert_eq!(apply_login(&mut unlocker, refused), Err("Login failed with status: 401 Unauthorized".to_string()));
    assert_eq!(unlocker.get_user_token(), "tok");
    assert_eq!(RegisterResponse::rejected("500").message, "Registration failed with status: 500");
}

#[test]
fn active_area_records() {
    let a = ActiveArea::new_at("id".to_string(), "n".to_string(), "POLYGON((0 0,1 0,1 1,0 0))".to_string(), "e".to_string(), 5, 9);
    assert_eq!(a.stored_at, 9);
    assert_eq!(a.updated_at, 5);
    let b = ActiveArea::new("id".to_string(), "n".to_string(), "p".to_string(), "e".to_string(), 7);
    assert_eq!(b.updated_at, 7);
    assert!(b.stored_at > 1_600_000_000);
    let d = ActiveArea::default();
    assert_eq!(d.id, "");
    assert_eq!(d.stored_at, 0);
}

#[test]
fn test_uuid_conversion() {
    let uuid = uuid::Uuid::from_bytes(service_id_to_uuid(0x1819));
    assert_eq!(uuid.to_string(), "00001819-0000-1000-8000-00805f9b34fb");
    let uuid = uuid::Uuid::from_bytes(service_id_to_uuid(0x1821));
    assert_eq!(uuid.to_string(), "00001821-0000-1000-8000-00805f9b34fb");
}

#[test]
fn test_service_uuid_consistency() {
    let uuid1 = service_id_to_uuid(0x1819);
    let uuid2 = service_id_to_uuid(0x1819);
    assert_eq!(uuid1, uuid2);

    let uuid_a = service_id_to_uuid(0x1819);
    let uuid_b = service_id_to_uuid(0x1821);
    assert_ne!(uuid_a, uuid_b);
}

#[test]
fn test_ble_device_filtering() {
    let mock_devices = vec![
        device("48:F6:EE:21:B0:7C", "NAVIGN_BEACON", Some(-45)),
        device("AA:BB:CC:DD:EE:FF", "OTHER_BEACON", Some(-60)),
        device("11:22:33:44:55:66", "NAVIGN_BEACON", None),
    ];

    let filtered = filter_beacons(mock_devices).unwrap_or_default();

    assert_eq!(filtered.len(), 1);
    assert_eq!(filtered[0].address, "48:F6:EE:21:B0:7C");
}

#[test]
fn test_scan_error_traits() {
    let error = ScanError::NotInitialized;

    let debug_str = format!("{:?}", error);
    assert!(debug_str.contains("NotInitialized"));

    let cloned_error = error.clone();
    assert_eq!(format!("{:?}", error), format!("{:?}", cloned_error));

    assert_eq!(error.to_string(), "BLE not initialized");
}

#[test]
fn test_beacon_filtering_edge_cases() {
    let edge_case_devices = vec![
        device("00:00:00:00:00:00", "", Some(-50)),
        device("11:11:11:11:11:11", "NAVIGN", Some(-50)),
        device("22:22:22:22:22:22", "navign_beacon", Some(-50)),
    ];

    let filtered = filter_beacons(edge_case_devices).unwrap_or_default();

    assert_eq!(filtered.len(), 0);
}

#[test]
fn test_rssi_filtering() {
    let rssi_test_devices = vec![
        device("AA:AA:AA:AA:AA:AA", "NAVIGN_BEACON", Some(-30)),
        device("BB:BB:BB:BB:BB:BB", "NAVIGN_BEACON", Some(-90)),
        device("CC:CC:CC:CC:CC:CC", "NAVIGN_BEACON", None),
    ];

    let filtered = filter_beacons(rssi_test_devices).unwrap_or_default();

    assert_eq!(filtered.len(), 2);

    let addresses: Vec<&str> = filtered.iter().map(|d| d.address.as_str()).collect();
    assert!(addresses.contains(&"AA:AA:AA:AA:AA:AA"));
    assert!(addresses.contains(&"BB:BB:BB:BB:BB:BB"));
    assert!(!addresses.contains(&"CC:CC:CC:CC:CC:CC"));
}

#[test]
fn test_login_response_success() {
    let response = LoginResponse {
        success: true,
        token: Some("jwt_token_123".to_string()),
        user_id: Some("user_456".to_string()),
        message: "Login successful".to_string(),
    };

    assert!(response.success);
    assert!(response.token.is_some());
    assert_eq!(response.token.unwrap(), "jwt_token_123");
}

#[test]
fn test_login_response_failure() {
    let response = LoginResponse {
        success: false,
        token: None,
        user_id: None,
        message: "Invalid credentials".to_string(),
    };

    assert!(!response.success);
    assert!(response.token.is_none());
    assert_eq!(response.message, "Invalid credentials");
}

#[test]
fn test_register_request_validation() {
    let request = RegisterRequest {
        email: "newuser@example.com".to_string(),
        username: "newuser".to_string(),
        password: "securepass123".to_string(),
    };

    assert_eq!(request.email, "newuser@example.com");
    assert_eq!(request.username, "newuser");
    assert!(!request.password.is_empty());
}

#[test]
fn test_register_response_success() {
    let response = RegisterResponse {
        success: true,
        user_id: Some("new_user_789".to_string()),
        message: "Registration successful".to_string(),
    };

    assert!(response.success);
    assert!(response.user_id.is_some());
}

#[test]
fn test_email_format() {
    let request = LoginRequest {
        email: "valid@email.com".to_string(),
        password: "pass".to_string(),
    };

    assert!(request.email.contains("@"));
    assert!(request.email.contains("."));
}

#[test]
fn test_register_response_error() {
    let response = RegisterResponse {
        success: false,
        user_id: None,
        message: "Email already exists".to_string(),
    };

    assert!(!response.success);
    assert!(response.user_id.is_none());
    assert!(response.message.contains("Email already exists"));
}

#[test]
fn device_proofs_count_up_and_hash_the_challenge() {
    let mut unlocker = Unlocker::new(vec![4u8; 65], "user".to_string(), "tok".to_string());
    let challenge = Challenge { nonce: [1u8; 16], timestamp: 0x0102_0304_0506_0708, server_signature: [9u8; 64] };
    let first = unlocker.generate_device_proof(&challenge);
    let second = unlocker.generate_device_proof(&challenge);
    assert_eq!(first.counter, 1);
    assert_eq!(second.counter, 2);
    assert_eq!(unlocker.counter(), 2);
    let mut data = Vec::new();
    data.extend_from_slice(&[1u8; 16]);
    data.extend_from_slice(&[1, 2, 3, 4, 5, 6, 7, 8]);
    data.extend_from_slice(&[9u8; 64]);
    let expected: [u8; 32] = sha2::Sha256::digest(&data).into();
    assert_eq!(first.challenge_hash, expected);
    assert_eq!(first.device_signature, [9u8; 64]);
    assert_eq!(first.timestamp, 0x0102_0304_0506_0708);
}

#[test]
fn beacon_time_counts_from_its_boot() {
    assert_eq!(beacon_timestamp(1_700_000_000, 1_699_999_000), Some(1000));
    assert_eq!(beacon_timestamp(5, 5), Some(0));
    assert_eq!(beacon_timestamp(5, 6), None);
}
