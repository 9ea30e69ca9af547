use navign::blufi::{
    BlufiError, BlufiMessage, BlufiPayload, ControlFrame, DataFrame, FrameControl,
    WifiAuthMode, WifiConnectionState, WifiOpmode,
};

#[test]
fn test_frame_control_flags() {
    let fc = FrameControl::new().with_encrypted().with_checksum();

    assert!(fc.is_encrypted());
    assert!(fc.has_checksum());
    assert!(!fc.is_direction_to_phone());
    assert!(!fc.requires_ack());
    assert!(!fc.is_frag());
}

#[test]
fn test_frame_control_all_flags() {
    let fc = FrameControl::new()
        .with_encrypted()
        .with_checksum()
        .with_direction_to_phone()
        .with_require_ack()
        .with_frag();

    assert_eq!(fc.0, 0x1F);
}

#[test]
fn test_wifi_opmode_conversion() {
    assert_eq!(WifiOpmode::try_from(0x00), Ok(WifiOpmode::Null));
    assert_eq!(WifiOpmode::try_from(0x01), Ok(WifiOpmode::Sta));
    assert_eq!(WifiOpmode::try_from(0x02), Ok(WifiOpmode::SoftAp));
    assert_eq!(WifiOpmode::try_from(0x03), Ok(WifiOpmode::StaSoftAp));
    assert_eq!(WifiOpmode::try_from(0x04), Err(()));
}

#[test]
fn test_opmode_is_supported() {
    assert!(!WifiOpmode::Null.is_supported());
    assert!(!WifiOpmode::Sta.is_supported());
    assert!(WifiOpmode::SoftAp.is_supported());
    assert!(!WifiOpmode::StaSoftAp.is_supported());
}

#[test]
fn test_wifi_auth_mode_conversion() {
    assert_eq!(WifiAuthMode::try_from(0x00), Ok(WifiAuthMode::Open));
    assert_eq!(WifiAuthMode::try_from(0x04), Ok(WifiAuthMode::WpaWpa2Psk));
    assert_eq!(WifiAuthMode::try_from(0x05), Err(()));
}

#[test]
fn test_connection_state_conversion() {
    assert_eq!(
        WifiConnectionState::try_from(0x00),
        Ok(WifiConnectionState::ConnectedWithIp)
    );
    assert_eq!(
        WifiConnectionState::try_from(0x01),
        Ok(WifiConnectionState::Disconnected)
    );
    assert_eq!(WifiConnectionState::try_from(0x04), Err(()));
}

#[test]
fn test_blufi_error_conversion() {
    assert_eq!(BlufiError::try_from(0x00), Ok(BlufiError::SequenceError));
    assert_eq!(BlufiError::try_from(0x0b), Ok(BlufiError::WifiScanError));
    assert_eq!(BlufiError::try_from(0x0c), Err(()));
}

#[test]
fn test_control_frame_type_byte() {
    let msg = BlufiMessage::new_control(FrameControl::new(), 0, ControlFrame::ConnectWifi);

    // ConnectWifi subtype = 0x03, type = 0b00
    assert_eq!(msg.type_byte(), 0x0C);
}

#[test]
fn test_data_frame_type_byte() {
    let msg = BlufiMessage::new_data(
        FrameControl::new(),
        0,
        DataFrame::Version { major: 1, minor: 0 },
    );

    // Version subtype = 0x10, type = 0b01
    assert_eq!(msg.type_byte(), 0x41);
}

#[test]
fn test_ack_frame_type_byte() {
    let msg = BlufiMessage::new_control(
        FrameControl::new(),
        0,
        ControlFrame::Ack { acked_sequence: 5 },
    );

    assert_eq!(msg.type_byte(), 0x00);
}

#[test]
fn test_custom_data_frame() {
    let data = vec![1, 2, 3, 4, 5];
    let msg = BlufiMessage::new_data(
        FrameControl::new().with_checksum(),
        1,
        DataFrame::CustomData { data: data.clone() },
    );

    assert_eq!(msg.sequence, 1);
    assert!(msg.frame_control.has_checksum());

    if let BlufiPayload::Data(DataFrame::CustomData { data: payload_data }) = msg.payload {
        assert_eq!(payload_data, data);
    } else {
        panic!("Expected CustomData payload");
    }
}

#[test]
fn test_sta_credentials() {
    let ssid = String::from("MyNetwork");
    let password = String::from("MyPassword123");

    let ssid_msg = BlufiMessage::new_data(
        FrameControl::new(),
        1,
        DataFrame::StaSsid { ssid: ssid.clone() },
    );

    let pwd_msg = BlufiMessage::new_data(
        FrameControl::new(),
        2,
        DataFrame::StaPassword {
            password: password.clone(),
        },
    );

    if let BlufiPayload::Data(DataFrame::StaSsid { ssid: s }) = ssid_msg.payload {
        assert_eq!(s, ssid);
    } else {
        panic!("Expected StaSsid payload");
    }

    if let BlufiPayload::Data(DataFrame::StaPassword { password: p }) = pwd_msg.payload {
        assert_eq!(p, password);
    } else {
        panic!("Expected StaPassword payload");
    }
}

#[test]
fn test_set_opmode() {
    let msg = BlufiMessage::new_control(
        FrameControl::new(),
        0,
        ControlFrame::SetOpmode {
            opmode: WifiOpmode::Sta,
        },
    );

    if let BlufiPayload::Control(ControlFrame::SetOpmode { opmode }) = msg.payload {
        assert_eq!(opmode, WifiOpmode::Sta);
    } else {
        panic!("Expected SetOpmode payload");
    }
}

#[test]
fn test_security_mode() {
    let mode = 0x33;

    let msg = BlufiMessage::new_control(
        FrameControl::new(),
        0,
        ControlFrame::SetSecurityMode { mode },
    );

    if let BlufiPayload::Control(ControlFrame::SetSecurityMode { mode: m }) = msg.payload {
        assert_eq!(m, mode);
        assert_eq!(m & 0x0F, 0x03);
        assert_eq!(m >> 4, 0x03);
    } else {
        panic!("Expected SetSecurityMode payload");
    }
}

#[test]
fn test_wifi_list() {
    let list = vec![
        (-50, String::from("Network1")),
        (-70, String::from("Network2")),
        (-80, String::from("Network3")),
    ];

    let msg = BlufiMessage::new_data(
        FrameControl::new(),
        1,
        DataFrame::WifiList {
            ssid_list: list.clone(),
        },
    );

    if let BlufiPayload::Data(DataFrame::WifiList { ssid_list }) = msg.payload {
        assert_eq!(ssid_list.len(), 3);
        assert_eq!(ssid_list[0].0, -50);
        assert_eq!(ssid_list[0].1, "Network1");
    } else {
        panic!("Expected WifiList payload");
    }
}

#[test]
fn frame_control_default_has_no_flags() {
    let fc = FrameControl::default();
    assert_eq!(fc.0, 0);
    assert!(!fc.is_encrypted() && !fc.has_checksum() && !fc.is_frag());
}

#[test]
fn type_byte_of_error_and_wifi_list_frames() {
    let err = BlufiMessage::new_data(
        FrameControl::new(),
        3,
        DataFrame::Error { error: BlufiError::WifiScanError },
    );
    // Error subtype 0x12, data type 0b01
    assert_eq!(err.type_byte(), (0x12 << 2) | 0b01);
    let list = BlufiMessage::new_data(
        FrameControl::new(),
        4,
        DataFrame::WifiList { ssid_list: vec![] },
    );
    // WiFi list subtype 0x11
    assert_eq!(list.type_byte(), (0x11 << 2) | 0b01);
    let get_list = BlufiMessage::new_control(FrameControl::new(), 5, ControlFrame::GetWifiList);
    // GetWifiList subtype 0x09, control type 0b00
    assert_eq!(get_list.type_byte(), 0x09 << 2);
}

#[test]
fn auth_mode_and_error_values_cover_their_ranges() {
    assert_eq!(WifiAuthMode::try_from(0x01), Ok(WifiAuthMode::Wep));
    assert_eq!(WifiAuthMode::try_from(0x03), Ok(WifiAuthMode::Wpa2Psk));
    assert_eq!(WifiConnectionState::try_from(0x02), Ok(WifiConnectionState::Connecting));
    assert_eq!(WifiConnectionState::try_from(0x03), Ok(WifiConnectionState::ConnectedNoIp));
    assert_eq!(BlufiError::try_from(0x01), Ok(BlufiError::ChecksumError));
    assert_eq!(BlufiError::try_from(0x05), Ok(BlufiError::DhMallocError));
    assert_eq!(BlufiError::try_from(0xff), Err(()));
}
