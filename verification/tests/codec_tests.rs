//! The wire encodings: frame framing, canonical JSON, and the text
//! helpers they rest on.

use oko::codec::bytes_eq;
use oko::codec::camera_message_json;
use oko::codec::decode_camera_message;
use oko::codec::decode_frame;
use oko::codec::encode_frame;
use oko::codec::list_change_json;
use oko::firmware::FirmwareAction;
use oko::firmware::SetupFormData;
use oko::firmware::encode_camera_settings;
use oko::firmware::firmware_event_step;
use oko::firmware::parse_camera_settings;
use oko::firmware::validate_form_data;
use oko::firmware::validate_oko_ip;
use oko::text::i64_to_string;
use oko::text::parse_uint;
use oko::text::trim_bytes;
use oko::text::u64_to_string;
use oko::types::CameraListChange;
use oko::types::CameraMessage;
use oko::types::CameraSettingNoMeta;
use oko::types::ImageContainer;

#[test]
fn frame_round_trip() {
    let frame = ImageContainer { camera_id: 2, timestamp: 1_634_876_400, image_bytes: vec![1, 2, 3] };
    let bytes = encode_frame(&frame);
    assert_eq!(bytes.len(), 20 + 3);
    let decoded = decode_frame(bytes.as_slice()).unwrap();
    assert_eq!(decoded.camera_id, 2);
    assert_eq!(decoded.timestamp, 1_634_876_400);
    assert_eq!(decoded.image_bytes, vec![1, 2, 3]);
}

#[test]
fn frame_layout_is_little_endian() {
    let frame = ImageContainer { camera_id: 0x0102, timestamp: 1, image_bytes: vec![0xaa] };
    let bytes = encode_frame(&frame);
    assert_eq!(&bytes[0..8], &[0x02, 0x01, 0, 0, 0, 0, 0, 0]);
    assert_eq!(&bytes[8..16], &[1, 0, 0, 0, 0, 0, 0, 0]);
    assert_eq!(&bytes[16..20], &[1, 0, 0, 0]);
    assert_eq!(bytes[20], 0xaa);
}

#[test]
fn frame_decode_rejects_junk() {
    assert!(decode_frame(&[]).is_none());
    assert!(decode_frame(&[0u8; 19]).is_none());
    // A length prefix that does not match the payload.
    let frame = ImageContainer { camera_id: 1, timestamp: 1, image_bytes: vec![1, 2, 3] };
    let mut bytes = encode_frame(&frame);
    bytes.push(0);
    assert!(decode_frame(bytes.as_slice()).is_none());
}

#[test]
fn restart_encodes_as_bare_string() {
    let bytes = camera_message_json(&CameraMessage::Restart);
    assert_eq!(bytes, b"\"Restart\"".to_vec());
}

#[test]
fn setting_changed_encodes_canonically() {
    let m = CameraMessage::SettingChanged(CameraSettingNoMeta {
        flashlight_enabled: true,
        resolution: "VGA".to_string(),
        framerate: 30,
    });
    let bytes = camera_message_json(&m);
    assert_eq!(
        String::from_utf8(bytes).unwrap(),
        "{\"SettingChanged\":{\"flashlight_enabled\":true,\"resolution\":\"VGA\",\"framerate\":30}}"
    );
}

#[test]
fn string_escaping_matches_serde() {
    // The JSON string escaping must agree with what serde_json emits,
    // control characters and quotes included.
    for raw in ["plain", "with \"quotes\"", "back\\slash", "tab\there", "ctrl\u{1}end", "nl\n"] {
        let m = CameraMessage::SettingChanged(CameraSettingNoMeta {
            flashlight_enabled: false,
            resolution: raw.to_string(),
            framerate: 1,
        });
        let ours = String::from_utf8(camera_message_json(&m)).unwrap();
        let serde_string =
            serde_json::to_string(&serde_json::Value::String(raw.to_string())).unwrap();
        let expected = format!(
            "{{\"SettingChanged\":{{\"flashlight_enabled\":false,\"resolution\":{},\"framerate\":1}}}}",
            serde_string
        );
        assert_eq!(ours, expected);
    }
}

#[test]
fn list_change_encodes_all_variants() {
    assert_eq!(
        list_change_json(&CameraListChange::Added { camera_id: 3 }),
        b"{\"Added\":{\"camera_id\":3}}".to_vec()
    );
    assert_eq!(
        list_change_json(&CameraListChange::Removed { camera_id: 1 }),
        b"{\"Removed\":{\"camera_id\":1}}".to_vec()
    );
    assert_eq!(
        list_change_json(&CameraListChange::Updated { camera_id: -2 }),
        b"{\"Updated\":{\"camera_id\":-2}}".to_vec()
    );
}

#[test]
fn message_decode_round_trips() {
    let setting = CameraMessage::SettingChanged(CameraSettingNoMeta {
        flashlight_enabled: true,
        resolution: "SVGA".to_string(),
        framerate: 12,
    });
    let bytes = camera_message_json(&setting);
    match decode_camera_message(bytes.as_slice()).unwrap() {
        CameraMessage::SettingChanged(s) => {
            assert!(s.flashlight_enabled);
            assert_eq!(s.resolution, "SVGA");
            assert_eq!(s.framerate, 12);
        },
        CameraMessage::Restart => panic!("expected a setting change"),
    }
    let restart = camera_message_json(&CameraMessage::Restart);
    assert!(matches!(
        decode_camera_message(restart.as_slice()).unwrap(),
        CameraMessage::Restart
    ));
}

#[test]
fn message_decode_handles_negative_and_spaced_values() {
    // Any canonical setting message with a printable resolution decodes,
    // a negative framerate included.
    let m = CameraMessage::SettingChanged(CameraSettingNoMeta {
        flashlight_enabled: false,
        resolution: "Front Door (spare)".to_string(),
        framerate: -7,
    });
    let bytes = camera_message_json(&m);
    match decode_camera_message(bytes.as_slice()).unwrap() {
        CameraMessage::SettingChanged(s) => {
            assert_eq!(s.resolution, "Front Door (spare)");
            assert_eq!(s.framerate, -7);
        },
        CameraMessage::Restart => panic!("expected a setting change"),
    }
}

#[test]
fn message_decode_rejects_noncanonical_text() {
    for junk in [
        "",
        "Restart",
        "{\"SettingChanged\":{}}",
        "{\"SettingChanged\":{\"flashlight_enabled\":true,\"resolution\":\"SVGA\",\"framerate\":007}}",
        "{\"SettingChanged\":{\"flashlight_enabled\":true,\"resolution\":\"SVGA\",\"framerate\":1}} ",
    ] {
        assert!(decode_camera_message(junk.as_bytes()).is_none());
    }
}

#[test]
fn decimal_rendering() {
    assert_eq!(u64_to_string(0), "0");
    assert_eq!(u64_to_string(1234567890), "1234567890");
    assert_eq!(i64_to_string(-42), "-42");
    assert_eq!(i64_to_string(i64::MIN), "-9223372036854775808");
    assert_eq!(i64_to_string(i64::MAX), "9223372036854775807");
}

#[test]
fn unsigned_parsing_follows_std() {
    assert_eq!(parse_uint(b"0", 255), Some(0));
    assert_eq!(parse_uint(b"255", 255), Some(255));
    assert_eq!(parse_uint(b"256", 255), None);
    // std's unsigned parsers accept a leading plus and leading zeros.
    assert_eq!(parse_uint(b"+007", 255), Some(7));
    assert_eq!(parse_uint(b"", 255), None);
    assert_eq!(parse_uint(b"+", 255), None);
    assert_eq!(parse_uint(b"1a", 255), None);
    assert_eq!(parse_uint(b"99999999999999999999", u64::MAX), None);
}

#[test]
fn trimming() {
    assert_eq!(trim_bytes(b"  a b \t\r\n"), b"a b".to_vec());
    assert_eq!(trim_bytes(b""), Vec::<u8>::new());
    assert_eq!(trim_bytes(b" \t "), Vec::<u8>::new());
}

#[test]
fn oko_address_validation() {
    assert!(validate_oko_ip("192.168.0.28:8080").is_ok());
    assert!(validate_oko_ip("  1.2.3.4:65535  ").is_ok());
    // The hub address is optional.
    assert!(validate_oko_ip("").is_ok());
    assert!(validate_oko_ip("   ").is_ok());
    // Rejected shapes.
    for bad in [
        "192.168.0.28",
        "192.168.0.28:0",
        "192.168.0.28:65536",
        "1.2.3:80",
        "1.2.3.4.5:80",
        "256.2.3.4:80",
        "1.2.3.4:8080:1",
        "1.2 .3.4:80",
        "1.2.3.4:808080808080",
        "\u{e9}1.2.3.4:80",
    ] {
        assert!(validate_oko_ip(bad).is_err(), "{bad} should be rejected");
    }
}

#[test]
fn setup_form_validation() {
    let ok = SetupFormData {
        ssid: " home ".to_string(),
        pass: "supersecret".to_string(),
        oko: "10.0.0.2:3080".to_string(),
    };
    assert!(validate_form_data(&ok).is_ok());
    let short_pass = SetupFormData {
        ssid: "home".to_string(),
        pass: "short".to_string(),
        oko: "".to_string(),
    };
    assert!(validate_form_data(&short_pass).is_err());
    let long_ssid = SetupFormData {
        ssid: "x".repeat(33),
        pass: "supersecret".to_string(),
        oko: "".to_string(),
    };
    assert!(validate_form_data(&long_ssid).is_err());
}

#[test]
fn stored_settings_round_trip() {
    let setting = CameraSettingNoMeta {
        flashlight_enabled: true,
        resolution: "VGA".to_string(),
        framerate: 24,
    };
    let (flag, rate, resolution) = encode_camera_settings(&setting);
    assert_eq!(flag, "true");
    assert_eq!(rate, "24");
    assert_eq!(resolution, "VGA");
    let back = parse_camera_settings(&flag, &rate, &resolution);
    assert!(back.flashlight_enabled);
    assert_eq!(back.framerate, 24);
    assert_eq!(back.resolution, "VGA");
}

#[test]
fn stored_settings_fall_back() {
    let parsed = parse_camera_settings("yes", "fast", "1080p");
    assert!(!parsed.flashlight_enabled);
    assert_eq!(parsed.framerate, 1);
    assert_eq!(parsed.resolution, "SVGA");
    let trimmed = parse_camera_settings(" true ", " 7 ", " SVGA ");
    assert!(trimmed.flashlight_enabled);
    assert_eq!(trimmed.framerate, 7);
    assert_eq!(trimmed.resolution, "SVGA");
}

#[test]
fn firmware_reacts_to_messages() {
    let setting = CameraSettingNoMeta {
        flashlight_enabled: true,
        resolution: "SVGA".to_string(),
        framerate: 9,
    };
    match firmware_event_step(CameraMessage::SettingChanged(setting)) {
        FirmwareAction::ApplyAndSave(s) => assert!(s.flashlight_enabled),
        FirmwareAction::Restart => panic!("expected an apply"),
    }
    assert!(matches!(firmware_event_step(CameraMessage::Restart), FirmwareAction::Restart));
}

#[test]
fn byte_equality() {
    assert!(bytes_eq(b"abc", b"abc"));
    assert!(!bytes_eq(b"abc", b"abd"));
    assert!(!bytes_eq(b"abc", b"ab"));
}
