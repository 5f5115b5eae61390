use omcli::apns::{alarm_push_spec, voip_push_spec};
use omcli::cli::{snap_outcome, status_is_ok, SnapOutcome};

#[test]
fn snapshot_declined_on_device() {
    let r = snap_outcome(
        Some(String::from("error")),
        Some(String::from("USER_DECLINED")),
        Some(String::from("declined")),
        None,
        None,
    );
    assert!(matches!(r, SnapOutcome::Declined));
}

#[test]
fn snapshot_device_error_carries_message() {
    let r = snap_outcome(
        Some(String::from("error")),
        None,
        Some(String::from("camera busy")),
        None,
        None,
    );
    match r {
        SnapOutcome::DeviceError { message } => assert_eq!(message, "camera busy"),
        _ => panic!("expected a device error"),
    }
    let r = snap_outcome(Some(String::from("error")), None, None, None, None);
    match r {
        SnapOutcome::DeviceError { message } => assert_eq!(message, "Unknown error"),
        _ => panic!("expected a device error"),
    }
}

#[test]
fn snapshot_via_push_requires_the_socket() {
    let r = snap_outcome(
        Some(String::from("ok")),
        None,
        None,
        Some(String::from("apns")),
        None,
    );
    assert!(matches!(r, SnapOutcome::RequiresSocket));
}

#[test]
fn snapshot_without_data_reports_no_image() {
    let r = snap_outcome(Some(String::from("ok")), None, None, None, None);
    assert!(matches!(r, SnapOutcome::NoImage));
}

#[test]
fn snapshot_image_is_decoded_from_base64() {
    let r = snap_outcome(
        Some(String::from("ok")),
        None,
        None,
        None,
        Some(String::from("aGVsbG8=")),
    );
    match r {
        SnapOutcome::Image { bytes } => assert_eq!(bytes, b"hello"),
        _ => panic!("expected decoded image bytes"),
    }
}

#[test]
fn snapshot_with_bad_base64_fails_cleanly() {
    let r = snap_outcome(
        Some(String::from("ok")),
        None,
        None,
        None,
        Some(String::from("!!not base64!!")),
    );
    assert!(matches!(r, SnapOutcome::DecodeFailed));
}

#[test]
fn ok_status_detection() {
    assert!(status_is_ok(&String::from("ok")));
    assert!(!status_is_ok(&String::from("error")));
    assert!(!status_is_ok(&String::from("OK")));
}

#[test]
fn alarm_push_carries_the_standard_alert() {
    let spec = alarm_push_spec(
        &String::from("com.example.app"),
        &String::from("tok"),
        String::from("alarm.start"),
        String::from("{\"sound\":\"default\"}"),
    );
    assert_eq!(spec.device_token, "tok");
    assert_eq!(spec.alert_body.as_deref(), Some("Alarm triggered"));
    assert_eq!(spec.category.as_deref(), Some("alarm"));
    assert!(spec.content_available);
    assert_eq!(spec.push_type, "alert");
    assert!(spec.priority_high);
    assert_eq!(spec.topic, "com.example.app");
    assert_eq!(spec.command, "alarm.start");
    assert_eq!(spec.params, "{\"sound\":\"default\"}");
}

#[test]
fn voip_push_addresses_the_voip_topic() {
    let spec = voip_push_spec(
        &String::from("com.example.app"),
        &String::from("tok"),
        String::from("wake"),
        String::from("{}"),
    );
    assert!(spec.alert_body.is_none());
    assert!(spec.category.is_none());
    assert!(spec.content_available);
    assert_eq!(spec.push_type, "voip");
    assert!(spec.priority_high);
    assert_eq!(spec.topic, "com.example.app.voip");
}
