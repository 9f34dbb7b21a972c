use droid_devkit::ble::ScanTracker;
use droid_devkit::jwt::{expiry_time, token_segments, JwtError};

#[test]
fn scan_reports_each_peripheral_once() {
    let mut t = ScanTracker::new();
    let d = t.observe("AA:BB".to_string(), Some("Band".to_string()), Some(-60), 3).unwrap();
    assert_eq!(d.id, "AA:BB");
    assert_eq!(d.name.as_deref(), Some("Band"));
    assert_eq!(d.rssi, Some(-60));
    assert_eq!(d.service_count, Some(3));
    assert!(!d.is_connectable);
    assert!(t.observe("AA:BB".to_string(), None, None, 0).is_none());
    assert!(t.has_seen("AA:BB"));
    assert!(!t.has_seen("CC"));
    assert!(t.observe("CC".to_string(), None, None, 0).is_some());
}

#[test]
fn jwt_error_messages() {
    assert_eq!(
        JwtError::GenerationFailed("bad key".to_string()).message(),
        "Token generation failed: bad key"
    );
    assert_eq!(
        JwtError::ValidationFailed("expired".to_string()).message(),
        "Token validation failed: expired"
    );
}

#[test]
fn expiry_adds_hours() {
    assert_eq!(expiry_time(1_000, 2), Some(8_200));
    assert_eq!(expiry_time(1_000, -1), Some(-2_600));
    assert_eq!(expiry_time(0, i64::MAX), None);
    assert_eq!(expiry_time(i64::MAX - 10, 1), None);
}

#[test]
fn token_segments_need_three_parts() {
    assert_eq!(
        token_segments("aaa.bbb.ccc"),
        Some(("aaa".to_string(), "bbb".to_string()))
    );
    assert_eq!(token_segments(".."), Some((String::new(), String::new())));
    assert_eq!(token_segments("aaa.bbb"), None);
    assert_eq!(token_segments("a.b.c.d"), None);
    assert_eq!(token_segments(""), None);
}
