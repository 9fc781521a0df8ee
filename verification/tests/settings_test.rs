use meclipboard::settings::{show_window_at_startup, Settings};

#[test]
fn default_settings() {
    let s = Settings::default();
    assert_eq!(s.retention_days, 30);
    assert_eq!(s.storage_cap_mb, 500);
    assert!(!s.autostart);
}

#[test]
fn stored_entries_read_back() {
    let s = Settings { retention_days: 7, storage_cap_mb: 4294967295, autostart: true };
    let entries = s.stored_entries();
    assert_eq!(entries.len(), 3);
    assert_eq!(entries[0].key, "retention_days");
    assert_eq!(entries[0].value, "7");
    assert_eq!(entries[1].key, "storage_cap_mb");
    assert_eq!(entries[1].value, "4294967295");
    assert_eq!(entries[2].key, "autostart");
    assert_eq!(entries[2].value, "true");
    let back = Settings::from_stored(
        Some(entries[0].value.clone()),
        Some(entries[1].value.clone()),
        Some(entries[2].value.clone()),
    );
    assert_eq!(back, s);
}

#[test]
fn unreadable_or_malformed_values_fall_back() {
    assert_eq!(Settings::from_stored(None, None, None), Settings::default());
    let s = Settings::from_stored(Some("abc".to_string()), Some("-5".to_string()), Some("yes".to_string()));
    assert_eq!(s, Settings::default());
    let s = Settings::from_stored(Some("0".to_string()), Some("+20".to_string()), Some("false".to_string()));
    assert_eq!(s, Settings { retention_days: 0, storage_cap_mb: 20, autostart: false });
}

#[test]
fn cap_and_retention() {
    let s = Settings { retention_days: 0, storage_cap_mb: 500, autostart: false };
    assert!(!s.retention_enabled());
    assert_eq!(s.storage_cap_bytes(), 524288000);
    let big = Settings { retention_days: 1, storage_cap_mb: u32::MAX, autostart: false };
    assert!(big.retention_enabled());
    assert_eq!(big.storage_cap_bytes(), (u32::MAX as u64) * 1024 * 1024);
}

#[test]
fn window_visibility_at_startup() {
    assert!(show_window_at_startup(None));
    assert!(show_window_at_startup(Some(Settings::default())));
    let quiet = Settings { retention_days: 30, storage_cap_mb: 500, autostart: true };
    assert!(!show_window_at_startup(Some(quiet)));
}
