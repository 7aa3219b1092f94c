use codexhalo::json::{JsonMember, JsonNumber, JsonValue};
use codexhalo::settings::{decode_settings, decode_settings_bytes, HudStyle, Settings, StartupBehavior, VisibilityMode, ThemeMode};

fn to_json(v: &serde_json::Value) -> JsonValue {
    match v {
        serde_json::Value::Null => JsonValue::Null,
        serde_json::Value::Bool(b) => JsonValue::Bool(*b),
        serde_json::Value::Number(n) => JsonValue::Number(JsonNumber { as_u64: n.as_u64(), as_i64: n.as_i64() }),
        serde_json::Value::String(s) => JsonValue::String(s.clone()),
        serde_json::Value::Array(items) => JsonValue::Array(items.iter().map(to_json).collect()),
        serde_json::Value::Object(map) => JsonValue::Object(
            map.iter().map(|(k, v)| JsonMember { key: k.clone(), value: to_json(v) }).collect(),
        ),
    }
}

fn stored(bytes: &[u8]) -> Option<JsonValue> {
    serde_json::from_slice::<serde_json::Value>(bytes).ok().map(|v| to_json(&v))
}

#[test]
fn legacy_capsule_settings_migrate_to_the_orb_surface() {
    let bytes = br#"{"codexEnabled":true,"hudStyle":"capsule"}"#;
    // What the stored bytes decode to: the defaults with the two stored fields.
    let decoded = Settings { codex_enabled: true, hud_style: HudStyle::Capsule, ..Default::default() };
    let settings = decode_settings(decoded, stored(bytes).as_ref());
    assert_eq!(settings.hud_style, HudStyle::Halo);
    assert_eq!(settings.quota_window_minutes, None);
    assert_eq!(settings.surface_version, 2);
}

#[test]
fn legacy_launch_at_login_migrates_to_start_with_windows() {
    let bytes = br#"{"launchAtLogin":true,"surfaceVersion":3}"#;
    let decoded = Settings { surface_version: 3, ..Default::default() };
    let settings = decode_settings(decoded, stored(bytes).as_ref());
    assert_eq!(settings.startup_behavior, StartupBehavior::StartWithWindows);
}

#[test]
fn legacy_quota_focus_migrates_to_a_duration_preference() {
    let weekly = decode_settings(Settings::default(), stored(br#"{"quotaFocus":"weekly","surfaceVersion":3}"#).as_ref());
    let five_hour = decode_settings(Settings::default(), stored(br#"{"quotaFocus":"fiveHour","surfaceVersion":3}"#).as_ref());
    assert_eq!(weekly.quota_window_minutes, Some(10_080));
    assert_eq!(five_hour.quota_window_minutes, Some(300));
}

#[test]
fn defaults_keep_codex_access_off() {
    let s = Settings::default();
    assert!(!s.codex_enabled);
    assert_eq!(s.hud_style, HudStyle::Halo);
    assert_eq!(s.visibility_mode, VisibilityMode::AutoHide);
    assert_eq!(s.theme, ThemeMode::System);
    assert_eq!(s.quota_window_minutes, None);
    assert_eq!(s.startup_behavior, StartupBehavior::Off);
    assert_eq!(s.shortcut, "CommandOrControl+Shift+H");
    assert_eq!(f64::from_bits(s.opacity_bits), 0.96);
    assert_eq!(s.surface_version, 3);
}

#[test]
fn current_settings_and_unreadable_bytes_are_left_as_decoded() {
    let current = Settings { quota_window_minutes: Some(240), hud_style: HudStyle::Capsule, ..Default::default() };
    let settings = decode_settings(current.clone(), stored(br#"{"quotaWindowMinutes":240,"startupBehavior":"off","hudStyle":"capsule","surfaceVersion":3}"#).as_ref());
    assert_eq!(settings.quota_window_minutes, Some(240));
    assert_eq!(settings.hud_style, HudStyle::Capsule);
    assert_eq!(settings.surface_version, 3);
    let unreadable = decode_settings(Settings::default(), stored(b"not json").as_ref());
    assert_eq!(unreadable.surface_version, 2);
    assert_eq!(unreadable.hud_style, HudStyle::Halo);
    let settings_path = codexhalo::settings::SettingsStore::new(std::path::PathBuf::from("config"));
    assert_eq!(settings_path.path(), &std::path::PathBuf::from("config").join("settings.json"));
}

#[test]
fn migrating_twice_is_migrating_once() {
    let stored = stored(br#"{"hudStyle":"capsule","launchAtLogin":true,"quotaFocus":"weekly"}"#);
    let decoded = Settings { hud_style: HudStyle::Capsule, ..Default::default() };
    let once = decode_settings(decoded, stored.as_ref());
    let twice = decode_settings(once.clone(), stored.as_ref());
    assert_eq!(once.hud_style, HudStyle::Halo);
    assert_eq!(once.startup_behavior, StartupBehavior::StartWithWindows);
    assert_eq!(once.quota_window_minutes, Some(10_080));
    assert_eq!(twice.hud_style, once.hud_style);
    assert_eq!(twice.startup_behavior, once.startup_behavior);
    assert_eq!(twice.quota_window_minutes, once.quota_window_minutes);
    assert_eq!(twice.surface_version, once.surface_version);
}

#[test]
fn disabled_is_the_serialization_default() {
    let encoded = br#"{"codexEnabled":false,"visibilityMode":"autoHide","hudStyle":"halo","alwaysOnTop":true,"opacity":0.96,"startupBehavior":"off","quotaWindowMinutes":null,"surfaceVersion":3}"#;
    let decoded = decode_settings(Settings::default(), stored(encoded).as_ref());
    assert!(!decoded.codex_enabled);
    assert_eq!(decoded.hud_style, HudStyle::Halo);
    assert_eq!(decoded.quota_window_minutes, None);
    assert_eq!(decoded.startup_behavior, StartupBehavior::Off);
}

#[test]
fn stored_bytes_are_read_as_json_by_the_library() {
    let bytes = br#"{"hudStyle":"capsule","launchAtLogin":true}"#;
    let typed = Settings { hud_style: HudStyle::Capsule, ..Default::default() };
    let settings = decode_settings_bytes(bytes, typed);
    assert_eq!(settings.hud_style, HudStyle::Halo);
    assert_eq!(settings.startup_behavior, StartupBehavior::StartWithWindows);
    let unreadable = decode_settings_bytes(b"not json", Settings { hud_style: HudStyle::Capsule, surface_version: 3, ..Default::default() });
    assert_eq!(unreadable.hud_style, HudStyle::Halo);
    assert_eq!(unreadable.surface_version, 2);
}
