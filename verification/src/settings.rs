//! The HUD's persisted settings.
use vstd::prelude::*;

use std::path::PathBuf;

use crate::geometry::WindowPosition;
use crate::json::{JsonValue, json_document_bytes, parse_json_bytes, bool_of, json_bool, json_get, json_get_opt, json_str, json_u64, opt_deref, str_of, u64_of};

verus! {

/// When the HUD window shows.
#[derive(Debug, Clone, Copy, PartialEq, Eq, Structural)]
pub enum VisibilityMode {
    Always,
    AutoHide,
    Tray,
}

/// The HUD's look.
#[derive(Debug, Clone, Copy, PartialEq, Eq, Structural)]
pub enum HudStyle {
    Capsule,
    Halo,
}

/// What happens when Windows starts.
#[derive(Debug, Clone, Copy, PartialEq, Eq, Structural)]
pub enum StartupBehavior {
    Off,
    StartWithWindows,
    ShowWhenCodexStarts,
}

/// The colour theme.
#[derive(Debug, Clone, Copy, PartialEq, Eq, Structural)]
pub enum ThemeMode {
    System,
    Light,
    Dark,
}

/// The HUD's settings. The opacity, a fraction between 0.7 and 1, is held as the bits of
/// its `f64` value (`f64::to_bits`).
#[derive(Debug, Clone)]
pub struct Settings {
    pub codex_enabled: bool,
    pub visibility_mode: VisibilityMode,
    pub hud_style: HudStyle,
    pub always_on_top: bool,
    pub edge_auto_hide: bool,
    pub opacity_bits: u64,
    pub click_through: bool,
    pub show_api_equivalent: bool,
    pub show_reset_countdown: bool,
    pub theme: ThemeMode,
    pub shortcut: String,
    pub startup_behavior: StartupBehavior,
    pub reduced_motion: bool,
    pub quota_window_minutes: Option<u64>,
    pub window_position: Option<WindowPosition>,
    pub surface_version: u8,
}

/// The bits of the default opacity, 0.96.
pub const DEFAULT_OPACITY_BITS: u64 = 0x3feeb851eb851eb8;

/// The current version of the HUD surface layout.
pub const SURFACE_VERSION: u8 = 3;

/// Whether `s` holds the defaults: Codex access off, auto-hiding halo on top, no saved
/// position or quota window preference, and the current surface version.
pub open spec fn is_default_settings(s: Settings) -> bool {
    &&& !s.codex_enabled
    &&& s.visibility_mode == VisibilityMode::AutoHide
    &&& s.hud_style == HudStyle::Halo
    &&& s.always_on_top
    &&& s.edge_auto_hide
    &&& s.opacity_bits == DEFAULT_OPACITY_BITS
    &&& !s.click_through
    &&& s.show_api_equivalent
    &&& s.show_reset_countdown
    &&& s.theme == ThemeMode::System
    &&& s.shortcut@ == "CommandOrControl+Shift+H"@
    &&& s.startup_behavior == StartupBehavior::Off
    &&& !s.reduced_motion
    &&& s.quota_window_minutes is None
    &&& s.window_position is None
    &&& s.surface_version == SURFACE_VERSION
}

impl Default for Settings {
    fn default() -> (r: Self)
        ensures
            is_default_settings(r),
    {
        Settings {
            codex_enabled: false,
            visibility_mode: VisibilityMode::AutoHide,
            hud_style: HudStyle::Halo,
            always_on_top: true,
            edge_auto_hide: true,
            opacity_bits: DEFAULT_OPACITY_BITS,
            click_through: false,
            show_api_equivalent: true,
            show_reset_countdown: true,
            theme: ThemeMode::System,
            shortcut: "CommandOrControl+Shift+H".to_owned(),
            startup_behavior: StartupBehavior::Off,
            reduced_motion: false,
            quota_window_minutes: None,
            window_position: None,
            surface_version: SURFACE_VERSION,
        }
    }
}

/// The surface version that stored settings were written with: their `surfaceVersion`, or
/// 1 when it is missing.
pub open spec fn stored_surface_version(stored: Option<JsonValue>) -> int {
    match json_u64(json_get_opt(stored, "surfaceVersion"@)) {
        Some(v) => v as int,
        None => 1,
    }
}

/// The quota window preference that an older `quotaFocus` setting stands for.
pub open spec fn focus_minutes(focus: Option<Seq<char>>) -> Option<u64> {
    if focus == Some("weekly"@) {
        Some(10080)
    } else if focus == Some("fiveHour"@) {
        Some(300)
    } else {
        None
    }
}

/// `settings` as read from storage, brought up to date from the stored JSON `stored`:
/// an older `launchAtLogin: true` without a `startupBehavior` becomes start-with-Windows;
/// without a `quotaWindowMinutes`, an older `quotaFocus` sets it; settings from before the
/// halo surface switch to it, and settings from before version 3 record version 2.
pub open spec fn migrated(settings: Settings, stored: Option<JsonValue>) -> Settings {
    let version = stored_surface_version(stored);
    let startup_behavior = if stored is Some && json_get_opt(stored, "startupBehavior"@) is None
        && json_bool(json_get_opt(stored, "launchAtLogin"@)) == Some(true) {
        StartupBehavior::StartWithWindows
    } else {
        settings.startup_behavior
    };
    let quota_window_minutes = if stored is Some && json_get_opt(stored, "quotaWindowMinutes"@) is None {
        focus_minutes(json_str(json_get_opt(stored, "quotaFocus"@)))
    } else {
        settings.quota_window_minutes
    };
    Settings {
        startup_behavior,
        quota_window_minutes,
        hud_style: if version < 2 { HudStyle::Halo } else { settings.hud_style },
        surface_version: if version < 3 { 2 } else { settings.surface_version },
        ..settings
    }
}

/// Brings settings read from storage up to date (see `migrated`). `settings` is what the
/// stored bytes decode to (the defaults when they do not decode), `stored` the same bytes
/// read as JSON (nothing when they are not JSON).
pub fn decode_settings(settings: Settings, stored: Option<&JsonValue>) -> (r: Settings)
    ensures
        r == migrated(settings, opt_deref(stored)),
{
    let version: u64 = match u64_of(get_member(stored, "surfaceVersion")) {
        Some(v) => v,
        None => 1,
    };
    let mut settings = settings;
    if stored.is_some() && get_member(stored, "startupBehavior").is_none()
        && bool_of(get_member(stored, "launchAtLogin")) == Some(true) {
        settings.startup_behavior = StartupBehavior::StartWithWindows;
    }
    if stored.is_some() && get_member(stored, "quotaWindowMinutes").is_none() {
        let focus = str_of(get_member(stored, "quotaFocus"));
        settings.quota_window_minutes = match focus {
            Some(f) => if *f == "weekly".to_owned() {
                Some(10080)
            } else if *f == "fiveHour".to_owned() {
                Some(300)
            } else {
                None
            },
            None => None,
        };
    }
    if version < 2 {
        settings.hud_style = HudStyle::Halo;
    }
    if version < 3 {
        settings.surface_version = 2;
    }
    settings
}

/// Settings from the bytes of `settings.json`: `typed` is what the bytes decode to as
/// settings (the defaults when they do not), and the same bytes read as a JSON document
/// bring them up to date (see `decode_settings`).
pub fn decode_settings_bytes(bytes: &[u8], typed: Settings) -> (r: Settings)
    ensures
        r == migrated(typed, json_document_bytes(bytes@)),
{
    let stored = parse_json_bytes(bytes);
    decode_settings(typed, stored.as_ref())
}

fn get_member<'a>(v: Option<&'a JsonValue>, key: &str) -> (r: Option<&'a JsonValue>)
    ensures
        opt_deref(r) == json_get_opt(opt_deref(v), key@),
{
    crate::json::get_opt(v, key)
}

/// The place where settings are stored.
#[verifier::external_type_specification]
#[verifier::external_body]
pub struct ExPathBuf(PathBuf);

/// What `Path::join` gives for a directory and a file name.
pub uninterp spec fn joined_path(dir: PathBuf, name: Seq<char>) -> PathBuf;

/// `Path::join` of std: the path of `name` inside `dir`. Stated: the result is
/// `joined_path` of the two.
#[verifier::external_body]
fn join_path(dir: &PathBuf, name: &str) -> (r: PathBuf)
    ensures
        r == joined_path(*dir, name@),
{
    dir.join(name)
}

/// Where the settings file is kept.
pub struct SettingsStore {
    path: PathBuf,
}

impl SettingsStore {
    /// The path of the settings file.
    pub closed spec fn spec_path(self) -> PathBuf {
        self.path
    }

    /// A store for `settings.json` in the configuration directory `config_dir`.
    pub fn new(config_dir: PathBuf) -> (r: Self)
        ensures
            r.spec_path() == joined_path(config_dir, "settings.json"@),
    {
        SettingsStore { path: join_path(&config_dir, "settings.json") }
    }

    /// The path of the settings file.
    pub fn path(&self) -> (r: &PathBuf)
        ensures
            *r == self.spec_path(),
    {
        &self.path
    }
}

} // verus!

verus! {

/// Bringing settings up to date twice is doing it once.
pub proof fn law_migration_is_idempotent(settings: Settings, stored: Option<JsonValue>)
    ensures
        migrated(migrated(settings, stored), stored) == migrated(settings, stored),
{
}

/// Settings stored by the current version, with the current fields present, are left as
/// they were decoded.
pub proof fn law_current_settings_are_unchanged(settings: Settings, stored: JsonValue)
    requires
        stored_surface_version(Some(stored)) >= 3,
        json_get(stored, "startupBehavior"@) is Some,
        json_get(stored, "quotaWindowMinutes"@) is Some,
    ensures
        migrated(settings, Some(stored)) == settings,
{
}

} // verus!
