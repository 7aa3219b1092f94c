//! Decisions of the desktop shell: consent, refresh results, startup and tray handling.
use vstd::prelude::*;

use crate::settings::{Settings, StartupBehavior, VisibilityMode};
use crate::status::{ConnectionState, DashboardStatus, is_empty_status};
use crate::text::chars_equal;

verus! {

/// Refuses an action that reaches Codex unless access is enabled.
pub fn require_codex_consent(enabled: bool) -> (r: Result<(), String>)
    ensures
        r is Ok <==> enabled,
        r matches Err(m) ==> m@ == "Codex access is disabled"@,
{
    if enabled {
        Ok(())
    } else {
        Err("Codex access is disabled".to_owned())
    }
}

/// Whether a refresh that started under consent generation `captured` may still commit:
/// access is enabled and the generation has not moved since.
pub fn consent_is_current(enabled: bool, current_generation: u64, captured_generation: u64) -> (r: bool)
    ensures
        r == (enabled && current_generation == captured_generation),
{
    enabled && current_generation == captured_generation
}

/// What changing the consent setting does besides saving it.
#[derive(Debug, Clone, Copy, PartialEq, Eq, Structural)]
pub struct ConsentChange {
    /// The consent generation moves on, so that refreshes already running cannot commit.
    pub bump_generation: bool,
    /// The cached snapshot is dropped.
    pub clear_cache: bool,
}

/// Setting consent to `requested`: the generation moves when the setting changes; the
/// cache is cleared whenever access ends up disabled.
pub fn consent_change(previous: bool, requested: bool) -> (r: ConsentChange)
    ensures
        r.bump_generation == (previous != requested),
        r.clear_cache == !requested,
{
    ConsentChange { bump_generation: previous != requested, clear_cache: !requested }
}

/// Whether the startup behaviour needs the app registered to start with Windows.
pub fn requires_autostart(behavior: StartupBehavior) -> (r: bool)
    ensures
        r == (behavior != StartupBehavior::Off),
{
    behavior != StartupBehavior::Off
}

/// Whether a change of the Codex process check from `was_running` to `is_running` shows the
/// HUD: only when Codex has just started.
pub fn should_reveal_for_process_transition(was_running: bool, is_running: bool) -> (r: bool)
    ensures
        r == (!was_running && is_running),
{
    !was_running && is_running
}

/// A change to the registration that starts the app with Windows.
#[derive(Debug, Clone, Copy, PartialEq, Eq, Structural)]
pub enum AutostartChange {
    Enable,
    Disable,
    Keep,
}

/// How to bring the start-with-Windows registration, now `enabled`, in line with
/// `behavior`.
pub fn autostart_change(behavior: StartupBehavior, enabled: bool) -> (r: AutostartChange)
    ensures
        r == (if behavior != StartupBehavior::Off && !enabled {
            AutostartChange::Enable
        } else if behavior == StartupBehavior::Off && enabled {
            AutostartChange::Disable
        } else {
            AutostartChange::Keep
        }),
{
    if requires_autostart(behavior) && !enabled {
        AutostartChange::Enable
    } else if !requires_autostart(behavior) && enabled {
        AutostartChange::Disable
    } else {
        AutostartChange::Keep
    }
}

/// Where starting with Windows is not available, only the behaviour `Off` is accepted.
pub fn startup_behavior_without_autostart(behavior: StartupBehavior) -> (r: Result<(), String>)
    ensures
        r is Ok <==> behavior == StartupBehavior::Off,
        r matches Err(m) ==> m@ == "Startup behavior is only available on Windows in CodexHalo v1"@,
{
    if behavior == StartupBehavior::Off {
        Ok(())
    } else {
        Err("Startup behavior is only available on Windows in CodexHalo v1".to_owned())
    }
}

/// What the app does when it starts.
#[derive(Debug, Clone, Copy, PartialEq, Eq, Structural)]
pub enum LaunchAction {
    /// Quit at once: it was started with Windows though starting with Windows is off.
    Exit,
    /// Run with the HUD hidden until Codex starts.
    StartHidden,
    /// Run with the HUD shown.
    Show,
}

/// The launch action for a start with Windows (`from_autostart`) or by the user.
pub fn launch_action(from_autostart: bool, behavior: StartupBehavior) -> (r: LaunchAction)
    ensures
        r == (if from_autostart && behavior == StartupBehavior::Off {
            LaunchAction::Exit
        } else if from_autostart && behavior == StartupBehavior::ShowWhenCodexStarts {
            LaunchAction::StartHidden
        } else {
            LaunchAction::Show
        }),
{
    if from_autostart && behavior == StartupBehavior::Off {
        LaunchAction::Exit
    } else if from_autostart && behavior == StartupBehavior::ShowWhenCodexStarts {
        LaunchAction::StartHidden
    } else {
        LaunchAction::Show
    }
}

/// What a tray menu item does.
#[derive(Debug, Clone, Copy, PartialEq, Eq, Structural)]
pub enum TrayAction {
    Show,
    Refresh,
    Settings,
    Quit,
    Nothing,
}

/// The action of the tray menu item `id`.
pub fn tray_action(id: &str) -> (r: TrayAction)
    ensures
        r == (if id@ == "show"@ {
            TrayAction::Show
        } else if id@ == "refresh"@ {
            TrayAction::Refresh
        } else if id@ == "settings"@ {
            TrayAction::Settings
        } else if id@ == "quit"@ {
            TrayAction::Quit
        } else {
            TrayAction::Nothing
        }),
{
    let chars = crate::text::chars_of(id);
    if chars_equal(&chars, "show") {
        TrayAction::Show
    } else if chars_equal(&chars, "refresh") {
        TrayAction::Refresh
    } else if chars_equal(&chars, "settings") {
        TrayAction::Settings
    } else if chars_equal(&chars, "quit") {
        TrayAction::Quit
    } else {
        TrayAction::Nothing
    }
}

/// What saving new settings does besides storing them.
#[derive(Debug, Clone, Copy, PartialEq, Eq, Structural)]
pub struct SettingsEffects {
    /// The start-with-Windows registration is brought in line with the new behaviour.
    pub reconfigure_autostart: bool,
    /// The HUD window hides, the settings asking for the tray only.
    pub hide_window: bool,
}

/// Settings requested by the HUD, as they are saved: consent cannot change this way, it
/// keeps its previous value.
pub open spec fn saved_settings(previous: Settings, requested: Settings) -> Settings {
    Settings { codex_enabled: previous.codex_enabled, ..requested }
}

/// The settings to save when the HUD asks for `requested` while `previous` hold, and what
/// else that does: the autostart registration changes with the startup behaviour, and a
/// tray-only visibility hides the window.
pub fn settings_update(previous: &Settings, requested: Settings) -> (r: (Settings, SettingsEffects))
    ensures
        r.0 == saved_settings(*previous, requested),
        r.1.reconfigure_autostart == (previous.startup_behavior != requested.startup_behavior),
        r.1.hide_window == (requested.visibility_mode == VisibilityMode::Tray),
{
    let mut settings = requested;
    settings.codex_enabled = previous.codex_enabled;
    let effects = SettingsEffects {
        reconfigure_autostart: previous.startup_behavior != settings.startup_behavior,
        hide_window: settings.visibility_mode == VisibilityMode::Tray,
    };
    (settings, effects)
}

/// How a finished refresh is answered.
#[derive(Debug, Clone, Copy, PartialEq, Eq, Structural)]
pub enum RefreshDecision {
    /// Consent was withdrawn meanwhile: the disabled snapshot, and nothing cached.
    Disabled,
    /// The fresh snapshot, which is also cached.
    Fresh,
    /// The cached snapshot, marked offline with the failure's message.
    Offline,
    /// An error snapshot with the failure's message.
    Failed,
}

/// The answer to a refresh: a refresh whose consent is no longer current never commits;
/// otherwise a success is shown and cached, a failure shows the cache as offline when
/// there is one, an error otherwise.
pub fn refresh_decision(consent_current: bool, refreshed_ok: bool, has_cache: bool) -> (r: RefreshDecision)
    ensures
        r == (if !consent_current {
            RefreshDecision::Disabled
        } else if refreshed_ok {
            RefreshDecision::Fresh
        } else if has_cache {
            RefreshDecision::Offline
        } else {
            RefreshDecision::Failed
        }),
{
    if !consent_current {
        RefreshDecision::Disabled
    } else if refreshed_ok {
        RefreshDecision::Fresh
    } else if has_cache {
        RefreshDecision::Offline
    } else {
        RefreshDecision::Failed
    }
}

/// The cached snapshot shown after a failed refresh: offline, with the failure's message.
pub fn offline_status(cached: DashboardStatus, message: String) -> (r: DashboardStatus)
    ensures
        r == (DashboardStatus { connection: ConnectionState::Offline, message: Some(message), ..cached }),
{
    let mut status = cached;
    status.connection = ConnectionState::Offline;
    status.message = Some(message);
    status
}

/// The snapshot shown after a failed refresh with nothing cached.
pub fn error_status(message: String) -> (r: DashboardStatus)
    ensures
        is_empty_status(r, ConnectionState::Error),
        r.message == Some(message),
{
    crate::status::empty_status(ConnectionState::Error, Some(message))
}

} // verus!
