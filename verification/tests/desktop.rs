use std::collections::HashMap;
use std::sync::atomic::{AtomicU64, AtomicUsize, Ordering};

use codexhalo::control::{
    autostart_change, consent_change, consent_is_current, launch_action, refresh_decision, require_codex_consent,
    requires_autostart, settings_update, should_reveal_for_process_transition, tray_action, AutostartChange,
    LaunchAction, RefreshDecision, TrayAction,
};
use codexhalo::geometry::{
    clamp_position, compact_anchor, display_for_point, distance_to_bounds, CompactAnchor, expanded_window_layout, free_position, retracted_position,
    settle_released_orb, DisplayBounds, DockEdge, ExpandedMetrics, ExpandedPlacement, WindowPosition,
};
use codexhalo::process::{codex_process_is_running, is_descendant_of, is_relevant_codex_executable, ProcessIdentity};
use codexhalo::quota::CodexClientError;
use codexhalo::settings::{Settings, StartupBehavior, VisibilityMode};
use codexhalo::status::{quota_error_status, require_enabled, ConnectionState, DashboardStatus};

const DISPLAY: DisplayBounds = DisplayBounds { left: 0, top: 0, right: 1920, bottom: 1080 };

#[test]
fn startup_registration_and_reveal_edges_are_explicit() {
    assert!(!requires_autostart(StartupBehavior::Off));
    assert!(requires_autostart(StartupBehavior::StartWithWindows));
    assert!(requires_autostart(StartupBehavior::ShowWhenCodexStarts));
    assert!(should_reveal_for_process_transition(false, true));
    assert!(!should_reveal_for_process_transition(true, true));
    assert!(!should_reveal_for_process_transition(true, false));
}

#[test]
fn stale_refresh_generation_is_rejected_after_consent_changes() {
    let generation = AtomicU64::new(7);
    let captured = generation.load(Ordering::Acquire);
    assert!(consent_is_current(true, generation.load(Ordering::Acquire), captured));

    generation.fetch_add(1, Ordering::AcqRel);
    assert!(!consent_is_current(true, generation.load(Ordering::Acquire), captured));
    assert!(!consent_is_current(false, captured, captured));
}

#[test]
fn backend_codex_actions_require_explicit_consent() {
    assert!(require_codex_consent(false).is_err());
    assert!(require_codex_consent(true).is_ok());
}

#[test]
fn capsule_keeps_near_edge_positions_free() {
    let released = WindowPosition { x: 9, y: 420 };
    let (position, edge) = free_position(released, 148, 32, DISPLAY);
    assert_eq!(position, released);
    assert!(edge.is_none());
}

#[test]
fn capsule_docks_only_when_it_reaches_the_display_boundary() {
    let (position, edge) = free_position(WindowPosition { x: -12, y: 420 }, 148, 32, DISPLAY);
    assert_eq!(position, WindowPosition { x: 0, y: 420 });
    assert!(matches!(edge, Some(DockEdge::Left)));
}

#[test]
fn native_retraction_leaves_only_the_requested_handle_inside_the_work_area() {
    let anchor = WindowPosition { x: 0, y: 420 };
    assert_eq!(retracted_position(anchor, 148, 32, DISPLAY, DockEdge::Left, 8), WindowPosition { x: -140, y: 420 });
    assert_eq!(
        retracted_position(WindowPosition { x: 1772, y: 420 }, 148, 32, DISPLAY, DockEdge::Right, 8),
        WindowPosition { x: 1912, y: 420 },
    );
}

#[test]
fn missing_display_positions_recover_inside_the_active_display() {
    let position = clamp_position(WindowPosition { x: 2400, y: -300 }, 148, 32, DISPLAY);
    assert_eq!(position, WindowPosition { x: 1772, y: 0 });
}

#[test]
fn recognizes_verified_codex_install_identities() {
    assert!(is_relevant_codex_executable(
        r"C:\Users\Person\.vscode\extensions\openai.chatgpt-1.2.3-win32-x64\bin\windows-x86_64\codex.exe"
    ));
    assert!(is_relevant_codex_executable(
        r"C:\Users\Person\AppData\Local\OpenAI\Codex\bin\version\codex.exe"
    ));
    assert!(is_relevant_codex_executable(
        r"C:\Users\Person\AppData\Roaming\npm\node_modules\@openai\codex\node_modules\@openai\codex-win32-x64\vendor\x86_64-pc-windows-msvc\bin\codex.exe"
    ));
    assert!(is_relevant_codex_executable(
        r"C:\Users\Person\AppData\Roaming\npm\node_modules\@openai\codex\vendor\x86_64-pc-windows-msvc\bin\codex.exe"
    ));
}

#[test]
fn rejects_unrelated_or_helper_processes() {
    assert!(!is_relevant_codex_executable(r"C:\Tools\codex.exe"));
    assert!(!is_relevant_codex_executable(
        r"C:\Users\Person\AppData\Local\OpenAI\Codex\bin\version\codex-code-mode-host.exe"
    ));
}

#[test]
fn excludes_processes_spawned_by_codexhalo() {
    let parents = HashMap::from([(30, 20), (20, 10), (10, 1)]);
    assert!(is_descendant_of(30, 10, &parents));
    assert!(!is_descendant_of(30, 99, &parents));
}

#[test]
fn disabled_gate_runs_before_any_service_access() {
    static ACCESSES: AtomicUsize = AtomicUsize::new(0);
    let result = require_enabled(false).and_then(|_| {
        ACCESSES.fetch_add(1, Ordering::SeqCst);
        Ok(())
    });
    assert!(result.is_err());
    assert_eq!(ACCESSES.load(Ordering::SeqCst), 0);
}

#[test]
fn missing_codex_is_a_normal_disconnected_state() {
    let status = quota_error_status(CodexClientError::NotFound).unwrap();
    assert!(matches!(status.connection, ConnectionState::Disconnected));
    assert!(status.windows.is_empty());
    assert_eq!(status.tokens.total, 0);
}

#[test]
fn operational_quota_failures_remain_errors() {
    let error = quota_error_status(CodexClientError::Timeout).unwrap_err();
    assert!(error.contains("timed out"));
}

#[test]
fn distances_and_nearest_display() {
    assert_eq!(distance_to_bounds(10, 10, DISPLAY), 0);
    assert_eq!(distance_to_bounds(-3, 1084, DISPLAY), 9 + 16);
    let second = DisplayBounds { left: 1920, top: 0, right: 3840, bottom: 1080 };
    assert_eq!(display_for_point(&vec![DISPLAY, second], 2000, 10).unwrap(), second);
    assert_eq!(display_for_point(&vec![DISPLAY, second], 1920, 10).unwrap(), DISPLAY);
    assert!(display_for_point(&Vec::new(), 0, 0).is_err());
}

#[test]
fn free_position_reports_each_edge() {
    assert_eq!(free_position(WindowPosition { x: 2000, y: 5 }, 148, 32, DISPLAY), (WindowPosition { x: 1772, y: 5 }, Some(DockEdge::Right)));
    assert_eq!(free_position(WindowPosition { x: 500, y: -5 }, 148, 32, DISPLAY), (WindowPosition { x: 500, y: 0 }, Some(DockEdge::Top)));
    assert_eq!(free_position(WindowPosition { x: 500, y: 1048 }, 148, 32, DISPLAY), (WindowPosition { x: 500, y: 1048 }, Some(DockEdge::Bottom)));
    assert_eq!(
        retracted_position(WindowPosition { x: 500, y: 0 }, 148, 32, DISPLAY, DockEdge::Top, 8),
        WindowPosition { x: 500, y: -24 },
    );
    assert_eq!(
        retracted_position(WindowPosition { x: 500, y: 1048 }, 148, 32, DISPLAY, DockEdge::Bottom, 8),
        WindowPosition { x: 500, y: 1072 },
    );
}

fn unit_metrics() -> ExpandedMetrics {
    ExpandedMetrics {
        orb_width: 148,
        orb_height: 32,
        card_width: 272,
        card_height: 424,
        join: 1,
        vertical_width: 280,
        vertical_height: 464,
        lateral_width: 428,
        lateral_height: 432,
    }
}

#[test]
fn expanded_window_opens_toward_the_roomier_side() {
    let (placement, window) = expanded_window_layout(WindowPosition { x: 880, y: 900 }, DISPLAY, unit_metrics());
    assert_eq!(placement, ExpandedPlacement::Above);
    assert_eq!(window, WindowPosition { x: 814, y: 468 });
    let short_display = DisplayBounds { left: 0, top: 0, right: 1920, bottom: 720 };
    let (placement, window) = expanded_window_layout(WindowPosition { x: 900, y: 344 }, short_display, unit_metrics());
    assert_eq!(placement, ExpandedPlacement::Left);
    assert_eq!(window, WindowPosition { x: 620, y: 144 });
    let (placement, window) = expanded_window_layout(WindowPosition { x: 700, y: 344 }, short_display, unit_metrics());
    assert_eq!(placement, ExpandedPlacement::Right);
    assert_eq!(window, WindowPosition { x: 700, y: 144 });
    let (placement, _) = expanded_window_layout(WindowPosition { x: 800, y: 200 }, DISPLAY, unit_metrics());
    assert_eq!(placement, ExpandedPlacement::Below);
}

#[test]
fn settled_orb_moves_the_window_by_the_same_amount() {
    let (orb, window) = settle_released_orb(WindowPosition { x: -400, y: -80 }, WindowPosition { x: -334, y: -80 }, 148, 32, DISPLAY);
    assert_eq!(orb, WindowPosition { x: 0, y: 0 });
    assert_eq!(window, WindowPosition { x: -66, y: 0 });
}

#[test]
fn running_codex_is_found_unless_started_by_the_hud() {
    let exe = r"C:\Users\P\AppData\Local\OpenAI\Codex\bin\1\codex.exe".to_owned();
    let processes = vec![
        ProcessIdentity { pid: 10, parent_pid: 1, executable: String::new() },
        ProcessIdentity { pid: 20, parent_pid: 10, executable: exe.clone() },
    ];
    assert!(!codex_process_is_running(&processes, 10));
    assert!(codex_process_is_running(&processes, 99));
    let unrelated = vec![ProcessIdentity { pid: 20, parent_pid: 10, executable: r"C:\Tools\codex.exe".to_owned() }];
    assert!(!codex_process_is_running(&unrelated, 99));
}

#[test]
fn descent_stops_at_self_parents_and_missing_links() {
    let parents = HashMap::from([(5, 5), (6, 0), (7, 6)]);
    assert!(!is_descendant_of(5, 1, &parents));
    assert!(is_descendant_of(7, 6, &parents));
    assert!(!is_descendant_of(7, 1, &parents));
    assert!(!is_descendant_of(8, 1, &parents));
}

#[test]
fn consent_and_startup_decisions() {
    let change = consent_change(false, true);
    assert!(change.bump_generation && !change.clear_cache);
    let change = consent_change(true, false);
    assert!(change.bump_generation && change.clear_cache);
    let change = consent_change(false, false);
    assert!(!change.bump_generation && change.clear_cache);
    assert_eq!(autostart_change(StartupBehavior::StartWithWindows, false), AutostartChange::Enable);
    assert_eq!(autostart_change(StartupBehavior::Off, true), AutostartChange::Disable);
    assert_eq!(autostart_change(StartupBehavior::Off, false), AutostartChange::Keep);
    assert_eq!(launch_action(true, StartupBehavior::Off), LaunchAction::Exit);
    assert_eq!(launch_action(true, StartupBehavior::ShowWhenCodexStarts), LaunchAction::StartHidden);
    assert_eq!(launch_action(false, StartupBehavior::Off), LaunchAction::Show);
    assert_eq!(tray_action("quit"), TrayAction::Quit);
    assert_eq!(tray_action("refresh"), TrayAction::Refresh);
    assert_eq!(tray_action("other"), TrayAction::Nothing);
}

#[test]
fn refresh_results_follow_consent_and_cache() {
    assert_eq!(refresh_decision(false, true, true), RefreshDecision::Disabled);
    assert_eq!(refresh_decision(true, true, false), RefreshDecision::Fresh);
    assert_eq!(refresh_decision(true, false, true), RefreshDecision::Offline);
    assert_eq!(refresh_decision(true, false, false), RefreshDecision::Failed);
    let offline = codexhalo::control::offline_status(DashboardStatus::disabled(), "down".to_owned());
    assert!(matches!(offline.connection, ConnectionState::Offline));
    assert_eq!(offline.message.as_deref(), Some("down"));
    let failed = codexhalo::control::error_status("down".to_owned());
    assert!(matches!(failed.connection, ConnectionState::Error));
}

#[test]
fn settings_updates_keep_consent_and_report_effects() {
    let previous = Settings { codex_enabled: true, ..Default::default() };
    let requested = Settings {
        codex_enabled: false,
        visibility_mode: VisibilityMode::Tray,
        startup_behavior: StartupBehavior::StartWithWindows,
        ..Default::default()
    };
    let (saved, effects) = settings_update(&previous, requested);
    assert!(saved.codex_enabled);
    assert_eq!(saved.visibility_mode, VisibilityMode::Tray);
    assert!(effects.reconfigure_autostart);
    assert!(effects.hide_window);
}

#[test]
fn onboarding_window_is_restored_inside_the_display() {
    let compact_anchor = WindowPosition { x: 1772, y: 1048 };
    assert_eq!(clamp_position(compact_anchor, 404, 620, DISPLAY), WindowPosition { x: 1516, y: 460 });
    assert_eq!(clamp_position(compact_anchor, 148, 32, DISPLAY), compact_anchor);
}

#[test]
fn windows_path_prefixes_are_single_components() {
    // A drive prefix without a root, then the desktop app's layout.
    assert!(is_relevant_codex_executable(r"C:openai\codex\bin\codex.exe"));
    // `\\openai\codex` is a server and share, not two directories.
    assert!(!is_relevant_codex_executable(r"\\openai\codex\bin\codex.exe"));
    assert!(is_relevant_codex_executable(r"\\server\share\OpenAI\Codex\bin\1\codex.exe"));
    assert!(!is_relevant_codex_executable(r"\\?\UNC\openai\codex\bin\codex.exe"));
    assert!(!is_relevant_codex_executable(r"\\.\openai\codex\bin\codex.exe"));
    assert!(is_relevant_codex_executable(r"\\?\C:\Users\P\AppData\Local\OpenAI\Codex\bin\1\codex.exe"));
}

#[test]
fn verbatim_paths_split_on_backslashes_only_and_keep_dots() {
    assert!(is_relevant_codex_executable(r"C:\x\openai/codex\bin\codex.exe"));
    assert!(!is_relevant_codex_executable(r"\\?\C:\x\openai/codex\bin\codex.exe"));
    assert!(is_relevant_codex_executable(r"C:\x\openai\.\codex\bin\codex.exe"));
    assert!(!is_relevant_codex_executable(r"\\?\C:\x\openai\.\codex\bin\codex.exe"));
}

#[test]
fn the_compact_anchor_is_the_saved_position_else_the_current_one() {
    let saved = WindowPosition { x: 39, y: 589 };
    let current = WindowPosition { x: 5, y: 6 };
    assert_eq!(compact_anchor(Some(saved), 3, current), CompactAnchor::Saved(saved));
    assert_eq!(compact_anchor(Some(saved), 2, current), CompactAnchor::Legacy(saved));
    assert_eq!(compact_anchor(None, 2, current), CompactAnchor::Current(current));
}
