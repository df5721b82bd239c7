use bettermacro::automation::{
    check_playback_permissions, clamp_pointer_rate, mouse_button_for_number, mouse_event_types, playback_start, pointer_steps,
    requested_pointer_rate, AutomationMode, MacAutomation, PermissionState, LEFT_DOWN,
    LEFT_DRAGGED, LEFT_UP, OTHER_DOWN, OTHER_DRAGGED, OTHER_UP,
};
use bettermacro::model::{Action, MouseButton, RecordingSettings};

/// The movement duration once divided by the playback speed, as playback
/// computes it before counting pointer steps.
fn scaled(duration_ms: u64, speed: f64) -> u64 {
    (duration_ms as f64 / speed.clamp(0.25, 5.0)).round() as u64
}

#[test]
fn pointer_rate_controls_interpolation_density() {
    assert_eq!(pointer_steps(scaled(1_000, 1.0), 120), 120);
    assert_eq!(pointer_steps(scaled(1_000, 2.0), 120), 60);
    assert_eq!(pointer_steps(scaled(0, 1.0), 240), 1);
    assert_eq!(pointer_steps(scaled(1_000, 1.0), 999), 240);
}

#[test]
fn pointer_steps_round_up_and_saturate() {
    assert_eq!(pointer_steps(1, 120), 1);
    assert_eq!(pointer_steps(10, 120), 2);
    assert_eq!(pointer_steps(1_000, 1), 60);
    assert_eq!(pointer_steps(u64::MAX, 240), u64::MAX / 1000 + 1);
}

#[test]
fn playback_rates_default_and_clamp() {
    assert_eq!(requested_pointer_rate(None), 120);
    assert_eq!(requested_pointer_rate(Some(10)), 60);
    assert_eq!(requested_pointer_rate(Some(30)), 60);
    assert_eq!(requested_pointer_rate(Some(60)), 60);
    assert_eq!(clamp_pointer_rate(1000), 240);
}

#[test]
fn playback_stays_exclusive_until_the_worker_completes() {
    let mut automation = MacAutomation::new();
    assert!(automation.begin_playback().is_ok());
    assert!(automation.begin_playback().is_err());

    automation.stop_playback();
    assert!(automation.begin_playback().is_err());

    automation.complete_playback();
    assert!(automation.begin_playback().is_ok());
    automation.complete_playback();
}

#[test]
fn recording_needs_both_permissions_and_an_idle_engine() {
    let mut automation = MacAutomation::new();
    let missing = PermissionState::from_checks(true, true, false, false);
    assert_eq!(
        automation
            .start_recording(RecordingSettings::default(), &missing, 0)
            .unwrap_err(),
        "Input Monitoring permission is required before recording outside BetterMacro."
    );
    let no_access = PermissionState::from_checks(false, true, true, false);
    assert_eq!(
        automation
            .start_recording(RecordingSettings::default(), &no_access, 0)
            .unwrap_err(),
        "Accessibility permission is required to identify UI elements while recording."
    );
    let granted = PermissionState::from_checks(true, true, true, false);
    assert_eq!(
        granted.input_monitoring_note,
        "Input Monitoring is required to record actions outside BetterMacro."
    );
    assert!(automation
        .start_recording(RecordingSettings::default(), &granted, 5)
        .is_ok());
    assert_eq!(automation.mode, AutomationMode::Recording);
    assert!(automation.recording.active);
    assert!(automation.begin_playback().is_err());
    assert!(automation
        .start_recording(RecordingSettings::default(), &granted, 6)
        .is_err());
    let actions: Vec<Action> = automation.stop_recording();
    assert!(actions.is_empty());
    assert_eq!(automation.mode, AutomationMode::Idle);
    assert!(!automation.recording.active);
    assert!(automation.begin_playback().is_ok());
}

#[test]
fn playback_requests_must_start_inside_the_macro() {
    assert_eq!(
        playback_start(0, None).unwrap_err(),
        "This macro has no actions to play."
    );
    assert_eq!(
        playback_start(3, Some(3)).unwrap_err(),
        "The requested playback start is outside this macro."
    );
    assert_eq!(playback_start(3, Some(2)).unwrap(), 2);
    assert_eq!(playback_start(3, None).unwrap(), 0);
}

#[test]
fn buttons_map_to_quartz_event_types() {
    assert_eq!(mouse_button_for_number(0), MouseButton::Left);
    assert_eq!(mouse_button_for_number(-4), MouseButton::Left);
    assert_eq!(mouse_button_for_number(1), MouseButton::Right);
    assert_eq!(mouse_button_for_number(2), MouseButton::Center);
    assert_eq!(mouse_button_for_number(7), MouseButton::Other);
    assert_eq!(
        mouse_event_types(MouseButton::Left),
        (0, LEFT_DOWN, LEFT_UP, LEFT_DRAGGED)
    );
    assert_eq!(
        mouse_event_types(MouseButton::Center),
        (2, OTHER_DOWN, OTHER_UP, OTHER_DRAGGED)
    );
    assert_eq!(
        mouse_event_types(MouseButton::Other),
        mouse_event_types(MouseButton::Center)
    );
}

#[test]
fn playback_needs_accessibility_and_event_posting() {
    let mut permissions = PermissionState::from_checks(true, true, false, false);
    assert!(check_playback_permissions(&permissions).is_ok());
    permissions.event_posting = false;
    assert_eq!(
        check_playback_permissions(&permissions).unwrap_err(),
        "Accessibility input control is not fully allowed. Open Permissions and grant Accessibility again."
    );
}
