use bettermacro::automation::{MacAutomation, PermissionState};
use bettermacro::model::{
    Action, MouseButton, RecordingSettings, ScrollUnit, SemanticTarget,
};
use bettermacro::recorder::{can_append_text, merge_multi_click, KeyRecorded, Recording};

const MS: u64 = 1_000_000;

fn bits(v: f64) -> u64 {
    v.to_bits()
}

/// Whether `(x, y)` lies within five pixels of the last recorded click, as the
/// recorder's caller decides before counting a repeated click.
fn near_last_click(actions: &[Action], x: f64, y: f64) -> bool {
    match actions.last() {
        Some(Action::Click { x: px, y: py, .. }) => {
            (f64::from_bits(*px) - x).hypot(f64::from_bits(*py) - y) <= 5.0
        }
        _ => false,
    }
}

fn click(x: f64, y: f64) -> Action {
    Action::Click {
        enabled: true,
        x: bits(x),
        y: bits(y),
        button: MouseButton::Left,
        clicks: 1,
        delay_ms: 300,
        approach: vec![],
        target: None,
    }
}

fn recording(settings: RecordingSettings) -> Recording {
    let mut automation = MacAutomation::new();
    let granted = PermissionState::from_checks(true, true, true, true);
    automation.start_recording(settings, &granted, 0).unwrap();
    automation.recording
}

#[test]
fn a_second_physical_click_updates_the_existing_click_action() {
    let mut actions = vec![click(120.0, 240.0)];
    let near = near_last_click(&actions, 121.0, 239.0);
    assert!(merge_multi_click(&mut actions, MouseButton::Left, 2, near));
    assert_eq!(actions.len(), 1);
    match &actions[0] {
        Action::Click { clicks, .. } => assert_eq!(*clicks, 2),
        _ => panic!("expected a click"),
    }
}

#[test]
fn unrelated_clicks_are_not_merged() {
    let mut actions = vec![click(120.0, 240.0)];
    let far = near_last_click(&actions, 180.0, 240.0);
    assert!(!merge_multi_click(&mut actions, MouseButton::Left, 2, far));
    let near = near_last_click(&actions, 120.0, 240.0);
    assert!(!merge_multi_click(&mut actions, MouseButton::Right, 2, near));
}

#[test]
fn text_grouping_requires_an_uninterrupted_typing_run() {
    let text = Action::Text {
        enabled: true,
        text: "first".into(),
        delay_ms: 0,
        target: None,
    };
    assert!(can_append_text(std::slice::from_ref(&text), 100));
    assert!(!can_append_text(std::slice::from_ref(&text), 500));
    let other = click(10.0, 10.0);
    assert!(!can_append_text(&[text, other], 100));
}

#[test]
fn typing_is_grouped_and_grouped_releases_are_dropped() {
    let mut r = recording(RecordingSettings::default());
    assert_eq!(r.record_key(100 * MS, true, 4, 0, Some("h".into())), KeyRecorded::NewText);
    r.attach_text_target(Some(SemanticTarget {
        role: "AXTextField".into(),
        ..SemanticTarget::default()
    }));
    assert_eq!(r.record_key(150 * MS, false, 4, 0, None), KeyRecorded::Ignored);
    assert_eq!(r.record_key(200 * MS, true, 34, 0, Some("i".into())), KeyRecorded::AppendedText);
    assert_eq!(r.actions.len(), 1);
    match &r.actions[0] {
        Action::Text { text, delay_ms, target, .. } => {
            assert_eq!(text, "hi");
            assert_eq!(*delay_ms, 100);
            assert_eq!(target.as_ref().map(|t| t.role.as_str()), Some("AXTextField"));
        }
        _ => panic!("expected text"),
    }
    // A pause of half a second starts a new text action.
    assert_eq!(r.record_key(700 * MS, true, 31, 0, Some("o".into())), KeyRecorded::NewText);
    assert_eq!(r.actions.len(), 2);
}

#[test]
fn shortcuts_and_control_keys_stay_raw_key_events() {
    let mut r = recording(RecordingSettings::default());
    let command = 1 << 20;
    assert_eq!(r.record_key(MS, true, 8, command | 0x100, Some("c".into())), KeyRecorded::KeyAction);
    assert_eq!(r.record_key(2 * MS, true, 36, 0, Some("\r".into())), KeyRecorded::KeyAction);
    assert_eq!(r.record_key(3 * MS, false, 36, 0, None), KeyRecorded::KeyAction);
    match &r.actions[0] {
        Action::Key { key_code, modifiers, down, .. } => {
            assert_eq!((*key_code, *modifiers, *down), (8, command, true));
        }
        _ => panic!("expected a key"),
    }
    assert_eq!(r.actions.len(), 3);
}

#[test]
fn a_click_is_recorded_with_its_approach() {
    let mut r = recording(RecordingSettings::default());
    r.record_pointer_move(10 * MS, bits(5.0), bits(5.0), false, true);
    r.record_pointer_move(20 * MS, bits(6.0), bits(6.0), false, false);
    r.record_pointer_move(100 * MS, bits(50.0), bits(50.0), true, false);
    assert_eq!(r.pending_moves.len(), 2);
    let edges = vec![false, true];
    r.record_button_down(300 * MS, MouseButton::Left, 1, bits(60.0), bits(60.0), false, None, edges);
    r.record_button_up(320 * MS, MouseButton::Left, bits(60.0), bits(60.0), false, false, true, false);
    assert_eq!(r.actions.len(), 1);
    match &r.actions[0] {
        Action::Click { approach, delay_ms, clicks, .. } => {
            assert_eq!(*delay_ms, 300);
            assert_eq!(*clicks, 1);
            assert_eq!(approach.len(), 2);
            assert_eq!(approach[0].offset_ms, 10);
            assert_eq!(approach[1].offset_ms, 100);
            assert!(approach[1].screen_edge);
        }
        _ => panic!("expected a click"),
    }
    assert!(r.pending_moves.is_empty());
}

#[test]
fn a_long_press_path_becomes_a_drag() {
    let mut r = recording(RecordingSettings::default());
    r.record_button_down(0, MouseButton::Left, 1, bits(0.0), bits(0.0), false, None, vec![]);
    r.record_button_drag(4 * MS, bits(0.5), bits(0.0), false, false);
    r.record_button_drag(10 * MS, bits(40.0), bits(0.0), false, true);
    r.record_button_up(250 * MS, MouseButton::Left, bits(80.0), bits(0.0), false, true, false, false);
    match &r.actions[0] {
        Action::Drag { points, duration_ms, .. } => {
            assert_eq!(points.len(), 3);
            assert_eq!(points[1].offset_ms, 10);
            assert_eq!(*duration_ms, 250);
        }
        _ => panic!("expected a drag"),
    }
}

#[test]
fn a_release_of_another_button_drops_the_press() {
    let mut r = recording(RecordingSettings::default());
    r.record_button_down(0, MouseButton::Left, 1, bits(0.0), bits(0.0), false, None, vec![]);
    r.record_button_up(10 * MS, MouseButton::Right, bits(0.0), bits(0.0), false, false, true, false);
    assert!(r.actions.is_empty());
    assert!(r.pending_pointer.is_none());
}

#[test]
fn a_double_click_updates_the_first_click() {
    let mut r = recording(RecordingSettings::default());
    r.record_button_down(0, MouseButton::Left, 1, bits(10.0), bits(10.0), false, None, vec![]);
    r.record_button_up(50 * MS, MouseButton::Left, bits(10.0), bits(10.0), false, false, true, false);
    r.record_button_down(150 * MS, MouseButton::Left, 2, bits(11.0), bits(10.0), false, None, vec![]);
    let near = near_last_click(&r.actions, 11.0, 10.0);
    r.record_button_up(200 * MS, MouseButton::Left, bits(11.0), bits(10.0), false, false, true, near);
    assert_eq!(r.actions.len(), 1);
    match &r.actions[0] {
        Action::Click { clicks, .. } => assert_eq!(*clicks, 2),
        _ => panic!("expected a click"),
    }
}

#[test]
fn nearby_scrolls_in_one_unit_merge() {
    let mut r = recording(RecordingSettings::default());
    assert!(r.record_scroll(10 * MS, 0, -3, ScrollUnit::Line, bits(1.0), bits(2.0), 0, 0));
    assert!(!r.record_scroll(100 * MS, 0, -2, ScrollUnit::Line, bits(1.0), bits(2.0), 0, 0));
    assert!(!r.record_scroll(150 * MS, 0, 0, ScrollUnit::Line, bits(1.0), bits(2.0), 0, 0));
    assert!(r.record_scroll(200 * MS, 0, 4, ScrollUnit::Pixel, bits(1.0), bits(2.0), 0, 0));
    assert!(r.record_scroll(900 * MS, 0, 4, ScrollUnit::Pixel, bits(1.0), bits(2.0), 0, 0));
    assert_eq!(r.actions.len(), 3);
    match &r.actions[0] {
        Action::Scroll { y, unit, delay_ms, .. } => {
            assert_eq!((*y, *unit, *delay_ms), (-5, ScrollUnit::Line, 10));
        }
        _ => panic!("expected a scroll"),
    }
    assert!(r.record_scroll(900 * MS + 1, i32::MAX, 0, ScrollUnit::Line, 0, 0, 0, 0));
    assert!(!r.record_scroll(900 * MS + 2, i32::MAX, 0, ScrollUnit::Line, 0, 0, 0, 0));
    match r.actions.last() {
        Some(Action::Scroll { x, .. }) => assert_eq!(*x, i32::MAX),
        _ => panic!("expected a scroll"),
    }
}

#[test]
fn visible_movement_is_thinned() {
    let mut settings = RecordingSettings::default();
    settings.mouse_movement = true;
    let mut r = recording(settings);
    r.record_pointer_move(0, bits(0.0), bits(0.0), false, false);
    r.record_pointer_move(50 * MS, bits(3.0), bits(0.0), false, false);
    r.record_pointer_move(100 * MS, bits(20.0), bits(0.0), false, true);
    r.record_pointer_move(400 * MS, bits(21.0), bits(0.0), false, false);
    assert_eq!(r.actions.len(), 3);
    assert!(r.pending_moves.is_empty());
}

#[test]
fn pending_positions_are_capped_and_expire() {
    let mut r = recording(RecordingSettings::default());
    for i in 0..200u64 {
        r.record_pointer_move(i * 100 * MS, bits(i as f64), 0, false, true);
    }
    assert_eq!(r.pending_moves.len(), 51);
    for i in 0..200u64 {
        r.record_pointer_move(30_000 * MS + i * MS, bits(i as f64), 0, false, true);
    }
    assert_eq!(r.pending_moves.len(), 128);
}

#[test]
fn nothing_is_recorded_while_inactive_or_filtered() {
    let mut r = Recording::new();
    r.record_key(0, true, 4, 0, Some("a".into()));
    r.record_pointer_move(0, 0, 0, false, true);
    assert!(r.actions.is_empty());
    let mut settings = RecordingSettings::default();
    settings.keyboard = false;
    settings.scrolling = false;
    settings.timing = false;
    let mut r = recording(settings);
    assert_eq!(r.record_key(0, true, 4, 0, Some("a".into())), KeyRecorded::Ignored);
    assert!(!r.record_scroll(0, 0, 1, ScrollUnit::Line, 0, 0, 0, 0));
    r.record_button_down(9_000 * MS, MouseButton::Left, 5, 0, 0, false, None, vec![]);
    r.record_button_up(9_001 * MS, MouseButton::Left, 0, 0, false, false, true, false);
    match &r.actions[0] {
        Action::Click { clicks, delay_ms, .. } => assert_eq!((*clicks, *delay_ms), (3, 0)),
        _ => panic!("expected a click"),
    }
}

#[test]
fn kept_positions_follow_the_clock() {
    let mut r = recording(RecordingSettings::default());
    assert!(r.is_followed_by(0));
    r.record_pointer_move(200 * MS, bits(1.0), 0, false, true);
    assert!(r.is_followed_by(200 * MS));
    assert!(r.is_followed_by(300 * MS));
    assert!(!r.is_followed_by(100 * MS));
}
