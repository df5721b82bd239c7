use bettermacro::clicks::{check_text_entry, click_delivery, click_route, delivery_after_refused_action, target_refusal_message, ClickApproach, ClickDelivery, TargetRefusal};
use bettermacro::model::{Action, MouseButton};
use bettermacro::playback::{click_event_plan, key_chord_plan, path_timing, ButtonEvent, DragRun, DragStep, track_pressed_key, KeyStroke, PlaybackRun, PlaybackStep};
use bettermacro::processes::{find_process_in_listing, match_listing_line, parse_process_number};
use bettermacro::semantic::{candidate_reads, normalize_action_names, recorded_path, records_value};
use bettermacro::model::SemanticNode;
use bettermacro::model::SemanticTarget;
use std::collections::HashSet;

fn chars(s: &str) -> Vec<char> {
    s.chars().collect()
}

fn key(code: u16, down: bool) -> Action {
    Action::Key { enabled: true, key_code: code, modifiers: 0, down, delay_ms: 0 }
}

#[test]
fn waits_participate_in_timing() {
    assert_eq!(Action::Wait { enabled: true, duration_ms: 1100 }.delay_ms(), 1100);
    assert_eq!(
        Action::Key { enabled: true, key_code: 36, modifiers: 0, down: true, delay_ms: 70 }
            .delay_ms(),
        70
    );
}

#[test]
fn disabled_actions_report_it() {
    assert!(!Action::Wait { enabled: false, duration_ms: 5 }.enabled());
    assert!(key(1, true).enabled());
}

#[test]
fn track_pressed_key_follows_presses_and_releases() {
    let mut pressed = HashSet::new();
    track_pressed_key(&mut pressed, &key(7, true));
    assert!(pressed.contains(&7));
    track_pressed_key(&mut pressed, &Action::Wait { enabled: true, duration_ms: 1 });
    assert_eq!(pressed.len(), 1);
    track_pressed_key(&mut pressed, &key(7, false));
    assert!(pressed.is_empty());
}

fn run_to_end(actions: &Vec<Action>, start: usize, fail_at: Option<usize>) -> (Vec<usize>, Vec<usize>, PlaybackRun) {
    let mut run = PlaybackRun::new(actions, start);
    let mut performed = Vec::new();
    let mut reported = Vec::new();
    loop {
        match run.next_step(actions, true) {
            PlaybackStep::Stop => break,
            PlaybackStep::Skip { progress } => reported.push(progress.index),
            PlaybackStep::Perform { index } => {
                performed.push(index);
                let completed = fail_at != Some(index);
                if let Some(progress) = run.action_finished(actions, completed, true) {
                    assert_eq!(progress.total, actions.len());
                    reported.push(progress.index);
                }
            }
        }
    }
    (performed, reported, run)
}

#[test]
fn a_run_plays_enabled_actions_and_reports_every_one() {
    let disabled = Action::Key { enabled: false, key_code: 9, modifiers: 0, down: true, delay_ms: 0 };
    let actions = vec![key(1, true), disabled, key(2, true), key(1, false), key(3, true)];
    let (performed, reported, run) = run_to_end(&actions, 0, None);
    assert_eq!(performed, vec![0, 2, 3, 4]);
    assert_eq!(reported, vec![0, 1, 2, 3, 4]);
    let expected: HashSet<u16> = [2u16, 3].into_iter().collect();
    assert_eq!(run.pressed_keys(), &expected);
}

#[test]
fn a_run_starts_late_and_stops_at_a_failed_action() {
    let actions = vec![key(1, true), key(2, true), key(3, true), key(4, true)];
    let (performed, reported, run) = run_to_end(&actions, 1, Some(2));
    assert_eq!(performed, vec![1, 2]);
    assert_eq!(reported, vec![1]);
    let expected: HashSet<u16> = [2u16].into_iter().collect();
    assert_eq!(run.pressed_keys(), &expected);
}

#[test]
fn a_stopped_run_hands_out_nothing() {
    let actions = vec![key(1, true)];
    let mut run = PlaybackRun::new(&actions, 0);
    assert!(matches!(run.next_step(&actions, false), PlaybackStep::Stop));
    assert!(matches!(run.next_step(&actions, true), PlaybackStep::Stop));
    let mut run = PlaybackRun::new(&actions, 0);
    assert!(matches!(run.next_step(&actions, true), PlaybackStep::Perform { index: 0 }));
    assert!(run.action_finished(&actions, true, false).is_none());
    assert!(run.pressed_keys().contains(&1));
    assert!(matches!(run.next_step(&actions, true), PlaybackStep::Stop));
}

#[test]
fn chords_press_in_order_and_release_in_reverse() {
    // Shift (1 << 17) and Command (1 << 20).
    let modifiers: u64 = (1 << 17) | (1 << 20);
    let plan = key_chord_plan(modifiers);
    assert_eq!(
        plan.presses,
        vec![
            KeyStroke { key_code: 56, down: true, flags: 1 << 17 },
            KeyStroke { key_code: 55, down: true, flags: (1 << 17) | (1 << 20) },
        ]
    );
    assert_eq!(
        plan.releases,
        vec![
            KeyStroke { key_code: 55, down: false, flags: 1 << 17 },
            KeyStroke { key_code: 56, down: false, flags: 0 },
        ]
    );
    let empty = key_chord_plan(0);
    assert!(empty.presses.is_empty() && empty.releases.is_empty());
}

#[test]
fn process_numbers_parse_like_i32() {
    assert_eq!(parse_process_number(&chars("42")), Some(42));
    assert_eq!(parse_process_number(&chars("+5")), Some(5));
    assert_eq!(parse_process_number(&chars("-2147483648")), Some(i32::MIN));
    assert_eq!(parse_process_number(&chars("2147483647")), Some(i32::MAX));
    assert_eq!(parse_process_number(&chars("2147483648")), None);
    assert_eq!(parse_process_number(&chars("99999999999999999999")), None);
    assert_eq!(parse_process_number(&chars("")), None);
    assert_eq!(parse_process_number(&chars("-")), None);
    assert_eq!(parse_process_number(&chars("1a")), None);
}

#[test]
fn listing_lines_name_the_process_of_the_executable() {
    let exe = chars("/Applications/Browser.app/Contents/MacOS/Browser");
    assert_eq!(
        match_listing_line(&chars("  321 /Applications/Browser.app/Contents/MacOS/Browser  "), &exe),
        Some(321)
    );
    assert_eq!(match_listing_line(&chars("321"), &exe), None);
    assert_eq!(match_listing_line(&chars("x /Applications/Browser.app/Contents/MacOS/Browser"), &exe), None);
    assert_eq!(match_listing_line(&chars("12 /usr/bin/other"), &exe), None);
}

#[test]
fn the_first_matching_line_of_a_listing_wins() {
    let listing = "  PID COMM\n   10 /usr/bin/other\r\n   20 /Applications/Browser.app/Contents/MacOS/Browser\n   30 /Applications/Browser.app/Contents/MacOS/Browser\n";
    assert_eq!(
        find_process_in_listing(listing, "/Applications/Browser.app/Contents/MacOS/Browser"),
        Some(20)
    );
    assert_eq!(find_process_in_listing(listing, "/usr/bin/missing"), None);
    assert_eq!(find_process_in_listing("", "/usr/bin/other"), None);
}

#[test]
fn typed_text_fields_never_record_their_value() {
    assert!(!records_value(&"AXTextField".to_string(), &None));
    assert!(!records_value(&"AXButton".to_string(), &Some("AXSecureTextField".to_string())));
    assert!(records_value(&"AXButton".to_string(), &None));
    assert!(records_value(&"AXCheckBox".to_string(), &Some("AXToggle".to_string())));
}

#[test]
fn candidates_read_what_the_recording_holds() {
    let mut target = SemanticTarget::default();
    target.role = "AXButton".to_string();
    target.help = Some("help".to_string());
    target.value = Some("v".to_string());
    let mut node = SemanticNode::default();
    node.role = "AXButton".to_string();
    let reads = candidate_reads(&node, &target);
    assert!(reads.help && reads.value && !reads.filename);
    node.subrole = Some("AXSecureTextField".to_string());
    assert!(!candidate_reads(&node, &target).value);
    node.role = "AXGroup".to_string();
    let other = candidate_reads(&node, &target);
    assert!(!other.help && !other.value && !other.filename);
}

#[test]
fn only_complete_paths_are_recorded() {
    assert_eq!(recorded_path(vec![3, 1, 0], true, true), vec![0, 1, 3]);
    assert!(recorded_path(vec![3, 1, 0], false, true).is_empty());
    assert!(recorded_path(vec![3, 1, 0], true, false).is_empty());
}

#[test]
fn action_names_are_sorted_without_repeats() {
    let names = vec![
        "AXPress".to_string(),
        "AXOpen".to_string(),
        "AXPress".to_string(),
        "AXCancel".to_string(),
    ];
    assert_eq!(
        normalize_action_names(names),
        vec!["AXCancel".to_string(), "AXOpen".to_string(), "AXPress".to_string()]
    );
}

#[test]
fn path_timing_spaces_samples_by_their_offsets() {
    assert_eq!(path_timing(&vec![100, 250, 400], 500), vec![100, 150, 150, 100]);
    assert_eq!(path_timing(&vec![100, 800], 500), vec![100, 400, 0]);
    assert_eq!(path_timing(&vec![300, 200], 500), vec![300, 0, 300]);
    assert_eq!(path_timing(&vec![], 70), vec![70]);
}

fn button_target() -> SemanticTarget {
    let mut target = SemanticTarget::default();
    target.role = "AXButton".to_string();
    target.title = Some("Submit".to_string());
    target
}

#[test]
fn unresolved_semantic_clicks_are_refused_before_input() {
    let target = Some(button_target());
    let refused = click_route(&target, None).unwrap_err();
    assert_eq!(
        refused,
        "Stopped before clicking because the semantic target could not be resolved safely: Submit"
    );
    assert_eq!(click_route(&target, Some(true)).unwrap(), ClickApproach::ToResolvedElement);
    assert_eq!(click_route(&target, Some(false)).unwrap(), ClickApproach::WaitInPlace);
    assert_eq!(click_route(&None, None).unwrap(), ClickApproach::RecordedPath);
    let mut unlabelled = SemanticTarget::default();
    unlabelled.role = "AXGroup".to_string();
    assert!(click_route(&Some(unlabelled), None).unwrap_err().ends_with(": unlabelled element"));
}

#[test]
fn semantic_clicks_go_inside_the_element_or_through_native_actions() {
    let target = Some(button_target());
    let actions = vec!["AXPress".to_string()];
    assert!(matches!(
        click_delivery(&None, &actions, false, MouseButton::Left, 1),
        ClickDelivery::AtRecordedPoint
    ));
    assert!(matches!(
        click_delivery(&target, &actions, true, MouseButton::Left, 1),
        ClickDelivery::NativeAction("AXPress")
    ));
    assert!(matches!(
        click_delivery(&target, &actions, true, MouseButton::Right, 1),
        ClickDelivery::InsideElement
    ));
    assert!(matches!(
        click_delivery(&target, &actions, true, MouseButton::Left, 2),
        ClickDelivery::InsideElement
    ));
    assert!(matches!(delivery_after_refused_action(true), ClickDelivery::InsideElement));
    assert!(matches!(delivery_after_refused_action(false), ClickDelivery::Refuse));
    assert!(matches!(
        click_delivery(&target, &actions, false, MouseButton::Left, 1),
        ClickDelivery::NativeAction("AXPress")
    ));
    assert!(matches!(
        click_delivery(&target, &actions, false, MouseButton::Right, 1),
        ClickDelivery::Refuse
    ));
    assert!(matches!(
        click_delivery(&target, &actions, false, MouseButton::Left, 2),
        ClickDelivery::Refuse
    ));
}

#[test]
fn refusals_name_the_target() {
    let target = button_target();
    assert_eq!(
        target_refusal_message(TargetRefusal::UnclickableTarget, &target),
        "The resolved target has no clickable screen bounds and did not accept its native action: Submit"
    );
    assert_eq!(
        target_refusal_message(TargetRefusal::UnresolvedText, &target),
        "Stopped before typing because the semantic text target could not be resolved safely: Submit"
    );
    assert_eq!(
        target_refusal_message(TargetRefusal::UnfocusedText, &target),
        "Stopped before typing because macOS did not focus the intended text field: Submit"
    );
}

#[test]
fn clicks_post_one_press_and_release_per_repeat() {
    let double = click_event_plan(MouseButton::Right, 2);
    assert_eq!(
        double,
        vec![
            ButtonEvent { event_type: 3, button_code: 1, click_state: 1 },
            ButtonEvent { event_type: 4, button_code: 1, click_state: 1 },
            ButtonEvent { event_type: 3, button_code: 1, click_state: 2 },
            ButtonEvent { event_type: 4, button_code: 1, click_state: 2 },
        ]
    );
    assert_eq!(click_event_plan(MouseButton::Left, 0).len(), 2);
    assert_eq!(click_event_plan(MouseButton::Center, 9).len(), 6);
    assert_eq!(click_event_plan(MouseButton::Center, 9)[5].click_state, 3);
}

fn drag_steps(moves: usize, hold_ms: u64, interrupt_at: Option<usize>) -> (Vec<DragStep>, bool) {
    let mut run = DragRun::new(moves, hold_ms);
    let mut steps = Vec::new();
    let mut completed = true;
    loop {
        let step = run.next_step(completed);
        steps.push(step);
        if step == DragStep::Finished {
            break;
        }
        completed = interrupt_at != Some(steps.len() - 1);
    }
    (steps, run.completed())
}

#[test]
fn drags_press_move_hold_and_release_once() {
    let (steps, completed) = drag_steps(2, 30, None);
    assert_eq!(
        steps,
        vec![
            DragStep::Press,
            DragStep::Move { index: 0 },
            DragStep::Move { index: 1 },
            DragStep::Hold { ms: 30 },
            DragStep::Release { at_pointer: false },
            DragStep::Finished,
        ]
    );
    assert!(completed);
    let (steps, _) = drag_steps(1, 0, None);
    assert_eq!(steps[2], DragStep::Release { at_pointer: false });
}

#[test]
fn interrupted_drags_still_release_the_button() {
    let (steps, completed) = drag_steps(3, 30, Some(1));
    assert_eq!(
        steps,
        vec![
            DragStep::Press,
            DragStep::Move { index: 0 },
            DragStep::Release { at_pointer: true },
            DragStep::Finished,
        ]
    );
    assert!(!completed);
    let (steps, completed) = drag_steps(0, 30, Some(1));
    assert_eq!(steps[2], DragStep::Release { at_pointer: false });
    assert!(!completed);
}

#[test]
fn text_is_typed_only_into_the_focused_target() {
    let target = Some(button_target());
    assert!(check_text_entry(&None, None).is_ok());
    assert!(check_text_entry(&target, Some(true)).is_ok());
    assert_eq!(
        check_text_entry(&target, None).unwrap_err(),
        "Stopped before typing because the semantic text target could not be resolved safely: Submit"
    );
    assert_eq!(
        check_text_entry(&target, Some(false)).unwrap_err(),
        "Stopped before typing because macOS did not focus the intended text field: Submit"
    );
}
