use bettermacro::text::{
    application_bundle_path, dock_edge_from_preference, executable_paths_match,
    limit_semantic_text, semantic_text_equal, DockEdge,
};

#[test]
fn dock_orientation_preference_selects_the_reveal_edge() {
    assert_eq!(dock_edge_from_preference("left\n"), DockEdge::Left);
    assert_eq!(dock_edge_from_preference("right"), DockEdge::Right);
    assert_eq!(dock_edge_from_preference("bottom"), DockEdge::Bottom);
    assert_eq!(dock_edge_from_preference("unexpected"), DockEdge::Bottom);
}

#[test]
fn application_bundle_is_derived_from_nested_helper_paths() {
    assert_eq!(
        application_bundle_path(
            "/Applications/Browser.app/Contents/Frameworks/Browser Helper.app/Contents/MacOS/Helper"
        ),
        Some("/Applications/Browser.app")
    );
    assert_eq!(application_bundle_path("/usr/bin/example"), None);
    assert!(executable_paths_match(
        "/Applications/Browser.app/Contents/MacOS/Browser",
        "/Users/example/Applications/Browser.app/Contents/MacOS/Browser"
    ));
    assert!(!executable_paths_match(
        "/Applications/Browser.app/Contents/MacOS/Browser",
        "/Applications/Other.app/Contents/MacOS/Browser"
    ));
}

#[test]
fn identical_executables_match_without_a_bundle() {
    assert!(executable_paths_match("/usr/bin/example", "/usr/bin/example"));
    assert!(!executable_paths_match("/usr/bin/example", "/usr/local/bin/example"));
}

#[test]
fn bundles_must_share_the_inner_executable_path() {
    assert!(!executable_paths_match(
        "/Applications/Browser.app/Contents/MacOS/Browser",
        "/Applications/Browser.app/Contents/MacOS/Helper"
    ));
    assert!(!executable_paths_match(
        "/Applications/Browser.app/Contents/MacOS/Browser",
        "/usr/bin/Browser"
    ));
}

#[test]
fn dock_preference_trims_unicode_whitespace() {
    assert_eq!(dock_edge_from_preference("\u{3000} right\t"), DockEdge::Right);
    assert_eq!(dock_edge_from_preference("Left"), DockEdge::Bottom);
    assert_eq!(dock_edge_from_preference(""), DockEdge::Bottom);
}

#[test]
fn semantic_labels_are_trimmed_and_bounded() {
    assert_eq!(limit_semantic_text("  Submit \n".to_string()), Some("Submit".to_string()));
    assert_eq!(limit_semantic_text(" \t\n".to_string()), None);
    assert_eq!(limit_semantic_text(String::new()), None);
    let long = "x".repeat(600);
    let kept = limit_semantic_text(format!("  {long}  ")).unwrap();
    assert_eq!(kept.chars().count(), 512);
    let accented = "é".repeat(520);
    assert_eq!(limit_semantic_text(accented).unwrap().chars().count(), 512);
}

#[test]
fn semantic_text_equality_ignores_surrounding_whitespace_only() {
    assert!(semantic_text_equal(&Some(" Save ".to_string()), &Some("Save".to_string())));
    assert!(!semantic_text_equal(&Some("Save".to_string()), &Some("save".to_string())));
    assert!(!semantic_text_equal(&None, &Some("Save".to_string())));
    assert!(!semantic_text_equal(&None, &None));
}
