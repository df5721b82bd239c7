use bettermacro::model::{SemanticNode, SemanticTarget};
use bettermacro::semantic::{
    accepts_path_match, children_to_search, score_semantic_text, AncestorWalk, ParentFound, ResolveAttempts, semantic_action_for_click, semantic_match_score, SearchBudget,
    semantic_target_name, unresolved_click_label, MatchEvidence, SemanticCandidate,
    SemanticSearch,
};

/// The proximity bonus for a candidate centred at `center` when the recorded
/// point was `original`: ten points, minus one per 200 pixels of distance.
fn proximity(center: Option<(f64, f64)>, original: (f64, f64)) -> i32 {
    match center {
        Some((x, y)) => {
            let distance = (x - original.0).hypot(y - original.1);
            (10.0 - distance / 200.0).clamp(0.0, 10.0) as i32
        }
        None => 0,
    }
}

fn some(s: &str) -> Option<String> {
    Some(s.to_string())
}

#[test]
fn semantic_matching_prefers_identity_over_old_coordinates() {
    let target = SemanticTarget {
        application: some("/Applications/Example.app/Contents/MacOS/Example"),
        role: "AXButton".into(),
        identifier: some("submit"),
        title: some("Submit"),
        ancestors: vec![SemanticNode {
            role: "AXGroup".into(),
            identifier: some("checkout"),
            ..SemanticNode::default()
        }],
        ..SemanticTarget::default()
    };
    let matching = SemanticNode {
        role: "AXButton".into(),
        identifier: some("submit"),
        title: some("Submit"),
        ..SemanticNode::default()
    };
    let nearby_wrong = SemanticNode {
        role: "AXButton".into(),
        identifier: some("cancel"),
        title: some("Cancel"),
        ..SemanticNode::default()
    };
    let parent = SemanticNode {
        role: "AXGroup".into(),
        identifier: some("checkout"),
        ..SemanticNode::default()
    };
    let original = (20.0, 20.0);
    let matching_score = semantic_match_score(
        &matching,
        &vec![parent.clone()],
        &target,
        &vec![],
        proximity(Some((900.0, 700.0)), original),
    )
    .expect("stable identifier should match")
    .score;
    let wrong_score = semantic_match_score(
        &nearby_wrong,
        &vec![parent],
        &target,
        &vec![],
        proximity(Some((20.0, 20.0)), original),
    );
    assert!(wrong_score.is_none());
    assert!(matching_score >= 200);
}

#[test]
fn window_control_subroles_can_never_cross_match() {
    let target = SemanticTarget {
        role: "AXButton".into(),
        subrole: some("AXMinimizeButton"),
        description: some("minimize button"),
        ..SemanticTarget::default()
    };
    let close = SemanticNode {
        role: "AXButton".into(),
        subrole: some("AXCloseButton"),
        description: some("close button"),
        ..SemanticNode::default()
    };
    assert!(semantic_match_score(
        &close,
        &vec![],
        &target,
        &vec![],
        proximity(Some((10.0, 10.0)), (10.0, 10.0))
    )
    .is_none());
}

#[test]
fn legacy_window_controls_use_description_instead_of_geometry() {
    let target = SemanticTarget {
        role: "AXButton".into(),
        description: some("minimize button"),
        ..SemanticTarget::default()
    };
    let minimize = SemanticNode {
        role: "AXButton".into(),
        description: some("minimize button"),
        ..SemanticNode::default()
    };
    let close = SemanticNode {
        role: "AXButton".into(),
        description: some("close button"),
        ..SemanticNode::default()
    };
    let original = (10.0, 10.0);
    assert!(semantic_match_score(&minimize, &vec![], &target, &vec![], proximity(None, original))
        .is_some());
    assert!(semantic_match_score(
        &close,
        &vec![],
        &target,
        &vec![],
        proximity(Some(original), original)
    )
    .is_none());
}

#[test]
fn generic_role_and_geometry_are_not_enough_to_click() {
    let target = SemanticTarget {
        role: "AXButton".into(),
        ..SemanticTarget::default()
    };
    let candidate = SemanticNode {
        role: "AXButton".into(),
        ..SemanticNode::default()
    };
    let point = (10.0, 10.0);
    assert!(semantic_match_score(
        &candidate,
        &vec![],
        &target,
        &vec![],
        proximity(Some(point), point)
    )
    .is_none());
}

#[test]
fn exact_scores_add_up_per_attribute() {
    let target = SemanticTarget {
        role: "AXButton".into(),
        identifier: some("submit"),
        title: some("Submit"),
        help: some("Sends the form"),
        ancestors: vec![SemanticNode {
            role: "AXGroup".into(),
            identifier: some("checkout"),
            title: some("Checkout"),
            ..SemanticNode::default()
        }],
        window: Some(SemanticNode {
            role: "AXWindow".into(),
            title: some("Store"),
            ..SemanticNode::default()
        }),
        path: vec![0, 2],
        ..SemanticTarget::default()
    };
    let node = SemanticNode {
        role: "AXButton".into(),
        identifier: some("submit"),
        title: some("  Submit "),
        help: some("Other help"),
        ..SemanticNode::default()
    };
    let lineage = vec![
        SemanticNode {
            role: "AXWindow".into(),
            title: some("Store"),
            ..SemanticNode::default()
        },
        SemanticNode {
            role: "AXGroup".into(),
            identifier: some("checkout"),
            title: some("Cart"),
            ..SemanticNode::default()
        },
    ];
    // 10 base + 220 identifier + 110 title - 20 help
    // + ancestor (12 + 45 identifier - 15 title) + window (20 + 50) + 120 path + 3 proximity
    let evidence = semantic_match_score(&node, &lineage, &target, &vec![0, 2], 3).unwrap();
    assert_eq!(evidence.score, 10 + 220 + 110 - 20 + 12 + 45 - 15 + 20 + 50 + 120 + 3);
    assert!(evidence.exact_path);
    let elsewhere = semantic_match_score(&node, &lineage, &target, &vec![0, 3], 3).unwrap();
    assert_eq!(elsewhere.score, evidence.score - 120);
    assert!(!elsewhere.exact_path);
}

#[test]
fn an_ancestor_of_another_role_ends_the_lineage_comparison() {
    let target = SemanticTarget {
        role: "AXButton".into(),
        title: some("OK"),
        ancestors: vec![
            SemanticNode {
                role: "AXSheet".into(),
                ..SemanticNode::default()
            },
            SemanticNode {
                role: "AXWindow".into(),
                ..SemanticNode::default()
            },
        ],
        ..SemanticTarget::default()
    };
    let node = SemanticNode {
        role: "AXButton".into(),
        title: some("OK"),
        ..SemanticNode::default()
    };
    let lineage = vec![
        SemanticNode {
            role: "AXWindow".into(),
            ..SemanticNode::default()
        },
        SemanticNode {
            role: "AXGroup".into(),
            ..SemanticNode::default()
        },
    ];
    let evidence = semantic_match_score(&node, &lineage, &target, &vec![], 0).unwrap();
    assert_eq!(evidence.score, 10 + 110 - 30);
}

#[test]
fn an_exact_path_with_a_matching_ancestor_is_enough_evidence() {
    let target = SemanticTarget {
        role: "AXCell".into(),
        path: vec![1, 4],
        ancestors: vec![SemanticNode {
            role: "AXRow".into(),
            ..SemanticNode::default()
        }],
        ..SemanticTarget::default()
    };
    let node = SemanticNode {
        role: "AXCell".into(),
        ..SemanticNode::default()
    };
    let lineage = vec![SemanticNode {
        role: "AXRow".into(),
        ..SemanticNode::default()
    }];
    let evidence = semantic_match_score(&node, &lineage, &target, &vec![1, 4], 0).unwrap();
    assert_eq!(evidence.score, 10 + 12 + 120);
    assert!(semantic_match_score(&node, &lineage, &target, &vec![1, 5], 0).is_none());
}

#[test]
fn text_scores_reward_matches_and_penalise_mismatches() {
    let mut score = 10;
    let mut strong = false;
    score_semantic_text(&mut score, &mut strong, &None, &some("x"), 110, 45);
    assert_eq!((score, strong), (10, false));
    score_semantic_text(&mut score, &mut strong, &some("a"), &some("b"), 110, 45);
    assert_eq!((score, strong), (-35, false));
    score_semantic_text(&mut score, &mut strong, &some("a"), &some(" a"), 140, 70);
    assert_eq!((score, strong), (105, true));
}

#[test]
fn semantic_actions_preserve_single_and_double_click_intent() {
    let button = SemanticTarget {
        role: "AXButton".into(),
        ..SemanticTarget::default()
    };
    let text = SemanticTarget {
        role: "AXStaticText".into(),
        ..SemanticTarget::default()
    };
    let actions: Vec<String> = vec!["AXOpen".into(), "AXPress".into()];
    assert_eq!(semantic_action_for_click(&button, &actions, 1), Some("AXPress"));
    assert_eq!(semantic_action_for_click(&text, &actions, 1), None);
    assert_eq!(semantic_action_for_click(&text, &actions, 2), Some("AXOpen"));
}

#[test]
fn window_buttons_fall_back_through_native_actions() {
    let close = SemanticTarget {
        role: "AXImage".into(),
        subrole: some("AXCloseButton"),
        ..SemanticTarget::default()
    };
    let actions: Vec<String> = vec!["AXConfirm".into(), "AXPick".into()];
    assert_eq!(semantic_action_for_click(&close, &actions, 1), Some("AXPick"));
    assert_eq!(semantic_action_for_click(&close, &vec![], 1), None);
    assert_eq!(semantic_action_for_click(&close, &actions, 3), None);
}

#[test]
fn targets_are_named_by_their_most_specific_label() {
    let mut target = SemanticTarget {
        role: "AXButton".into(),
        ..SemanticTarget::default()
    };
    assert_eq!(semantic_target_name(&target), "AXButton");
    assert_eq!(unresolved_click_label(&target), "unlabelled element");
    target.identifier = some("ok-button");
    assert_eq!(semantic_target_name(&target), "ok-button");
    target.description = some("confirm");
    assert_eq!(semantic_target_name(&target), "confirm");
    target.title = some("OK");
    assert_eq!(semantic_target_name(&target), "OK");
    assert_eq!(unresolved_click_label(&target), "OK");
}

#[test]
fn a_search_rejects_weak_and_ambiguous_winners() {
    let mut search = SemanticSearch::new();
    search.consider(SemanticCandidate { score: 200, exact_path: false, element: "a" });
    search.consider(SemanticCandidate { score: 150, exact_path: false, element: "b" });
    assert_eq!(search.second_score, 150);
    assert_eq!(search.resolve().map(|c| c.element), Some("a"));

    let mut ambiguous = SemanticSearch::new();
    ambiguous.consider(SemanticCandidate { score: 200, exact_path: false, element: "a" });
    ambiguous.consider(SemanticCandidate { score: 180, exact_path: false, element: "b" });
    assert!(ambiguous.resolve().is_none());

    let mut exact = SemanticSearch::new();
    exact.consider(SemanticCandidate { score: 180, exact_path: false, element: "b" });
    exact.consider(SemanticCandidate { score: 200, exact_path: true, element: "a" });
    assert_eq!(exact.second_score, 180);
    assert_eq!(exact.resolve().map(|c| c.element), Some("a"));

    let mut weak = SemanticSearch::new();
    weak.consider(SemanticCandidate { score: 79, exact_path: true, element: "a" });
    assert!(weak.resolve().is_none());

    let empty: SemanticSearch<&str> = SemanticSearch::new();
    assert!(empty.resolve().is_none());
}

#[test]
fn ties_keep_the_first_candidate() {
    let mut search = SemanticSearch::new();
    search.consider(SemanticCandidate { score: 120, exact_path: true, element: 1 });
    search.consider(SemanticCandidate { score: 120, exact_path: false, element: 2 });
    assert_eq!(search.best.as_ref().map(|c| c.element), Some(1));
    assert_eq!(search.second_score, 120);
}

#[test]
fn path_matches_need_the_minimum_score() {
    assert!(accepts_path_match(&Some(MatchEvidence { score: 80, exact_path: true })));
    assert!(!accepts_path_match(&Some(MatchEvidence { score: 79, exact_path: true })));
    assert!(!accepts_path_match(&None));
}

#[test]
fn searches_stop_at_their_depth_and_element_budget() {
    let mut budget = SearchBudget::new();
    assert!(!budget.enter(33));
    assert!(budget.enter(32));
    let mut visited = 1;
    while budget.enter(0) {
        visited += 1;
    }
    assert_eq!(visited, 5000);
    assert!(budget.exhausted());
    assert_eq!(children_to_search(-3), 0);
    assert_eq!(children_to_search(12), 12);
    assert_eq!(children_to_search(40_000), 1000);
}

fn node(role: &str) -> SemanticNode {
    let mut n = SemanticNode::default();
    n.role = role.to_string();
    n
}

#[test]
fn walks_up_to_the_application_keep_the_path() {
    let mut walk = AncestorWalk::new();
    walk.step(ParentFound::Parent { index: Some(2), node: Some(node("AXGroup")) });
    assert!(walk.wants_parent());
    walk.step(ParentFound::Parent { index: Some(0), node: Some(node("AXWindow")) });
    walk.step(ParentFound::Parent { index: Some(1), node: Some(node("AXApplication")) });
    assert!(!walk.wants_parent());
    let (path, ancestors) = walk.finish();
    assert_eq!(path, vec![1, 0, 2]);
    assert_eq!(ancestors.len(), 2);
    assert_eq!(ancestors[1].role, "AXWindow");
}

#[test]
fn incomplete_walks_drop_the_path_but_keep_ancestors() {
    let mut walk = AncestorWalk::new();
    walk.step(ParentFound::Parent { index: None, node: Some(node("AXGroup")) });
    walk.step(ParentFound::Parent { index: Some(0), node: Some(node("AXApplication")) });
    let (path, ancestors) = walk.finish();
    assert!(path.is_empty());
    assert_eq!(ancestors.len(), 1);

    let mut walk = AncestorWalk::new();
    walk.step(ParentFound::Missing);
    assert!(!walk.wants_parent());
    assert!(walk.finish().0.is_empty());

    let mut walk = AncestorWalk::new();
    for _ in 0..32 {
        walk.step(ParentFound::Parent { index: Some(0), node: Some(node("AXGroup")) });
    }
    assert!(!walk.wants_parent());
    let (path, ancestors) = walk.finish();
    assert!(path.is_empty());
    assert_eq!(ancestors.len(), 32);
}

#[test]
fn targets_are_looked_for_at_most_fifteen_times_while_playing() {
    let mut attempts = ResolveAttempts::new();
    let mut made = 0;
    while attempts.another(true) {
        made += 1;
    }
    assert_eq!(made, 15);
    let mut stopped = ResolveAttempts::new();
    assert!(!stopped.another(false));
}
