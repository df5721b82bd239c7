//! Semantic target matching: how well an Accessibility element found during
//! playback matches the element that was recorded, which candidate wins a
//! search, and which native action stands in for a click.
use vstd::prelude::*;
use crate::model::{SemanticNode, SemanticTarget};
use crate::text::{
    is_text_before, lemma_text_before_total, lemma_text_before_transitive, opt_view, optional_text_equals, semantic_text_equal,
    str_equals, text_before, text_equal,
};

verus! {

/// The least score with which a candidate may stand for the recorded element.
pub const MINIMUM_MATCH_SCORE: i32 = 80;

/// How far the runner-up must trail the best candidate of a tree search.
pub const AMBIGUITY_MARGIN: i32 = 25;

/// The score and path evidence of a candidate element.
#[derive(Debug, Clone, Copy)]
pub struct MatchEvidence {
    pub score: i32,
    pub exact_path: bool,
}

/// The score change for an optional text that was recorded: `match_score` when
/// the candidate carries the same trimmed text, else minus `mismatch_penalty`.
pub open spec fn text_points(
    expected: Option<Seq<char>>,
    candidate: Option<Seq<char>>,
    match_score: int,
    mismatch_penalty: int,
) -> int {
    match expected {
        None => 0,
        Some(_) => if text_equal(expected, candidate) {
            match_score
        } else {
            -mismatch_penalty
        },
    }
}

/// A recorded text that the candidate matches is strong evidence.
pub open spec fn text_is_strong(expected: Option<Seq<char>>, candidate: Option<Seq<char>>) -> bool {
    expected is Some && text_equal(expected, candidate)
}

/// The score change for an ancestor attribute compared exactly.
pub open spec fn exact_points(
    expected: Option<Seq<char>>,
    candidate: Option<Seq<char>>,
    bonus: int,
    penalty: int,
) -> int {
    match expected {
        None => 0,
        Some(e) => if candidate == Some(e) {
            bonus
        } else {
            -penalty
        },
    }
}

/// The score change for an ancestor attribute compared as trimmed text.
pub open spec fn trimmed_points(
    expected: Option<Seq<char>>,
    candidate: Option<Seq<char>>,
    bonus: int,
    penalty: int,
) -> int {
    match expected {
        None => 0,
        Some(e) => if text_equal(candidate, Some(e)) {
            bonus
        } else {
            -penalty
        },
    }
}

/// The score that a lineage node with the recorded ancestor's role earns.
pub open spec fn ancestor_node_points(expected: SemanticNode, candidate: SemanticNode) -> int {
    12 + exact_points(opt_view(expected.subrole), opt_view(candidate.subrole), 25, 20)
        + exact_points(opt_view(expected.identifier), opt_view(candidate.identifier), 45, 25)
        + trimmed_points(opt_view(expected.title), opt_view(candidate.title), 30, 15)
        + trimmed_points(opt_view(expected.description), opt_view(candidate.description), 20, 10)
}

/// The `k`-th nearest ancestor in a lineage listed from the root down.
pub open spec fn nearest(lineage: Seq<SemanticNode>, k: int) -> SemanticNode {
    lineage[lineage.len() - 1 - k]
}

/// Score and number of matched ancestors, comparing the recorded ancestors from
/// position `k` on with the candidate's ancestors nearest first, and stopping
/// with a penalty at the first role that differs.
pub open spec fn ancestor_points(
    expected: Seq<SemanticNode>,
    lineage: Seq<SemanticNode>,
    k: nat,
) -> (int, nat)
    decreases expected.len() - k,
{
    if k >= expected.len() || k >= lineage.len() {
        (0, 0)
    } else if expected[k as int].role@ != nearest(lineage, k as int).role@ {
        (-30, 0)
    } else {
        let rest = ancestor_points(expected, lineage, k + 1);
        (ancestor_node_points(expected[k as int], nearest(lineage, k as int)) + rest.0, rest.1 + 1)
    }
}

/// The nearest lineage node with the given role.
pub open spec fn last_with_role(lineage: Seq<SemanticNode>, role: Seq<char>) -> Option<SemanticNode>
    decreases lineage.len(),
{
    if lineage.len() == 0 {
        None
    } else if lineage.last().role@ == role {
        Some(lineage.last())
    } else {
        last_with_role(lineage.drop_last(), role)
    }
}

/// The score for the recorded window: a bonus when a lineage node has its
/// role, adjusted by whether the nearest such node has its title.
pub open spec fn window_points(window: Option<SemanticNode>, lineage: Seq<SemanticNode>) -> int {
    match window {
        None => 0,
        Some(w) => match last_with_role(lineage, w.role@) {
            None => 0,
            Some(c) => 20 + trimmed_points(opt_view(w.title), opt_view(c.title), 50, 25),
        },
    }
}

/// The recorded tree path is known and equals the candidate's.
pub open spec fn exact_path_match(target: SemanticTarget, candidate_path: Seq<usize>) -> bool {
    target.path@.len() > 0 && target.path@ == candidate_path
}

/// Some stable identity of the recorded element (subrole, identifier or one of
/// its texts) is present and matched.
pub open spec fn strong_evidence(node: SemanticNode, target: SemanticTarget) -> bool {
    ||| target.subrole is Some
    ||| target.identifier is Some
    ||| text_is_strong(opt_view(target.title), opt_view(node.title))
    ||| text_is_strong(opt_view(target.description), opt_view(node.description))
    ||| text_is_strong(opt_view(target.help), opt_view(node.help))
    ||| text_is_strong(opt_view(target.value), opt_view(node.value))
    ||| text_is_strong(opt_view(target.filename), opt_view(node.filename))
}

/// The score of a candidate whose role, subrole and identifier agree with the
/// recording, before the evidence check.
pub open spec fn match_score_of(
    node: SemanticNode,
    lineage: Seq<SemanticNode>,
    target: SemanticTarget,
    candidate_path: Seq<usize>,
    proximity: int,
) -> int {
    10 + (if target.subrole is Some {
        240int
    } else {
        0
    }) + (if target.identifier is Some {
        220int
    } else {
        0
    }) + text_points(opt_view(target.title), opt_view(node.title), 110, 45) + text_points(
        opt_view(target.description),
        opt_view(node.description),
        140,
        70,
    ) + text_points(opt_view(target.help), opt_view(node.help), 70, 20) + text_points(
        opt_view(target.value),
        opt_view(node.value),
        90,
        30,
    ) + text_points(opt_view(target.filename), opt_view(node.filename), 180, 80)
        + ancestor_points(target.ancestors@, lineage, 0).0 + window_points(target.window, lineage)
        + (if exact_path_match(target, candidate_path) {
        120int
    } else {
        0
    }) + proximity
}

/// How a candidate element matches the recorded target: no match when its
/// role differs, when a recorded subrole or identifier differs, or when there
/// is no strong evidence and no exact tree path with a matching ancestor;
/// else its score and whether its tree path is the recorded one.
pub open spec fn match_evidence(
    node: SemanticNode,
    lineage: Seq<SemanticNode>,
    target: SemanticTarget,
    candidate_path: Seq<usize>,
    proximity: int,
) -> Option<(int, bool)> {
    if node.role@ != target.role@ {
        None
    } else if target.subrole is Some && opt_view(node.subrole) != opt_view(target.subrole) {
        None
    } else if target.identifier is Some && opt_view(node.identifier) != opt_view(
        target.identifier,
    ) {
        None
    } else if !strong_evidence(node, target) && !(exact_path_match(target, candidate_path)
        && ancestor_points(target.ancestors@, lineage, 0).1 > 0) {
        None
    } else {
        Some(
            (
                match_score_of(node, lineage, target, candidate_path, proximity),
                exact_path_match(target, candidate_path),
            ),
        )
    }
}

/// Adds the points of one recorded optional text to a running score.
pub fn score_semantic_text(
    score: &mut i32,
    strong: &mut bool,
    expected: &Option<String>,
    candidate: &Option<String>,
    match_score: i32,
    mismatch_penalty: i32,
)
    requires
        i32::MIN <= *old(score) - mismatch_penalty,
        i32::MIN <= *old(score) + match_score,
        *old(score) - mismatch_penalty <= i32::MAX,
        *old(score) + match_score <= i32::MAX,
    ensures
        *final(score) == *old(score) + text_points(
            opt_view(*expected),
            opt_view(*candidate),
            match_score as int,
            mismatch_penalty as int,
        ),
        *final(strong) == (*old(strong) || text_is_strong(opt_view(*expected), opt_view(*candidate))),
{
    if expected.is_none() {
        return ;
    }
    if semantic_text_equal(expected, candidate) {
        *score = *score + match_score;
        *strong = true;
    } else {
        *score = *score - mismatch_penalty;
    }
}

proof fn lemma_ancestor_points_bounds(expected: Seq<SemanticNode>, lineage: Seq<SemanticNode>, k: nat)
    requires
        k <= expected.len(),
        k <= lineage.len(),
    ensures
        ancestor_points(expected, lineage, k).0 <= 132 * (expected.len() - k),
        ancestor_points(expected, lineage, k).0 <= 132 * (lineage.len() - k),
        ancestor_points(expected, lineage, k).0 >= -30 - 58 * (expected.len() - k),
        ancestor_points(expected, lineage, k).0 >= -30 - 58 * (lineage.len() - k),
    decreases expected.len() - k,
{
    if k < expected.len() && k < lineage.len() && expected[k as int].role@ == nearest(
        lineage,
        k as int,
    ).role@ {
        lemma_ancestor_points_bounds(expected, lineage, k + 1);
    }
}

/// The score that one matching ancestor earns.
fn ancestor_node_score(expected: &SemanticNode, candidate: &SemanticNode) -> (r: i32)
    ensures
        r == ancestor_node_points(*expected, *candidate),
        -58 <= r <= 132,
{
    let mut score: i32 = 12;
    if expected.subrole.is_some() {
        score = if optional_text_equals(&candidate.subrole, &expected.subrole) {
            score + 25
        } else {
            score - 20
        };
    }
    if expected.identifier.is_some() {
        score = if optional_text_equals(&candidate.identifier, &expected.identifier) {
            score + 45
        } else {
            score - 25
        };
    }
    if expected.title.is_some() {
        score = if semantic_text_equal(&candidate.title, &expected.title) {
            score + 30
        } else {
            score - 15
        };
    }
    if expected.description.is_some() {
        score = if semantic_text_equal(&candidate.description, &expected.description) {
            score + 20
        } else {
            score - 10
        };
    }
    score
}

/// The ancestor score and the number of matched ancestors.
fn ancestor_score(expected: &Vec<SemanticNode>, lineage: &Vec<SemanticNode>) -> (r: (i32, usize))
    requires
        expected.len() < 16_000_000 || lineage.len() < 16_000_000,
    ensures
        r.0 == ancestor_points(expected@, lineage@, 0).0,
        r.1 == ancestor_points(expected@, lineage@, 0).1,
        -30 - 58 * 16_000_000 <= r.0 <= 132 * 16_000_000,
{
    let n = if expected.len() < lineage.len() {
        expected.len()
    } else {
        lineage.len()
    };
    let mut k: usize = 0;
    let mut total: i32 = 0;
    let mut matched: usize = 0;
    proof {
        lemma_ancestor_points_bounds(expected@, lineage@, 0);
    }
    while k < n
        invariant
            n <= expected.len(),
            n <= lineage.len(),
            n == expected.len() || n == lineage.len(),
            n < 16_000_000,
            k <= n,
            matched == k,
            -58 * k <= total <= 132 * k,
            total + ancestor_points(expected@, lineage@, k as nat).0 == ancestor_points(
                expected@,
                lineage@,
                0,
            ).0,
            matched + ancestor_points(expected@, lineage@, k as nat).1 == ancestor_points(
                expected@,
                lineage@,
                0,
            ).1,
        decreases n - k,
    {
        let e = &expected[k];
        let c = &lineage[lineage.len() - 1 - k];
        proof {
            lemma_ancestor_points_bounds(expected@, lineage@, k as nat);
        }
        if !str_equals(e.role.as_str(), c.role.as_str()) {
            return (total - 30, matched);
        }
        let points = ancestor_node_score(e, c);
        total = total + points;
        matched = matched + 1;
        k = k + 1;
    }
    (total, matched)
}

/// The nearest lineage node with the given role.
fn nearest_with_role<'a>(lineage: &'a Vec<SemanticNode>, role: &str) -> (r: Option<&'a SemanticNode>)
    ensures
        match r {
            Some(c) => last_with_role(lineage@, role@) == Some(*c),
            None => last_with_role(lineage@, role@) is None,
        },
{
    let mut k: usize = lineage.len();
    assert(lineage@.take(k as int) =~= lineage@);
    while k > 0
        invariant
            k <= lineage.len(),
            last_with_role(lineage@, role@) == last_with_role(lineage@.take(k as int), role@),
        decreases k,
    {
        let c = &lineage[k - 1];
        assert(lineage@.take(k as int).last() == lineage@[k - 1]);
        if str_equals(c.role.as_str(), role) {
            return Some(c);
        }
        assert(lineage@.take(k as int).drop_last() =~= lineage@.take(k - 1));
        k = k - 1;
    }
    None
}

/// Whether two index paths are equal.
fn paths_equal(a: &Vec<usize>, b: &Vec<usize>) -> (r: bool)
    ensures
        r == (a@ == b@),
{
    if a.len() != b.len() {
        return false;
    }
    let mut i: usize = 0;
    while i < a.len()
        invariant
            a.len() == b.len(),
            i <= a.len(),
            forall|j: int| 0 <= j < i ==> a@[j] == b@[j],
        decreases a.len() - i,
    {
        if a[i] != b[i] {
            return false;
        }
        i = i + 1;
    }
    assert(a@ =~= b@);
    true
}

/// Scores a candidate element against the recorded target. `lineage` lists
/// the candidate's ancestors from the application down, `candidate_path` is
/// its tree path, and `proximity` (0 to 10) is the bonus for lying near the
/// recorded point.
pub fn semantic_match_score(
    node: &SemanticNode,
    lineage: &Vec<SemanticNode>,
    target: &SemanticTarget,
    candidate_path: &Vec<usize>,
    proximity: i32,
) -> (r: Option<MatchEvidence>)
    requires
        0 <= proximity <= 10,
        target.ancestors.len() < 16_000_000 || lineage.len() < 16_000_000,
    ensures
        match r {
            None => match_evidence(*node, lineage@, *target, candidate_path@, proximity as int) is None,
            Some(e) => match_evidence(*node, lineage@, *target, candidate_path@, proximity as int)
                == Some((e.score as int, e.exact_path)),
        },
{
    if !str_equals(node.role.as_str(), target.role.as_str()) {
        return None;
    }
    let mut score: i32 = 10;
    let mut strong = false;
    if target.subrole.is_some() {
        if !optional_text_equals(&node.subrole, &target.subrole) {
            return None;
        }
        score = score + 240;
        strong = true;
    }
    if target.identifier.is_some() {
        if !optional_text_equals(&node.identifier, &target.identifier) {
            return None;
        }
        score = score + 220;
        strong = true;
    }
    score_semantic_text(&mut score, &mut strong, &target.title, &node.title, 110, 45);
    score_semantic_text(&mut score, &mut strong, &target.description, &node.description, 140, 70);
    score_semantic_text(&mut score, &mut strong, &target.help, &node.help, 70, 20);
    score_semantic_text(&mut score, &mut strong, &target.value, &node.value, 90, 30);
    score_semantic_text(&mut score, &mut strong, &target.filename, &node.filename, 180, 80);
    assert(-235 <= score <= 1060);
    let (ancestors, ancestor_matches) = ancestor_score(&target.ancestors, lineage);
    score = score + ancestors;
    if let Some(expected_window) = &target.window {
        if let Some(candidate_window) = nearest_with_role(lineage, expected_window.role.as_str()) {
            score = score + 20;
            if expected_window.title.is_some() {
                score = if semantic_text_equal(&candidate_window.title, &expected_window.title) {
                    score + 50
                } else {
                    score - 25
                };
            }
        }
    }
    let exact_path = target.path.len() > 0 && paths_equal(&target.path, candidate_path);
    if exact_path {
        score = score + 120;
    }
    score = score + proximity;
    if !strong && !(exact_path && ancestor_matches > 0) {
        return None;
    }
    Some(MatchEvidence { score, exact_path })
}

/// A candidate element of a tree search with its evidence.
pub struct SemanticCandidate<E> {
    pub score: i32,
    pub exact_path: bool,
    pub element: E,
}

/// The best candidate seen so far and the highest score among the others.
pub struct SemanticSearch<E> {
    pub best: Option<SemanticCandidate<E>>,
    pub second_score: i32,
}

/// The larger of two scores.
pub open spec fn max_score(a: int, b: int) -> int {
    if a >= b {
        a
    } else {
        b
    }
}

/// The search after a candidate is considered: a strictly higher score takes
/// the lead and the former leader's score competes for second place.
pub open spec fn considered<E>(search: SemanticSearch<E>, candidate: SemanticCandidate<E>) -> SemanticSearch<E> {
    match search.best {
        None => SemanticSearch { best: Some(candidate), second_score: search.second_score },
        Some(b) => if candidate.score > b.score {
            SemanticSearch {
                best: Some(candidate),
                second_score: max_score(search.second_score as int, b.score as int) as i32,
            }
        } else {
            SemanticSearch {
                best: search.best,
                second_score: max_score(search.second_score as int, candidate.score as int) as i32,
            }
        },
    }
}

/// The best candidate may stand for the recorded element: its score reaches
/// the minimum, and unless its tree path is the recorded one, the runner-up
/// trails it by more than the ambiguity margin.
pub open spec fn accepted(best_score: int, exact_path: bool, second_score: int) -> bool {
    best_score >= MINIMUM_MATCH_SCORE && (exact_path || second_score < best_score
        - AMBIGUITY_MARGIN)
}

impl<E> SemanticSearch<E> {
    pub fn new() -> (r: Self)
        ensures
            r.best is None,
            r.second_score == 0,
    {
        SemanticSearch { best: None, second_score: 0 }
    }

    pub fn consider(&mut self, candidate: SemanticCandidate<E>)
        ensures
            *final(self) == considered(*old(self), candidate),
    {
        let replace = match &self.best {
            None => true,
            Some(b) => candidate.score > b.score,
        };
        if replace {
            let previous = self.best.take();
            if let Some(p) = previous {
                if p.score > self.second_score {
                    self.second_score = p.score;
                }
            }
            self.best = Some(candidate);
        } else if candidate.score > self.second_score {
            self.second_score = candidate.score;
        }
    }

    /// The winner of the search, when it is accepted; an ambiguous or weak
    /// best match resolves to nothing.
    pub fn resolve(self) -> (r: Option<SemanticCandidate<E>>)
        ensures
            match self.best {
                None => r is None,
                Some(b) => if accepted(b.score as int, b.exact_path, self.second_score as int) {
                    r == Some(b)
                } else {
                    r is None
                },
            },
    {
        match self.best {
            None => None,
            Some(b) => {
                if b.score < MINIMUM_MATCH_SCORE || (!b.exact_path && self.second_score as i64
                    >= b.score as i64 - AMBIGUITY_MARGIN as i64) {
                    None
                } else {
                    Some(b)
                }
            },
        }
    }
}

/// A candidate found at the recorded tree path is taken when it matches with
/// at least the minimum score.
pub fn accepts_path_match(evidence: &Option<MatchEvidence>) -> (r: bool)
    ensures
        r == (evidence is Some && evidence->0.score >= MINIMUM_MATCH_SCORE),
{
    match evidence {
        Some(e) => e.score >= MINIMUM_MATCH_SCORE,
        None => false,
    }
}

/// The name by which a target is shown to the user: its title, description,
/// identifier or role, the first that is present.
pub open spec fn target_name(t: SemanticTarget) -> Seq<char> {
    match t.title {
        Some(s) => s@,
        None => match t.description {
            Some(s) => s@,
            None => match t.identifier {
                Some(s) => s@,
                None => t.role@,
            },
        },
    }
}

pub fn semantic_target_name(target: &SemanticTarget) -> (r: &str)
    ensures
        r@ == target_name(*target),
{
    match &target.title {
        Some(s) => s.as_str(),
        None => match &target.description {
            Some(s) => s.as_str(),
            None => match &target.identifier {
                Some(s) => s.as_str(),
                None => target.role.as_str(),
            },
        },
    }
}

/// The label of a click target that could not be resolved: its title,
/// description or identifier, else the words `unlabelled element`.
pub open spec fn click_label(t: SemanticTarget) -> Seq<char> {
    match t.title {
        Some(s) => s@,
        None => match t.description {
            Some(s) => s@,
            None => match t.identifier {
                Some(s) => s@,
                None => "unlabelled element"@,
            },
        },
    }
}

pub fn unresolved_click_label(target: &SemanticTarget) -> (r: &str)
    ensures
        r@ == click_label(*target),
{
    match &target.title {
        Some(s) => s.as_str(),
        None => match &target.description {
            Some(s) => s.as_str(),
            None => match &target.identifier {
                Some(s) => s.as_str(),
                None => "unlabelled element",
            },
        },
    }
}

/// The element advertises the native action `name`.
pub open spec fn advertises(actions: Seq<String>, name: Seq<char>) -> bool {
    exists|i: int| 0 <= i < actions.len() && actions[i]@ == name
}

/// Roles and subroles of controls that a native action may press.
pub open spec fn directly_activatable(t: SemanticTarget) -> bool {
    ||| t.role@ == "AXButton"@
    ||| t.role@ == "AXMenuItem"@
    ||| t.role@ == "AXCheckBox"@
    ||| t.role@ == "AXRadioButton"@
    ||| t.role@ == "AXDockItem"@
    ||| opt_view(t.subrole) == Some("AXCloseButton"@)
    ||| opt_view(t.subrole) == Some("AXMinimizeButton"@)
    ||| opt_view(t.subrole) == Some("AXZoomButton"@)
    ||| opt_view(t.subrole) == Some("AXFullScreenButton"@)
}

/// The native action that stands in for a click: `AXOpen` for a multi-click,
/// else, for a directly activatable control, the first of `AXPress`,
/// `AXPick`, `AXConfirm` and `AXOpen` that the element advertises.
pub open spec fn click_action(target: SemanticTarget, actions: Seq<String>, clicks: u8) -> Option<
    Seq<char>,
> {
    if clicks > 1 {
        if advertises(actions, "AXOpen"@) {
            Some("AXOpen"@)
        } else {
            None
        }
    } else if !directly_activatable(target) {
        None
    } else if advertises(actions, "AXPress"@) {
        Some("AXPress"@)
    } else if advertises(actions, "AXPick"@) {
        Some("AXPick"@)
    } else if advertises(actions, "AXConfirm"@) {
        Some("AXConfirm"@)
    } else if advertises(actions, "AXOpen"@) {
        Some("AXOpen"@)
    } else {
        None
    }
}

/// The first advertised action named `name`.
fn supported_action<'a>(actions: &'a Vec<String>, name: &str) -> (r: Option<&'a str>)
    ensures
        match r {
            Some(a) => a@ == name@ && advertises(actions@, name@),
            None => !advertises(actions@, name@),
        },
{
    let mut i: usize = 0;
    while i < actions.len()
        invariant
            i <= actions.len(),
            forall|j: int| 0 <= j < i ==> actions@[j]@ != name@,
        decreases actions.len() - i,
    {
        if str_equals(actions[i].as_str(), name) {
            return Some(actions[i].as_str());
        }
        i = i + 1;
    }
    None
}

fn is_directly_activatable(target: &SemanticTarget) -> (r: bool)
    ensures
        r == directly_activatable(*target),
{
    let role = target.role.as_str();
    if str_equals(role, "AXButton") || str_equals(role, "AXMenuItem") || str_equals(
        role,
        "AXCheckBox",
    ) || str_equals(role, "AXRadioButton") || str_equals(role, "AXDockItem") {
        return true;
    }
    match &target.subrole {
        Some(s) => {
            let s = s.as_str();
            str_equals(s, "AXCloseButton") || str_equals(s, "AXMinimizeButton") || str_equals(
                s,
                "AXZoomButton",
            ) || str_equals(s, "AXFullScreenButton")
        },
        None => false,
    }
}

/// Chooses the native Accessibility action that performs a recorded click on
/// an element that advertises `actions`.
pub fn semantic_action_for_click<'a>(
    target: &SemanticTarget,
    actions: &'a Vec<String>,
    clicks: u8,
) -> (r: Option<&'a str>)
    ensures
        match r {
            Some(a) => click_action(*target, actions@, clicks) == Some(a@),
            None => click_action(*target, actions@, clicks) is None,
        },
{
    if clicks > 1 {
        return supported_action(actions, "AXOpen");
    }
    if !is_directly_activatable(target) {
        return None;
    }
    if let Some(a) = supported_action(actions, "AXPress") {
        return Some(a);
    }
    if let Some(a) = supported_action(actions, "AXPick") {
        return Some(a);
    }
    if let Some(a) = supported_action(actions, "AXConfirm") {
        return Some(a);
    }
    supported_action(actions, "AXOpen")
}


/// The search after considering `candidates` in order, starting empty.
pub open spec fn search_over<E>(candidates: Seq<SemanticCandidate<E>>) -> SemanticSearch<E>
    decreases candidates.len(),
{
    if candidates.len() == 0 {
        SemanticSearch { best: None, second_score: 0 }
    } else {
        considered(search_over(candidates.drop_last()), candidates.last())
    }
}

/// Candidate `b` is the first with the highest score.
pub open spec fn first_best<E>(candidates: Seq<SemanticCandidate<E>>, b: int) -> bool {
    &&& 0 <= b < candidates.len()
    &&& forall|i: int| 0 <= i < b ==> #[trigger] candidates[i].score < candidates[b].score
    &&& forall|i: int| 0 <= i < candidates.len() ==> #[trigger] candidates[i].score <= candidates[b].score
}

/// `second` is the highest score among the candidates other than `b`, or
/// zero when none is higher.
pub open spec fn runner_up_score<E>(candidates: Seq<SemanticCandidate<E>>, b: int, second: int) -> bool {
    &&& forall|i: int| 0 <= i < candidates.len() && i != b ==> #[trigger] candidates[i].score <= second
    &&& (second == 0 || exists|i: int|
        0 <= i < candidates.len() && i != b && #[trigger] candidates[i].score == second)
}

/// What a search over candidates keeps: the first best candidate and the
/// runner-up score.
pub open spec fn search_summary<E>(candidates: Seq<SemanticCandidate<E>>, b: int) -> bool {
    &&& first_best(candidates, b)
    &&& search_over(candidates).best == Some(candidates[b])
    &&& runner_up_score(candidates, b, search_over(candidates).second_score as int)
}

/// A search keeps the first of the highest-scoring candidates as its best,
/// and its second score is the highest score among the other candidates
/// (zero when none is higher).
pub proof fn law_search_keeps_the_first_best<E>(candidates: Seq<SemanticCandidate<E>>)
    ensures
        candidates.len() == 0 <==> search_over(candidates).best is None,
        candidates.len() > 0 ==> exists|b: int| search_summary(candidates, b),
        search_over(candidates).second_score >= 0,
    decreases candidates.len(),
{
    if candidates.len() > 0 {
        let rest = candidates.drop_last();
        law_search_keeps_the_first_best(rest);
        let c = candidates.last();
        let n = candidates.len() - 1;
        let s = search_over(rest);
        let t = search_over(candidates);
        assert forall|i: int| 0 <= i < rest.len() implies #[trigger] candidates[i] == rest[i] by {}
        assert(candidates[n] == c);
        if rest.len() == 0 {
            assert(search_summary(candidates, 0));
        } else {
            let b = choose|b: int| search_summary(rest, b);
            assert(candidates[b] == rest[b]);
            if c.score > rest[b].score {
                if s.second_score >= rest[b].score {
                    if s.second_score != 0 {
                        let w = choose|i: int|
                            0 <= i < rest.len() && i != b && #[trigger] rest[i].score == s.second_score;
                        assert(candidates[w] == rest[w]);
                    }
                } else {
                    assert(candidates[b].score == t.second_score);
                }
                assert(search_summary(candidates, n));
            } else {
                if s.second_score >= c.score {
                    if s.second_score != 0 {
                        let w = choose|i: int|
                            0 <= i < rest.len() && i != b && #[trigger] rest[i].score == s.second_score;
                        assert(candidates[w] == rest[w]);
                    }
                } else {
                    assert(candidates[n].score == t.second_score);
                }
                assert(search_summary(candidates, b));
            }
        }
    }
}

/// A stable identity that differs rules a candidate out, whatever else
/// matches: a recorded subrole (such as a window's close or minimize button)
/// or identifier must be the candidate's too.
pub proof fn law_identity_mismatch_never_matches(
    node: SemanticNode,
    lineage: Seq<SemanticNode>,
    target: SemanticTarget,
    candidate_path: Seq<usize>,
    proximity: int,
)
    requires
        (target.subrole is Some && opt_view(node.subrole) != opt_view(target.subrole)) || (
        target.identifier is Some && opt_view(node.identifier) != opt_view(target.identifier)),
    ensures
        match_evidence(node, lineage, target, candidate_path, proximity) is None,
{
}

/// A role and a position alone never identify an element: a target recorded
/// with no subrole, identifier, text or tree path matches nothing, however
/// close the candidate lies.
pub proof fn law_role_and_geometry_never_suffice(
    node: SemanticNode,
    lineage: Seq<SemanticNode>,
    target: SemanticTarget,
    candidate_path: Seq<usize>,
    proximity: int,
)
    requires
        target.subrole is None,
        target.identifier is None,
        target.title is None,
        target.description is None,
        target.help is None,
        target.value is None,
        target.filename is None,
        target.path@.len() == 0,
    ensures
        match_evidence(node, lineage, target, candidate_path, proximity) is None,
{
}

/// The score of a match, zero when there is none.
pub open spec fn evidence_score(e: Option<(int, bool)>) -> int {
    match e {
        Some((score, _)) => score,
        None => 0,
    }
}

/// Closeness to the recorded point only adds its bonus to the score: it never
/// decides whether a candidate matches, and no position outweighs a mismatch
/// of more than ten points.
pub proof fn law_proximity_only_breaks_ties(
    node: SemanticNode,
    lineage: Seq<SemanticNode>,
    target: SemanticTarget,
    candidate_path: Seq<usize>,
    near: int,
    far: int,
)
    requires
        0 <= far <= near <= 10,
    ensures
        (match_evidence(node, lineage, target, candidate_path, near) is Some) == (match_evidence(
            node,
            lineage,
            target,
            candidate_path,
            far,
        ) is Some),
        evidence_score(match_evidence(node, lineage, target, candidate_path, near))
            - evidence_score(match_evidence(node, lineage, target, candidate_path, far)) <= 10,
        match_evidence(node, lineage, target, candidate_path, near) is Some ==> evidence_score(
            match_evidence(node, lineage, target, candidate_path, near),
        ) - evidence_score(match_evidence(node, lineage, target, candidate_path, far)) == near
            - far,
{
}


/// Elements whose value is what the user typed: text fields, text areas,
/// combo boxes, secure text fields and search fields.
pub open spec fn holds_typed_text(role: Seq<char>, subrole: Option<Seq<char>>) -> bool {
    ||| role == "AXTextField"@
    ||| role == "AXTextArea"@
    ||| role == "AXComboBox"@
    ||| subrole == Some("AXSecureTextField"@)
    ||| subrole == Some("AXSearchField"@)
}

/// Whether a recorded target keeps its element's value: never for an element
/// that holds typed text, so typed content and passwords stay out of macros.
pub fn records_value(role: &String, subrole: &Option<String>) -> (r: bool)
    ensures
        r == !holds_typed_text(role@, opt_view(*subrole)),
{
    let role = role.as_str();
    if str_equals(role, "AXTextField") || str_equals(role, "AXTextArea") || str_equals(
        role,
        "AXComboBox",
    ) {
        return false;
    }
    match subrole {
        Some(s) => !(str_equals(s.as_str(), "AXSecureTextField") || str_equals(
            s.as_str(),
            "AXSearchField",
        )),
        None => true,
    }
}

/// Which optional attributes of a candidate are read for comparison.
#[derive(Debug, Clone, Copy, PartialEq, Eq, Structural)]
pub struct CandidateReads {
    pub help: bool,
    pub value: bool,
    pub filename: bool,
}

/// A candidate of the recorded role has the attributes that the recording
/// holds read too, except the value of a secure text field.
pub open spec fn reads_for(node: SemanticNode, target: SemanticTarget) -> CandidateReads {
    if node.role@ == target.role@ {
        CandidateReads {
            help: target.help is Some,
            value: target.value is Some && opt_view(node.subrole) != Some("AXSecureTextField"@),
            filename: target.filename is Some,
        }
    } else {
        CandidateReads { help: false, value: false, filename: false }
    }
}

pub fn candidate_reads(node: &SemanticNode, target: &SemanticTarget) -> (r: CandidateReads)
    ensures
        r == reads_for(*node, *target),
{
    if !str_equals(node.role.as_str(), target.role.as_str()) {
        return CandidateReads { help: false, value: false, filename: false };
    }
    let secure = match &node.subrole {
        Some(s) => str_equals(s.as_str(), "AXSecureTextField"),
        None => false,
    };
    CandidateReads {
        help: target.help.is_some(),
        value: target.value.is_some() && !secure,
        filename: target.filename.is_some(),
    }
}

/// The tree path of a recorded element, listed from the application down, is
/// kept only when every step up was found and the walk reached the
/// application; a partial path is dropped rather than trusted.
pub fn recorded_path(reversed: Vec<usize>, complete: bool, reached_application: bool) -> (r: Vec<
    usize,
>)
    ensures
        r@ == if complete && reached_application {
            reversed@.reverse()
        } else {
            Seq::<usize>::empty()
        },
{
    if !(complete && reached_application) {
        return Vec::new();
    }
    let mut r: Vec<usize> = Vec::new();
    let n = reversed.len();
    let mut k: usize = n;
    while k > 0
        invariant
            k <= n,
            n == reversed.len(),
            r@ == reversed@.skip(k as int).reverse(),
        decreases k,
    {
        k = k - 1;
        r.push(reversed[k]);
        assert(reversed@.skip(k as int).reverse() =~= reversed@.skip(k + 1).reverse().push(
            reversed@[k as int],
        ));
    }
    assert(reversed@.skip(0) =~= reversed@);
    r
}

/// Each name is strictly before the next, so none repeats.
pub open spec fn strictly_ascending(s: Seq<String>) -> bool {
    forall|i: int, j: int| 0 <= i < j < s.len() ==> text_before(#[trigger] s[i]@, #[trigger] s[j]@)
}

/// Some entry of `s` is the text `name`.
pub open spec fn has_name(s: Seq<String>, name: Seq<char>) -> bool {
    exists|j: int| 0 <= j < s.len() && s[j]@ == name
}

/// The same names, as texts, appear in both lists.
pub open spec fn same_names(a: Seq<String>, b: Seq<String>) -> bool {
    &&& forall|i: int| 0 <= i < a.len() ==> has_name(b, #[trigger] a[i]@)
    &&& forall|j: int| 0 <= j < b.len() ==> has_name(a, #[trigger] b[j]@)
}

proof fn lemma_insert_keeps_ascending(before: Seq<String>, p: int, name: String)
    requires
        strictly_ascending(before),
        0 <= p <= before.len(),
        forall|i: int| 0 <= i < p ==> text_before(#[trigger] before[i]@, name@),
        p < before.len() ==> text_before(name@, before[p]@),
    ensures
        strictly_ascending(before.insert(p, name)),
{
    let r = before.insert(p, name);
    before.insert_ensures(p, name);
    assert forall|i: int, j: int| 0 <= i < j < r.len() implies text_before(
        #[trigger] r[i]@,
        #[trigger] r[j]@,
    ) by {
        if j < p {
        } else if j == p {
        } else if i < p {
            assert(r[j] == before[j - 1]);
            lemma_text_before_transitive(before[i]@, name@, before[p]@);
            if j - 1 > p {
                lemma_text_before_transitive(before[i]@, before[p]@, before[j - 1]@);
            }
        } else if i == p {
            assert(r[j] == before[j - 1]);
            if j - 1 > p {
                lemma_text_before_transitive(name@, before[p]@, before[j - 1]@);
            }
        } else {
            assert(r[i] == before[i - 1]);
            assert(r[j] == before[j - 1]);
        }
    }
}

proof fn lemma_names_after_insert(before: Seq<String>, p: int, name: String, seen: Seq<String>)
    requires
        same_names(before, seen),
        0 <= p <= before.len(),
    ensures
        same_names(before.insert(p, name), seen.push(name)),
{
    let r = before.insert(p, name);
    let t = seen.push(name);
    before.insert_ensures(p, name);
    assert forall|i: int| 0 <= i < t.len() implies has_name(r, #[trigger] t[i]@) by {
        if i < seen.len() {
            assert(t[i] == seen[i]);
            assert(has_name(before, seen[i]@));
            let j = choose|j: int| 0 <= j < before.len() && before[j]@ == seen[i]@;
            if j < p {
                assert(r[j] == before[j]);
            } else {
                assert(r[j + 1] == before[j]);
            }
        } else {
            assert(r[p] == name);
        }
    }
    assert forall|j: int| 0 <= j < r.len() implies has_name(t, #[trigger] r[j]@) by {
        if j == p {
            assert(t[seen.len() as int] == name);
        } else {
            let m = if j < p {
                j
            } else {
                j - 1
            };
            assert(r[j] == before[m]);
            assert(has_name(seen, before[m]@));
            let i = choose|i: int| 0 <= i < seen.len() && seen[i]@ == before[m]@;
            assert(t[i] == seen[i]);
        }
    }
}

proof fn lemma_names_after_repeat(r: Seq<String>, p: int, name: String, seen: Seq<String>)
    requires
        same_names(r, seen),
        0 <= p < r.len(),
        r[p]@ == name@,
    ensures
        same_names(r, seen.push(name)),
{
    let t = seen.push(name);
    assert forall|i: int| 0 <= i < t.len() implies has_name(r, #[trigger] t[i]@) by {
        if i < seen.len() {
            assert(t[i] == seen[i]);
        }
    }
    assert forall|j: int| 0 <= j < r.len() implies has_name(t, #[trigger] r[j]@) by {
        assert(has_name(seen, r[j]@));
        let i = choose|i: int| 0 <= i < seen.len() && seen[i]@ == r[j]@;
        assert(t[i] == seen[i]);
    }
}

/// The advertised native action names of an element, sorted and without
/// repeats.
pub fn normalize_action_names(names: Vec<String>) -> (r: Vec<String>)
    ensures
        strictly_ascending(r@),
        same_names(r@, names@),
{
    let ghost all = names@;
    let mut names = names;
    let mut r: Vec<String> = Vec::new();
    let mut k: usize = 0;
    let n = names.len();
    while names.len() > 0
        invariant
            n == all.len(),
            k <= n,
            k + names@.len() == n,
            names@ == all.skip(k as int),
            strictly_ascending(r@),
            same_names(r@, all.take(k as int)),
        decreases names.len(),
    {
        let name = names.remove(0);
        proof {
            assert(all[k as int] == name);
            assert(all.take(k + 1) =~= all.take(k as int).push(name));
        }
        let mut p: usize = 0;
        while p < r.len() && is_text_before(r[p].as_str(), name.as_str())
            invariant
                p <= r.len(),
                forall|i: int| 0 <= i < p ==> text_before(#[trigger] r@[i]@, name@),
            decreases r.len() - p,
        {
            p = p + 1;
        }
        if p < r.len() && str_equals(r[p].as_str(), name.as_str()) {
            proof {
                lemma_names_after_repeat(r@, p as int, name, all.take(k as int));
            }
        } else {
            proof {
                if p < r.len() {
                    if !text_before(name@, r@[p as int]@) {
                        lemma_text_before_total(name@, r@[p as int]@);
                    }
                }
                lemma_insert_keeps_ascending(r@, p as int, name);
                lemma_names_after_insert(r@, p as int, name, all.take(k as int));
            }
            r.insert(p, name);
        }
        k = k + 1;
    }
    assert(all.take(n as int) =~= all);
    r
}


/// The deepest level of the Accessibility tree that a search looks at.
pub const MAX_SEARCH_DEPTH: usize = 32;

/// The most elements one search looks at.
pub const MAX_SEARCHED_ELEMENTS: usize = 5000;

/// The most children of one element that a search looks at.
pub const MAX_SEARCHED_CHILDREN: usize = 1000;

/// How much of the Accessibility tree a search has looked at: it visits an
/// element only above the depth limit and while the element budget lasts.
pub struct SearchBudget {
    visited: usize,
}

impl SearchBudget {
    /// The number of elements visited so far.
    pub closed spec fn spent(self) -> nat {
        self.visited as nat
    }

    /// No search ever visits more elements than its budget.
    pub closed spec fn wf(self) -> bool {
        self.visited <= MAX_SEARCHED_ELEMENTS
    }

    pub fn new() -> (r: Self)
        ensures
            r.wf(),
            r.spent() == 0,
    {
        SearchBudget { visited: 0 }
    }

    /// Whether the element met at `depth` is visited; a visit is counted.
    pub fn enter(&mut self, depth: usize) -> (r: bool)
        requires
            old(self).wf(),
        ensures
            final(self).wf(),
            r == (depth <= MAX_SEARCH_DEPTH && old(self).spent() < MAX_SEARCHED_ELEMENTS),
            final(self).spent() == if r {
                old(self).spent() + 1
            } else {
                old(self).spent()
            },
    {
        if depth > MAX_SEARCH_DEPTH || self.visited >= MAX_SEARCHED_ELEMENTS {
            return false;
        }
        self.visited = self.visited + 1;
        true
    }

    /// Whether the element budget is used up.
    pub fn exhausted(&self) -> (r: bool)
        ensures
            r == (self.spent() >= MAX_SEARCHED_ELEMENTS),
    {
        self.visited >= MAX_SEARCHED_ELEMENTS
    }
}

/// How many of an element's `count` children a search looks at.
pub fn children_to_search(count: isize) -> (r: usize)
    ensures
        r == if count <= 0 {
            0
        } else if count > MAX_SEARCHED_CHILDREN {
            MAX_SEARCHED_CHILDREN as int
        } else {
            count as int
        },
{
    if count <= 0 {
        0
    } else if count > 1000 {
        MAX_SEARCHED_CHILDREN
    } else {
        count as usize
    }
}

/// However the tree is shaped, a search visits at most its element budget.
pub proof fn law_search_stays_within_budget(budget: SearchBudget)
    requires
        budget.wf(),
    ensures
        budget.spent() <= MAX_SEARCHED_ELEMENTS,
{
}


/// The most steps a walk up the Accessibility tree takes.
pub const MAX_ANCESTOR_STEPS: usize = 32;

/// What one step up the Accessibility tree found.
pub enum ParentFound {
    /// The element has no readable parent element.
    Missing,
    /// The parent: the element's position among its children, when it was
    /// found there, and the parent's description, when it could be read.
    Parent { index: Option<usize>, node: Option<SemanticNode> },
}

/// A walk from a recorded element up to its application, collecting the
/// element's tree path (from the element up) and its ancestors.
pub struct AncestorWalk {
    pub reversed_path: Vec<usize>,
    pub ancestors: Vec<SemanticNode>,
    pub complete: bool,
    pub reached_application: bool,
    pub steps: usize,
    pub finished: bool,
}

impl AncestorWalk {
    pub fn new() -> (r: Self)
        ensures
            r.reversed_path@.len() == 0,
            r.ancestors@.len() == 0,
            r.complete,
            !r.reached_application,
            r.steps == 0,
            !r.finished,
    {
        AncestorWalk {
            reversed_path: Vec::new(),
            ancestors: Vec::new(),
            complete: true,
            reached_application: false,
            steps: 0,
            finished: false,
        }
    }

    /// Whether the walk goes on: it ends at the application, at a step that
    /// found no usable parent, or after `MAX_ANCESTOR_STEPS` steps.
    pub fn wants_parent(&self) -> (r: bool)
        ensures
            r == (!self.finished && self.steps < MAX_ANCESTOR_STEPS),
    {
        !self.finished && self.steps < MAX_ANCESTOR_STEPS
    }

    /// Takes one step up. A found position extends the path and a missing one
    /// marks it incomplete; a missing parent or parent description ends the
    /// walk incomplete; the application ends it; any other parent is an
    /// ancestor and the walk goes on from it.
    pub fn step(&mut self, found: ParentFound)
        requires
            !old(self).finished,
            old(self).steps < MAX_ANCESTOR_STEPS,
        ensures
            final(self).steps == old(self).steps + 1,
            match found {
                ParentFound::Missing => {
                    &&& final(self).reversed_path@ == old(self).reversed_path@
                    &&& final(self).ancestors@ == old(self).ancestors@
                    &&& !final(self).complete
                    &&& final(self).reached_application == old(self).reached_application
                    &&& final(self).finished
                },
                ParentFound::Parent { index, node } => {
                    &&& final(self).reversed_path@ == match index {
                        Some(i) => old(self).reversed_path@.push(i),
                        None => old(self).reversed_path@,
                    }
                    &&& final(self).complete == (old(self).complete && index is Some && node is Some)
                    &&& match node {
                        None => {
                            &&& final(self).ancestors@ == old(self).ancestors@
                            &&& final(self).reached_application == old(self).reached_application
                            &&& final(self).finished
                        },
                        Some(n) => if n.role@ == "AXApplication"@ {
                            &&& final(self).ancestors@ == old(self).ancestors@
                            &&& final(self).reached_application
                            &&& final(self).finished
                        } else {
                            &&& final(self).ancestors@ == old(self).ancestors@.push(n)
                            &&& final(self).reached_application == old(self).reached_application
                            &&& !final(self).finished
                        },
                    }
                },
            },
    {
        self.steps = self.steps + 1;
        match found {
            ParentFound::Missing => {
                self.complete = false;
                self.finished = true;
            },
            ParentFound::Parent { index, node } => {
                match index {
                    Some(i) => {
                        self.reversed_path.push(i);
                    },
                    None => {
                        self.complete = false;
                    },
                }
                match node {
                    None => {
                        self.complete = false;
                        self.finished = true;
                    },
                    Some(n) => {
                        if str_equals(n.role.as_str(), "AXApplication") {
                            self.reached_application = true;
                            self.finished = true;
                        } else {
                            self.ancestors.push(n);
                        }
                    },
                }
            },
        }
    }

    /// The recorded tree path (kept only when the walk reached the application
    /// with every position found) and the ancestors met, nearest first.
    pub fn finish(self) -> (r: (Vec<usize>, Vec<SemanticNode>))
        ensures
            r.0@ == if self.complete && self.reached_application {
                self.reversed_path@.reverse()
            } else {
                Seq::<usize>::empty()
            },
            r.1@ == self.ancestors@,
    {
        let path = recorded_path(self.reversed_path, self.complete, self.reached_application);
        (path, self.ancestors)
    }
}


/// How many times playback looks for a recorded element before giving up.
pub const MAX_RESOLVE_ATTEMPTS: usize = 15;

/// The attempts to find a recorded element again: another attempt is made
/// while playback goes on and the attempts last.
pub struct ResolveAttempts {
    made: usize,
}

impl ResolveAttempts {
    /// The attempts made so far.
    pub closed spec fn made(self) -> nat {
        self.made as nat
    }

    pub open spec fn wf(self) -> bool {
        self.made() <= MAX_RESOLVE_ATTEMPTS
    }

    pub fn new() -> (r: Self)
        ensures
            r.wf(),
            r.made() == 0,
    {
        ResolveAttempts { made: 0 }
    }

    /// Whether to make another attempt; one is counted when it is made.
    pub fn another(&mut self, playing: bool) -> (r: bool)
        requires
            old(self).wf(),
        ensures
            final(self).wf(),
            r == (playing && old(self).made() < MAX_RESOLVE_ATTEMPTS),
            final(self).made() == if r {
                old(self).made() + 1
            } else {
                old(self).made()
            },
    {
        if !playing || self.made >= MAX_RESOLVE_ATTEMPTS {
            return false;
        }
        self.made = self.made + 1;
        true
    }
}


/// Each recorded text that the candidate carries (trimmed) is enough to find
/// the element again: a candidate whose role agrees and whose recorded
/// subrole and identifier (if any) agree matches, and the matched title,
/// description, help, value or filename adds 110, 140, 70, 90 or 180 points
/// to what the candidate would score were that text not recorded.
pub proof fn law_matched_recorded_text_finds_the_element(
    node: SemanticNode,
    lineage: Seq<SemanticNode>,
    target: SemanticTarget,
    candidate_path: Seq<usize>,
    proximity: int,
)
    requires
        node.role@ == target.role@,
        target.subrole is Some ==> opt_view(node.subrole) == opt_view(target.subrole),
        target.identifier is Some ==> opt_view(node.identifier) == opt_view(target.identifier),
    ensures
        text_equal(opt_view(target.title), opt_view(node.title)) ==> match_evidence(
            node,
            lineage,
            target,
            candidate_path,
            proximity,
        ) == Some(
            (
                match_score_of(node, lineage, SemanticTarget { title: None, ..target }, candidate_path, proximity)
                    + 110,
                exact_path_match(target, candidate_path),
            ),
        ),
        text_equal(opt_view(target.description), opt_view(node.description)) ==> match_evidence(
            node,
            lineage,
            target,
            candidate_path,
            proximity,
        ) == Some(
            (
                match_score_of(
                    node,
                    lineage,
                    SemanticTarget { description: None, ..target },
                    candidate_path,
                    proximity,
                ) + 140,
                exact_path_match(target, candidate_path),
            ),
        ),
        text_equal(opt_view(target.help), opt_view(node.help)) ==> match_evidence(
            node,
            lineage,
            target,
            candidate_path,
            proximity,
        ) == Some(
            (
                match_score_of(node, lineage, SemanticTarget { help: None, ..target }, candidate_path, proximity)
                    + 70,
                exact_path_match(target, candidate_path),
            ),
        ),
        text_equal(opt_view(target.value), opt_view(node.value)) ==> match_evidence(
            node,
            lineage,
            target,
            candidate_path,
            proximity,
        ) == Some(
            (
                match_score_of(node, lineage, SemanticTarget { value: None, ..target }, candidate_path, proximity)
                    + 90,
                exact_path_match(target, candidate_path),
            ),
        ),
        text_equal(opt_view(target.filename), opt_view(node.filename)) ==> match_evidence(
            node,
            lineage,
            target,
            candidate_path,
            proximity,
        ) == Some(
            (
                match_score_of(
                    node,
                    lineage,
                    SemanticTarget { filename: None, ..target },
                    candidate_path,
                    proximity,
                ) + 180,
                exact_path_match(target, candidate_path),
            ),
        ),
{
}

/// A single primary click on a button, menu item, checkbox, radio button or
/// Dock item whose element advertises `AXPress` is performed as `AXPress`.
pub proof fn law_controls_are_pressed_natively(target: SemanticTarget, actions: Seq<String>)
    requires
        target.role@ == "AXButton"@ || target.role@ == "AXMenuItem"@ || target.role@
            == "AXCheckBox"@ || target.role@ == "AXRadioButton"@ || target.role@ == "AXDockItem"@,
        exists|i: int| 0 <= i < actions.len() && actions[i]@ == "AXPress"@,
    ensures
        click_action(target, actions, 1) == Some("AXPress"@),
{
}

} // verus!
