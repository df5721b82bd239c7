//! The versioned macro schema: documents, actions and their parts.
//!
//! Screen coordinates are IEEE-754 double values in the stored format. The
//! library never computes with them; it carries each one as the bit pattern
//! that `f64::to_bits` gives, so a value read from a file is written back
//! unchanged.
use vstd::prelude::*;

verus! {

/// The only macro schema version this library reads and writes.
pub const SCHEMA_VERSION: u32 = 1;

/// A saved macro: its identity, library metadata and its action timeline.
#[derive(Debug, Clone)]
pub struct MacroDocument {
    pub schema_version: u32,
    pub id: String,
    pub name: String,
    pub created_at: String,
    pub modified_at: String,
    pub favorite: bool,
    pub hotkey: Option<String>,
    pub actions: Vec<Action>,
}

/// One step of a macro timeline.
#[allow(inconsistent_fields)]
#[derive(Debug)]
pub enum Action {
    Click {
        enabled: bool,
        /// Bit pattern of the horizontal screen coordinate.
        x: u64,
        /// Bit pattern of the vertical screen coordinate.
        y: u64,
        button: MouseButton,
        clicks: u8,
        delay_ms: u64,
        approach: Vec<PointerSample>,
        target: Option<SemanticTarget>,
    },
    Move {
        enabled: bool,
        x: u64,
        y: u64,
        duration_ms: u64,
        delay_ms: u64,
        screen_edge: bool,
    },
    Drag {
        enabled: bool,
        button: MouseButton,
        approach: Vec<PointerSample>,
        points: Vec<PointerSample>,
        duration_ms: u64,
        delay_ms: u64,
    },
    Scroll {
        enabled: bool,
        x: i32,
        y: i32,
        unit: ScrollUnit,
        at: Option<ScreenPoint>,
        target: Option<SemanticTarget>,
        delay_ms: u64,
    },
    Text {
        enabled: bool,
        text: String,
        delay_ms: u64,
        /// The accessibility element that owned keyboard focus while this
        /// text was recorded. Older macros omit it.
        target: Option<SemanticTarget>,
    },
    Key {
        enabled: bool,
        key_code: u16,
        modifiers: u64,
        down: bool,
        delay_ms: u64,
    },
    Wait {
        enabled: bool,
        duration_ms: u64,
    },
    System {
        enabled: bool,
        command: SystemCommand,
        delay_ms: u64,
    },
}

/// A point of a recorded pointer path.
#[derive(Debug, Clone, Copy)]
pub struct PointerSample {
    /// Bit pattern of the horizontal coordinate.
    pub x: u64,
    /// Bit pattern of the vertical coordinate.
    pub y: u64,
    /// Milliseconds since the start of this path.
    pub offset_ms: u64,
    /// True when this sample touched a display boundary.
    pub screen_edge: bool,
}

/// A screen position (coordinate bit patterns).
#[derive(Debug, Clone, Copy)]
pub struct ScreenPoint {
    pub x: u64,
    pub y: u64,
}

/// A position inside a target's bounds, each axis from 0 to 1 (bit patterns).
#[derive(Debug, Clone, Copy)]
pub struct RelativePoint {
    pub x: u64,
    pub y: u64,
}

/// The Accessibility identity of a recorded element.
#[derive(Debug)]
pub struct SemanticTarget {
    /// Full path of the owning application's executable.
    pub application: Option<String>,
    pub role: String,
    pub subrole: Option<String>,
    pub identifier: Option<String>,
    pub title: Option<String>,
    pub description: Option<String>,
    pub help: Option<String>,
    pub value: Option<String>,
    pub filename: Option<String>,
    /// Native Accessibility actions advertised by the recorded element.
    pub actions: Vec<String>,
    /// Child indexes from the application element to this element.
    pub path: Vec<usize>,
    /// Where inside the element the user clicked.
    pub activation_point: Option<RelativePoint>,
    pub window: Option<SemanticNode>,
    pub ancestors: Vec<SemanticNode>,
}

/// The Accessibility description of one element of a target's lineage.
#[derive(Debug)]
pub struct SemanticNode {
    pub role: String,
    pub subrole: Option<String>,
    pub identifier: Option<String>,
    pub title: Option<String>,
    pub description: Option<String>,
    pub help: Option<String>,
    pub value: Option<String>,
    pub filename: Option<String>,
}

#[derive(Debug, Clone, Copy, PartialEq, Eq, Structural)]
pub enum MouseButton {
    Left,
    Right,
    Center,
    Other,
}

#[derive(Debug, Clone, Copy, PartialEq, Eq, Structural)]
pub enum ScrollUnit {
    Pixel,
    Line,
}

#[derive(Debug, Clone, Copy, PartialEq, Eq, Structural)]
pub enum SystemCommand {
    MissionControl,
    ShowDesktop,
    RevealDock,
    DesktopAndDock,
}

/// Which kinds of input a recording observes.
#[derive(Debug, Clone, Copy)]
pub struct RecordingSettings {
    pub mouse_clicks: bool,
    pub mouse_movement: bool,
    pub keyboard: bool,
    pub timing: bool,
    pub scrolling: bool,
}

/// Which action playback has just finished, out of how many.
#[derive(Debug, Clone, Copy)]
pub struct PlaybackProgress {
    pub index: usize,
    pub total: usize,
}

/// The value a missing `enabled` flag takes when a macro file is read.
pub fn yes() -> (r: bool)
    ensures
        r,
{
    true
}

/// The delay an action waits before it is performed; a wait's delay is its duration.
pub open spec fn action_delay(action: Action) -> u64 {
    match action {
        Action::Click { delay_ms, .. } => delay_ms,
        Action::Move { delay_ms, .. } => delay_ms,
        Action::Drag { delay_ms, .. } => delay_ms,
        Action::Scroll { delay_ms, .. } => delay_ms,
        Action::Text { delay_ms, .. } => delay_ms,
        Action::Key { delay_ms, .. } => delay_ms,
        Action::System { delay_ms, .. } => delay_ms,
        Action::Wait { duration_ms, .. } => duration_ms,
    }
}

/// Whether an action takes part in playback.
pub open spec fn action_enabled(action: Action) -> bool {
    match action {
        Action::Click { enabled, .. } => enabled,
        Action::Move { enabled, .. } => enabled,
        Action::Drag { enabled, .. } => enabled,
        Action::Scroll { enabled, .. } => enabled,
        Action::Text { enabled, .. } => enabled,
        Action::Key { enabled, .. } => enabled,
        Action::Wait { enabled, .. } => enabled,
        Action::System { enabled, .. } => enabled,
    }
}

impl Action {
    pub fn delay_ms(&self) -> (r: u64)
        ensures
            r == action_delay(*self),
    {
        match self {
            Action::Click { delay_ms, .. } => *delay_ms,
            Action::Move { delay_ms, .. } => *delay_ms,
            Action::Drag { delay_ms, .. } => *delay_ms,
            Action::Scroll { delay_ms, .. } => *delay_ms,
            Action::Text { delay_ms, .. } => *delay_ms,
            Action::Key { delay_ms, .. } => *delay_ms,
            Action::System { delay_ms, .. } => *delay_ms,
            Action::Wait { duration_ms, .. } => *duration_ms,
        }
    }

    pub fn enabled(&self) -> (r: bool)
        ensures
            r == action_enabled(*self),
    {
        match self {
            Action::Click { enabled, .. } => *enabled,
            Action::Move { enabled, .. } => *enabled,
            Action::Drag { enabled, .. } => *enabled,
            Action::Scroll { enabled, .. } => *enabled,
            Action::Text { enabled, .. } => *enabled,
            Action::Key { enabled, .. } => *enabled,
            Action::Wait { enabled, .. } => *enabled,
            Action::System { enabled, .. } => *enabled,
        }
    }
}

impl Default for RecordingSettings {
    fn default() -> (r: Self)
        ensures
            r.mouse_clicks,
            !r.mouse_movement,
            r.keyboard,
            r.timing,
            r.scrolling,
    {
        RecordingSettings {
            mouse_clicks: true,
            mouse_movement: false,
            keyboard: true,
            timing: true,
            scrolling: true,
        }
    }
}

impl Default for ScrollUnit {
    fn default() -> (r: Self)
        ensures
            r == ScrollUnit::Line,
    {
        ScrollUnit::Line
    }
}

impl Default for SemanticNode {
    fn default() -> (r: Self)
        ensures
            r.role@ == Seq::<char>::empty(),
            r.subrole is None,
            r.identifier is None,
            r.title is None,
            r.description is None,
            r.help is None,
            r.value is None,
            r.filename is None,
    {
        SemanticNode {
            role: String::new(),
            subrole: None,
            identifier: None,
            title: None,
            description: None,
            help: None,
            value: None,
            filename: None,
        }
    }
}

impl Default for SemanticTarget {
    fn default() -> (r: Self)
        ensures
            r.application is None,
            r.role@ == Seq::<char>::empty(),
            r.subrole is None,
            r.identifier is None,
            r.title is None,
            r.description is None,
            r.help is None,
            r.value is None,
            r.filename is None,
            r.actions@.len() == 0,
            r.path@.len() == 0,
            r.activation_point is None,
            r.window is None,
            r.ancestors@.len() == 0,
    {
        SemanticTarget {
            application: None,
            role: String::new(),
            subrole: None,
            identifier: None,
            title: None,
            description: None,
            help: None,
            value: None,
            filename: None,
            actions: Vec::new(),
            path: Vec::new(),
            activation_point: None,
            window: None,
            ancestors: Vec::new(),
        }
    }
}


impl Clone for SemanticNode {
    fn clone(&self) -> (r: Self)
        ensures
            r == *self,
    {
        SemanticNode {
            role: self.role.clone(),
            subrole: self.subrole.clone(),
            identifier: self.identifier.clone(),
            title: self.title.clone(),
            description: self.description.clone(),
            help: self.help.clone(),
            value: self.value.clone(),
            filename: self.filename.clone(),
        }
    }
}


/// A copy of `v` with the same elements.
fn copy_vec<T: Clone>(v: &Vec<T>) -> (r: Vec<T>)
    requires
        forall|a: T, b: T| cloned::<T>(a, b) ==> a == b,
    ensures
        r@ == v@,
{
    let r = v.clone();
    assert(r@ =~= v@) by {
        assert forall|i: int| 0 <= i < v.len() implies r@[i] == v@[i] by {
            assert(cloned::<T>(v[i], r[i]));
        }
    }
    r
}

/// Two targets hold the same recorded identity: equal fields, the lists
/// compared by their elements.
pub open spec fn same_target(a: SemanticTarget, b: SemanticTarget) -> bool {
    &&& a.application == b.application
    &&& a.role == b.role
    &&& a.subrole == b.subrole
    &&& a.identifier == b.identifier
    &&& a.title == b.title
    &&& a.description == b.description
    &&& a.help == b.help
    &&& a.value == b.value
    &&& a.filename == b.filename
    &&& a.actions@ == b.actions@
    &&& a.path@ == b.path@
    &&& a.activation_point == b.activation_point
    &&& a.window == b.window
    &&& a.ancestors@ == b.ancestors@
}

/// Two optional targets are both absent or hold the same identity.
pub open spec fn same_optional_target(a: Option<SemanticTarget>, b: Option<SemanticTarget>) -> bool {
    match (a, b) {
        (Some(x), Some(y)) => same_target(x, y),
        (None, None) => true,
        _ => false,
    }
}

/// Two actions are the same step: the same kind with equal fields, paths
/// compared by their samples and targets by `same_target`.
pub open spec fn same_action(a: Action, b: Action) -> bool {
    match (a, b) {
        (
            Action::Click { enabled, x, y, button, clicks, delay_ms, approach, target },
            Action::Click {
                enabled: e2,
                x: x2,
                y: y2,
                button: b2,
                clicks: c2,
                delay_ms: d2,
                approach: a2,
                target: t2,
            },
        ) => enabled == e2 && x == x2 && y == y2 && button == b2 && clicks == c2 && delay_ms == d2
            && approach@ == a2@ && same_optional_target(target, t2),
        (Action::Move { .. }, Action::Move { .. }) => a == b,
        (
            Action::Drag { enabled, button, approach, points, duration_ms, delay_ms },
            Action::Drag {
                enabled: e2,
                button: b2,
                approach: a2,
                points: p2,
                duration_ms: u2,
                delay_ms: d2,
            },
        ) => enabled == e2 && button == b2 && approach@ == a2@ && points@ == p2@ && duration_ms
            == u2 && delay_ms == d2,
        (
            Action::Scroll { enabled, x, y, unit, at, target, delay_ms },
            Action::Scroll { enabled: e2, x: x2, y: y2, unit: u2, at: at2, target: t2, delay_ms: d2 },
        ) => enabled == e2 && x == x2 && y == y2 && unit == u2 && at == at2 && same_optional_target(
            target,
            t2,
        ) && delay_ms == d2,
        (
            Action::Text { enabled, text, delay_ms, target },
            Action::Text { enabled: e2, text: t2, delay_ms: d2, target: g2 },
        ) => enabled == e2 && text == t2 && delay_ms == d2 && same_optional_target(target, g2),
        (Action::Key { .. }, Action::Key { .. }) => a == b,
        (Action::Wait { .. }, Action::Wait { .. }) => a == b,
        (Action::System { .. }, Action::System { .. }) => a == b,
        _ => false,
    }
}

impl Clone for SemanticTarget {
    fn clone(&self) -> (r: Self)
        ensures
            same_target(r, *self),
    {
        SemanticTarget {
            application: self.application.clone(),
            role: self.role.clone(),
            subrole: self.subrole.clone(),
            identifier: self.identifier.clone(),
            title: self.title.clone(),
            description: self.description.clone(),
            help: self.help.clone(),
            value: self.value.clone(),
            filename: self.filename.clone(),
            actions: copy_vec(&self.actions),
            path: copy_vec(&self.path),
            activation_point: self.activation_point,
            window: self.window.clone(),
            ancestors: copy_vec(&self.ancestors),
        }
    }
}

fn copy_target(target: &Option<SemanticTarget>) -> (r: Option<SemanticTarget>)
    ensures
        same_optional_target(r, *target),
{
    match target {
        Some(t) => Some(t.clone()),
        None => None,
    }
}

impl Clone for Action {
    fn clone(&self) -> (r: Self)
        ensures
            same_action(r, *self),
    {
        match self {
            Action::Click { enabled, x, y, button, clicks, delay_ms, approach, target } =>
                Action::Click {
                enabled: *enabled,
                x: *x,
                y: *y,
                button: *button,
                clicks: *clicks,
                delay_ms: *delay_ms,
                approach: copy_vec(approach),
                target: copy_target(target),
            },
            Action::Move { enabled, x, y, duration_ms, delay_ms, screen_edge } => Action::Move {
                enabled: *enabled,
                x: *x,
                y: *y,
                duration_ms: *duration_ms,
                delay_ms: *delay_ms,
                screen_edge: *screen_edge,
            },
            Action::Drag { enabled, button, approach, points, duration_ms, delay_ms } =>
                Action::Drag {
                enabled: *enabled,
                button: *button,
                approach: copy_vec(approach),
                points: copy_vec(points),
                duration_ms: *duration_ms,
                delay_ms: *delay_ms,
            },
            Action::Scroll { enabled, x, y, unit, at, target, delay_ms } => Action::Scroll {
                enabled: *enabled,
                x: *x,
                y: *y,
                unit: *unit,
                at: *at,
                target: copy_target(target),
                delay_ms: *delay_ms,
            },
            Action::Text { enabled, text, delay_ms, target } => Action::Text {
                enabled: *enabled,
                text: text.clone(),
                delay_ms: *delay_ms,
                target: copy_target(target),
            },
            Action::Key { enabled, key_code, modifiers, down, delay_ms } => Action::Key {
                enabled: *enabled,
                key_code: *key_code,
                modifiers: *modifiers,
                down: *down,
                delay_ms: *delay_ms,
            },
            Action::Wait { enabled, duration_ms } => Action::Wait {
                enabled: *enabled,
                duration_ms: *duration_ms,
            },
            Action::System { enabled, command, delay_ms } => Action::System {
                enabled: *enabled,
                command: *command,
                delay_ms: *delay_ms,
            },
        }
    }
}

/// A copy of a timeline: the same actions in the same order.
pub fn copy_actions(actions: &Vec<Action>) -> (r: Vec<Action>)
    ensures
        r@.len() == actions@.len(),
        forall|i: int| 0 <= i < actions@.len() ==> same_action(#[trigger] r@[i], actions@[i]),
{
    let mut r: Vec<Action> = Vec::new();
    let mut i: usize = 0;
    while i < actions.len()
        invariant
            i <= actions.len(),
            r@.len() == i,
            forall|j: int| 0 <= j < i ==> same_action(#[trigger] r@[j], actions@[j]),
        decreases actions.len() - i,
    {
        r.push(actions[i].clone());
        i = i + 1;
    }
    r
}

} // verus!
