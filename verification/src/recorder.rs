//! The recorder: the state a recording keeps between input events, and how
//! each observed event changes the action timeline.
use vstd::prelude::*;
use std::collections::{HashSet, VecDeque};
use crate::model::{Action, MouseButton, PointerSample, RecordingSettings, ScreenPoint, ScrollUnit, SemanticTarget};

verus! {

/// A pointer position observed at a moment (nanoseconds on the recorder's
/// monotonic clock).
#[derive(Debug, Clone, Copy)]
pub struct PointerMark {
    /// Bit pattern of the horizontal coordinate.
    pub x: u64,
    /// Bit pattern of the vertical coordinate.
    pub y: u64,
    pub at_ns: u64,
}

/// A mouse button that is down and not yet released.
pub struct PendingPointer {
    pub button: MouseButton,
    pub clicks: u8,
    pub started_ns: u64,
    pub delay_ms: u64,
    pub approach: Vec<PointerSample>,
    pub points: Vec<PointerSample>,
    pub target: Option<SemanticTarget>,
}

/// Everything a recording keeps between events.
pub struct Recording {
    pub active: bool,
    pub settings: RecordingSettings,
    pub actions: Vec<Action>,
    /// When the last action was recorded (nanoseconds on the recorder's clock).
    pub last_ns: u64,
    /// The last recorded visible movement.
    pub last_move: Option<PointerMark>,
    /// Recent pointer positions not recorded as actions, oldest first.
    pub pending_moves: VecDeque<PointerMark>,
    pub pending_pointer: Option<PendingPointer>,
    /// Keys whose press was grouped into a text action; their release is not recorded.
    pub grouped_text_keys: HashSet<u16>,
    /// Bit patterns of the fractional trackpad scroll not yet recorded.
    pub scroll_remainder_x: u64,
    pub scroll_remainder_y: u64,
    pub last_scroll_at_ns: Option<u64>,
}

/// A recording that observes nothing yet and holds no state: every counter,
/// buffer and remainder empty or zero.
pub open spec fn is_fresh(r: Recording, settings: RecordingSettings, now_ns: u64) -> bool {
    &&& r.settings == settings
    &&& r.actions@.len() == 0
    &&& r.last_ns == now_ns
    &&& r.last_move is None
    &&& r.pending_moves@.len() == 0
    &&& r.wf()
    &&& r.pending_pointer is None
    &&& r.grouped_text_keys@.len() == 0
    &&& r.scroll_remainder_x == 0
    &&& r.scroll_remainder_y == 0
    &&& r.last_scroll_at_ns is None
}

impl Recording {
    /// An inactive recording with default settings.
    pub fn new() -> (r: Self)
        ensures
            !r.active,
            is_fresh(r, r.settings, 0),
            r.settings.mouse_clicks && !r.settings.mouse_movement && r.settings.keyboard
                && r.settings.timing && r.settings.scrolling,
    {
        broadcast use vstd::std_specs::hash::group_hash_axioms;

        Recording {
            active: false,
            settings: RecordingSettings::default(),
            actions: Vec::new(),
            last_ns: 0,
            last_move: None,
            pending_moves: VecDeque::new(),
            pending_pointer: None,
            grouped_text_keys: HashSet::new(),
            scroll_remainder_x: 0,
            scroll_remainder_y: 0,
            last_scroll_at_ns: None,
        }
    }

    /// Starts observing with `settings` from a clean slate at `now_ns`.
    pub fn restart(&mut self, settings: RecordingSettings, now_ns: u64)
        ensures
            final(self).active,
            is_fresh(*final(self), settings, now_ns),
    {
        broadcast use vstd::std_specs::hash::group_hash_axioms;

        self.active = true;
        self.settings = settings;
        self.actions.clear();
        self.last_ns = now_ns;
        self.last_move = None;
        self.pending_moves.clear();
        self.pending_pointer = None;
        self.grouped_text_keys.clear();
        self.scroll_remainder_x = 0;
        self.scroll_remainder_y = 0;
        self.last_scroll_at_ns = None;
    }
}


/// Nanoseconds in a millisecond.
pub const NANOS_PER_MILLI: u64 = 1_000_000;

/// The most recent pointer positions kept for a click's approach path.
pub const MAX_PENDING_MOVES: usize = 128;

/// Key flags of Shift, Control, Option and Command.
pub const SHIFT: u64 = 0x20000;
pub const CONTROL: u64 = 0x40000;
pub const OPTION: u64 = 0x80000;
pub const COMMAND: u64 = 0x100000;
pub const SECONDARY_FN: u64 = 0x800000;

/// The modifier flags a recorded key keeps.
pub const RECORDED_MODIFIERS: u64 = 0x1e0000;

/// The modifiers that turn a typed key into a shortcut.
pub const SHORTCUT_MODIFIERS: u64 = 0x1c0000;

/// Nanoseconds from `then_ns` to `now_ns`, zero when `now_ns` is earlier.
pub open spec fn elapsed_ns(now_ns: u64, then_ns: u64) -> u64 {
    if now_ns >= then_ns {
        (now_ns - then_ns) as u64
    } else {
        0
    }
}

/// Whole milliseconds from `then_ns` to `now_ns`.
pub open spec fn elapsed_ms(now_ns: u64, then_ns: u64) -> u64 {
    (elapsed_ns(now_ns, then_ns) / NANOS_PER_MILLI) as u64
}

fn elapsed_millis(now_ns: u64, then_ns: u64) -> (r: u64)
    ensures
        r == elapsed_ms(now_ns, then_ns),
{
    if now_ns >= then_ns {
        (now_ns - then_ns) / NANOS_PER_MILLI
    } else {
        0
    }
}

fn elapsed_nanos(now_ns: u64, then_ns: u64) -> (r: u64)
    ensures
        r == elapsed_ns(now_ns, then_ns),
{
    if now_ns >= then_ns {
        now_ns - then_ns
    } else {
        0
    }
}

/// The smaller of two values.
pub open spec fn min_u64(a: u64, b: u64) -> u64 {
    if a <= b {
        a
    } else {
        b
    }
}

/// A click count as recorded: the event's click state held between 1 and 3.
pub open spec fn clicks_of(click_state: i64) -> u8 {
    if click_state < 1 {
        1
    } else if click_state > 3 {
        3
    } else {
        click_state as u8
    }
}

/// `i32::saturating_add`.
pub open spec fn saturating_add_i32(a: i32, b: i32) -> i32 {
    if a + b > i32::MAX {
        i32::MAX
    } else if a + b < i32::MIN {
        i32::MIN
    } else {
        (a + b) as i32
    }
}

fn add_saturating(a: i32, b: i32) -> (r: i32)
    ensures
        r == saturating_add_i32(a, b),
{
    let sum = a as i64 + b as i64;
    if sum > i32::MAX as i64 {
        i32::MAX
    } else if sum < i32::MIN as i64 {
        i32::MIN
    } else {
        sum as i32
    }
}

/// The approach path a click inherits from the pointer positions seen since
/// the last action: each position with its offset from that action (at most
/// the click's delay) and whether it touched a display edge.
pub open spec fn approach_from(
    moves: Seq<PointerMark>,
    edges: Seq<bool>,
    since_ns: u64,
    delay_ms: u64,
) -> Seq<PointerSample>
    decreases moves.len(),
{
    if moves.len() == 0 {
        Seq::empty()
    } else {
        let rest = approach_from(moves.drop_last(), edges.drop_last(), since_ns, delay_ms);
        let m = moves.last();
        if m.at_ns >= since_ns {
            rest.push(
                PointerSample {
                    x: m.x,
                    y: m.y,
                    offset_ms: min_u64(elapsed_ms(m.at_ns, since_ns), delay_ms),
                    screen_edge: edges.last(),
                },
            )
        } else {
            rest
        }
    }
}

/// Positions in the order they were seen.
pub open spec fn marks_in_time_order(m: Seq<PointerMark>) -> bool {
    forall|i: int, j: int| 0 <= i <= j < m.len() ==> m[i].at_ns <= m[j].at_ns
}

/// Samples whose offsets never go back.
pub open spec fn samples_in_time_order(s: Seq<PointerSample>) -> bool {
    forall|i: int, j: int| 0 <= i <= j < s.len() ==> s[i].offset_ms <= s[j].offset_ms
}

proof fn lemma_elapsed_ms_ordered(a: u64, b: u64, since: u64)
    requires
        a <= b,
    ensures
        elapsed_ms(a, since) <= elapsed_ms(b, since),
{
    if a >= since {
        vstd::arithmetic::div_mod::lemma_div_is_ordered(
            (a - since) as int,
            (b - since) as int,
            NANOS_PER_MILLI as int,
        );
    }
}

/// The approach path of positions seen in order runs forward in time, never
/// past the click's delay, and has no more samples than positions.
pub proof fn lemma_approach_in_time_order(
    moves: Seq<PointerMark>,
    edges: Seq<bool>,
    since_ns: u64,
    delay_ms: u64,
)
    requires
        marks_in_time_order(moves),
    ensures
        samples_in_time_order(approach_from(moves, edges, since_ns, delay_ms)),
        approach_from(moves, edges, since_ns, delay_ms).len() <= moves.len(),
        forall|i: int|
            0 <= i < approach_from(moves, edges, since_ns, delay_ms).len() ==> #[trigger] approach_from(
                moves,
                edges,
                since_ns,
                delay_ms,
            )[i].offset_ms <= delay_ms,
        moves.len() > 0 ==> forall|i: int|
            0 <= i < approach_from(moves, edges, since_ns, delay_ms).len() ==> #[trigger] approach_from(
                moves,
                edges,
                since_ns,
                delay_ms,
            )[i].offset_ms <= min_u64(elapsed_ms(moves.last().at_ns, since_ns), delay_ms),
    decreases moves.len(),
{
    if moves.len() > 0 {
        let rest_moves = moves.drop_last();
        assert(marks_in_time_order(rest_moves));
        lemma_approach_in_time_order(rest_moves, edges.drop_last(), since_ns, delay_ms);
        let rest = approach_from(rest_moves, edges.drop_last(), since_ns, delay_ms);
        let m = moves.last();
        if rest_moves.len() > 0 {
            assert(rest_moves.last().at_ns <= m.at_ns);
            lemma_elapsed_ms_ordered(rest_moves.last().at_ns, m.at_ns, since_ns);
        }
        let all = approach_from(moves, edges, since_ns, delay_ms);
        if m.at_ns >= since_ns {
            assert forall|i: int| 0 <= i < all.len() implies #[trigger] all[i].offset_ms
                <= min_u64(elapsed_ms(m.at_ns, since_ns), delay_ms) by {
                if i < rest.len() {
                    assert(all[i] == rest[i]);
                }
            }
            assert forall|i: int, j: int| 0 <= i <= j < all.len() implies all[i].offset_ms
                <= all[j].offset_ms by {
                if j < rest.len() {
                    assert(all[i] == rest[i]);
                    assert(all[j] == rest[j]);
                } else if i < rest.len() {
                    assert(all[i] == rest[i]);
                }
            }
        } else {
            assert(all == rest);
        }
    }
}

/// The pending positions after a new one is added: at most the newest
/// `MAX_PENDING_MOVES`, then none older than five seconds.
pub open spec fn capped_moves(s: Seq<PointerMark>) -> Seq<PointerMark> {
    if s.len() > MAX_PENDING_MOVES {
        s.skip(s.len() - MAX_PENDING_MOVES)
    } else {
        s
    }
}

pub open spec fn without_stale(s: Seq<PointerMark>, now_ns: u64) -> Seq<PointerMark>
    decreases s.len(),
{
    if s.len() > 0 && elapsed_ns(now_ns, s[0].at_ns) > 5_000_000_000 {
        without_stale(s.drop_first(), now_ns)
    } else {
        s
    }
}

/// Text that a key press types: not empty and without control characters.
pub open spec fn is_control_char(c: char) -> bool {
    let n = c as u32;
    n <= 0x1f || (0x7f <= n <= 0x9f)
}

pub open spec fn printable(text: Seq<char>) -> bool {
    text.len() > 0 && forall|i: int| 0 <= i < text.len() ==> !is_control_char(#[trigger] text[i])
}

/// Typing may continue the previous action: it is a text action and the
/// pause before this key is shorter than half a second.
pub open spec fn text_continues(actions: Seq<Action>, delay_ms: u64) -> bool {
    delay_ms < 500 && actions.len() > 0 && actions.last() is Text
}

/// `new` is the text action `old` with `typed` added to its text.
pub open spec fn text_extended(old: Action, new: Action, typed: Seq<char>) -> bool {
    match (old, new) {
        (
            Action::Text { enabled: e0, text: t0, delay_ms: d0, target: g0 },
            Action::Text { enabled: e1, text: t1, delay_ms: d1, target: g1 },
        ) => e0 == e1 && d0 == d1 && g0 == g1 && t1@ == t0@ + typed,
        _ => false,
    }
}

/// `new` is the scroll action `old` with `x` and `y` added to its deltas.
pub open spec fn scroll_extended(old: Action, new: Action, x: i32, y: i32) -> bool {
    match (old, new) {
        (
            Action::Scroll { enabled: e0, x: x0, y: y0, unit: u0, at: a0, target: g0, delay_ms: d0 },
            Action::Scroll { enabled: e1, x: x1, y: y1, unit: u1, at: a1, target: g1, delay_ms: d1 },
        ) => e0 == e1 && u0 == u1 && a0 == a1 && g0 == g1 && d0 == d1 && x1
            == saturating_add_i32(x0, x) && y1 == saturating_add_i32(y0, y),
        _ => false,
    }
}

/// `new` is the click action `old` counted as `clicks` clicks.
pub open spec fn click_recounted(old: Action, new: Action, clicks: u8) -> bool {
    match (old, new) {
        (
            Action::Click {
                enabled: e0,
                x: x0,
                y: y0,
                button: b0,
                clicks: _,
                delay_ms: d0,
                approach: a0,
                target: g0,
            },
            Action::Click {
                enabled: e1,
                x: x1,
                y: y1,
                button: b1,
                clicks: c1,
                delay_ms: d1,
                approach: a1,
                target: g1,
            },
        ) => e0 == e1 && x0 == x1 && y0 == y1 && b0 == b1 && d0 == d1 && a0 == a1 && g0 == g1
            && c1 == clicks,
        _ => false,
    }
}

/// `new` is `old` with its last action replaced by one that `changed` relates
/// to the old last action.
pub open spec fn last_replaced(old: Seq<Action>, new: Seq<Action>) -> bool {
    old.len() > 0 && new.len() == old.len() && new.drop_last() == old.drop_last()
}

/// The last action is a click with this button.
pub open spec fn last_click_with(actions: Seq<Action>, button: MouseButton) -> bool {
    actions.len() > 0 && match actions.last() {
        Action::Click { button: b, .. } => b == button,
        _ => false,
    }
}

/// The last action is a scroll in this unit.
pub open spec fn last_scroll_in(actions: Seq<Action>, unit: ScrollUnit) -> bool {
    actions.len() > 0 && match actions.last() {
        Action::Scroll { unit: u, .. } => u == unit,
        _ => false,
    }
}

/// A key press typed printable text.
pub open spec fn typed_printable(typed: Option<String>) -> bool {
    match typed {
        Some(t) => printable(t@),
        None => false,
    }
}

/// How a key event was recorded.
#[derive(Debug, Clone, Copy, PartialEq, Eq, Structural)]
pub enum KeyRecorded {
    /// Nothing was recorded.
    Ignored,
    /// The typed text continued the last text action.
    AppendedText,
    /// A new text action was started; its focus target is still to be attached.
    NewText,
    /// A raw key action was recorded.
    KeyAction,
}

/// A typed key continues the last text action when the pause was short.
pub fn can_append_text(actions: &[Action], delay_ms: u64) -> (r: bool)
    ensures
        r == text_continues(actions@, delay_ms),
{
    if delay_ms >= 500 || actions.len() == 0 {
        return false;
    }
    match &actions[actions.len() - 1] {
        Action::Text { .. } => true,
        _ => false,
    }
}

/// Counts a repeated physical click into the click action it repeats: the last
/// action is a click with this button and the new click lands within reach of
/// it (`within_reach`, decided on screen coordinates by the caller).
pub fn merge_multi_click(
    actions: &mut Vec<Action>,
    button: MouseButton,
    click_state: u8,
    within_reach: bool,
) -> (r: bool)
    ensures
        r == (within_reach && last_click_with(old(actions)@, button)),
        r ==> last_replaced(old(actions)@, final(actions)@) && click_recounted(
            old(actions)@.last(),
            final(actions)@.last(),
            clicks_of(click_state as i64),
        ),
        !r ==> final(actions)@ == old(actions)@,
{
    if !within_reach || actions.len() == 0 {
        return false;
    }
    let last = actions.pop().unwrap();
    match last {
        Action::Click { enabled, x, y, button: previous, clicks, delay_ms, approach, target } => {
            if previous == button {
                let count = if click_state < 1 {
                    1
                } else if click_state > 3 {
                    3
                } else {
                    click_state
                };
                actions.push(
                    Action::Click {
                        enabled,
                        x,
                        y,
                        button: previous,
                        clicks: count,
                        delay_ms,
                        approach,
                        target,
                    },
                );
                proof {
                    assert(final(actions)@.drop_last() =~= old(actions)@.drop_last());
                }
                true
            } else {
                actions.push(
                    Action::Click { enabled, x, y, button: previous, clicks, delay_ms, approach, target },
                );
                assert(actions@ =~= old(actions)@);
                false
            }
        },
        other => {
            actions.push(other);
            assert(actions@ =~= old(actions)@);
            false
        },
    }
}

fn is_printable_text(text: &str) -> (r: bool)
    ensures
        r == printable(text@),
{
    let v = crate::text::chars_of(text);
    if v.len() == 0 {
        return false;
    }
    let mut i: usize = 0;
    while i < v.len()
        invariant
            v@ == text@,
            i <= v.len(),
            forall|j: int| 0 <= j < i ==> !is_control_char(#[trigger] v@[j]),
        decreases v.len() - i,
    {
        let n = v[i] as u32;
        if n <= 0x1f || (0x7f <= n && n <= 0x9f) {
            assert(is_control_char(text@[i as int]));
            return false;
        }
        i = i + 1;
    }
    true
}


/// How a button press changes a recording (see `Recording::record_button_down`).
pub open spec fn button_down_recorded(
    before: Recording,
    after: Recording,
    now_ns: u64,
    button: MouseButton,
    click_state: i64,
    x: u64,
    y: u64,
    screen_edge: bool,
    target: Option<SemanticTarget>,
    pending_edges: Seq<bool>,
) -> bool {
    &&& !(before.active && before.settings.mouse_clicks) ==> after == before
    &&& before.active && before.settings.mouse_clicks ==> {
        &&& after.active == before.active
        &&& after.settings == before.settings
        &&& after.actions == before.actions
        &&& after.last_ns == before.last_ns
        &&& after.last_move == before.last_move
        &&& after.grouped_text_keys == before.grouped_text_keys
        &&& after.scroll_remainder_x == before.scroll_remainder_x
        &&& after.scroll_remainder_y == before.scroll_remainder_y
        &&& after.last_scroll_at_ns == before.last_scroll_at_ns
        &&& after.pending_moves@.len() == 0
        &&& after.wf()
        &&& after.pending_pointer matches Some(p) && {
            &&& before.wf() ==> {
                &&& samples_in_time_order(p.approach@)
                &&& p.approach@.len() <= MAX_PENDING_MOVES
                &&& forall|i: int| 0 <= i < p.approach@.len() ==> #[trigger] p.approach@[i].offset_ms
                    <= p.delay_ms
            }
            &&& p.button == button
            &&& p.clicks == clicks_of(click_state)
            &&& p.started_ns == now_ns
            &&& p.delay_ms == before.delay_at(now_ns)
            &&& p.target == target
            &&& p.points@ =~= seq![PointerSample { x, y, offset_ms: 0, screen_edge }]
            &&& p.approach@ =~= if before.settings.mouse_movement {
                Seq::<PointerSample>::empty()
            } else {
                approach_from(
                    before.pending_moves@,
                    pending_edges,
                    before.last_ns,
                    before.delay_at(now_ns),
                )
            }
        }
    }
}

/// How a button release changes a recording (see `Recording::record_button_up`).
pub open spec fn button_up_recorded(
    before: Recording,
    after: Recording,
    now_ns: u64,
    button: MouseButton,
    x: u64,
    y: u64,
    screen_edge: bool,
    traveled_far: bool,
    at_last_sample: bool,
    near_previous_click: bool,
) -> bool {
    &&& !(before.active && before.settings.mouse_clicks && before.pending_pointer is Some)
        ==> after == before
    &&& before.active && before.settings.mouse_clicks && before.pending_pointer is Some
        ==> {
        let p = before.pending_pointer->0;
        let duration = elapsed_ms(now_ns, p.started_ns);
        let points = if at_last_sample {
            p.points@
        } else {
            p.points@.push(PointerSample { x, y, offset_ms: duration, screen_edge })
        };
        let old_actions = before.actions@;
        let new_actions = after.actions@;
        &&& after.active == before.active
        &&& after.settings == before.settings
        &&& after.last_move == before.last_move
        &&& after.pending_moves == before.pending_moves
        &&& after.grouped_text_keys == before.grouped_text_keys
        &&& after.scroll_remainder_x == before.scroll_remainder_x
        &&& after.scroll_remainder_y == before.scroll_remainder_y
        &&& after.last_scroll_at_ns == before.last_scroll_at_ns
        &&& after.pending_pointer is None
        &&& p.button != button ==> after.actions == before.actions
            && after.last_ns == before.last_ns
        &&& p.button == button ==> {
            &&& after.last_ns == now_ns
            &&& if traveled_far || points.len() > 2 {
                &&& new_actions.drop_last() =~= old_actions
                &&& new_actions.len() == old_actions.len() + 1
                &&& new_actions.last() matches Action::Drag {
                    enabled,
                    button: b,
                    approach,
                    points: path,
                    duration_ms,
                    delay_ms,
                } && enabled && b == p.button && approach == p.approach && path@ =~= points
                    && duration_ms == duration && delay_ms == p.delay_ms
            } else if p.clicks > 1 && near_previous_click && last_click_with(
                old_actions,
                p.button,
            ) {
                &&& last_replaced(old_actions, new_actions)
                &&& click_recounted(
                    old_actions.last(),
                    new_actions.last(),
                    clicks_of(p.clicks as i64),
                )
            } else {
                new_actions =~= old_actions.push(
                    Action::Click {
                        enabled: true,
                        x,
                        y,
                        button: p.button,
                        clicks: p.clicks,
                        delay_ms: p.delay_ms,
                        approach: p.approach,
                        target: p.target,
                    },
                )
            }
        }
    }
}

/// A key event is grouped into text: a press without Control, Option or
/// Command that types printable text.
pub open spec fn key_grouped(down: bool, flags: u64, typed: Option<String>) -> bool {
    down && ((flags & RECORDED_MODIFIERS) & SHORTCUT_MODIFIERS) == 0 && typed_printable(typed)
}

/// How a key event changes a recording (see `Recording::record_key`).
pub open spec fn key_recorded(
    before: Recording,
    after: Recording,
    now_ns: u64,
    down: bool,
    key: u16,
    flags: u64,
    typed: Option<String>,
    r: KeyRecorded,
) -> bool {
    &&& !(before.active && before.settings.keyboard) ==> after == before && r
        == KeyRecorded::Ignored
    &&& before.active && before.settings.keyboard ==> {
        let modifiers = flags & RECORDED_MODIFIERS;
        let delay = before.delay_at(now_ns);
        let old_actions = before.actions@;
        let grouped = key_grouped(down, flags, typed);
        &&& after.active == before.active
        &&& after.settings == before.settings
        &&& after.last_move == before.last_move
        &&& after.pending_moves == before.pending_moves
        &&& after.pending_pointer == before.pending_pointer
        &&& after.scroll_remainder_x == before.scroll_remainder_x
        &&& after.scroll_remainder_y == before.scroll_remainder_y
        &&& after.last_scroll_at_ns == before.last_scroll_at_ns
        &&& if !down && before.grouped_text_keys@.contains(key) {
            &&& r == KeyRecorded::Ignored
            &&& after.grouped_text_keys@ =~= before.grouped_text_keys@.remove(key)
            &&& after.actions == before.actions
            &&& after.last_ns == before.last_ns
        } else if grouped {
            &&& after.grouped_text_keys@ =~= before.grouped_text_keys@.insert(key)
            &&& after.last_ns == now_ns
            &&& if text_continues(old_actions, delay) {
                &&& r == KeyRecorded::AppendedText
                &&& last_replaced(old_actions, after.actions@)
                &&& text_extended(old_actions.last(), after.actions@.last(), typed->0@)
            } else {
                &&& r == KeyRecorded::NewText
                &&& after.actions@.drop_last() =~= old_actions
                &&& after.actions@.len() == old_actions.len() + 1
                &&& after.actions@.last() matches Action::Text {
                    enabled,
                    text,
                    delay_ms,
                    target,
                } && enabled && text@ == typed->0@ && delay_ms == delay && target is None
            }
        } else {
            &&& r == KeyRecorded::KeyAction
            &&& after.grouped_text_keys == before.grouped_text_keys
            &&& after.last_ns == now_ns
            &&& after.actions@ =~= old_actions.push(
                Action::Key { enabled: true, key_code: key, modifiers, down, delay_ms: delay },
            )
        }
    }
}

impl Recording {
    /// The pending positions never exceed their cap and are kept in the
    /// order in which they were seen.
    pub open spec fn wf(self) -> bool {
        &&& self.pending_moves@.len() <= MAX_PENDING_MOVES
        &&& marks_in_time_order(self.pending_moves@)
    }

    /// `now_ns` is no earlier than the newest pending position: the clock
    /// that timestamps events does not go back.
    pub open spec fn follows(self, now_ns: u64) -> bool {
        self.pending_moves@.len() == 0 || self.pending_moves@.last().at_ns <= now_ns
    }

    pub fn is_followed_by(&self, now_ns: u64) -> (r: bool)
        ensures
            r == self.follows(now_ns),
    {
        let n = self.pending_moves.len();
        n == 0 || self.pending_moves[n - 1].at_ns <= now_ns
    }

    /// The pause recorded before an action observed at `now_ns`: the time
    /// since the last action when timing is recorded, else nothing.
    pub open spec fn delay_at(self, now_ns: u64) -> u64 {
        if self.settings.timing {
            elapsed_ms(now_ns, self.last_ns)
        } else {
            0
        }
    }

    pub fn delay_since_last(&self, now_ns: u64) -> (r: u64)
        ensures
            r == self.delay_at(now_ns),
    {
        if self.settings.timing {
            elapsed_millis(now_ns, self.last_ns)
        } else {
            0
        }
    }

    /// A mouse button went down at `(x, y)`: the press is held pending until
    /// its release, with the semantic target under the pointer and, unless
    /// movement is recorded separately, the approach path since the last
    /// action. `pending_edges` tells for each pending position whether it
    /// touches a display edge.
    pub fn record_button_down(
        &mut self,
        now_ns: u64,
        button: MouseButton,
        click_state: i64,
        x: u64,
        y: u64,
        screen_edge: bool,
        target: Option<SemanticTarget>,
        pending_edges: Vec<bool>,
    )
        requires
            pending_edges@.len() == old(self).pending_moves@.len(),
        ensures
            button_down_recorded(*old(self), *final(self), now_ns, button, click_state, x, y, screen_edge, target, pending_edges@),
    {
        if !(self.active && self.settings.mouse_clicks) {
            return ;
        }
        let delay = self.delay_since_last(now_ns);
        let clicks: u8 = if click_state < 1 {
            1
        } else if click_state > 3 {
            3
        } else {
            click_state as u8
        };
        let mut approach: Vec<PointerSample> = Vec::new();
        if !self.settings.mouse_movement {
            let n = self.pending_moves.len();
            let mut i: usize = 0;
            assert(self.pending_moves@.take(0) =~= Seq::<PointerMark>::empty());
            while i < n
                invariant
                    n == self.pending_moves@.len(),
                    n == pending_edges@.len(),
                    i <= n,
                    self.pending_moves == old(self).pending_moves,
                    self.last_ns == old(self).last_ns,
                    delay == old(self).delay_at(now_ns),
                    approach@ == approach_from(
                        self.pending_moves@.take(i as int),
                        pending_edges@.take(i as int),
                        self.last_ns,
                        delay,
                    ),
                decreases n - i,
            {
                let m = self.pending_moves[i];
                assert(self.pending_moves@.take(i + 1).drop_last() =~= self.pending_moves@.take(
                    i as int,
                ));
                assert(pending_edges@.take(i + 1).drop_last() =~= pending_edges@.take(i as int));
                assert(self.pending_moves@.take(i + 1).last() == m);
                assert(pending_edges@.take(i + 1).last() == pending_edges@[i as int]);
                if m.at_ns >= self.last_ns {
                    let since = elapsed_millis(m.at_ns, self.last_ns);
                    let offset = if since <= delay {
                        since
                    } else {
                        delay
                    };
                    approach.push(
                        PointerSample { x: m.x, y: m.y, offset_ms: offset, screen_edge: pending_edges[i] },
                    );
                }
                i = i + 1;
            }
            assert(self.pending_moves@.take(n as int) =~= self.pending_moves@);
            assert(pending_edges@.take(n as int) =~= pending_edges@);
            proof {
                if old(self).wf() {
                    lemma_approach_in_time_order(
                        self.pending_moves@,
                        pending_edges@,
                        self.last_ns,
                        delay,
                    );
                }
            }
        }
        self.pending_moves.clear();
        let points = vec![PointerSample { x, y, offset_ms: 0, screen_edge }];
        self.pending_pointer = Some(
            PendingPointer {
                button,
                clicks,
                started_ns: now_ns,
                delay_ms: delay,
                approach,
                points,
                target,
            },
        );
    }

    /// The held button was dragged to `(x, y)`. The position extends the drag
    /// path when the path is empty, when the pointer moved at least a pixel
    /// from the path's last sample (`moved_a_pixel`, decided on screen
    /// coordinates by the caller), or when 8 ms passed since that sample.
    pub fn record_button_drag(
        &mut self,
        now_ns: u64,
        x: u64,
        y: u64,
        screen_edge: bool,
        moved_a_pixel: bool,
    )
        ensures
            old(self).wf() ==> final(self).wf(),
            !(old(self).active && old(self).settings.mouse_clicks && old(self).pending_pointer is Some)
                ==> *final(self) == *old(self),
            old(self).active && old(self).settings.mouse_clicks && old(self).pending_pointer is Some
                ==> {
                let p = old(self).pending_pointer->0;
                let offset = elapsed_ms(now_ns, p.started_ns);
                let keep = p.points@.len() == 0 || moved_a_pixel || offset - p.points@.last().offset_ms
                    >= 8;
                &&& final(self).active == old(self).active
                &&& final(self).settings == old(self).settings
                &&& final(self).actions == old(self).actions
                &&& final(self).last_ns == old(self).last_ns
                &&& final(self).last_move == old(self).last_move
                &&& final(self).pending_moves == old(self).pending_moves
                &&& final(self).grouped_text_keys == old(self).grouped_text_keys
                &&& final(self).scroll_remainder_x == old(self).scroll_remainder_x
                &&& final(self).scroll_remainder_y == old(self).scroll_remainder_y
                &&& final(self).last_scroll_at_ns == old(self).last_scroll_at_ns
                &&& final(self).pending_pointer matches Some(q) && {
                    &&& q.button == p.button
                    &&& q.clicks == p.clicks
                    &&& q.started_ns == p.started_ns
                    &&& q.delay_ms == p.delay_ms
                    &&& q.approach == p.approach
                    &&& q.target == p.target
                    &&& q.points@ == if keep {
                        p.points@.push(PointerSample { x, y, offset_ms: offset, screen_edge })
                    } else {
                        p.points@
                    }
                }
            },
    {
        if !(self.active && self.settings.mouse_clicks) {
            return ;
        }
        let pending = self.pending_pointer.take();
        match pending {
            None => {
                self.pending_pointer = None;
            },
            Some(mut p) => {
                let offset = elapsed_millis(now_ns, p.started_ns);
                let keep = if p.points.len() == 0 {
                    true
                } else {
                    let previous = p.points[p.points.len() - 1].offset_ms;
                    moved_a_pixel || (offset >= previous && offset - previous >= 8)
                };
                if keep {
                    p.points.push(PointerSample { x, y, offset_ms: offset, screen_edge });
                }
                self.pending_pointer = Some(p);
            },
        }
    }

    /// The held button was released at `(x, y)`. A release of another button
    /// discards the pending press. Otherwise the path gets its final sample
    /// unless it already ends there (`at_last_sample`), and the press becomes
    /// a drag when it travelled at least three pixels (`traveled_far`) or has
    /// a longer path, a repeat of the last click when it is a multi-click
    /// within reach of it (`near_previous_click`), or else a new click. The
    /// geometric flags are decided on screen coordinates by the caller.
    pub fn record_button_up(
        &mut self,
        now_ns: u64,
        button: MouseButton,
        x: u64,
        y: u64,
        screen_edge: bool,
        traveled_far: bool,
        at_last_sample: bool,
        near_previous_click: bool,
    )
        ensures
            old(self).wf() ==> final(self).wf(),
            button_up_recorded(*old(self), *final(self), now_ns, button, x, y, screen_edge, traveled_far, at_last_sample, near_previous_click),
    {
        if !(self.active && self.settings.mouse_clicks) {
            return ;
        }
        let pending = self.pending_pointer.take();
        match pending {
            None => {},
            Some(p) => {
                if p.button != button {
                    return ;
                }
                let duration = elapsed_millis(now_ns, p.started_ns);
                let PendingPointer {
                    button: held,
                    clicks,
                    started_ns: _,
                    delay_ms,
                    approach,
                    mut points,
                    target,
                } = p;
                if !at_last_sample {
                    points.push(PointerSample { x, y, offset_ms: duration, screen_edge });
                }
                if traveled_far || points.len() > 2 {
                    self.actions.push(
                        Action::Drag {
                            enabled: true,
                            button: held,
                            approach,
                            points,
                            duration_ms: duration,
                            delay_ms,
                        },
                    );
                } else if clicks > 1 && merge_multi_click(
                    &mut self.actions,
                    held,
                    clicks,
                    near_previous_click,
                ) {
                } else {
                    self.actions.push(
                        Action::Click {
                            enabled: true,
                            x,
                            y,
                            button: held,
                            clicks,
                            delay_ms,
                            approach,
                            target,
                        },
                    );
                }
                self.last_ns = now_ns;
            },
        }
    }

    /// The pointer moved to `(x, y)` with no button held. When movement is
    /// recorded, a move action is recorded if it is the first, if the pointer
    /// went more than 12 pixels from the last recorded move, or if more than
    /// 180 ms passed. Otherwise the position is kept for the next click's
    /// approach if it is the first, more than 30 pixels from the newest kept
    /// position, or 70 ms or more after it; the kept positions are capped at
    /// `MAX_PENDING_MOVES` and drop those older than five seconds. `far`
    /// tells whether the pixel threshold of the active mode was passed,
    /// decided on screen coordinates by the caller.
    pub fn record_pointer_move(&mut self, now_ns: u64, x: u64, y: u64, screen_edge: bool, far: bool)
        requires
            old(self).follows(now_ns),
        ensures
            !old(self).active ==> *final(self) == *old(self),
            old(self).wf() ==> final(self).wf(),
            old(self).active ==> {
                &&& final(self).active == old(self).active
                &&& final(self).settings == old(self).settings
                &&& final(self).pending_pointer == old(self).pending_pointer
                &&& final(self).grouped_text_keys == old(self).grouped_text_keys
                &&& final(self).scroll_remainder_x == old(self).scroll_remainder_x
                &&& final(self).scroll_remainder_y == old(self).scroll_remainder_y
                &&& final(self).last_scroll_at_ns == old(self).last_scroll_at_ns
                &&& if old(self).settings.mouse_movement {
                    let keep = match old(self).last_move {
                        None => true,
                        Some(m) => far || elapsed_ns(now_ns, m.at_ns) > 180_000_000,
                    };
                    &&& final(self).pending_moves == old(self).pending_moves
                    &&& if keep {
                        &&& final(self).actions@ == old(self).actions@.push(
                            Action::Move {
                                enabled: true,
                                x,
                                y,
                                duration_ms: 0,
                                delay_ms: old(self).delay_at(now_ns),
                                screen_edge,
                            },
                        )
                        &&& final(self).last_move == Some(PointerMark { x, y, at_ns: now_ns })
                        &&& final(self).last_ns == now_ns
                    } else {
                        &&& final(self).actions == old(self).actions
                        &&& final(self).last_move == old(self).last_move
                        &&& final(self).last_ns == old(self).last_ns
                    }
                } else {
                    let moves = old(self).pending_moves@;
                    let keep = moves.len() == 0 || far || elapsed_ns(now_ns, moves.last().at_ns)
                        >= 70_000_000;
                    &&& final(self).actions == old(self).actions
                    &&& final(self).last_move == old(self).last_move
                    &&& final(self).last_ns == old(self).last_ns
                    &&& final(self).pending_moves@ == if keep {
                        without_stale(
                            capped_moves(moves.push(PointerMark { x, y, at_ns: now_ns })),
                            now_ns,
                        )
                    } else {
                        moves
                    }
                }
            },
    {
        if !self.active {
            return ;
        }
        if self.settings.mouse_movement {
            let keep = match self.last_move {
                None => true,
                Some(m) => far || elapsed_nanos(now_ns, m.at_ns) > 180_000_000,
            };
            if keep {
                let delay = self.delay_since_last(now_ns);
                self.actions.push(
                    Action::Move { enabled: true, x, y, duration_ms: 0, delay_ms: delay, screen_edge },
                );
                self.last_move = Some(PointerMark { x, y, at_ns: now_ns });
                self.last_ns = now_ns;
            }
        } else {
            let n = self.pending_moves.len();
            let keep = if n == 0 {
                true
            } else {
                far || elapsed_nanos(now_ns, self.pending_moves[n - 1].at_ns) >= 70_000_000
            };
            if keep {
                let mut moves: VecDeque<PointerMark> = VecDeque::new();
                std::mem::swap(&mut moves, &mut self.pending_moves);
                let ghost pushed = moves@.push(PointerMark { x, y, at_ns: now_ns });
                moves.push_back(PointerMark { x, y, at_ns: now_ns });
                assert(moves@ == pushed);
                proof {
                    if old(self).wf() {
                        assert forall|i: int, j: int| 0 <= i <= j < pushed.len() implies pushed[i].at_ns
                            <= pushed[j].at_ns by {
                            if j == pushed.len() - 1 && i < j {
                                assert(pushed[i] == old(self).pending_moves@[i]);
                            } else if j < pushed.len() - 1 {
                                assert(pushed[i] == old(self).pending_moves@[i]);
                                assert(pushed[j] == old(self).pending_moves@[j]);
                            }
                        }
                    }
                }
                if moves.len() > MAX_PENDING_MOVES {
                    let extra = moves.len() - MAX_PENDING_MOVES;
                    let mut dropped: usize = 0;
                    while moves.len() > MAX_PENDING_MOVES
                        invariant
                            pushed.len() > MAX_PENDING_MOVES,
                            extra == pushed.len() - MAX_PENDING_MOVES,
                            dropped <= extra,
                            moves@ == pushed.skip(dropped as int),
                            old(self).wf() ==> marks_in_time_order(pushed),
                        decreases moves@.len(),
                    {
                        moves.pop_front();
                        assert(pushed.skip(dropped as int).drop_first() =~= pushed.skip(
                            dropped + 1,
                        ));
                        dropped = dropped + 1;
                    }
                }
                let ghost capped = moves@;
                assert(capped == capped_moves(pushed));
                proof {
                    if old(self).wf() {
                        assert forall|i: int, j: int| 0 <= i <= j < capped.len() implies capped[i].at_ns
                            <= capped[j].at_ns by {
                            let d = pushed.len() - capped.len();
                            assert(capped[i] == pushed[i + d]);
                            assert(capped[j] == pushed[j + d]);
                        }
                    }
                }
                while moves.len() > 0 && elapsed_nanos(now_ns, moves[0].at_ns) > 5_000_000_000
                    invariant
                        without_stale(capped, now_ns) == without_stale(moves@, now_ns),
                        moves@.len() <= capped.len(),
                        capped.len() <= MAX_PENDING_MOVES,
                        old(self).wf() ==> marks_in_time_order(moves@),
                    decreases moves@.len(),
                {
                    let ghost before = moves@;
                    moves.pop_front();
                    assert(moves@ =~= before.drop_first());
                    assert(forall|i: int| 0 <= i < moves@.len() ==> moves@[i] == before[i + 1]);
                }
                self.pending_moves = moves;
            }
        }
    }

    /// A scroll of `x` and `y` whole units was observed at `(at_x, at_y)`; the
    /// fractional trackpad remainders become `remainder_x` and `remainder_y`.
    /// A non-zero scroll within 120 ms of the previous one, in the same unit,
    /// adds to the last scroll action (saturating); any other non-zero scroll
    /// is recorded as a new action. Returns whether a new action was recorded,
    /// whose semantic target is then attached by the caller.
    pub fn record_scroll(
        &mut self,
        now_ns: u64,
        x: i32,
        y: i32,
        unit: ScrollUnit,
        at_x: u64,
        at_y: u64,
        remainder_x: u64,
        remainder_y: u64,
    ) -> (r: bool)
        ensures
            old(self).wf() ==> final(self).wf(),
            !(old(self).active && old(self).settings.scrolling) ==> *final(self) == *old(self) && !r,
            old(self).active && old(self).settings.scrolling ==> {
                let old_actions = old(self).actions@;
                let merges = match old(self).last_scroll_at_ns {
                    Some(t) => elapsed_ns(now_ns, t) <= 120_000_000,
                    None => false,
                } && last_scroll_in(old_actions, unit);
                &&& final(self).active == old(self).active
                &&& final(self).settings == old(self).settings
                &&& final(self).last_move == old(self).last_move
                &&& final(self).pending_moves == old(self).pending_moves
                &&& final(self).pending_pointer == old(self).pending_pointer
                &&& final(self).grouped_text_keys == old(self).grouped_text_keys
                &&& final(self).scroll_remainder_x == remainder_x
                &&& final(self).scroll_remainder_y == remainder_y
                &&& if x == 0 && y == 0 {
                    &&& !r
                    &&& final(self).actions == old(self).actions
                    &&& final(self).last_ns == old(self).last_ns
                    &&& final(self).last_scroll_at_ns == old(self).last_scroll_at_ns
                } else {
                    &&& r == !merges
                    &&& final(self).last_ns == now_ns
                    &&& final(self).last_scroll_at_ns == Some(now_ns)
                    &&& merges ==> last_replaced(old_actions, final(self).actions@)
                        && scroll_extended(old_actions.last(), final(self).actions@.last(), x, y)
                    &&& !merges ==> final(self).actions@ == old_actions.push(
                        Action::Scroll {
                            enabled: true,
                            x,
                            y,
                            unit,
                            at: Some(ScreenPoint { x: at_x, y: at_y }),
                            target: None,
                            delay_ms: old(self).delay_at(now_ns),
                        },
                    )
                }
            },
    {
        if !(self.active && self.settings.scrolling) {
            return false;
        }
        let delay = self.delay_since_last(now_ns);
        self.scroll_remainder_x = remainder_x;
        self.scroll_remainder_y = remainder_y;
        if x == 0 && y == 0 {
            return false;
        }
        let recent = match self.last_scroll_at_ns {
            Some(t) => elapsed_nanos(now_ns, t) <= 120_000_000,
            None => false,
        };
        let mut merged = false;
        if recent && self.actions.len() > 0 {
            let last = self.actions.pop().unwrap();
            match last {
                Action::Scroll { enabled, x: px, y: py, unit: pu, at, target, delay_ms } => {
                    if pu == unit {
                        let nx = add_saturating(px, x);
                        let ny = add_saturating(py, y);
                        self.actions.push(
                            Action::Scroll { enabled, x: nx, y: ny, unit: pu, at, target, delay_ms },
                        );
                        merged = true;
                    } else {
                        self.actions.push(
                            Action::Scroll { enabled, x: px, y: py, unit: pu, at, target, delay_ms },
                        );
                    }
                },
                other => {
                    self.actions.push(other);
                },
            }
            proof {
                assert(self.actions@.drop_last() =~= old(self).actions@.drop_last());
                if !merged {
                    assert(self.actions@ =~= old(self).actions@);
                }
            }
        }
        if !merged {
            self.actions.push(
                Action::Scroll {
                    enabled: true,
                    x,
                    y,
                    unit,
                    at: Some(ScreenPoint { x: at_x, y: at_y }),
                    target: None,
                    delay_ms: delay,
                },
            );
        }
        self.last_scroll_at_ns = Some(now_ns);
        self.last_ns = now_ns;
        !merged
    }

    /// Attaches the semantic target found under a newly recorded scroll.
    pub fn attach_scroll_target(&mut self, target: Option<SemanticTarget>)
        ensures
            old(self).wf() ==> final(self).wf(),
            final(self).active == old(self).active,
            final(self).settings == old(self).settings,
            final(self).last_ns == old(self).last_ns,
            final(self).actions@.len() == old(self).actions@.len(),
            old(self).actions@.len() > 0 && old(self).actions@.last() is Scroll ==> {
                &&& final(self).actions@.drop_last() == old(self).actions@.drop_last()
                &&& match (old(self).actions@.last(), final(self).actions@.last()) {
                    (
                        Action::Scroll { enabled: e0, x: x0, y: y0, unit: u0, at: a0, target: _, delay_ms: d0 },
                        Action::Scroll { enabled: e1, x: x1, y: y1, unit: u1, at: a1, target: g1, delay_ms: d1 },
                    ) => e0 == e1 && x0 == x1 && y0 == y1 && u0 == u1 && a0 == a1 && d0 == d1 && g1 == target,
                    _ => false,
                }
            },
            !(old(self).actions@.len() > 0 && old(self).actions@.last() is Scroll) ==> final(self).actions@
                == old(self).actions@,
    {
        if self.actions.len() == 0 {
            return ;
        }
        let last = self.actions.pop().unwrap();
        match last {
            Action::Scroll { enabled, x, y, unit, at, target: _, delay_ms } => {
                self.actions.push(Action::Scroll { enabled, x, y, unit, at, target, delay_ms });
                assert(self.actions@.drop_last() =~= old(self).actions@.drop_last());
            },
            other => {
                self.actions.push(other);
                assert(self.actions@ =~= old(self).actions@);
            },
        }
    }

    /// A key went down or up. Shift, Control, Option and Command are kept of
    /// its flags. The release of a key whose press was grouped into text is not
    /// recorded. A press without Control, Option or Command that types
    /// printable text is grouped: it continues the last text action after a
    /// short pause, or starts a new one (whose focus target the caller then
    /// attaches). Any other key event is recorded as a raw key action.
    pub fn record_key(
        &mut self,
        now_ns: u64,
        down: bool,
        key: u16,
        flags: u64,
        typed: Option<String>,
    ) -> (r: KeyRecorded)
        ensures
            old(self).wf() ==> final(self).wf(),
            key_recorded(*old(self), *final(self), now_ns, down, key, flags, typed, r),
    {
        broadcast use vstd::std_specs::hash::group_hash_axioms;

        if !(self.active && self.settings.keyboard) {
            return KeyRecorded::Ignored;
        }
        let delay = self.delay_since_last(now_ns);
        let modifiers = flags & RECORDED_MODIFIERS;
        if !down && self.grouped_text_keys.contains(&key) {
            self.grouped_text_keys.remove(&key);
            return KeyRecorded::Ignored;
        }
        if down && (modifiers & SHORTCUT_MODIFIERS) == 0 {
            match typed {
                Some(text) => {
                    if is_printable_text(text.as_str()) {
                        self.grouped_text_keys.insert(key);
                        self.last_ns = now_ns;
                        if can_append_text(self.actions.as_slice(), delay) {
                            let last = self.actions.pop().unwrap();
                            match last {
                                Action::Text { enabled, text: mut existing, delay_ms, target } => {
                                    existing.append(text.as_str());
                                    self.actions.push(
                                        Action::Text { enabled, text: existing, delay_ms, target },
                                    );
                                    assert(self.actions@.drop_last() =~= old(self).actions@.drop_last());
                                },
                                other => {
                                    self.actions.push(other);
                                },
                            }
                            return KeyRecorded::AppendedText;
                        }
                        self.actions.push(
                            Action::Text { enabled: true, text, delay_ms: delay, target: None },
                        );
                        assert(self.actions@.drop_last() =~= old(self).actions@);
                        return KeyRecorded::NewText;
                    }
                },
                None => {},
            }
        }
        self.actions.push(
            Action::Key { enabled: true, key_code: key, modifiers, down, delay_ms: delay },
        );
        self.last_ns = now_ns;
        KeyRecorded::KeyAction
    }

    /// Attaches the focused element to a newly started text action.
    pub fn attach_text_target(&mut self, target: Option<SemanticTarget>)
        ensures
            old(self).wf() ==> final(self).wf(),
            final(self).active == old(self).active,
            final(self).settings == old(self).settings,
            final(self).last_ns == old(self).last_ns,
            final(self).actions@.len() == old(self).actions@.len(),
            old(self).actions@.len() > 0 && old(self).actions@.last() is Text ==> {
                &&& final(self).actions@.drop_last() == old(self).actions@.drop_last()
                &&& match (old(self).actions@.last(), final(self).actions@.last()) {
                    (
                        Action::Text { enabled: e0, text: t0, delay_ms: d0, target: _ },
                        Action::Text { enabled: e1, text: t1, delay_ms: d1, target: g1 },
                    ) => e0 == e1 && t0 == t1 && d0 == d1 && g1 == target,
                    _ => false,
                }
            },
            !(old(self).actions@.len() > 0 && old(self).actions@.last() is Text) ==> final(self).actions@
                == old(self).actions@,
    {
        if self.actions.len() == 0 {
            return ;
        }
        let last = self.actions.pop().unwrap();
        match last {
            Action::Text { enabled, text, delay_ms, target: _ } => {
                self.actions.push(Action::Text { enabled, text, delay_ms, target });
                assert(self.actions@.drop_last() =~= old(self).actions@.drop_last());
            },
            other => {
                self.actions.push(other);
                assert(self.actions@ =~= old(self).actions@);
            },
        }
    }
}


/// The release of a key whose press was typed into a text action is never
/// recorded: after a grouped press, the release of the same key leaves the
/// actions as they were.
pub proof fn law_grouped_releases_are_not_recorded(
    r0: Recording,
    r1: Recording,
    r2: Recording,
    press_ns: u64,
    release_ns: u64,
    key: u16,
    press_flags: u64,
    release_flags: u64,
    typed: Option<String>,
    pressed: KeyRecorded,
    released: KeyRecorded,
)
    requires
        key_recorded(r0, r1, press_ns, true, key, press_flags, typed, pressed),
        pressed == KeyRecorded::AppendedText || pressed == KeyRecorded::NewText,
        key_recorded(r1, r2, release_ns, false, key, release_flags, None, released),
    ensures
        released == KeyRecorded::Ignored,
        r2.actions == r1.actions,
        !r2.grouped_text_keys@.contains(key),
{
}

/// Shortcuts keep their modifier semantics: a key event with Control, Option
/// or Command held is recorded as a raw key action with its modifiers, never
/// typed into text (unless it releases a key already typed as text).
pub proof fn law_shortcuts_stay_key_events(
    before: Recording,
    after: Recording,
    now_ns: u64,
    down: bool,
    key: u16,
    flags: u64,
    typed: Option<String>,
    r: KeyRecorded,
)
    requires
        key_recorded(before, after, now_ns, down, key, flags, typed, r),
        before.active && before.settings.keyboard,
        flags & SHORTCUT_MODIFIERS != 0,
        !(!down && before.grouped_text_keys@.contains(key)),
    ensures
        r == KeyRecorded::KeyAction,
        after.actions@ == before.actions@.push(
            Action::Key {
                enabled: true,
                key_code: key,
                modifiers: flags & RECORDED_MODIFIERS,
                down,
                delay_ms: before.delay_at(now_ns),
            },
        ),
{
    assert(flags & SHORTCUT_MODIFIERS != 0 ==> (flags & RECORDED_MODIFIERS) & SHORTCUT_MODIFIERS
        != 0) by (bit_vector);
}


/// A single press and release of one button that does not travel records
/// exactly one click: at the release point, with the press's pause and the
/// element that was under the pointer when the button went down.
pub proof fn law_press_and_release_record_one_click(
    r0: Recording,
    r1: Recording,
    r2: Recording,
    down_ns: u64,
    up_ns: u64,
    button: MouseButton,
    click_state: i64,
    down_x: u64,
    down_y: u64,
    down_edge: bool,
    target: Option<SemanticTarget>,
    pending_edges: Seq<bool>,
    x: u64,
    y: u64,
    up_edge: bool,
    at_last_sample: bool,
    near_previous_click: bool,
)
    requires
        r0.active && r0.settings.mouse_clicks,
        click_state <= 1,
        button_down_recorded(
            r0,
            r1,
            down_ns,
            button,
            click_state,
            down_x,
            down_y,
            down_edge,
            target,
            pending_edges,
        ),
        button_up_recorded(r1, r2, up_ns, button, x, y, up_edge, false, at_last_sample, near_previous_click),
    ensures
        r2.actions@.len() == r0.actions@.len() + 1,
        r2.actions@.drop_last() == r0.actions@,
        r2.actions@.last() matches Action::Click {
            enabled,
            x: cx,
            y: cy,
            button: b,
            clicks,
            delay_ms,
            target: t,
            ..
        } && enabled && cx == x && cy == y && b == button && clicks == 1 && delay_ms == r0.delay_at(
            down_ns,
        ) && t == target,
        r2.pending_pointer is None,
{
    let p = r1.pending_pointer->0;
    assert(r2.actions@ =~= r1.actions@.push(
        Action::Click {
            enabled: true,
            x,
            y,
            button: p.button,
            clicks: p.clicks,
            delay_ms: p.delay_ms,
            approach: p.approach,
            target: p.target,
        },
    ));
    assert(r2.actions@.drop_last() =~= r0.actions@);
}

/// A press whose pointer travels before the release records a drag along
/// the sampled path, never a click.
pub proof fn law_travelled_presses_record_a_drag(
    r1: Recording,
    r2: Recording,
    up_ns: u64,
    button: MouseButton,
    x: u64,
    y: u64,
    up_edge: bool,
    at_last_sample: bool,
    near_previous_click: bool,
)
    requires
        r1.active && r1.settings.mouse_clicks,
        r1.pending_pointer matches Some(p) && p.button == button,
        button_up_recorded(r1, r2, up_ns, button, x, y, up_edge, true, at_last_sample, near_previous_click),
    ensures
        r2.actions@.len() == r1.actions@.len() + 1,
        r2.actions@.drop_last() == r1.actions@,
        r2.actions@.last() is Drag,
{
}


/// Typing is grouped whatever the Shift key: a key press without Control,
/// Option or Command that types non-empty text free of control characters
/// goes into a text action (a new one or the last one), never into a raw key
/// action, and its release will be dropped.
pub proof fn law_shifted_typing_is_text(
    before: Recording,
    after: Recording,
    now_ns: u64,
    key: u16,
    flags: u64,
    text: String,
    r: KeyRecorded,
)
    requires
        before.active && before.settings.keyboard,
        flags & CONTROL == 0 && flags & OPTION == 0 && flags & COMMAND == 0,
        text@.len() > 0,
        forall|i: int|
            0 <= i < text@.len() ==> !((#[trigger] text@[i]) as u32 <= 0x1f || (0x7f <= text@[i] as u32
                <= 0x9f)),
        key_recorded(before, after, now_ns, true, key, flags, Some(text), r),
    ensures
        r == KeyRecorded::NewText || r == KeyRecorded::AppendedText,
        after.actions@.len() > 0 && after.actions@.last() is Text,
        after.grouped_text_keys@.contains(key),
{
    assert((flags & RECORDED_MODIFIERS) & SHORTCUT_MODIFIERS == 0) by (bit_vector)
        requires
            flags & CONTROL == 0 && flags & OPTION == 0 && flags & COMMAND == 0,
    ;
    assert(printable(text@));
    if r == KeyRecorded::AppendedText {
        assert(after.actions@.len() > 0);
    }
}


/// The positions observed at or after `since_ns`.
pub open spec fn seen_since(since_ns: u64) -> spec_fn(PointerMark) -> bool {
    |m: PointerMark| m.at_ns >= since_ns
}

/// A click's approach is made of the pending positions observed at or after
/// the last recorded action, in order, and of no other: one sample per such
/// position, at that position, offset by the time since that action (capped
/// at the delay). When every pending position is older, there is none.
pub proof fn law_approach_keeps_only_positions_since_the_last_action(
    moves: Seq<PointerMark>,
    edges: Seq<bool>,
    since_ns: u64,
    delay_ms: u64,
)
    ensures
        approach_from(moves, edges, since_ns, delay_ms).len() == moves.filter(
            seen_since(since_ns),
        ).len(),
        forall|i: int|
            0 <= i < approach_from(moves, edges, since_ns, delay_ms).len() ==> {
                let a = #[trigger] approach_from(moves, edges, since_ns, delay_ms)[i];
                let m = moves.filter(seen_since(since_ns))[i];
                &&& a.x == m.x
                &&& a.y == m.y
                &&& m.at_ns >= since_ns
                &&& a.offset_ms == min_u64(elapsed_ms(m.at_ns, since_ns), delay_ms)
            },
        (forall|i: int| 0 <= i < moves.len() ==> (#[trigger] moves[i]).at_ns < since_ns)
            ==> approach_from(moves, edges, since_ns, delay_ms).len() == 0,
    decreases moves.len(),
{
    reveal_with_fuel(Seq::filter, 1);
    let pred = seen_since(since_ns);
    if moves.len() > 0 {
        let rest = moves.drop_last();
        law_approach_keeps_only_positions_since_the_last_action(rest, edges.drop_last(), since_ns, delay_ms);
        let a = approach_from(moves, edges, since_ns, delay_ms);
        let ra = approach_from(rest, edges.drop_last(), since_ns, delay_ms);
        let kept = moves.filter(pred);
        let rkept = rest.filter(pred);
        assert(kept == if pred(moves.last()) { rkept.push(moves.last()) } else { rkept });
        if moves.last().at_ns >= since_ns {
            assert forall|i: int| 0 <= i < a.len() implies {
                let x = #[trigger] a[i];
                let m = kept[i];
                &&& x.x == m.x
                &&& x.y == m.y
                &&& m.at_ns >= since_ns
                &&& x.offset_ms == min_u64(elapsed_ms(m.at_ns, since_ns), delay_ms)
            } by {
                if i < ra.len() {
                    assert(a[i] == ra[i]);
                    assert(kept[i] == rkept[i]);
                }
            }
        }
        if forall|i: int| 0 <= i < moves.len() ==> (#[trigger] moves[i]).at_ns < since_ns {
            assert(moves[moves.len() - 1].at_ns < since_ns);
            assert forall|i: int| 0 <= i < rest.len() implies (#[trigger] rest[i]).at_ns < since_ns by {
                assert(rest[i] == moves[i]);
            }
        }
    }
}


/// A press records as its approach exactly the pending positions seen since
/// the last recorded action: positions from before that action are dropped.
pub proof fn law_press_approach_starts_at_the_last_action(
    before: Recording,
    after: Recording,
    now_ns: u64,
    button: MouseButton,
    click_state: i64,
    x: u64,
    y: u64,
    screen_edge: bool,
    target: Option<SemanticTarget>,
    pending_edges: Seq<bool>,
)
    requires
        before.active && before.settings.mouse_clicks && !before.settings.mouse_movement,
        button_down_recorded(
            before,
            after,
            now_ns,
            button,
            click_state,
            x,
            y,
            screen_edge,
            target,
            pending_edges,
        ),
    ensures
        after.pending_pointer matches Some(p) && {
            let kept = before.pending_moves@.filter(seen_since(before.last_ns));
            &&& p.approach@.len() == kept.len()
            &&& forall|i: int|
                0 <= i < p.approach@.len() ==> (#[trigger] p.approach@[i]).x == kept[i].x
                    && p.approach@[i].y == kept[i].y
        },
{
    law_approach_keeps_only_positions_since_the_last_action(
        before.pending_moves@,
        pending_edges,
        before.last_ns,
        before.delay_at(now_ns),
    );
}

} // verus!
