//! The automation engine's exclusive modes, permissions, playback requests and
//! the event codes and rates used when input is replayed.
use vstd::prelude::*;
use crate::model::{copy_actions, same_action, Action, MouseButton, RecordingSettings};
use crate::recorder::{is_fresh, Recording};

verus! {

pub const LEFT_DOWN: u32 = 1;
pub const LEFT_UP: u32 = 2;
pub const RIGHT_DOWN: u32 = 3;
pub const RIGHT_UP: u32 = 4;
pub const MOUSE_MOVED: u32 = 5;
pub const LEFT_DRAGGED: u32 = 6;
pub const RIGHT_DRAGGED: u32 = 7;
pub const KEY_DOWN: u32 = 10;
pub const KEY_UP: u32 = 11;
pub const SCROLL: u32 = 22;
pub const OTHER_DOWN: u32 = 25;
pub const OTHER_UP: u32 = 26;
pub const OTHER_DRAGGED: u32 = 27;

/// What the engine is doing; recording and playback exclude each other.
#[derive(Debug, Clone, Copy, PartialEq, Eq, Structural)]
pub enum AutomationMode {
    Idle,
    Recording,
    Playing,
}

/// Which macOS privacy permissions the application holds.
#[derive(Debug, Clone)]
pub struct PermissionState {
    pub accessibility: bool,
    pub event_posting: bool,
    pub input_monitoring: bool,
    pub screen_recording: bool,
    pub input_monitoring_note: String,
}

impl PermissionState {
    /// The permission report for the given checks.
    pub fn from_checks(
        accessibility: bool,
        event_posting: bool,
        input_monitoring: bool,
        screen_recording: bool,
    ) -> (r: Self)
        ensures
            r.accessibility == accessibility,
            r.event_posting == event_posting,
            r.input_monitoring == input_monitoring,
            r.screen_recording == screen_recording,
            r.input_monitoring_note@
                == "Input Monitoring is required to record actions outside BetterMacro."@,
    {
        PermissionState {
            accessibility,
            event_posting,
            input_monitoring,
            screen_recording,
            input_monitoring_note: "Input Monitoring is required to record actions outside BetterMacro.".to_owned(),
        }
    }
}

/// The engine's state: its mode, whether playback may go on, and the recorder.
pub struct MacAutomation {
    pub mode: AutomationMode,
    pub playing: bool,
    pub recording: Recording,
}

/// The part of the engine's state that its transitions speak of.
pub struct EngineView {
    pub mode: AutomationMode,
    pub playing: bool,
    pub recording_active: bool,
}

impl MacAutomation {
    pub open spec fn engine(self) -> EngineView {
        EngineView { mode: self.mode, playing: self.playing, recording_active: self.recording.active }
    }
}

/// Why a recording may not start, if it may not.
pub open spec fn recording_refusal(e: EngineView, permissions: PermissionState) -> Option<Seq<char>> {
    if !permissions.input_monitoring {
        Some("Input Monitoring permission is required before recording outside BetterMacro."@)
    } else if !permissions.accessibility {
        Some("Accessibility permission is required to identify UI elements while recording."@)
    } else if e.mode != AutomationMode::Idle {
        Some("Stop the current recording or playback before starting a recording."@)
    } else {
        None
    }
}

/// The engine after a recording starts.
pub open spec fn recording_started(e: EngineView) -> EngineView {
    EngineView { mode: AutomationMode::Recording, playing: e.playing, recording_active: true }
}

/// The engine after a recording stops: the recorder is inactive and a
/// recording mode returns to idle.
pub open spec fn recording_stopped(e: EngineView) -> EngineView {
    EngineView {
        mode: if e.mode == AutomationMode::Recording {
            AutomationMode::Idle
        } else {
            e.mode
        },
        playing: e.playing,
        recording_active: false,
    }
}

/// Playback may begin only when the engine is idle.
pub open spec fn playback_may_begin(e: EngineView) -> bool {
    e.mode == AutomationMode::Idle
}

/// The engine after playback begins.
pub open spec fn playback_begun(e: EngineView) -> EngineView {
    EngineView { mode: AutomationMode::Playing, playing: true, recording_active: e.recording_active }
}

/// The engine after a stop request: the running playback is told to stop,
/// but the engine stays busy until the playback worker completes.
pub open spec fn playback_stop_requested(e: EngineView) -> EngineView {
    EngineView { mode: e.mode, playing: false, recording_active: e.recording_active }
}

/// The engine after the playback worker completes.
pub open spec fn playback_completed(e: EngineView) -> EngineView {
    EngineView {
        mode: if e.mode == AutomationMode::Playing {
            AutomationMode::Idle
        } else {
            e.mode
        },
        playing: false,
        recording_active: e.recording_active,
    }
}

impl MacAutomation {
    pub fn new() -> (r: Self)
        ensures
            r.mode == AutomationMode::Idle,
            !r.playing,
            !r.recording.active,
    {
        MacAutomation { mode: AutomationMode::Idle, playing: false, recording: Recording::new() }
    }

    /// Starts recording with `settings` at `now_ns` (nanoseconds on the
    /// recorder's clock), when both input permissions are held and nothing
    /// else is running.
    pub fn start_recording(
        &mut self,
        settings: RecordingSettings,
        permissions: &PermissionState,
        now_ns: u64,
    ) -> (r: Result<(), String>)
        ensures
            match recording_refusal(old(self).engine(), *permissions) {
                Some(m) => r is Err && r->Err_0@ == m && *final(self) == *old(self),
                None => r is Ok && final(self).engine() == recording_started(old(self).engine())
                    && is_fresh(final(self).recording, settings, now_ns),
            },
    {
        if !permissions.input_monitoring {
            return Err(
                "Input Monitoring permission is required before recording outside BetterMacro.".to_owned(),
            );
        }
        if !permissions.accessibility {
            return Err(
                "Accessibility permission is required to identify UI elements while recording.".to_owned(),
            );
        }
        if self.mode != AutomationMode::Idle {
            return Err(
                "Stop the current recording or playback before starting a recording.".to_owned(),
            );
        }
        self.recording.restart(settings, now_ns);
        self.mode = AutomationMode::Recording;
        Ok(())
    }

    /// Stops recording and hands out what was recorded.
    pub fn stop_recording(&mut self) -> (r: Vec<Action>)
        ensures
            final(self).engine() == recording_stopped(old(self).engine()),
            final(self).recording == (Recording { active: false, ..old(self).recording }),
            r@.len() == old(self).recording.actions@.len(),
            forall|i: int|
                0 <= i < r@.len() ==> same_action(#[trigger] r@[i], old(self).recording.actions@[i]),
    {
        self.recording.active = false;
        if self.mode == AutomationMode::Recording {
            self.mode = AutomationMode::Idle;
        }
        copy_actions(&self.recording.actions)
    }

    /// Asks the running playback to stop.
    pub fn stop_playback(&mut self)
        ensures
            final(self).engine() == playback_stop_requested(old(self).engine()),
            final(self).recording == old(self).recording,
    {
        self.playing = false;
    }

    /// Claims the engine for playback.
    pub fn begin_playback(&mut self) -> (r: Result<(), String>)
        ensures
            playback_may_begin(old(self).engine()) ==> r is Ok && final(self).engine()
                == playback_begun(old(self).engine()),
            !playback_may_begin(old(self).engine()) ==> r is Err && r->Err_0@
                == "Stop the current recording or playback before starting playback."@
                && *final(self) == *old(self),
            final(self).recording == old(self).recording,
    {
        if self.mode != AutomationMode::Idle {
            return Err("Stop the current recording or playback before starting playback.".to_owned());
        }
        self.mode = AutomationMode::Playing;
        self.playing = true;
        Ok(())
    }

    /// Releases the engine after the playback worker finished.
    pub fn complete_playback(&mut self)
        ensures
            final(self).engine() == playback_completed(old(self).engine()),
            final(self).recording == old(self).recording,
    {
        self.playing = false;
        if self.mode == AutomationMode::Playing {
            self.mode = AutomationMode::Idle;
        }
    }

    /// Whether playback may go on.
    pub fn is_playing(&self) -> (r: bool)
        ensures
            r == self.playing,
    {
        self.playing
    }
}

/// Playback is exclusive: once it has begun, neither another playback nor a
/// recording can start, also after a stop request, until the worker completes;
/// then playback can begin again.
pub proof fn law_playback_is_exclusive(e: EngineView, permissions: PermissionState)
    requires
        playback_may_begin(e),
    ensures
        !playback_may_begin(playback_begun(e)),
        recording_refusal(playback_begun(e), permissions) is Some,
        !playback_may_begin(playback_stop_requested(playback_begun(e))),
        !playback_stop_requested(playback_begun(e)).playing,
        playback_may_begin(playback_completed(playback_stop_requested(playback_begun(e)))),
        playback_may_begin(playback_completed(playback_begun(e))),
{
}

/// Recording is exclusive too: while recording, playback cannot begin; once
/// stopped, the engine is idle again and the recorder observes nothing.
pub proof fn law_recording_is_exclusive(e: EngineView, permissions: PermissionState)
    requires
        recording_refusal(e, permissions) is None,
    ensures
        !playback_may_begin(recording_started(e)),
        recording_refusal(recording_started(e), permissions) is Some,
        playback_may_begin(recording_stopped(recording_started(e))),
        !recording_stopped(recording_started(e)).recording_active,
{
}

/// The button a Quartz mouse event's button number names.
pub open spec fn button_of_number(number: i64) -> MouseButton {
    if number == 1 {
        MouseButton::Right
    } else if number == 2 {
        MouseButton::Center
    } else if number > 2 {
        MouseButton::Other
    } else {
        MouseButton::Left
    }
}

pub fn mouse_button_for_number(number: i64) -> (r: MouseButton)
    ensures
        r == button_of_number(number),
{
    if number == 1 {
        MouseButton::Right
    } else if number == 2 {
        MouseButton::Center
    } else if number > 2 {
        MouseButton::Other
    } else {
        MouseButton::Left
    }
}

/// The Quartz button number and the down, up and dragged event types that
/// replay a button; the center and other buttons share the "other" events.
pub open spec fn event_types_of(button: MouseButton) -> (u32, u32, u32, u32) {
    match button {
        MouseButton::Left => (0, LEFT_DOWN, LEFT_UP, LEFT_DRAGGED),
        MouseButton::Right => (1, RIGHT_DOWN, RIGHT_UP, RIGHT_DRAGGED),
        MouseButton::Center => (2, OTHER_DOWN, OTHER_UP, OTHER_DRAGGED),
        MouseButton::Other => (2, OTHER_DOWN, OTHER_UP, OTHER_DRAGGED),
    }
}

pub fn mouse_event_types(button: MouseButton) -> (r: (u32, u32, u32, u32))
    ensures
        r == event_types_of(button),
{
    match button {
        MouseButton::Left => (0, LEFT_DOWN, LEFT_UP, LEFT_DRAGGED),
        MouseButton::Right => (1, RIGHT_DOWN, RIGHT_UP, RIGHT_DRAGGED),
        MouseButton::Center | MouseButton::Other => (2, OTHER_DOWN, OTHER_UP, OTHER_DRAGGED),
    }
}

/// The pointer event rate used during playback: 60 to 240 events per second.
pub open spec fn clamped_rate(pointer_hz: u16) -> u16 {
    if pointer_hz < 60 {
        60
    } else if pointer_hz > 240 {
        240
    } else {
        pointer_hz
    }
}

pub fn clamp_pointer_rate(pointer_hz: u16) -> (r: u16)
    ensures
        r == clamped_rate(pointer_hz),
{
    if pointer_hz < 60 {
        60
    } else if pointer_hz > 240 {
        240
    } else {
        pointer_hz
    }
}

/// The rate a playback request asks for: 120 events per second unless given.
pub fn requested_pointer_rate(pointer_hz: Option<u16>) -> (r: u16)
    ensures
        r == match pointer_hz {
            Some(hz) => clamped_rate(hz),
            None => 120,
        },
{
    match pointer_hz {
        Some(hz) => clamp_pointer_rate(hz),
        None => 120,
    }
}

/// How many pointer events interpolate a movement lasting `scaled_ms`
/// (already divided by the playback speed): one per period of the clamped rate,
/// rounded up, at least one; the product saturates at `u64::MAX`.
pub open spec fn steps_for(scaled_ms: u64, pointer_hz: u16) -> u64 {
    let product = scaled_ms * clamped_rate(pointer_hz);
    let saturated = if product > u64::MAX {
        u64::MAX as int
    } else {
        product
    };
    let steps = if saturated % 1000 == 0 {
        saturated / 1000
    } else {
        saturated / 1000 + 1
    };
    if steps < 1 {
        1
    } else {
        steps as u64
    }
}

pub fn pointer_steps(scaled_ms: u64, pointer_hz: u16) -> (r: u64)
    ensures
        r == steps_for(scaled_ms, pointer_hz),
{
    let rate = clamp_pointer_rate(pointer_hz) as u64;
    let product = if scaled_ms > u64::MAX / rate {
        proof {
            assert(scaled_ms * rate > u64::MAX) by (nonlinear_arith)
                requires
                    scaled_ms > u64::MAX / rate,
                    rate > 0,
            ;
        }
        u64::MAX
    } else {
        proof {
            assert(scaled_ms * rate <= u64::MAX) by (nonlinear_arith)
                requires
                    scaled_ms <= u64::MAX / rate,
                    rate > 0,
            ;
        }
        scaled_ms * rate
    };
    let steps = if product % 1000 == 0 {
        product / 1000
    } else {
        product / 1000 + 1
    };
    if steps < 1 {
        1
    } else {
        steps
    }
}

/// The first action a playback request starts at, or why it cannot play.
pub open spec fn playback_start_of(action_count: usize, start_at: Option<usize>) -> Result<usize, Seq<char>> {
    let start = match start_at {
        Some(s) => s,
        None => 0,
    };
    if action_count == 0 {
        Err("This macro has no actions to play."@)
    } else if start >= action_count {
        Err("The requested playback start is outside this macro."@)
    } else {
        Ok(start)
    }
}

/// Checks where a playback request starts.
pub fn playback_start(action_count: usize, start_at: Option<usize>) -> (r: Result<usize, String>)
    ensures
        match playback_start_of(action_count, start_at) {
            Ok(s) => r == Ok::<usize, String>(s),
            Err(m) => r is Err && r->Err_0@ == m,
        },
{
    if action_count == 0 {
        return Err("This macro has no actions to play.".to_owned());
    }
    let start = match start_at {
        Some(s) => s,
        None => 0,
    };
    if start >= action_count {
        return Err("The requested playback start is outside this macro.".to_owned());
    }
    Ok(start)
}


/// Playback may post input: Accessibility and event posting are both allowed.
pub open spec fn may_post_input(permissions: PermissionState) -> bool {
    permissions.accessibility && permissions.event_posting
}

/// Refuses playback unless input may be posted.
pub fn check_playback_permissions(permissions: &PermissionState) -> (r: Result<(), String>)
    ensures
        r is Ok <==> may_post_input(*permissions),
        r is Err ==> r->Err_0@ == "Accessibility input control is not fully allowed. Open Permissions and grant Accessibility again."@,
{
    if !permissions.accessibility || !permissions.event_posting {
        return Err(
            "Accessibility input control is not fully allowed. Open Permissions and grant Accessibility again.".to_owned(),
        );
    }
    Ok(())
}

} // verus!
