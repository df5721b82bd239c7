//! Decisions of playback that do not touch the screen: which keys must be
//! released when playback ends, and the key sequence of a system shortcut.
use vstd::prelude::*;
use std::collections::HashSet;
use crate::automation::{event_types_of, mouse_event_types};
use crate::model::{action_enabled, Action, MouseButton, PlaybackProgress, PointerSample, SemanticTarget};
use crate::recorder::{button_down_recorded, Recording, COMMAND, CONTROL, OPTION, SECONDARY_FN, SHIFT};

verus! {

/// The keys held down after the given actions were played: a key press holds
/// its key until a release of the same key.
pub open spec fn held_after(actions: Seq<Action>) -> Set<u16>
    decreases actions.len(),
{
    if actions.len() == 0 {
        Set::empty()
    } else {
        let before = held_after(actions.drop_last());
        match actions.last() {
            Action::Key { key_code, down, .. } => if down {
                before.insert(key_code)
            } else {
                before.remove(key_code)
            },
            _ => before,
        }
    }
}

/// Records that an action was played: a key press is held until its release.
pub fn track_pressed_key(pressed: &mut HashSet<u16>, action: &Action)
    ensures
        final(pressed)@ == match *action {
            Action::Key { key_code, down, .. } => if down {
                old(pressed)@.insert(key_code)
            } else {
                old(pressed)@.remove(key_code)
            },
            _ => old(pressed)@,
        },
{
    broadcast use vstd::std_specs::hash::group_hash_axioms;

    match action {
        Action::Key { key_code, down, .. } => {
            if *down {
                pressed.insert(*key_code);
            } else {
                pressed.remove(key_code);
            }
        },
        _ => {},
    }
}

/// A key is left pressed after playback exactly when the last key event for it
/// that was played is a press: playback releases every key it left down, and
/// no other.
pub proof fn law_released_keys_are_those_left_down(actions: Seq<Action>, key: u16)
    ensures
        held_after(actions).contains(key) <==> exists|i: int|
            #![trigger actions[i]]
            0 <= i < actions.len() && is_key_event(actions[i], key, true) && forall|j: int|
                i < j < actions.len() ==> !(#[trigger] is_key_event(actions[j], key, true)
                    || is_key_event(actions[j], key, false)),
    decreases actions.len(),
{
    if actions.len() > 0 {
        let rest = actions.drop_last();
        law_released_keys_are_those_left_down(rest, key);
        let n = actions.len() - 1;
        assert forall|i: int| 0 <= i < rest.len() implies #[trigger] actions[i] == rest[i] by {}
        if is_key_event(actions[n], key, true) {
            assert(held_after(actions).contains(key));
        } else if is_key_event(actions[n], key, false) {
            assert(!held_after(actions).contains(key));
        } else {
            assert(held_after(actions).contains(key) == held_after(rest).contains(key));
            if held_after(rest).contains(key) {
                let i = choose|i: int|
                    #![trigger rest[i]]
                    0 <= i < rest.len() && is_key_event(rest[i], key, true) && forall|j: int|
                        i < j < rest.len() ==> !(#[trigger] is_key_event(rest[j], key, true)
                            || is_key_event(rest[j], key, false));
                assert(actions[i] == rest[i]);
            }
            if exists|i: int|
                #![trigger actions[i]]
                0 <= i < actions.len() && is_key_event(actions[i], key, true) && forall|j: int|
                    i < j < actions.len() ==> !(#[trigger] is_key_event(actions[j], key, true)
                        || is_key_event(actions[j], key, false)) {
                let i = choose|i: int|
                    #![trigger actions[i]]
                    0 <= i < actions.len() && is_key_event(actions[i], key, true) && forall|j: int|
                        i < j < actions.len() ==> !(#[trigger] is_key_event(actions[j], key, true)
                            || is_key_event(actions[j], key, false));
                assert(i < n);
                assert(rest[i] == actions[i]);
                assert forall|j: int| i < j < rest.len() implies !(#[trigger] is_key_event(
                    rest[j],
                    key,
                    true,
                ) || is_key_event(rest[j], key, false)) by {
                    assert(rest[j] == actions[j]);
                }
            }
        }
    }
}

/// The action is a press (or a release) of `key`.
pub open spec fn is_key_event(action: Action, key: u16, pressed: bool) -> bool {
    match action {
        Action::Key { key_code, down, .. } => key_code == key && down == pressed,
        _ => false,
    }
}

/// One keyboard event of a shortcut: a key, whether it goes down, and the
/// modifier flags it carries.
#[derive(Debug, Clone, Copy, PartialEq, Eq, Structural)]
pub struct KeyStroke {
    pub key_code: u16,
    pub down: bool,
    pub flags: u64,
}

/// The modifier keys of a shortcut, in the order they are pressed: Shift,
/// Control, Option, Command and Fn, each with its flag and key code.
pub open spec fn modifier_keys() -> Seq<(u64, u16)> {
    seq![(SHIFT, 56u16), (CONTROL, 59u16), (OPTION, 58u16), (COMMAND, 55u16), (SECONDARY_FN, 63u16)]
}

/// The modifier keys among the first `k` that `modifiers` asks for.
pub open spec fn held_modifiers(modifiers: u64, k: nat) -> Seq<(u64, u16)>
    decreases k,
{
    if k == 0 || k > 5 {
        Seq::empty()
    } else {
        let before = held_modifiers(modifiers, (k - 1) as nat);
        let m = modifier_keys()[k - 1];
        if modifiers & m.0 != 0 {
            before.push(m)
        } else {
            before
        }
    }
}

/// The flags of the given modifier keys together.
pub open spec fn flags_of(held: Seq<(u64, u16)>) -> int
    decreases held.len(),
{
    if held.len() == 0 {
        0
    } else {
        flags_of(held.drop_last()) + held.last().0
    }
}

/// Pressing the modifiers in order, each event carrying the flags held so far.
pub open spec fn press_strokes(held: Seq<(u64, u16)>) -> Seq<KeyStroke>
    decreases held.len(),
{
    if held.len() == 0 {
        Seq::empty()
    } else {
        press_strokes(held.drop_last()).push(
            KeyStroke { key_code: held.last().1, down: true, flags: flags_of(held) as u64 },
        )
    }
}

/// Releasing the modifiers in reverse order, each event carrying the flags
/// still held after it.
pub open spec fn release_strokes(held: Seq<(u64, u16)>) -> Seq<KeyStroke>
    decreases held.len(),
{
    if held.len() == 0 {
        Seq::empty()
    } else {
        seq![KeyStroke { key_code: held.last().1, down: false, flags: flags_of(held.drop_last()) as u64 }]
            + release_strokes(held.drop_last())
    }
}

/// The modifier events around a shortcut's key: the presses before it and the
/// releases after it.
pub struct KeyChord {
    pub presses: Vec<KeyStroke>,
    pub releases: Vec<KeyStroke>,
}

proof fn lemma_flags_bounded(modifiers: u64, k: nat)
    requires
        k <= 5,
    ensures
        0 <= flags_of(held_modifiers(modifiers, k)) <= SHIFT + CONTROL + OPTION + COMMAND
            + SECONDARY_FN,
        flags_of(held_modifiers(modifiers, k)) <= (if k >= 1 {
            SHIFT as int
        } else {
            0
        }) + (if k >= 2 {
            CONTROL as int
        } else {
            0
        }) + (if k >= 3 {
            OPTION as int
        } else {
            0
        }) + (if k >= 4 {
            COMMAND as int
        } else {
            0
        }) + (if k >= 5 {
            SECONDARY_FN as int
        } else {
            0
        }),
    decreases k,
{
    if k > 0 {
        lemma_flags_bounded(modifiers, (k - 1) as nat);
        let before = held_modifiers(modifiers, (k - 1) as nat);
        let m = modifier_keys()[k - 1];
        if modifiers & m.0 != 0 {
            assert(before.push(m).drop_last() =~= before);
        }
    }
}

proof fn lemma_release_strokes_push(held: Seq<(u64, u16)>, m: (u64, u16))
    ensures
        release_strokes(held.push(m)) == seq![KeyStroke { key_code: m.1, down: false, flags: flags_of(held) as u64 }]
            + release_strokes(held),
{
    assert(held.push(m).drop_last() =~= held);
}

/// The modifier presses and releases around a shortcut with `modifiers`: the
/// keys of Shift, Control, Option, Command and Fn that it asks for go down in
/// that order, each carrying the flags pressed so far, and come up in reverse
/// order, each carrying the flags still held.
pub fn key_chord_plan(modifiers: u64) -> (r: KeyChord)
    ensures
        r.presses@ == press_strokes(held_modifiers(modifiers, 5)),
        r.releases@ == release_strokes(held_modifiers(modifiers, 5)),
{
    let table: [(u64, u16); 5] = [
        (SHIFT, 56u16),
        (CONTROL, 59u16),
        (OPTION, 58u16),
        (COMMAND, 55u16),
        (SECONDARY_FN, 63u16),
    ];
    assert(table@ =~= modifier_keys());
    let mut presses: Vec<KeyStroke> = Vec::new();
    let mut releases: Vec<KeyStroke> = Vec::new();
    let mut active: u64 = 0;
    let mut k: usize = 0;
    while k < 5
        invariant
            k <= 5,
            table@ == modifier_keys(),
            active == flags_of(held_modifiers(modifiers, k as nat)),
            presses@ == press_strokes(held_modifiers(modifiers, k as nat)),
            releases@ == release_strokes(held_modifiers(modifiers, k as nat)),
        decreases 5 - k,
    {
        let (flag, key) = table[k];
        let ghost before = held_modifiers(modifiers, k as nat);
        proof {
            lemma_flags_bounded(modifiers, k as nat);
        }
        if modifiers & flag != 0 {
            let ghost now = before.push((flag, key));
            assert(now.drop_last() =~= before);
            active = active + flag;
            presses.push(KeyStroke { key_code: key, down: true, flags: active });
            let ghost previous = releases@;
            releases.insert(0, KeyStroke { key_code: key, down: false, flags: (active - flag) as u64 });
            proof {
                lemma_release_strokes_push(before, (flag, key));
                assert(releases@ =~= seq![KeyStroke { key_code: key, down: false, flags: flags_of(before) as u64 }]
                    + previous);
            }
        }
        k = k + 1;
    }
    KeyChord { presses, releases }
}

/// Every modifier a shortcut presses is released again, the last pressed
/// first, and when all are released no modifier flag is left.
pub proof fn law_chord_releases_every_modifier(modifiers: u64)
    ensures
        press_strokes(held_modifiers(modifiers, 5)).len() == release_strokes(
            held_modifiers(modifiers, 5),
        ).len(),
        forall|i: int|
            0 <= i < press_strokes(held_modifiers(modifiers, 5)).len() ==> #[trigger] release_strokes(
                held_modifiers(modifiers, 5),
            )[release_strokes(held_modifiers(modifiers, 5)).len() - 1 - i].key_code == press_strokes(
                held_modifiers(modifiers, 5),
            )[i].key_code,
        release_strokes(held_modifiers(modifiers, 5)).len() > 0 ==> release_strokes(
            held_modifiers(modifiers, 5),
        ).last().flags == 0,
{
    lemma_strokes_mirror(held_modifiers(modifiers, 5));
}

proof fn lemma_strokes_mirror(held: Seq<(u64, u16)>)
    ensures
        press_strokes(held).len() == held.len(),
        release_strokes(held).len() == held.len(),
        forall|i: int| 0 <= i < held.len() ==> #[trigger] press_strokes(held)[i].key_code == held[i].1,
        forall|i: int|
            0 <= i < held.len() ==> #[trigger] release_strokes(held)[held.len() - 1 - i].key_code
                == held[i].1,
        held.len() > 0 ==> release_strokes(held).last().flags == 0,
    decreases held.len(),
{
    if held.len() > 0 {
        let rest = held.drop_last();
        lemma_strokes_mirror(rest);
        assert forall|i: int| 0 <= i < held.len() implies #[trigger] press_strokes(held)[i].key_code
            == held[i].1 by {
            if i < rest.len() {
                assert(press_strokes(held)[i] == press_strokes(rest)[i]);
            }
        }
        assert forall|i: int|
            0 <= i < held.len() implies #[trigger] release_strokes(held)[held.len() - 1 - i].key_code
            == held[i].1 by {
            if i < rest.len() {
                assert(release_strokes(held)[held.len() - 1 - i] == release_strokes(rest)[rest.len()
                    - 1 - i]);
            }
        }
        if rest.len() > 0 {
            assert(release_strokes(held).last() == release_strokes(rest).last());
        } else {
            assert(flags_of(rest) == 0);
        }
    }
}


/// What the playback loop does next.
pub enum PlaybackStep {
    /// Play the action at this index, then report how it went.
    Perform { index: usize },
    /// The action is disabled: report it as done and ask again.
    Skip { progress: PlaybackProgress },
    /// Playback is over: release the keys still held.
    Stop,
}

/// The enabled actions of `actions`, in order.
pub open spec fn enabled_of(actions: Seq<Action>) -> Seq<Action>
    decreases actions.len(),
{
    if actions.len() == 0 {
        Seq::empty()
    } else if action_enabled(actions.last()) {
        enabled_of(actions.drop_last()).push(actions.last())
    } else {
        enabled_of(actions.drop_last())
    }
}

/// The enabled actions from `start` up to `next`, none when the span lies
/// outside the macro.
pub open spec fn enabled_between(actions: Seq<Action>, start: int, next: int) -> Seq<Action> {
    if 0 <= start <= next <= actions.len() {
        enabled_of(actions.subrange(start, next))
    } else {
        Seq::empty()
    }
}

/// The decisions of one playback run over a macro: which action comes
/// next, which are skipped, when to stop, what progress to report, and which
/// keys the played actions left down.
pub struct PlaybackRun {
    next: usize,
    total: usize,
    awaiting: bool,
    stopped: bool,
    pressed: HashSet<u16>,
    actions: Ghost<Seq<Action>>,
    start: Ghost<int>,
}

impl PlaybackRun {
    /// The run is consistent: the played actions are the enabled actions
    /// from the start up to the next one, and the held keys are those they
    /// left down.
    pub closed spec fn wf(self) -> bool {
        &&& self.total == self.actions@.len()
        &&& self.pressed@ == held_after(self.played())
        &&& 0 <= self.start@
        &&& self.start@ == self.next || (self.start@ <= self.next && self.next <= self.total)
        &&& self.awaiting ==> self.next < self.total && !self.stopped && self.start@ <= self.next
            && action_enabled(self.actions@[self.next as int])
    }

    /// The macro being played.
    pub closed spec fn actions(self) -> Seq<Action> {
        self.actions@
    }

    /// The index at which the run started.
    pub closed spec fn start_index(self) -> int {
        self.start@
    }

    /// The index of the action that comes next.
    pub closed spec fn next_index(self) -> nat {
        self.next as nat
    }

    /// The number of actions of the macro.
    pub closed spec fn total(self) -> nat {
        self.total as nat
    }

    /// An action was handed out and its outcome is awaited.
    pub closed spec fn awaiting(self) -> bool {
        self.awaiting
    }

    /// The run is over.
    pub closed spec fn stopped(self) -> bool {
        self.stopped
    }

    /// The actions played to completion so far, in order: the enabled ones
    /// from the start up to the next action.
    pub closed spec fn played(self) -> Seq<Action> {
        enabled_between(self.actions@, self.start@, self.next as int)
    }

    /// The keys held down now.
    pub closed spec fn held(self) -> Set<u16> {
        self.pressed@
    }

    /// A run over `actions` that starts at `start`.
    pub fn new(actions: &Vec<Action>, start: usize) -> (r: Self)
        ensures
            r.wf(),
            r.actions() == actions@,
            r.start_index() == start,
            r.next_index() == start,
            r.total() == actions.len(),
            !r.awaiting(),
            !r.stopped(),
            r.played() == Seq::<Action>::empty(),
            r.held() == Set::<u16>::empty(),
    {
        let r = PlaybackRun {
            next: start,
            total: actions.len(),
            awaiting: false,
            stopped: false,
            pressed: HashSet::new(),
            actions: Ghost(actions@),
            start: Ghost(start as int),
        };
        proof {
            if start <= actions.len() {
                assert(actions@.subrange(start as int, start as int) =~= Seq::<Action>::empty());
            }
            assert(r.played() =~= Seq::<Action>::empty());
            assert(r.pressed@ =~= held_after(Seq::<Action>::empty()));
        }
        r
    }

    /// The next step: stop once playback was stopped or every action was
    /// handed out, skip a disabled action (reporting it), or play the next one.
    pub fn next_step(&mut self, actions: &Vec<Action>, playing: bool) -> (r: PlaybackStep)
        requires
            old(self).wf(),
            !old(self).awaiting(),
            actions@ == old(self).actions(),
        ensures
            final(self).wf(),
            final(self).actions() == old(self).actions(),
            final(self).start_index() == old(self).start_index(),
            final(self).total() == old(self).total(),
            final(self).played() == old(self).played(),
            final(self).held() == old(self).held(),
            old(self).stopped() || !playing || old(self).next_index() >= old(self).total() ==> {
                &&& r is Stop
                &&& final(self).stopped()
                &&& !final(self).awaiting()
                &&& final(self).next_index() == old(self).next_index()
            },
            !(old(self).stopped() || !playing || old(self).next_index() >= old(self).total())
                ==> if !action_enabled(actions@[old(self).next_index() as int]) {
                &&& r == (PlaybackStep::Skip {
                    progress: PlaybackProgress {
                        index: old(self).next_index() as usize,
                        total: old(self).total() as usize,
                    },
                })
                &&& final(self).next_index() == old(self).next_index() + 1
                &&& !final(self).awaiting()
                &&& !final(self).stopped()
            } else {
                &&& r == (PlaybackStep::Perform { index: old(self).next_index() as usize })
                &&& final(self).next_index() == old(self).next_index()
                &&& final(self).awaiting()
                &&& !final(self).stopped()
            },
    {
        if self.stopped || !playing || self.next >= self.total {
            self.stopped = true;
            return PlaybackStep::Stop;
        }
        let index = self.next;
        if !actions[index].enabled() {
            proof {
                let all = self.actions@;
                let st = self.start@;
                assert(all.subrange(st, index + 1).drop_last() =~= all.subrange(st, index as int));
                assert(all.subrange(st, index + 1).last() == all[index as int]);
            }
            self.next = index + 1;
            return PlaybackStep::Skip { progress: PlaybackProgress { index, total: self.total } };
        }
        self.awaiting = true;
        PlaybackStep::Perform { index }
    }

    /// Takes the outcome of the action handed out: a completed action counts
    /// as played (a key event holds or releases its key); the run stops when
    /// the action did not complete or playback was stopped meanwhile, and
    /// otherwise reports the action as done and moves on.
    pub fn action_finished(&mut self, actions: &Vec<Action>, completed: bool, playing: bool) -> (r:
        Option<PlaybackProgress>)
        requires
            old(self).wf(),
            old(self).awaiting(),
            actions@ == old(self).actions(),
        ensures
            final(self).wf(),
            !final(self).awaiting(),
            final(self).actions() == old(self).actions(),
            final(self).start_index() == old(self).start_index(),
            final(self).total() == old(self).total(),
            final(self).played() == if completed {
                old(self).played().push(actions@[old(self).next_index() as int])
            } else {
                old(self).played()
            },
            final(self).next_index() == if completed {
                old(self).next_index() + 1
            } else {
                old(self).next_index()
            },
            completed && playing ==> {
                &&& r == Some(
                    PlaybackProgress {
                        index: old(self).next_index() as usize,
                        total: old(self).total() as usize,
                    },
                )
                &&& !final(self).stopped()
            },
            !(completed && playing) ==> r is None && final(self).stopped(),
    {
        broadcast use vstd::std_specs::hash::group_hash_axioms;

        let index = self.next;
        self.awaiting = false;
        if completed {
            let action = &actions[index];
            let ghost before = self.played();
            track_pressed_key(&mut self.pressed, action);
            proof {
                let all = self.actions@;
                let st = self.start@;
                assert(all.subrange(st, index + 1).drop_last() =~= all.subrange(st, index as int));
                assert(all.subrange(st, index + 1).last() == all[index as int]);
                assert(before.push(*action).drop_last() =~= before);
            }
            self.next = index + 1;
        }
        if !completed || !playing {
            self.stopped = true;
            return None;
        }
        Some(PlaybackProgress { index, total: self.total })
    }

    /// The keys that the played actions left down, to release at the end.
    pub fn pressed_keys(&self) -> (r: &HashSet<u16>)
        ensures
            r@ == self.held(),
    {
        &self.pressed
    }
}

proof fn lemma_enabled_of_only_enabled(actions: Seq<Action>)
    ensures
        forall|i: int| 0 <= i < enabled_of(actions).len() ==> action_enabled(#[trigger] enabled_of(actions)[i]),
    decreases actions.len(),
{
    if actions.len() > 0 {
        let rest = actions.drop_last();
        lemma_enabled_of_only_enabled(rest);
        if action_enabled(actions.last()) {
            assert forall|i: int| 0 <= i < enabled_of(actions).len() implies action_enabled(
                #[trigger] enabled_of(actions)[i],
            ) by {
                if i < enabled_of(rest).len() {
                    assert(enabled_of(actions)[i] == enabled_of(rest)[i]);
                }
            }
        }
    }
}

/// A run plays only enabled actions, in the order of the macro: what it has
/// played is exactly the enabled actions from its start up to its next one.
pub proof fn law_runs_play_enabled_actions_in_order(run: PlaybackRun)
    requires
        run.wf(),
    ensures
        run.played() == enabled_between(run.actions(), run.start_index(), run.next_index() as int),
        forall|i: int| 0 <= i < run.played().len() ==> action_enabled(#[trigger] run.played()[i]),
{
    if 0 <= run.start_index() <= run.next_index() <= run.actions().len() {
        lemma_enabled_of_only_enabled(
            run.actions().subrange(run.start_index(), run.next_index() as int),
        );
    }
}

/// The keys a run holds are exactly those whose last played key event was a
/// press: whatever the outcomes reported, releasing `pressed_keys` at the end
/// lets go of every key playback pressed and of no other.
pub proof fn law_run_holds_the_keys_left_down(run: PlaybackRun, key: u16)
    requires
        run.wf(),
    ensures
        run.held().contains(key) <==> exists|i: int|
            #![trigger run.played()[i]]
            0 <= i < run.played().len() && is_key_event(run.played()[i], key, true) && forall|j: int|
                i < j < run.played().len() ==> !(#[trigger] is_key_event(run.played()[j], key, true)
                    || is_key_event(run.played()[j], key, false)),
{
    law_released_keys_are_those_left_down(run.played(), key);
}



/// How far into a path that lasts `limit` milliseconds its first `k`
/// samples reach: the offset of the `k`-th, capped at `limit`.
pub open spec fn reached_ms(offsets: Seq<u64>, limit: u64, k: int) -> u64 {
    if k <= 0 {
        0
    } else if offsets[k - 1] < limit {
        offsets[k - 1]
    } else {
        limit
    }
}

/// The time from one point to the next, never negative.
pub open spec fn gap_ms(from: u64, to: u64) -> u64 {
    if to > from {
        (to - from) as u64
    } else {
        0
    }
}

/// The durations of replaying a path: the time to each sample from the one
/// before (the first from the start), then the time left until `limit`.
pub open spec fn path_waits(offsets: Seq<u64>, limit: u64) -> Seq<u64> {
    Seq::new(
        offsets.len() + 1,
        |i: int|
            if i < offsets.len() {
                gap_ms(reached_ms(offsets, limit, i), reached_ms(offsets, limit, i + 1))
            } else {
                gap_ms(reached_ms(offsets, limit, i), limit)
            },
    )
}

/// The durations of replaying a path whose samples were recorded at
/// `offsets` milliseconds, within a path that lasts `limit` milliseconds.
pub fn path_timing(offsets: &Vec<u64>, limit: u64) -> (r: Vec<u64>)
    ensures
        r@ == path_waits(offsets@, limit),
{
    let mut r: Vec<u64> = Vec::new();
    let mut elapsed: u64 = 0;
    let mut i: usize = 0;
    while i < offsets.len()
        invariant
            i <= offsets.len(),
            elapsed == reached_ms(offsets@, limit, i as int),
            r@ == path_waits(offsets@, limit).take(i as int),
        decreases offsets.len() - i,
    {
        let reached = if offsets[i] < limit {
            offsets[i]
        } else {
            limit
        };
        let wait = if reached > elapsed {
            reached - elapsed
        } else {
            0
        };
        r.push(wait);
        proof {
            assert(path_waits(offsets@, limit).take(i + 1) =~= path_waits(offsets@, limit).take(
                i as int,
            ).push(wait));
        }
        elapsed = reached;
        i = i + 1;
    }
    let last = if limit > elapsed {
        limit - elapsed
    } else {
        0
    };
    r.push(last);
    proof {
        assert(r@ =~= path_waits(offsets@, limit));
    }
    r
}

/// The total of a list of durations.
pub open spec fn total_ms(waits: Seq<u64>) -> int
    decreases waits.len(),
{
    if waits.len() == 0 {
        0
    } else {
        total_ms(waits.drop_last()) + waits.last()
    }
}

/// The samples of a path come in recording order.
pub open spec fn in_time_order(offsets: Seq<u64>) -> bool {
    forall|i: int, j: int| 0 <= i <= j < offsets.len() ==> offsets[i] <= offsets[j]
}

proof fn lemma_waits_reach(offsets: Seq<u64>, limit: u64, k: int)
    requires
        in_time_order(offsets),
        0 <= k <= offsets.len(),
    ensures
        total_ms(path_waits(offsets, limit).take(k)) == reached_ms(offsets, limit, k),
    decreases k,
{
    if k > 0 {
        lemma_waits_reach(offsets, limit, k - 1);
        let w = path_waits(offsets, limit);
        assert(w.take(k).drop_last() =~= w.take(k - 1));
        if k >= 2 {
            assert(offsets[k - 2] <= offsets[k - 1]);
        }
    }
}

/// Replaying a path whose samples are in time order takes exactly the
/// path's duration: the pointer passes each sample at its recorded offset
/// (capped at the duration) and the path ends on time.
pub proof fn law_paths_keep_their_duration(offsets: Seq<u64>, limit: u64, k: int)
    requires
        in_time_order(offsets),
        0 <= k <= offsets.len(),
    ensures
        total_ms(path_waits(offsets, limit).take(k)) == reached_ms(offsets, limit, k),
        total_ms(path_waits(offsets, limit)) == limit,
{
    lemma_waits_reach(offsets, limit, k);
    lemma_waits_reach(offsets, limit, offsets.len() as int);
    let w = path_waits(offsets, limit);
    assert(w.drop_last() =~= w.take(offsets.len() as int));
}


/// One synthetic mouse button event: its Quartz event type, button number
/// and click state.
#[derive(Debug, Clone, Copy, PartialEq, Eq, Structural)]
pub struct ButtonEvent {
    pub event_type: u32,
    pub button_code: u32,
    pub click_state: i64,
}

/// How many press and release pairs replay a click: one to three.
pub open spec fn click_repeats(clicks: u8) -> int {
    if clicks < 1 {
        1
    } else if clicks > 3 {
        3
    } else {
        clicks as int
    }
}

/// The events of a click: a press and a release for each repeat, both
/// carrying the repeat's click state (1, 2, 3), as AppKit needs to recognise
/// double and triple clicks.
pub open spec fn click_events(button: MouseButton, clicks: u8) -> Seq<ButtonEvent> {
    let (code, down, up, _) = event_types_of(button);
    Seq::new(
        (2 * click_repeats(clicks)) as nat,
        |i: int|
            ButtonEvent {
                event_type: if i % 2 == 0 {
                    down
                } else {
                    up
                },
                button_code: code,
                click_state: (i / 2 + 1) as i64,
            },
    )
}

pub fn click_event_plan(button: MouseButton, clicks: u8) -> (r: Vec<ButtonEvent>)
    ensures
        r@ == click_events(button, clicks),
{
    let (code, down, up, _) = mouse_event_types(button);
    let count: u8 = if clicks < 1 {
        1
    } else if clicks > 3 {
        3
    } else {
        clicks
    };
    let mut r: Vec<ButtonEvent> = Vec::new();
    let mut k: u8 = 0;
    while k < count
        invariant
            k <= count,
            count == click_repeats(clicks),
            (code, down, up) == (event_types_of(button).0, event_types_of(button).1, event_types_of(
                button,
            ).2),
            r@ =~= click_events(button, clicks).take(2 * k),
        decreases count - k,
    {
        let state: i64 = (k + 1) as i64;
        r.push(ButtonEvent { event_type: down, button_code: code, click_state: state });
        r.push(ButtonEvent { event_type: up, button_code: code, click_state: state });
        proof {
            let e = click_events(button, clicks);
            assert((2 * k) % 2 == 0 && (2 * k) / 2 == k) by (nonlinear_arith);
            assert((2 * k + 1) % 2 == 1 && (2 * k + 1) / 2 == k) by (nonlinear_arith);
            assert(e.take(2 * k + 2) =~= e.take(2 * k).push(e[2 * k]).push(e[2 * k + 1]));
        }
        k = k + 1;
    }
    proof {
        assert(click_events(button, clicks).take(2 * count) =~= click_events(button, clicks));
    }
    r
}


/// A click's recorded approach replays in exactly the click's delay: the
/// positions kept before a press are in time order, so the approach offsets
/// never go back and the replayed path ends when the delay does.
pub proof fn law_recorded_approaches_replay_on_time(
    before: Recording,
    after: Recording,
    now_ns: u64,
    button: MouseButton,
    click_state: i64,
    x: u64,
    y: u64,
    screen_edge: bool,
    target: Option<SemanticTarget>,
    pending_edges: Seq<bool>,
)
    requires
        before.wf(),
        before.active && before.settings.mouse_clicks,
        button_down_recorded(
            before,
            after,
            now_ns,
            button,
            click_state,
            x,
            y,
            screen_edge,
            target,
            pending_edges,
        ),
    ensures
        after.pending_pointer matches Some(p) && {
            let offsets = p.approach@.map_values(|s: PointerSample| s.offset_ms);
            &&& in_time_order(offsets)
            &&& total_ms(path_waits(offsets, p.delay_ms)) == p.delay_ms
        },
{
    let p = after.pending_pointer->0;
    let offsets = p.approach@.map_values(|s: PointerSample| s.offset_ms);
    assert forall|i: int, j: int| 0 <= i <= j < offsets.len() implies offsets[i] <= offsets[j] by {
        assert(p.approach@[i].offset_ms <= p.approach@[j].offset_ms);
    }
    law_paths_keep_their_duration(offsets, p.delay_ms, 0);
}


/// What a drag replay does next.
#[derive(Debug, Clone, Copy, PartialEq, Eq, Structural)]
pub enum DragStep {
    /// Press the button at the path's first point.
    Press,
    /// Move, with the button held, to the path point after `index`.
    Move { index: usize },
    /// Keep the button held for the rest of the drag's duration.
    Hold { ms: u64 },
    /// Release the button: where the pointer now is when a move was
    /// interrupted (`at_pointer`), else at the last point reached.
    Release { at_pointer: bool },
    /// The drag is over.
    Finished,
}

/// The state of a drag replay.
pub struct DragState {
    pub moves: nat,
    pub hold_ms: u64,
    pub next: nat,
    pub pressed: bool,
    pub released: bool,
    pub interrupted: bool,
    pub holding: bool,
}

/// One step of a drag replay, given whether the step before completed: the
/// press comes first; an interrupted step releases the button; the moves
/// follow in order, then the hold when time is left, then the release; once
/// released the drag is over.
pub open spec fn drag_transition(s: DragState, completed: bool) -> (DragStep, DragState) {
    if s.released {
        (DragStep::Finished, s)
    } else if !s.pressed {
        (DragStep::Press, DragState { pressed: true, ..s })
    } else if !completed {
        (
            DragStep::Release { at_pointer: !s.holding },
            DragState { released: true, interrupted: true, ..s },
        )
    } else if s.holding {
        (DragStep::Release { at_pointer: false }, DragState { released: true, ..s })
    } else if s.next < s.moves {
        (DragStep::Move { index: s.next as usize }, DragState { next: s.next + 1, ..s })
    } else if s.hold_ms > 0 {
        (DragStep::Hold { ms: s.hold_ms }, DragState { holding: true, ..s })
    } else {
        (DragStep::Release { at_pointer: false }, DragState { released: true, ..s })
    }
}

/// How many more steps a drag replay takes before it is over.
pub open spec fn drag_steps_left(s: DragState) -> int {
    if s.released {
        0
    } else {
        (if s.pressed { 0int } else { 1int }) + (s.moves - s.next) + (if s.holding {
            0int
        } else {
            1int
        }) + 1
    }
}

/// The decisions of a drag replay over `moves` path segments with
/// `hold_ms` of the duration left after the last one.
pub struct DragRun {
    moves: usize,
    hold_ms: u64,
    next: usize,
    pressed: bool,
    released: bool,
    interrupted: bool,
    holding: bool,
}

impl DragRun {
    pub closed spec fn view(self) -> DragState {
        DragState {
            moves: self.moves as nat,
            hold_ms: self.hold_ms,
            next: self.next as nat,
            pressed: self.pressed,
            released: self.released,
            interrupted: self.interrupted,
            holding: self.holding,
        }
    }

    /// The run is consistent: no more moves than segments, a release only
    /// after a press.
    pub open spec fn wf(self) -> bool {
        &&& self.view().next <= self.view().moves
        &&& self.view().released ==> self.view().pressed
        &&& self.view().holding ==> self.view().pressed
    }

    pub fn new(moves: usize, hold_ms: u64) -> (r: Self)
        ensures
            r.wf(),
            r.view() == (DragState {
                moves: moves as nat,
                hold_ms,
                next: 0,
                pressed: false,
                released: false,
                interrupted: false,
                holding: false,
            }),
    {
        DragRun {
            moves,
            hold_ms,
            next: 0,
            pressed: false,
            released: false,
            interrupted: false,
            holding: false,
        }
    }

    /// The next step, given whether the step before completed.
    pub fn next_step(&mut self, completed: bool) -> (r: DragStep)
        requires
            old(self).wf(),
        ensures
            final(self).wf(),
            (r, final(self).view()) == drag_transition(old(self).view(), completed),
    {
        if self.released {
            return DragStep::Finished;
        }
        if !self.pressed {
            self.pressed = true;
            return DragStep::Press;
        }
        if !completed {
            self.released = true;
            self.interrupted = true;
            return DragStep::Release { at_pointer: !self.holding };
        }
        if self.holding {
            self.released = true;
            return DragStep::Release { at_pointer: false };
        }
        if self.next < self.moves {
            let index = self.next;
            self.next = index + 1;
            return DragStep::Move { index };
        }
        if self.hold_ms > 0 {
            self.holding = true;
            return DragStep::Hold { ms: self.hold_ms };
        }
        self.released = true;
        DragStep::Release { at_pointer: false }
    }

    /// Whether the drag ran to its end without interruption.
    pub fn completed(&self) -> (r: bool)
        ensures
            r == (self.view().released && !self.view().interrupted),
    {
        self.released && !self.interrupted
    }
}

/// A pressed button is always let go: whatever the outcomes, a drag replay is
/// over only after its release, releases exactly once, never steps after
/// that, and each step before it brings the end nearer.
pub proof fn law_every_pressed_drag_is_released(s: DragState, completed: bool)
    requires
        s.next <= s.moves,
        s.released ==> s.pressed,
    ensures
        drag_transition(s, completed).0 == DragStep::Finished <==> s.released,
        drag_transition(s, completed).0 is Release ==> !s.released && s.pressed
            && drag_transition(s, completed).1.released,
        s.released ==> drag_transition(s, completed).1 == s,
        !s.released ==> drag_steps_left(drag_transition(s, completed).1) < drag_steps_left(s),
        drag_transition(s, completed).1.pressed,
        0 <= drag_steps_left(s),
{
}

} // verus!
