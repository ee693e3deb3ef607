//! Carrying a correction out, as a machine the host drives: each step takes
//! what the host found and says what the host is to do next.
//!
//! The order is fixed. Wait for the finger to come off the hotkey; switch
//! the layout; absorb what is still being typed; see that the switch held;
//! and only then delete and replay. Whatever goes wrong before the deletion
//! leaves the text as it was.

use vstd::prelude::*;
use vstd::string::*;

use crate::engine::consts::{
    ABSORB_QUIET_PROBES, ABSORB_STEP, ABSORB_WAIT, CHORD_RELEASE_STEP, CHORD_RELEASE_WAIT,
    CHORD_SETTLE, DELETE_ROUNDS, HELD_FLUSH, HELD_FLUSH_QUIET_PROBES, INTRUSION_PROBES,
    INTRUSION_QUIET_PROBES, INTRUSION_REPAIRS, LAYOUT_SETTLE, POST_EMIT_LAG, SETTLE_STEP,
    SETTLE_WAIT, SHORTCUT_STEPS, SWITCH_HOLD_PROBES, SWITCH_HOLD_STEP,
};
use crate::engine::heuristics::{is_submission_scancode, submits};
use crate::engine::types::{Correction, WindowDrain, WindowV};
use crate::keys::{
    push_replay_of_events, replay_of_events, KeyEvent, Modifiers, ReplayKey, WordKey,
};
use crate::layouts::{contains_id, names, LayoutDb, LayoutId};
use crate::time::{span_between, Instant};

verus! {

broadcast use vstd::string::group_string_axioms;

// ─── What passes between the machine and the host ────────────────────

/// What the host reads along with every reply.
#[derive(Clone, Copy, PartialEq, Eq, Structural, Debug)]
pub struct Readings {
    pub now: Instant,
    /// A hotkey key is under the user's finger.
    pub trigger_down: bool,
    pub held: Modifiers,
}

/// How an attempt to send keys ended.
#[derive(Clone, Copy, PartialEq, Eq, Structural, Debug)]
pub enum KeysOutcome {
    Sent,
    /// This backend types characters, not keys.
    Unsupported,
    Failed,
}

pub enum Reply {
    Started,
    Slept,
    Window { drain: WindowDrain, echo_pending: bool },
    /// The layouts the OS has enabled, where it could be asked.
    Layouts(Option<Vec<LayoutId>>),
    /// The action was carried out, or was not.
    Done(bool),
    /// Whether the layout is the wanted one, where that can be seen.
    Verified(Option<bool>),
    /// Whether the desktop has a shortcut of its own, and how many layouts
    /// it cycles through, where the OS could be asked.
    Shortcut { found: bool, layouts: Option<usize> },
    Keys(KeysOutcome),
    /// Whether the user's keystrokes are being held back.
    Gate(bool),
}

/// What the user's text and the word buffer are left with.
#[derive(Clone, Copy, PartialEq, Eq, Structural, Debug)]
pub enum Aftermath {
    Nothing,
    /// Seed the buffer with the tail, then taint it.
    KeyStillDown,
    /// Seed the buffer with the tail, taint it, drop the stash, and
    /// announce the layout if it changed.
    Uncertain { layout_changed: bool },
    /// Abandon and taint the buffer, drop the stash.
    Unplaced,
    /// Seed the tail, handle the boundary, seed what came later, handle its
    /// boundary.
    Reassemble,
}

pub enum Action {
    /// In nanoseconds.
    Sleep(u128),
    Poll,
    ListActive,
    SwitchTo,
    VerifySwitched,
    AskShortcut,
    PressShortcut,
    ReleaseModifiers(Modifiers),
    AcquireGate,
    Backspaces(usize),
    Keys(Vec<ReplayKey>),
    Text(String),
    /// Type out keystrokes that were held back.
    FlushHeld(Vec<ReplayKey>),
    ReleaseGate,
    /// Play the chime; say that the word was corrected and the layout
    /// changed, and stamp the stash with the target.
    Announce { sound: bool, switched: bool },
    Finish { applied: bool, aftermath: Aftermath },
}

pub enum ReplyV {
    Started,
    Slept,
    Window { drain: WindowV, echo_pending: bool },
    Layouts(Option<Seq<Seq<char>>>),
    Done(bool),
    Verified(Option<bool>),
    Shortcut { found: bool, layouts: Option<usize> },
    Keys(KeysOutcome),
    Gate(bool),
}

pub enum ActionV {
    Sleep(u128),
    Poll,
    ListActive,
    SwitchTo,
    VerifySwitched,
    AskShortcut,
    PressShortcut,
    ReleaseModifiers(Modifiers),
    AcquireGate,
    Backspaces(usize),
    Keys(Seq<ReplayKey>),
    Text(Seq<char>),
    FlushHeld(Seq<ReplayKey>),
    ReleaseGate,
    Announce { sound: bool, switched: bool },
    Finish { applied: bool, aftermath: Aftermath },
}

impl View for Reply {
    type V = ReplyV;

    open spec fn view(&self) -> ReplyV {
        match *self {
            Reply::Started => ReplyV::Started,
            Reply::Slept => ReplyV::Slept,
            Reply::Window { drain, echo_pending } => ReplyV::Window { drain: drain@, echo_pending },
            Reply::Layouts(ids) => ReplyV::Layouts(
                match ids {
                    Some(v) => Some(names(v@)),
                    None => None,
                },
            ),
            Reply::Done(ok) => ReplyV::Done(ok),
            Reply::Verified(a) => ReplyV::Verified(a),
            Reply::Shortcut { found, layouts } => ReplyV::Shortcut { found, layouts },
            Reply::Keys(o) => ReplyV::Keys(o),
            Reply::Gate(b) => ReplyV::Gate(b),
        }
    }
}

impl View for Action {
    type V = ActionV;

    open spec fn view(&self) -> ActionV {
        match *self {
            Action::Sleep(n) => ActionV::Sleep(n),
            Action::Poll => ActionV::Poll,
            Action::ListActive => ActionV::ListActive,
            Action::SwitchTo => ActionV::SwitchTo,
            Action::VerifySwitched => ActionV::VerifySwitched,
            Action::AskShortcut => ActionV::AskShortcut,
            Action::PressShortcut => ActionV::PressShortcut,
            Action::ReleaseModifiers(m) => ActionV::ReleaseModifiers(m),
            Action::AcquireGate => ActionV::AcquireGate,
            Action::Backspaces(n) => ActionV::Backspaces(n),
            Action::Keys(k) => ActionV::Keys(k@),
            Action::Text(t) => ActionV::Text(t@),
            Action::FlushHeld(k) => ActionV::FlushHeld(k@),
            Action::ReleaseGate => ActionV::ReleaseGate,
            Action::Announce { sound, switched } => ActionV::Announce { sound, switched },
            Action::Finish { applied, aftermath } => ActionV::Finish { applied, aftermath },
        }
    }
}

// ─── The state ───────────────────────────────────────────────────────

/// Which reply the machine is waiting for, and what for.
#[derive(Clone, Copy, PartialEq, Eq, Structural, Debug)]
pub enum Phase {
    Begin,
    WaitPoll,
    WaitSleep,
    Listing,
    Switching,
    AbsorbPoll,
    AbsorbSleep,
    SettleSleep,
    HoldProbe,
    HoldSleep,
    AskingShortcut,
    Pressing,
    PressSleep,
    PressVerify,
    Releasing,
    Acquiring,
    Deleting,
    DeleteSleep,
    DeletePoll,
    ReplayingKeys,
    ReplayingText,
    FlushSleep,
    FlushPoll,
    Flushing,
    LettingGo,
    LastPoll,
    LastFlush,
    ProbeSleep,
    ProbePoll,
    Announcing,
    EchoPoll,
    EchoSleep,
    /// Letting go of the user's keystrokes, as the last thing.
    Closing,
    Finished,
}

/// Everything of the state but the absorbed keystrokes.
#[derive(Clone, Copy, PartialEq, Eq, Structural, Debug)]
pub struct Control {
    pub phase: Phase,
    /// There is a key stream to absorb from and a buffer to seed.
    pub live: bool,
    /// The layout changes; false for a replacement within one layout.
    pub switching: bool,
    /// The boundary that followed the tail.
    pub resume: Option<KeyEvent>,
    pub post_resume: Option<KeyEvent>,
    /// Something landed that cannot be placed in the text.
    pub suspicious: bool,
    pub switched_at: Option<Instant>,
    pub deadline: u128,
    pub quiet: u8,
    pub probe: u8,
    pub steps_left: usize,
    /// The user's keystrokes are held back.
    pub held: bool,
    pub repairs_left: u8,
    pub round: u8,
    pub to_delete: usize,
    /// Characters the last replay put on screen.
    pub emitted: usize,
    pub intruders: usize,
    /// Some keystroke of ours went out.
    pub touched: bool,
}

/// The state of a correction under way.
pub struct RunV {
    pub ctl: Control,
    /// Word keys the user typed meanwhile, in order.
    pub tail: Seq<KeyEvent>,
    /// Those typed after the replay.
    pub post_tail: Seq<KeyEvent>,
}

pub struct CorrectionRun {
    pub c: Correction,
    pub ctl: Control,
    pub tail: Vec<KeyEvent>,
    pub post_tail: Vec<KeyEvent>,
    /// Pointer presses still to be taken for the acceptance of an offer.
    pub click_allowance: usize,
}

impl View for CorrectionRun {
    type V = RunV;

    open spec fn view(&self) -> RunV {
        RunV { ctl: self.ctl, tail: self.tail@, post_tail: self.post_tail@ }
    }
}

/// The reply each phase waits for.
pub open spec fn expects(phase: Phase, reply: ReplyV) -> bool {
    match phase {
        Phase::Begin => reply is Started,
        Phase::WaitPoll | Phase::AbsorbPoll | Phase::DeletePoll | Phase::FlushPoll
        | Phase::LastPoll | Phase::ProbePoll | Phase::EchoPoll => reply is Window,
        Phase::WaitSleep | Phase::AbsorbSleep | Phase::SettleSleep | Phase::HoldSleep
        | Phase::PressSleep | Phase::DeleteSleep | Phase::FlushSleep | Phase::ProbeSleep
        | Phase::EchoSleep => reply is Slept,
        Phase::Listing => reply is Layouts,
        Phase::HoldProbe | Phase::PressVerify => reply is Verified,
        Phase::AskingShortcut => reply is Shortcut,
        Phase::ReplayingKeys => reply is Keys,
        Phase::Acquiring => reply is Gate,
        Phase::Switching | Phase::Pressing | Phase::Releasing | Phase::Deleting
        | Phase::ReplayingText | Phase::Flushing | Phase::LettingGo | Phase::LastFlush
        | Phase::Announcing | Phase::Closing => reply is Done,
        Phase::Finished => false,
    }
}

/// The clock has room for every wait.
pub open spec fn clock_ok(r: Readings) -> bool {
    r.now.nanos + CHORD_RELEASE_WAIT <= u128::MAX
}

/// The state a correction starts from.
pub open spec fn start_state(c: Correction, live: bool) -> RunV {
    RunV {
        ctl: Control {
            phase: Phase::Begin,
            live,
            switching: c.from@ != c.to@,
            resume: None,
            post_resume: None,
            suspicious: false,
            switched_at: None,
            deadline: 0,
            quiet: 0,
            probe: 0,
            steps_left: 0,
            held: false,
            repairs_left: 0,
            round: 0,
            to_delete: 0,
            emitted: 0,
            intruders: 0,
            touched: false,
        },
        tail: Seq::empty(),
        post_tail: Seq::empty(),
    }
}

// ─── The transitions ─────────────────────────────────────────────────

/// A count that stops at the largest one.
pub open spec fn capped(n: int) -> usize {
    if n > usize::MAX {
        usize::MAX
    } else {
        n as usize
    }
}

pub open spec fn one_more(n: u8) -> u8 {
    if n == u8::MAX {
        u8::MAX
    } else {
        (n + 1) as u8
    }
}

pub open spec fn at(s: RunV, phase: Phase) -> RunV {
    RunV { ctl: Control { phase, ..s.ctl }, ..s }
}

/// The end of the run.
pub open spec fn finish(s: RunV, applied: bool, aftermath: Aftermath) -> (RunV, ActionV) {
    (at(s, Phase::Finished), ActionV::Finish { applied, aftermath })
}

/// The end of a run that leaves the buffer alone: whatever is still held
/// back is let go first.
pub open spec fn close(s: RunV) -> (RunV, ActionV) {
    if s.ctl.held {
        (at(s, Phase::Closing), ActionV::ReleaseGate)
    } else {
        finish(s, s.ctl.touched, Aftermath::Nothing)
    }
}

/// The user's keystrokes go their own way again.
pub open spec fn let_go(s: RunV) -> RunV {
    RunV { ctl: Control { held: false, ..s.ctl }, ..s }
}

/// The boundary a look stopped at can still be put back: there is none yet,
/// and replaying it submits nothing.
pub open spec fn takes_resume(s: RunV, w: WindowV) -> bool {
    w.resume matches Some(r) && !submits(r.scancode) && s.ctl.resume is None
}

/// The state with one look at the key stream folded in.
pub open spec fn folded(s: RunV, w: WindowV) -> RunV {
    RunV {
        ctl: Control {
            suspicious: s.ctl.suspicious || w.suspicious || (w.resume is Some && !takes_resume(
                s,
                w,
            )),
            resume: if takes_resume(s, w) {
                w.resume
            } else {
                s.ctl.resume
            },
            ..s.ctl
        },
        tail: s.tail + w.word_keys,
        ..s
    }
}

/// How many characters a look added to the screen.
pub open spec fn added(s: RunV, w: WindowV) -> int {
    w.word_keys.len() + if takes_resume(s, w) {
        1int
    } else {
        0
    }
}

/// The keystrokes of one look, in press order.
pub open spec fn window_keys(w: WindowV) -> Seq<ReplayKey> {
    let words = replay_of_events(w.word_keys);
    let with_resume = match w.resume {
        Some(r) => words.push(ReplayKey { scancode: r.scancode, shift: r.modifiers.shift }),
        None => words,
    };
    match w.stopper {
        Some(st) => with_resume.push(
            ReplayKey { scancode: st.scancode, shift: st.modifiers.shift },
        ),
        None => with_resume,
    }
}

/// The user's own keystrokes that follow the word: the tail and its
/// boundary.
pub open spec fn absorbed(s: RunV) -> Seq<KeyEvent> {
    match s.ctl.resume {
        Some(r) => s.tail.push(r),
        None => s.tail,
    }
}

/// Events as keys to look up, under the given lock state.
pub open spec fn as_word_keys(events: Seq<KeyEvent>, caps: bool) -> Seq<WordKey> {
    events.map_values(
        |e: KeyEvent|
            WordKey { scancode: e.scancode, shift: e.modifiers.shift, caps, timestamp_ms: 0 },
    )
}

// Waiting for the finger to come off the hotkey.

#[verifier::opaque]
pub open spec fn begin(c: Correction, s: RunV, r: Readings) -> (RunV, ActionV) {
    if !r.trigger_down {
        preflight(c, s, r)
    } else if s.ctl.live {
        wait_on(
            c,
            RunV {
                ctl: Control {
                    deadline: (r.now.nanos + CHORD_RELEASE_WAIT) as u128,
                    ..s.ctl
                },
                ..s
            },
            r,
        )
    } else {
        still_down(s)
    }
}

#[verifier::opaque]
pub open spec fn wait_on(c: Correction, s: RunV, r: Readings) -> (RunV, ActionV) {
    if !r.trigger_down {
        preflight(c, s, r)
    } else if !s.ctl.suspicious && s.ctl.resume is None && r.now.nanos < s.ctl.deadline {
        (at(s, Phase::WaitPoll), ActionV::Poll)
    } else {
        still_down(s)
    }
}

/// The key never came up: nothing happens, and what was swallowed while
/// waiting is given back to the buffer.
pub open spec fn still_down(s: RunV) -> (RunV, ActionV) {
    finish(
        s,
        false,
        if s.ctl.live && (s.tail.len() > 0 || s.ctl.suspicious || s.ctl.resume is Some) {
            Aftermath::KeyStillDown
        } else {
            Aftermath::Nothing
        },
    )
}

#[verifier::opaque]
pub open spec fn on_wait_poll(s: RunV, w: WindowV) -> (RunV, ActionV) {
    (at(folded(s, w), Phase::WaitSleep), ActionV::Sleep(CHORD_RELEASE_STEP))
}

// The layout first: a failed switch leaves the word intact.

pub open spec fn preflight(c: Correction, s: RunV, r: Readings) -> (RunV, ActionV) {
    if s.ctl.switching {
        (at(s, Phase::Listing), ActionV::ListActive)
    } else {
        absorb(s, r)
    }
}

#[verifier::opaque]
pub open spec fn on_listed(c: Correction, s: RunV, list: Option<Seq<Seq<char>>>) -> (RunV, ActionV) {
    if list matches Some(l) && !l.contains(c.to@) {
        finish(s, false, Aftermath::Nothing)
    } else {
        (at(s, Phase::Switching), ActionV::SwitchTo)
    }
}

#[verifier::opaque]
pub open spec fn on_switched(s: RunV, ok: bool, r: Readings) -> (RunV, ActionV) {
    if !ok {
        finish(s, false, Aftermath::Nothing)
    } else {
        absorb(RunV { ctl: Control { switched_at: Some(r.now), ..s.ctl }, ..s }, r)
    }
}

// Absorbing what is still being typed.

pub open spec fn absorb(s: RunV, r: Readings) -> (RunV, ActionV) {
    if s.ctl.live {
        (
            RunV {
                ctl: Control {
                    phase: Phase::AbsorbPoll,
                    deadline: (r.now.nanos + ABSORB_WAIT) as u128,
                    quiet: 0,
                    ..s.ctl
                },
                ..s
            },
            ActionV::Poll,
        )
    } else {
        after_absorb(s, r)
    }
}

#[verifier::opaque]
pub open spec fn on_absorb_poll(s: RunV, w: WindowV, r: Readings) -> (RunV, ActionV) {
    let f = folded(s, w);
    let quiet = if w.saw_user_press {
        0u8
    } else {
        one_more(s.ctl.quiet)
    };
    let q = RunV { ctl: Control { quiet, ..f.ctl }, ..f };
    if w.resume is Some || f.ctl.suspicious {
        after_absorb(f, r)
    } else if !w.saw_user_press && quiet >= ABSORB_QUIET_PROBES && !r.held.any_held() {
        after_absorb(q, r)
    } else if r.now.nanos >= s.ctl.deadline {
        after_absorb(q, r)
    } else {
        (at(q, Phase::AbsorbSleep), ActionV::Sleep(ABSORB_STEP))
    }
}

/// Nothing has been emitted yet: what cannot be placed ends the run here.
pub open spec fn after_absorb(s: RunV, r: Readings) -> (RunV, ActionV) {
    if s.ctl.suspicious {
        finish(s, false, Aftermath::Uncertain { layout_changed: s.ctl.switching })
    } else {
        match s.ctl.switched_at {
            Some(t) => {
                let since = span_between(r.now, t);
                if since < LAYOUT_SETTLE {
                    (
                        at(s, Phase::SettleSleep),
                        ActionV::Sleep((LAYOUT_SETTLE - since) as u128),
                    )
                } else {
                    hold(s)
                }
            },
            None => emit(s, r),
        }
    }
}

// The switch must not merely happen, but hold.

#[verifier::opaque]
pub open spec fn hold(s: RunV) -> (RunV, ActionV) {
    (
        RunV { ctl: Control { phase: Phase::HoldProbe, probe: 0, ..s.ctl }, ..s },
        ActionV::VerifySwitched,
    )
}

#[verifier::opaque]
pub open spec fn on_hold_probe(s: RunV, answer: Option<bool>, r: Readings) -> (RunV, ActionV) {
    if answer == Some(false) {
        (at(s, Phase::AskingShortcut), ActionV::AskShortcut)
    } else if s.ctl.probe + 1 < SWITCH_HOLD_PROBES {
        (
            RunV {
                ctl: Control {
                    phase: Phase::HoldSleep,
                    probe: one_more(s.ctl.probe),
                    ..s.ctl
                },
                ..s
            },
            ActionV::Sleep(SWITCH_HOLD_STEP),
        )
    } else {
        emit(s, r)
    }
}

#[verifier::opaque]
pub open spec fn on_shortcut(s: RunV, found: bool, layouts: Option<usize>) -> (RunV, ActionV) {
    if found {
        let steps = match layouts {
            Some(n) => n,
            None => SHORTCUT_STEPS,
        };
        press(RunV { ctl: Control { steps_left: steps, ..s.ctl }, ..s })
    } else {
        finish(s, false, Aftermath::Nothing)
    }
}

pub open spec fn press(s: RunV) -> (RunV, ActionV) {
    if s.ctl.steps_left == 0 {
        finish(s, false, Aftermath::Nothing)
    } else {
        (
            RunV {
                ctl: Control {
                    phase: Phase::Pressing,
                    steps_left: (s.ctl.steps_left - 1) as usize,
                    ..s.ctl
                },
                ..s
            },
            ActionV::PressShortcut,
        )
    }
}

#[verifier::opaque]
pub open spec fn on_pressed(s: RunV, ok: bool) -> (RunV, ActionV) {
    if ok {
        (at(s, Phase::PressSleep), ActionV::Sleep(CHORD_SETTLE))
    } else {
        finish(s, false, Aftermath::Nothing)
    }
}

#[verifier::opaque]
pub open spec fn on_press_verify(s: RunV, answer: Option<bool>, r: Readings) -> (RunV, ActionV) {
    if answer == Some(true) {
        emit(s, r)
    } else {
        press(s)
    }
}

// Delete, then replay.

pub open spec fn emit(s: RunV, r: Readings) -> (RunV, ActionV) {
    if r.held.any_held() {
        (at(s, Phase::Releasing), ActionV::ReleaseModifiers(r.held))
    } else {
        (at(s, Phase::Acquiring), ActionV::AcquireGate)
    }
}

#[verifier::opaque]
pub open spec fn on_gate(c: Correction, s: RunV, active: bool) -> (RunV, ActionV) {
    delete(
        RunV {
            ctl: Control {
                held: active,
                repairs_left: INTRUSION_REPAIRS,
                to_delete: capped(c.backspaces + absorbed(s).len()),
                ..s.ctl
            },
            ..s
        },
        0,
    )
}

pub open spec fn delete(s: RunV, round: u8) -> (RunV, ActionV) {
    (
        RunV { ctl: Control { phase: Phase::Deleting, round, ..s.ctl }, ..s },
        ActionV::Backspaces(s.ctl.to_delete),
    )
}

pub open spec fn touched(s: RunV) -> RunV {
    RunV { ctl: Control { touched: true, ..s.ctl }, ..s }
}

#[verifier::opaque]
pub open spec fn on_deleted(c: Correction, db: LayoutDb, s: RunV, ok: bool, r: Readings) -> (
    RunV,
    ActionV,
) {
    if !ok {
        close(s)
    } else if !s.ctl.live || s.ctl.held {
        replay(c, db, touched(s), r)
    } else {
        (at(touched(s), Phase::DeleteSleep), ActionV::Sleep(POST_EMIT_LAG))
    }
}

/// A straggler that landed during the burst costs one more backspace.
#[verifier::opaque]
pub open spec fn on_delete_poll(c: Correction, db: LayoutDb, s: RunV, w: WindowV, r: Readings) -> (
    RunV,
    ActionV,
) {
    let f = folded(s, w);
    let extra = added(s, w);
    if extra == 0 {
        replay(c, db, f, r)
    } else {
        let d = RunV { ctl: Control { to_delete: capped(extra), ..f.ctl }, ..f };
        if s.ctl.round + 1 < DELETE_ROUNDS {
            delete(d, one_more(s.ctl.round))
        } else {
            replay(c, db, d, r)
        }
    }
}

/// The keys a replay presses: the word, its boundary, and what the user
/// typed after it.
pub open spec fn replay_keys(rk: Seq<ReplayKey>, s: RunV) -> Seq<ReplayKey> {
    rk + replay_of_events(absorbed(s))
}

pub open spec fn replay(c: Correction, db: LayoutDb, s: RunV, r: Readings) -> (RunV, ActionV) {
    match c.replay_keys {
        Some(rk) => {
            let full = replay_keys(rk@, s);
            (
                RunV {
                    ctl: Control {
                        phase: Phase::ReplayingKeys,
                        emitted: full.len() as usize,
                        ..s.ctl
                    },
                    ..s
                },
                ActionV::Keys(full),
            )
        },
        None => replay_text(c, db, s, r),
    }
}

pub open spec fn text_to_type(c: Correction, db: LayoutDb, s: RunV, caps: bool) -> Seq<char> {
    c.corrected@ + db.reads(c.to@, as_word_keys(absorbed(s), caps))
}

pub open spec fn replay_text(c: Correction, db: LayoutDb, s: RunV, r: Readings) -> (RunV, ActionV) {
    let text = text_to_type(c, db, s, r.held.caps);
    (
        RunV {
            ctl: Control { phase: Phase::ReplayingText, emitted: text.len() as usize, ..s.ctl },
            ..s
        },
        ActionV::Text(text),
    )
}

#[verifier::opaque]
pub open spec fn on_keys(c: Correction, db: LayoutDb, s: RunV, o: KeysOutcome, r: Readings) -> (
    RunV,
    ActionV,
) {
    match o {
        KeysOutcome::Sent => after_replay(c, touched(s), r),
        KeysOutcome::Unsupported => replay_text(c, db, s, r),
        KeysOutcome::Failed => close(s),
    }
}

#[verifier::opaque]
pub open spec fn on_text(c: Correction, s: RunV, ok: bool, r: Readings) -> (RunV, ActionV) {
    if ok {
        after_replay(c, touched(s), r)
    } else {
        close(s)
    }
}

pub open spec fn after_replay(c: Correction, s: RunV, r: Readings) -> (RunV, ActionV) {
    if !s.ctl.live {
        announce(c, s)
    } else if s.ctl.held {
        (
            RunV {
                ctl: Control {
                    phase: Phase::FlushSleep,
                    deadline: (r.now.nanos + HELD_FLUSH) as u128,
                    quiet: 0,
                    ..s.ctl
                },
                ..s
            },
            ActionV::Sleep(POST_EMIT_LAG),
        )
    } else if s.ctl.suspicious {
        announce(c, s)
    } else {
        (
            RunV {
                ctl: Control {
                    phase: Phase::ProbeSleep,
                    intruders: 0,
                    quiet: 0,
                    probe: 0,
                    ..s.ctl
                },
                ..s
            },
            ActionV::Sleep(POST_EMIT_LAG),
        )
    }
}

// Keystrokes were held back: type them out, then let go.

#[verifier::opaque]
pub open spec fn on_flush_poll(s: RunV, w: WindowV, r: Readings) -> (RunV, ActionV) {
    let f = folded(s, w);
    let pending = window_keys(w);
    if pending.len() == 0 {
        flush_on(RunV { ctl: Control { quiet: one_more(s.ctl.quiet), ..f.ctl }, ..f }, r)
    } else {
        (
            RunV { ctl: Control { phase: Phase::Flushing, quiet: 0, ..f.ctl }, ..f },
            ActionV::FlushHeld(pending),
        )
    }
}

pub open spec fn flush_on(s: RunV, r: Readings) -> (RunV, ActionV) {
    if s.ctl.quiet >= HELD_FLUSH_QUIET_PROBES || s.ctl.suspicious || r.now.nanos
        >= s.ctl.deadline {
        (at(s, Phase::LettingGo), ActionV::ReleaseGate)
    } else {
        (at(s, Phase::FlushSleep), ActionV::Sleep(POST_EMIT_LAG))
    }
}

#[verifier::opaque]
pub open spec fn on_flushed(s: RunV, ok: bool, r: Readings) -> (RunV, ActionV) {
    if ok {
        flush_on(s, r)
    } else {
        (at(s, Phase::LettingGo), ActionV::ReleaseGate)
    }
}

#[verifier::opaque]
pub open spec fn on_last_poll(c: Correction, s: RunV, w: WindowV) -> (RunV, ActionV) {
    let f = folded(s, w);
    let last = window_keys(w);
    if last.len() == 0 {
        announce(c, f)
    } else {
        (at(f, Phase::LastFlush), ActionV::FlushHeld(last))
    }
}

// No gate: what landed inside the replay is erased with it and retyped.

#[verifier::opaque]
pub open spec fn on_probe_poll(c: Correction, s: RunV, w: WindowV) -> (RunV, ActionV) {
    let f = folded(s, w);
    let i = RunV {
        ctl: Control { intruders: capped(s.ctl.intruders + added(s, w)), ..f.ctl },
        ..f
    };
    if i.ctl.suspicious {
        probed(c, i)
    } else {
        let q = RunV {
            ctl: Control {
                quiet: if w.saw_user_press {
                    0u8
                } else {
                    one_more(s.ctl.quiet)
                },
                probe: one_more(s.ctl.probe),
                ..i.ctl
            },
            ..i
        };
        if q.ctl.intruders == 0 || q.ctl.quiet >= INTRUSION_QUIET_PROBES || q.ctl.probe
            >= INTRUSION_PROBES {
            probed(c, q)
        } else {
            (at(q, Phase::ProbeSleep), ActionV::Sleep(POST_EMIT_LAG))
        }
    }
}

pub open spec fn probed(c: Correction, s: RunV) -> (RunV, ActionV) {
    if s.ctl.intruders == 0 {
        announce(c, s)
    } else if s.ctl.suspicious || s.ctl.repairs_left == 0 || s.ctl.quiet < INTRUSION_QUIET_PROBES {
        announce(c, RunV { ctl: Control { suspicious: true, ..s.ctl }, ..s })
    } else {
        delete(
            RunV {
                ctl: Control {
                    repairs_left: (s.ctl.repairs_left - 1) as u8,
                    to_delete: capped(s.ctl.emitted + s.ctl.intruders),
                    ..s.ctl
                },
                ..s
            },
            0,
        )
    }
}

// The end: announce, wait for our own echoes, hand the keystrokes back.

#[verifier::opaque]
pub open spec fn announce(c: Correction, s: RunV) -> (RunV, ActionV) {
    (
        at(s, Phase::Announcing),
        ActionV::Announce { sound: c.play_sound, switched: s.ctl.switching },
    )
}

#[verifier::opaque]
pub open spec fn on_announced(s: RunV, r: Readings) -> (RunV, ActionV) {
    if s.ctl.live {
        (
            RunV {
                ctl: Control {
                    phase: Phase::EchoPoll,
                    deadline: (r.now.nanos + SETTLE_WAIT) as u128,
                    ..s.ctl
                },
                ..s
            },
            ActionV::Poll,
        )
    } else {
        close(s)
    }
}

#[verifier::opaque]
pub open spec fn on_echo_poll(s: RunV, w: WindowV, echo_pending: bool, r: Readings) -> (
    RunV,
    ActionV,
) {
    let takes = w.resume matches Some(x) && !submits(x.scancode) && s.ctl.post_resume is None;
    let p = RunV {
        ctl: Control {
            suspicious: s.ctl.suspicious || w.suspicious || (w.resume is Some && !takes),
            post_resume: if takes {
                w.resume
            } else {
                s.ctl.post_resume
            },
            ..s.ctl
        },
        post_tail: s.post_tail + w.word_keys,
        ..s
    };
    if !echo_pending || r.now.nanos >= s.ctl.deadline {
        finish(
            p,
            true,
            if p.ctl.suspicious {
                Aftermath::Unplaced
            } else {
                Aftermath::Reassemble
            },
        )
    } else {
        (at(p, Phase::EchoSleep), ActionV::Sleep(SETTLE_STEP))
    }
}

/// One step of the machine.
#[verifier::opaque]
pub open spec fn step(c: Correction, db: LayoutDb, s: RunV, reply: ReplyV, r: Readings) -> (
    RunV,
    ActionV,
) {
    match (s.ctl.phase, reply) {
        (Phase::Begin, _) => begin(c, s, r),
        (Phase::WaitPoll, ReplyV::Window { drain, .. }) => on_wait_poll(s, drain),
        (Phase::WaitSleep, _) => wait_on(c, s, r),
        (Phase::Listing, ReplyV::Layouts(list)) => on_listed(c, s, list),
        (Phase::Switching, ReplyV::Done(ok)) => on_switched(s, ok, r),
        (Phase::AbsorbPoll, ReplyV::Window { drain, .. }) => on_absorb_poll(s, drain, r),
        (Phase::AbsorbSleep, _) => (at(s, Phase::AbsorbPoll), ActionV::Poll),
        (Phase::SettleSleep, _) => hold(s),
        (Phase::HoldProbe, ReplyV::Verified(a)) => on_hold_probe(s, a, r),
        (Phase::HoldSleep, _) => (at(s, Phase::HoldProbe), ActionV::VerifySwitched),
        (Phase::AskingShortcut, ReplyV::Shortcut { found, layouts }) => on_shortcut(
            s,
            found,
            layouts,
        ),
        (Phase::Pressing, ReplyV::Done(ok)) => on_pressed(s, ok),
        (Phase::PressSleep, _) => (at(s, Phase::PressVerify), ActionV::VerifySwitched),
        (Phase::PressVerify, ReplyV::Verified(a)) => on_press_verify(s, a, r),
        (Phase::Releasing, _) => (at(s, Phase::Acquiring), ActionV::AcquireGate),
        (Phase::Acquiring, ReplyV::Gate(active)) => on_gate(c, s, active),
        (Phase::Deleting, ReplyV::Done(ok)) => on_deleted(c, db, s, ok, r),
        (Phase::DeleteSleep, _) => (at(s, Phase::DeletePoll), ActionV::Poll),
        (Phase::DeletePoll, ReplyV::Window { drain, .. }) => on_delete_poll(c, db, s, drain, r),
        (Phase::ReplayingKeys, ReplyV::Keys(o)) => on_keys(c, db, s, o, r),
        (Phase::ReplayingText, ReplyV::Done(ok)) => on_text(c, s, ok, r),
        (Phase::FlushSleep, _) => (at(s, Phase::FlushPoll), ActionV::Poll),
        (Phase::FlushPoll, ReplyV::Window { drain, .. }) => on_flush_poll(s, drain, r),
        (Phase::Flushing, ReplyV::Done(ok)) => on_flushed(s, ok, r),
        (Phase::LettingGo, _) => (at(let_go(s), Phase::LastPoll), ActionV::Poll),
        (Phase::LastPoll, ReplyV::Window { drain, .. }) => on_last_poll(c, s, drain),
        (Phase::LastFlush, _) => announce(c, s),
        (Phase::ProbeSleep, _) => (at(s, Phase::ProbePoll), ActionV::Poll),
        (Phase::ProbePoll, ReplyV::Window { drain, .. }) => on_probe_poll(c, s, drain),
        (Phase::Announcing, _) => on_announced(s, r),
        (Phase::EchoPoll, ReplyV::Window { drain, echo_pending }) => on_echo_poll(
            s,
            drain,
            echo_pending,
            r,
        ),
        (Phase::EchoSleep, _) => (at(s, Phase::EchoPoll), ActionV::Poll),
        (Phase::Closing, _) => finish(let_go(s), s.ctl.touched, Aftermath::Nothing),
        _ => finish(s, s.ctl.touched, Aftermath::Nothing),
    }
}

// ─── The machine ─────────────────────────────────────────────────────

fn cap_add(a: usize, b: usize) -> (n: usize)
    ensures
        n == capped(a + b),
{
    match a.checked_add(b) {
        Some(n) => n,
        None => usize::MAX,
    }
}

fn tick(n: u8) -> (m: u8)
    ensures
        m == one_more(n),
{
    if n == u8::MAX {
        u8::MAX
    } else {
        n + 1
    }
}

fn append_events(out: &mut Vec<KeyEvent>, more: &Vec<KeyEvent>)
    ensures
        final(out)@ == old(out)@ + more@,
{
    let ghost before = out@;
    let mut i: usize = 0;
    while i < more.len()
        invariant
            i <= more.len(),
            out@ == before + more@.take(i as int),
        decreases more.len() - i,
    {
        out.push(more[i]);
        i += 1;
        assert(out@ =~= before + more@.take(i as int));
    }
    assert(more@.take(more@.len() as int) =~= more@);
}

fn keys_of_window(w: &WindowDrain) -> (keys: Vec<ReplayKey>)
    ensures
        keys@ == window_keys(w@),
{
    let mut keys: Vec<ReplayKey> = Vec::new();
    push_replay_of_events(&mut keys, &w.word_keys);
    assert(keys@ =~= replay_of_events(w.word_keys@));
    if let Some(r) = w.resume {
        keys.push(ReplayKey { scancode: r.scancode, shift: r.modifiers.shift });
    }
    if let Some(st) = w.stopper {
        keys.push(ReplayKey { scancode: st.scancode, shift: st.modifiers.shift });
    }
    keys
}

impl CorrectionRun {
    /// A correction about to be carried out. `live` says that there is a
    /// key stream to watch and a buffer to keep in step.
    pub fn new(c: Correction, live: bool) -> (run: CorrectionRun)
        ensures
            run.c == c,
            run@ == start_state(c, live),
            run.click_allowance == c.pointer_click_allowance,
    {
        let switching = !c.from.same(&c.to);
        let click_allowance = c.pointer_click_allowance;
        let run = CorrectionRun {
            c,
            ctl: Control {
                phase: Phase::Begin,
                live,
                switching,
                resume: None,
                post_resume: None,
                suspicious: false,
                switched_at: None,
                deadline: 0,
                quiet: 0,
                probe: 0,
                steps_left: 0,
                held: false,
                repairs_left: 0,
                round: 0,
                to_delete: 0,
                emitted: 0,
                intruders: 0,
                touched: false,
            },
            tail: Vec::new(),
            post_tail: Vec::new(),
            click_allowance,
        };
        assert(run@.tail =~= Seq::empty());
        assert(run@.post_tail =~= Seq::empty());
        run
    }

    /// Take the host's reply to the last action and say what comes next.
    pub fn step(&mut self, db: &LayoutDb, reply: Reply, r: Readings) -> (action: Action)
        requires
            expects(old(self).ctl.phase, reply@),
            clock_ok(r),
        ensures
            (final(self)@, action@) == step(old(self).c, *db, old(self)@, reply@, r),
            final(self).c == old(self).c,
            final(self).click_allowance == old(self).click_allowance,
    {
        reveal(step);
        match reply {
            Reply::Started => self.do_begin(r),
            Reply::Slept => self.do_slept(r),
            Reply::Window { drain, echo_pending } => self.do_window(db, drain, echo_pending, r),
            Reply::Layouts(list) => self.do_listed(list),
            Reply::Done(ok) => self.do_done(db, ok, r),
            Reply::Verified(a) => if self.ctl.phase == Phase::HoldProbe {
                self.do_hold_probe(a, r)
            } else {
                self.do_press_verify(a, r)
            },
            Reply::Shortcut { found, layouts } => self.do_shortcut(found, layouts),
            Reply::Keys(o) => self.do_keys(db, o, r),
            Reply::Gate(active) => self.do_gate(active),
        }
    }

    fn do_slept(&mut self, r: Readings) -> (action: Action)
        requires
            expects(old(self).ctl.phase, ReplyV::Slept),
            clock_ok(r),
        ensures
            forall|db: LayoutDb|
                (final(self)@, action@) == #[trigger] step(
                    old(self).c,
                    db,
                    old(self)@,
                    ReplyV::Slept,
                    r,
                ),
            final(self).c == old(self).c,
            final(self).click_allowance == old(self).click_allowance,
    {
        reveal(step);
        match self.ctl.phase {
            Phase::WaitSleep => self.do_wait(r),
            Phase::AbsorbSleep => {
                self.ctl.phase = Phase::AbsorbPoll;
                Action::Poll
            },
            Phase::SettleSleep => self.do_hold(),
            Phase::HoldSleep => {
                self.ctl.phase = Phase::HoldProbe;
                Action::VerifySwitched
            },
            Phase::PressSleep => {
                self.ctl.phase = Phase::PressVerify;
                Action::VerifySwitched
            },
            Phase::DeleteSleep => {
                self.ctl.phase = Phase::DeletePoll;
                Action::Poll
            },
            Phase::FlushSleep => {
                self.ctl.phase = Phase::FlushPoll;
                Action::Poll
            },
            Phase::ProbeSleep => {
                self.ctl.phase = Phase::ProbePoll;
                Action::Poll
            },
            _ => {
                self.ctl.phase = Phase::EchoPoll;
                Action::Poll
            },
        }
    }

    fn do_window(&mut self, db: &LayoutDb, drain: WindowDrain, echo_pending: bool, r: Readings) -> (
        action: Action)
        requires
            expects(old(self).ctl.phase, (ReplyV::Window { drain: drain@, echo_pending })),
            clock_ok(r),
        ensures
            (final(self)@, action@) == step(
                old(self).c,
                *db,
                old(self)@,
                (ReplyV::Window { drain: drain@, echo_pending }),
                r,
            ),
            final(self).c == old(self).c,
            final(self).click_allowance == old(self).click_allowance,
    {
        reveal(step);
        match self.ctl.phase {
            Phase::WaitPoll => self.do_wait_poll(drain),
            Phase::AbsorbPoll => self.do_absorb_poll(drain, r),
            Phase::DeletePoll => self.do_delete_poll(db, drain, r),
            Phase::FlushPoll => self.do_flush_poll(drain, r),
            Phase::LastPoll => self.do_last_poll(drain),
            Phase::ProbePoll => self.do_probe_poll(drain),
            _ => self.do_echo_poll(drain, echo_pending, r),
        }
    }

    fn do_done(&mut self, db: &LayoutDb, ok: bool, r: Readings) -> (action: Action)
        requires
            expects(old(self).ctl.phase, ReplyV::Done(ok)),
            clock_ok(r),
        ensures
            (final(self)@, action@) == step(
                old(self).c,
                *db,
                old(self)@,
                ReplyV::Done(ok),
                r,
            ),
            final(self).c == old(self).c,
            final(self).click_allowance == old(self).click_allowance,
    {
        reveal(step);
        match self.ctl.phase {
            Phase::Switching => self.do_switched(ok, r),
            Phase::Pressing => self.do_pressed(ok),
            Phase::Releasing => {
                self.ctl.phase = Phase::Acquiring;
                Action::AcquireGate
            },
            Phase::Deleting => self.do_deleted(db, ok, r),
            Phase::ReplayingText => self.do_text(ok, r),
            Phase::Flushing => self.do_flushed(ok, r),
            Phase::LettingGo => {
                self.ctl.held = false;
                self.ctl.phase = Phase::LastPoll;
                Action::Poll
            },
            Phase::LastFlush => self.do_announce(),
            Phase::Closing => {
                self.ctl.held = false;
                let applied = self.ctl.touched;
                self.do_finish(applied, Aftermath::Nothing)
            },
            _ => self.do_announced(r),
        }
    }

    fn do_wait_poll(&mut self, drain: WindowDrain) -> (action: Action)
        ensures
            (final(self)@, action@) == on_wait_poll(old(self)@, drain@),
            final(self).c == old(self).c,
            final(self).click_allowance == old(self).click_allowance,
    {
        reveal(on_wait_poll);
        let _ = self.fold(&drain);
        self.ctl.phase = Phase::WaitSleep;
        Action::Sleep(CHORD_RELEASE_STEP)
    }

    fn do_listed(&mut self, list: Option<Vec<LayoutId>>) -> (action: Action)
        ensures
            (final(self)@, action@) == on_listed(old(self).c, old(self)@, Reply::Layouts(list)@->Layouts_0),
            final(self).c == old(self).c,
            final(self).click_allowance == old(self).click_allowance,
    {
        reveal(on_listed);
        let missing = match &list {
            Some(l) => !contains_id(l.as_slice(), &self.c.to),
            None => false,
        };
        if missing {
            self.do_finish(false, Aftermath::Nothing)
        } else {
            self.ctl.phase = Phase::Switching;
            Action::SwitchTo
        }
    }

    fn do_switched(&mut self, ok: bool, r: Readings) -> (action: Action)
        requires
            clock_ok(r),
        ensures
            (final(self)@, action@) == on_switched(old(self)@, ok, r),
            final(self).c == old(self).c,
            final(self).click_allowance == old(self).click_allowance,
    {
        reveal(on_switched);
        if !ok {
            return self.do_finish(false, Aftermath::Nothing);
        }
        self.ctl.switched_at = Some(r.now);
        self.do_absorb(r)
    }

    fn do_hold_probe(&mut self, a: Option<bool>, r: Readings) -> (action: Action)
        ensures
            (final(self)@, action@) == on_hold_probe(old(self)@, a, r),
            final(self).c == old(self).c,
            final(self).click_allowance == old(self).click_allowance,
    {
        reveal(on_hold_probe);
        let moved_back = match a {
            Some(b) => !b,
            None => false,
        };
        if moved_back {
            self.ctl.phase = Phase::AskingShortcut;
            Action::AskShortcut
        } else if self.ctl.probe < SWITCH_HOLD_PROBES - 1 {
            self.ctl.probe = tick(self.ctl.probe);
            self.ctl.phase = Phase::HoldSleep;
            Action::Sleep(SWITCH_HOLD_STEP)
        } else {
            self.do_emit(r)
        }
    }

    fn do_shortcut(&mut self, found: bool, layouts: Option<usize>) -> (action: Action)
        ensures
            (final(self)@, action@) == on_shortcut(old(self)@, found, layouts),
            final(self).c == old(self).c,
            final(self).click_allowance == old(self).click_allowance,
    {
        reveal(on_shortcut);
        if !found {
            return self.do_finish(false, Aftermath::Nothing);
        }
        self.ctl.steps_left = match layouts {
            Some(n) => n,
            None => SHORTCUT_STEPS,
        };
        self.do_press()
    }

    fn do_pressed(&mut self, ok: bool) -> (action: Action)
        ensures
            (final(self)@, action@) == on_pressed(old(self)@, ok),
            final(self).c == old(self).c,
            final(self).click_allowance == old(self).click_allowance,
    {
        reveal(on_pressed);
        if ok {
            self.ctl.phase = Phase::PressSleep;
            Action::Sleep(CHORD_SETTLE)
        } else {
            self.do_finish(false, Aftermath::Nothing)
        }
    }

    fn do_press_verify(&mut self, a: Option<bool>, r: Readings) -> (action: Action)
        ensures
            (final(self)@, action@) == on_press_verify(old(self)@, a, r),
            final(self).c == old(self).c,
            final(self).click_allowance == old(self).click_allowance,
    {
        reveal(on_press_verify);
        let reached = match a {
            Some(b) => b,
            None => false,
        };
        if reached {
            self.do_emit(r)
        } else {
            self.do_press()
        }
    }

    fn do_gate(&mut self, active: bool) -> (action: Action)
        ensures
            (final(self)@, action@) == on_gate(old(self).c, old(self)@, active),
            final(self).c == old(self).c,
            final(self).click_allowance == old(self).click_allowance,
    {
        reveal(on_gate);
        self.ctl.held = active;
        self.ctl.repairs_left = INTRUSION_REPAIRS;
        let resumed: usize = if self.ctl.resume.is_some() {
            1
        } else {
            0
        };
        self.ctl.to_delete = cap_add(cap_add(self.c.backspaces, self.tail.len()), resumed);
        self.do_delete(0)
    }

    fn do_deleted(&mut self, db: &LayoutDb, ok: bool, r: Readings) -> (action: Action)
        ensures
            (final(self)@, action@) == on_deleted(old(self).c, *db, old(self)@, ok, r),
            final(self).c == old(self).c,
            final(self).click_allowance == old(self).click_allowance,
    {
        reveal(on_deleted);
        if !ok {
            return self.do_close();
        }
        self.ctl.touched = true;
        if !self.ctl.live || self.ctl.held {
            self.do_replay(db, r)
        } else {
            self.ctl.phase = Phase::DeleteSleep;
            Action::Sleep(POST_EMIT_LAG)
        }
    }

    fn do_delete_poll(&mut self, db: &LayoutDb, drain: WindowDrain, r: Readings) -> (action: Action)
        ensures
            (final(self)@, action@) == on_delete_poll(old(self).c, *db, old(self)@, drain@, r),
            final(self).c == old(self).c,
            final(self).click_allowance == old(self).click_allowance,
    {
        reveal(on_delete_poll);
        let extra = self.fold(&drain);
        if extra == 0 {
            return self.do_replay(db, r);
        }
        self.ctl.to_delete = extra;
        if self.ctl.round < DELETE_ROUNDS - 1 {
            let round: u8 = tick(self.ctl.round);
            self.do_delete(round)
        } else {
            self.do_replay(db, r)
        }
    }

    fn do_keys(&mut self, db: &LayoutDb, o: KeysOutcome, r: Readings) -> (action: Action)
        requires
            clock_ok(r),
        ensures
            (final(self)@, action@) == on_keys(old(self).c, *db, old(self)@, o, r),
            final(self).c == old(self).c,
            final(self).click_allowance == old(self).click_allowance,
    {
        reveal(on_keys);
        match o {
            KeysOutcome::Sent => {
                self.ctl.touched = true;
                self.do_after_replay(r)
            },
            KeysOutcome::Unsupported => self.do_replay_text(db, r),
            KeysOutcome::Failed => self.do_close(),
        }
    }

    fn do_text(&mut self, ok: bool, r: Readings) -> (action: Action)
        requires
            clock_ok(r),
        ensures
            (final(self)@, action@) == on_text(old(self).c, old(self)@, ok, r),
            final(self).c == old(self).c,
            final(self).click_allowance == old(self).click_allowance,
    {
        reveal(on_text);
        if ok {
            self.ctl.touched = true;
            self.do_after_replay(r)
        } else {
            self.do_close()
        }
    }

    fn do_flush_poll(&mut self, drain: WindowDrain, r: Readings) -> (action: Action)
        ensures
            (final(self)@, action@) == on_flush_poll(old(self)@, drain@, r),
            final(self).c == old(self).c,
            final(self).click_allowance == old(self).click_allowance,
    {
        reveal(on_flush_poll);
        let _ = self.fold(&drain);
        let pending = keys_of_window(&drain);
        if pending.len() == 0 {
            self.ctl.quiet = tick(self.ctl.quiet);
            self.do_flush_on(r)
        } else {
            self.ctl.quiet = 0;
            self.ctl.phase = Phase::Flushing;
            Action::FlushHeld(pending)
        }
    }

    fn do_flushed(&mut self, ok: bool, r: Readings) -> (action: Action)
        ensures
            (final(self)@, action@) == on_flushed(old(self)@, ok, r),
            final(self).c == old(self).c,
            final(self).click_allowance == old(self).click_allowance,
    {
        reveal(on_flushed);
        if ok {
            self.do_flush_on(r)
        } else {
            self.ctl.phase = Phase::LettingGo;
            Action::ReleaseGate
        }
    }

    fn do_last_poll(&mut self, drain: WindowDrain) -> (action: Action)
        ensures
            (final(self)@, action@) == on_last_poll(old(self).c, old(self)@, drain@),
            final(self).c == old(self).c,
            final(self).click_allowance == old(self).click_allowance,
    {
        reveal(on_last_poll);
        let _ = self.fold(&drain);
        let last = keys_of_window(&drain);
        if last.len() == 0 {
            self.do_announce()
        } else {
            self.ctl.phase = Phase::LastFlush;
            Action::FlushHeld(last)
        }
    }

    fn do_announced(&mut self, r: Readings) -> (action: Action)
        requires
            clock_ok(r),
        ensures
            (final(self)@, action@) == on_announced(old(self)@, r),
            final(self).c == old(self).c,
            final(self).click_allowance == old(self).click_allowance,
    {
        reveal(on_announced);
        if self.ctl.live {
            self.ctl.deadline = r.now.nanos + SETTLE_WAIT;
            self.ctl.phase = Phase::EchoPoll;
            Action::Poll
        } else {
            self.do_close()
        }
    }

    fn do_close(&mut self) -> (action: Action)
        ensures
            (final(self)@, action@) == close(old(self)@),
            final(self).c == old(self).c,
            final(self).click_allowance == old(self).click_allowance,
    {
        if self.ctl.held {
            self.ctl.phase = Phase::Closing;
            Action::ReleaseGate
        } else {
            let applied = self.ctl.touched;
            self.do_finish(applied, Aftermath::Nothing)
        }
    }

    fn do_finish(&mut self, applied: bool, aftermath: Aftermath) -> (action: Action)
        ensures
            (final(self)@, action@) == finish(old(self)@, applied, aftermath),
            final(self).c == old(self).c,
            final(self).click_allowance == old(self).click_allowance,
    {
        self.ctl.phase = Phase::Finished;
        Action::Finish { applied, aftermath }
    }

    fn do_begin(&mut self, r: Readings) -> (action: Action)
        requires
            clock_ok(r),
        ensures
            (final(self)@, action@) == begin(old(self).c, old(self)@, r),
            final(self).c == old(self).c,
            final(self).click_allowance == old(self).click_allowance,
    {
        reveal(begin);
        if !r.trigger_down {
            self.do_preflight(r)
        } else if self.ctl.live {
            self.ctl.deadline = r.now.nanos + CHORD_RELEASE_WAIT;
            self.do_wait(r)
        } else {
            self.do_still_down()
        }
    }

    fn do_wait(&mut self, r: Readings) -> (action: Action)
        requires
            clock_ok(r),
        ensures
            (final(self)@, action@) == wait_on(old(self).c, old(self)@, r),
            final(self).c == old(self).c,
            final(self).click_allowance == old(self).click_allowance,
    {
        reveal(wait_on);
        if !r.trigger_down {
            self.do_preflight(r)
        } else if !self.ctl.suspicious && self.ctl.resume.is_none() && r.now.nanos
            < self.ctl.deadline {
            self.ctl.phase = Phase::WaitPoll;
            Action::Poll
        } else {
            self.do_still_down()
        }
    }

    fn do_still_down(&mut self) -> (action: Action)
        ensures
            (final(self)@, action@) == still_down(old(self)@),
            final(self).c == old(self).c,
            final(self).click_allowance == old(self).click_allowance,
    {
        let saw = self.ctl.live && (self.tail.len() > 0 || self.ctl.suspicious
            || self.ctl.resume.is_some());
        self.do_finish(
            false,
            if saw {
                Aftermath::KeyStillDown
            } else {
                Aftermath::Nothing
            },
        )
    }

    fn do_preflight(&mut self, r: Readings) -> (action: Action)
        requires
            clock_ok(r),
        ensures
            (final(self)@, action@) == preflight(old(self).c, old(self)@, r),
            final(self).c == old(self).c,
            final(self).click_allowance == old(self).click_allowance,
    {
        if self.ctl.switching {
            self.ctl.phase = Phase::Listing;
            Action::ListActive
        } else {
            self.do_absorb(r)
        }
    }

    /// Fold one look into the plan; how many characters it added.
    fn fold(&mut self, w: &WindowDrain) -> (extra: usize)
        ensures
            final(self)@ == folded(old(self)@, w@),
            extra == capped(added(old(self)@, w@)),
            final(self).c == old(self).c,
            final(self).click_allowance == old(self).click_allowance,
    {
        let mut extra: usize = w.word_keys.len();
        append_events(&mut self.tail, &w.word_keys);
        let mut murky = self.ctl.suspicious || w.suspicious;
        if let Some(x) = w.resume {
            if is_submission_scancode(x.scancode) || self.ctl.resume.is_some() {
                murky = true;
            } else {
                self.ctl.resume = Some(x);
                extra = cap_add(extra, 1);
            }
        }
        self.ctl.suspicious = murky;
        extra
    }

    fn do_absorb(&mut self, r: Readings) -> (action: Action)
        requires
            clock_ok(r),
        ensures
            (final(self)@, action@) == absorb(old(self)@, r),
            final(self).c == old(self).c,
            final(self).click_allowance == old(self).click_allowance,
    {
        if self.ctl.live {
            self.ctl.deadline = r.now.nanos + ABSORB_WAIT;
            self.ctl.quiet = 0;
            self.ctl.phase = Phase::AbsorbPoll;
            Action::Poll
        } else {
            self.do_after_absorb(r)
        }
    }

    fn do_absorb_poll(&mut self, w: WindowDrain, r: Readings) -> (action: Action)
        ensures
            (final(self)@, action@) == on_absorb_poll(old(self)@, w@, r),
            final(self).c == old(self).c,
            final(self).click_allowance == old(self).click_allowance,
    {
        reveal(on_absorb_poll);
        let _ = self.fold(&w);
        if w.resume.is_some() || self.ctl.suspicious {
            return self.do_after_absorb(r);
        }
        self.ctl.quiet = if w.saw_user_press {
            0
        } else {
            tick(self.ctl.quiet)
        };
        if !w.saw_user_press && self.ctl.quiet >= ABSORB_QUIET_PROBES && !r.held.any_held() {
            return self.do_after_absorb(r);
        }
        if r.now.nanos >= self.ctl.deadline {
            return self.do_after_absorb(r);
        }
        self.ctl.phase = Phase::AbsorbSleep;
        Action::Sleep(ABSORB_STEP)
    }

    fn do_after_absorb(&mut self, r: Readings) -> (action: Action)
        ensures
            (final(self)@, action@) == after_absorb(old(self)@, r),
            final(self).c == old(self).c,
            final(self).click_allowance == old(self).click_allowance,
    {
        if self.ctl.suspicious {
            let layout_changed = self.ctl.switching;
            return self.do_finish(false, Aftermath::Uncertain { layout_changed });
        }
        match self.ctl.switched_at {
            Some(t) => {
                let since: u128 = r.now.saturating_duration_since(t).nanos;
                if since < LAYOUT_SETTLE {
                    self.ctl.phase = Phase::SettleSleep;
                    Action::Sleep(LAYOUT_SETTLE - since)
                } else {
                    self.do_hold()
                }
            },
            None => self.do_emit(r),
        }
    }

    fn do_hold(&mut self) -> (action: Action)
        ensures
            (final(self)@, action@) == hold(old(self)@),
            final(self).c == old(self).c,
            final(self).click_allowance == old(self).click_allowance,
    {
        reveal(hold);
        self.ctl.probe = 0;
        self.ctl.phase = Phase::HoldProbe;
        Action::VerifySwitched
    }

    fn do_press(&mut self) -> (action: Action)
        ensures
            (final(self)@, action@) == press(old(self)@),
            final(self).c == old(self).c,
            final(self).click_allowance == old(self).click_allowance,
    {
        if self.ctl.steps_left == 0 {
            self.do_finish(false, Aftermath::Nothing)
        } else {
            self.ctl.steps_left = self.ctl.steps_left - 1;
            self.ctl.phase = Phase::Pressing;
            Action::PressShortcut
        }
    }

    fn do_emit(&mut self, r: Readings) -> (action: Action)
        ensures
            (final(self)@, action@) == emit(old(self)@, r),
            final(self).c == old(self).c,
            final(self).click_allowance == old(self).click_allowance,
    {
        if r.held.any_held() {
            self.ctl.phase = Phase::Releasing;
            Action::ReleaseModifiers(r.held)
        } else {
            self.ctl.phase = Phase::Acquiring;
            Action::AcquireGate
        }
    }

    fn do_delete(&mut self, round: u8) -> (action: Action)
        ensures
            (final(self)@, action@) == delete(old(self)@, round),
            final(self).c == old(self).c,
            final(self).click_allowance == old(self).click_allowance,
    {
        self.ctl.round = round;
        self.ctl.phase = Phase::Deleting;
        Action::Backspaces(self.ctl.to_delete)
    }

    fn do_replay(&mut self, db: &LayoutDb, r: Readings) -> (action: Action)
        ensures
            (final(self)@, action@) == replay(old(self).c, *db, old(self)@, r),
            final(self).c == old(self).c,
            final(self).click_allowance == old(self).click_allowance,
    {
        let ghost s = self@;
        let mut full: Vec<ReplayKey> = Vec::new();
        match &self.c.replay_keys {
            Some(rk) => {
                let mut i: usize = 0;
                while i < rk.len()
                    invariant
                        i <= rk.len(),
                        full@ == rk@.take(i as int),
                    decreases rk.len() - i,
                {
                    full.push(rk[i]);
                    i += 1;
                    assert(full@ =~= rk@.take(i as int));
                }
                assert(rk@.take(rk@.len() as int) =~= rk@);
                push_replay_of_events(&mut full, &self.tail);
                if let Some(x) = self.ctl.resume {
                    full.push(ReplayKey { scancode: x.scancode, shift: x.modifiers.shift });
                }
                assert(full@ =~= replay_keys(rk@, s));
            },
            None => {
                return self.do_replay_text(db, r);
            },
        }
        self.ctl.emitted = full.len();
        self.ctl.phase = Phase::ReplayingKeys;
        Action::Keys(full)
    }

    fn do_replay_text(&mut self, db: &LayoutDb, r: Readings) -> (action: Action)
        ensures
            (final(self)@, action@) == replay_text(old(self).c, *db, old(self)@, r),
            final(self).c == old(self).c,
            final(self).click_allowance == old(self).click_allowance,
    {
        let ghost s = self@;
        let caps = r.held.caps;
        let mut keys: Vec<WordKey> = Vec::new();
        let mut i: usize = 0;
        while i < self.tail.len()
            invariant
                i <= self.tail.len(),
                keys@ == as_word_keys(self.tail@.take(i as int), caps),
            decreases self.tail.len() - i,
        {
            let e = self.tail[i];
            keys.push(
                WordKey { scancode: e.scancode, shift: e.modifiers.shift, caps, timestamp_ms: 0 },
            );
            i += 1;
            assert(keys@ =~= as_word_keys(self.tail@.take(i as int), caps));
        }
        assert(self.tail@.take(self.tail@.len() as int) =~= self.tail@);
        if let Some(e) = self.ctl.resume {
            keys.push(
                WordKey { scancode: e.scancode, shift: e.modifiers.shift, caps, timestamp_ms: 0 },
            );
        }
        assert(keys@ =~= as_word_keys(absorbed(s), caps));
        let extra = db.translate_under(&self.c.to, keys.as_slice());
        let mut text = self.c.corrected.clone();
        text.append(extra.as_str());
        self.ctl.emitted = text.as_str().unicode_len();
        self.ctl.phase = Phase::ReplayingText;
        Action::Text(text)
    }

    fn do_after_replay(&mut self, r: Readings) -> (action: Action)
        requires
            clock_ok(r),
        ensures
            (final(self)@, action@) == after_replay(old(self).c, old(self)@, r),
            final(self).c == old(self).c,
            final(self).click_allowance == old(self).click_allowance,
    {
        if !self.ctl.live {
            self.do_announce()
        } else if self.ctl.held {
            self.ctl.deadline = r.now.nanos + HELD_FLUSH;
            self.ctl.quiet = 0;
            self.ctl.phase = Phase::FlushSleep;
            Action::Sleep(POST_EMIT_LAG)
        } else if self.ctl.suspicious {
            self.do_announce()
        } else {
            self.ctl.intruders = 0;
            self.ctl.quiet = 0;
            self.ctl.probe = 0;
            self.ctl.phase = Phase::ProbeSleep;
            Action::Sleep(POST_EMIT_LAG)
        }
    }

    fn do_flush_on(&mut self, r: Readings) -> (action: Action)
        ensures
            (final(self)@, action@) == flush_on(old(self)@, r),
            final(self).c == old(self).c,
            final(self).click_allowance == old(self).click_allowance,
    {
        if self.ctl.quiet >= HELD_FLUSH_QUIET_PROBES || self.ctl.suspicious || r.now.nanos
            >= self.ctl.deadline {
            self.ctl.phase = Phase::LettingGo;
            Action::ReleaseGate
        } else {
            self.ctl.phase = Phase::FlushSleep;
            Action::Sleep(POST_EMIT_LAG)
        }
    }

    fn do_probe_poll(&mut self, w: WindowDrain) -> (action: Action)
        ensures
            (final(self)@, action@) == on_probe_poll(old(self).c, old(self)@, w@),
            final(self).c == old(self).c,
            final(self).click_allowance == old(self).click_allowance,
    {
        reveal(on_probe_poll);
        let extra = self.fold(&w);
        self.ctl.intruders = cap_add(self.ctl.intruders, extra);
        if self.ctl.suspicious {
            return self.do_probed();
        }
        self.ctl.quiet = if w.saw_user_press {
            0
        } else {
            tick(self.ctl.quiet)
        };
        self.ctl.probe = tick(self.ctl.probe);
        if self.ctl.intruders == 0 || self.ctl.quiet >= INTRUSION_QUIET_PROBES || self.ctl.probe
            >= INTRUSION_PROBES {
            return self.do_probed();
        }
        self.ctl.phase = Phase::ProbeSleep;
        Action::Sleep(POST_EMIT_LAG)
    }

    fn do_probed(&mut self) -> (action: Action)
        ensures
            (final(self)@, action@) == probed(old(self).c, old(self)@),
            final(self).c == old(self).c,
            final(self).click_allowance == old(self).click_allowance,
    {
        if self.ctl.intruders == 0 {
            return self.do_announce();
        }
        if self.ctl.suspicious || self.ctl.repairs_left == 0 || self.ctl.quiet
            < INTRUSION_QUIET_PROBES {
            self.ctl.suspicious = true;
            return self.do_announce();
        }
        self.ctl.repairs_left = self.ctl.repairs_left - 1;
        self.ctl.to_delete = cap_add(self.ctl.emitted, self.ctl.intruders);
        self.do_delete(0)
    }

    fn do_announce(&mut self) -> (action: Action)
        ensures
            (final(self)@, action@) == announce(old(self).c, old(self)@),
            final(self).c == old(self).c,
            final(self).click_allowance == old(self).click_allowance,
    {
        reveal(announce);
        self.ctl.phase = Phase::Announcing;
        Action::Announce { sound: self.c.play_sound, switched: self.ctl.switching }
    }

    fn do_echo_poll(&mut self, w: WindowDrain, echo_pending: bool, r: Readings) -> (action: Action)
        ensures
            (final(self)@, action@) == on_echo_poll(old(self)@, w@, echo_pending, r),
            final(self).c == old(self).c,
            final(self).click_allowance == old(self).click_allowance,
    {
        reveal(on_echo_poll);
        append_events(&mut self.post_tail, &w.word_keys);
        let mut murky = self.ctl.suspicious || w.suspicious;
        if let Some(x) = w.resume {
            if self.ctl.post_resume.is_some() || is_submission_scancode(x.scancode) {
                murky = true;
            } else {
                self.ctl.post_resume = Some(x);
            }
        }
        self.ctl.suspicious = murky;
        if !echo_pending || r.now.nanos >= self.ctl.deadline {
            let aftermath = if murky {
                Aftermath::Unplaced
            } else {
                Aftermath::Reassemble
            };
            return self.do_finish(true, aftermath);
        }
        self.ctl.phase = Phase::EchoSleep;
        Action::Sleep(SETTLE_STEP)
    }
}

} // verus!
