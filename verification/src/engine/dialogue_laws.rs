//! What a correction asks of the host, in terms of what the host answered.

use vstd::prelude::*;

use crate::engine::correction::{
    announce, begin, expects, hold, on_absorb_poll, on_announced, on_delete_poll, on_deleted,
    on_echo_poll, on_flush_poll, on_flushed, on_gate, on_hold_probe, on_keys, on_last_poll,
    on_listed, on_press_verify, on_pressed, on_probe_poll, on_shortcut, on_switched, on_text,
    on_wait_poll, step, wait_on, ActionV, Aftermath, Phase, Readings, ReplyV, RunV,
};
use crate::engine::correction_laws::{
    action_after, follows, is_early, is_emitting, is_pressing, is_settling, is_waiting,
    lemma_follows_prefix, state_after, Input,
};
use crate::engine::screen_laws::found_typing;
use crate::engine::types::Correction;
use crate::keys::Modifiers;
use crate::layouts::LayoutDb;

verus! {

/// Ctrl, Shift, Alt or Meta is held.
pub open spec fn holds_any(m: Modifiers) -> bool {
    m.control || m.shift || m.alt || m.meta
}

/// The phases on the way to the target layout.
spec fn is_about_the_layout(p: Phase) -> bool {
    match p {
        Phase::Listing | Phase::Switching | Phase::SettleSleep | Phase::HoldProbe
        | Phase::HoldSleep | Phase::AskingShortcut | Phase::Pressing | Phase::PressSleep
        | Phase::PressVerify => true,
        _ => false,
    }
}

spec fn is_erasing(p: Phase) -> bool {
    p == Phase::Deleting || p == Phase::DeleteSleep || p == Phase::DeletePoll
}

spec fn is_shortcut_phase(p: Phase) -> bool {
    p == Phase::Pressing || p == Phase::PressSleep || p == Phase::PressVerify
}

spec fn is_echo_phase(p: Phase) -> bool {
    p == Phase::Announcing || p == Phase::EchoPoll || p == Phase::EchoSleep
}

/// Before the switch is checked for the first time.
spec fn is_before_the_check(p: Phase) -> bool {
    is_waiting(p) || p == Phase::AbsorbPoll || p == Phase::AbsorbSleep || p == Phase::SettleSleep
}

/// The layout is only dealt with where it changes.
spec fn layout_inv(s: RunV) -> bool {
    &&& s.ctl.switched_at is Some ==> s.ctl.switching
    &&& is_about_the_layout(s.ctl.phase) ==> s.ctl.switching
}

spec fn asks(c: Correction, db: LayoutDb, s: RunV, reply: ReplyV, r: Readings) -> bool {
    let n = step(c, db, s, reply, r);
    let a = n.1;
    let p = s.ctl.phase;
    let q = n.0.ctl.phase;
    // Which phase goes with which action.
    &&& (q == Phase::Listing) == (a is ListActive)
    &&& (q == Phase::Switching) == (a is SwitchTo)
    &&& (q == Phase::Releasing) == (a is ReleaseModifiers)
    &&& (q == Phase::Acquiring) == (a is AcquireGate)
    &&& (q == Phase::AskingShortcut) == (a is AskShortcut)
    &&& (q == Phase::Pressing) == (a is PressShortcut)
    &&& (q == Phase::HoldProbe || q == Phase::PressVerify) == (a is VerifySwitched)
    &&& (q == Phase::Announcing) == (a is Announce)
    &&& (q == Phase::Deleting) == (a is Backspaces)
    &&& (q == Phase::Finished) == (a is Finish)
    // The layout.
    &&& n.0.ctl.switching == s.ctl.switching
    &&& n.0.ctl.live == s.ctl.live
    &&& layout_inv(s) ==> layout_inv(n.0)
    &&& a is SwitchTo ==> p == Phase::Listing
    &&& q == Phase::HoldProbe ==> (p == Phase::HoldSleep && n.0.ctl.probe == s.ctl.probe) || (
    is_before_the_check(p) && n.0.ctl.probe == 0)
    &&& is_before_the_check(q) ==> is_before_the_check(p)
    &&& q == Phase::AskingShortcut ==> p == Phase::HoldProbe
    &&& is_shortcut_phase(q) ==> p == Phase::AskingShortcut || is_shortcut_phase(p)
    &&& q == Phase::HoldSleep ==> p == Phase::HoldProbe && n.0.ctl.probe == s.ctl.probe + 1
    &&& p == Phase::HoldProbe && reply == ReplyV::Verified(Some(false)) ==> a is AskShortcut
    &&& p == Phase::HoldProbe && reply != ReplyV::Verified(Some(false)) ==> if s.ctl.probe < 2 {
        a is Sleep
    } else {
        a is ReleaseModifiers || a is AcquireGate
    }
    &&& q == Phase::PressVerify ==> p == Phase::PressSleep
    &&& p == Phase::PressVerify && reply == ReplyV::Verified(Some(true)) ==> a is ReleaseModifiers
        || a is AcquireGate
    // The modifiers.
    &&& a is ReleaseModifiers ==> a->ReleaseModifiers_0 == r.held && holds_any(r.held)
    &&& a is AcquireGate ==> p == Phase::Releasing || !holds_any(r.held)
    // The shortcut.
    &&& q == Phase::Pressing ==> p == Phase::AskingShortcut || (p == Phase::PressVerify
        && n.0.ctl.steps_left + 1 == s.ctl.steps_left)
    &&& q == Phase::PressSleep ==> p == Phase::Pressing && n.0.ctl.steps_left == s.ctl.steps_left
    &&& q == Phase::PressVerify ==> p == Phase::PressSleep && n.0.ctl.steps_left == s.ctl.steps_left
    // The deletion.
    &&& q == Phase::Deleting ==> (p == Phase::DeletePoll && found_typing(reply) && n.0.ctl.round
        == s.ctl.round + 1 && s.ctl.round < 2) || ((p == Phase::Acquiring || p == Phase::ProbePoll)
        && n.0.ctl.round == 0)
    &&& q == Phase::DeleteSleep ==> p == Phase::Deleting && n.0.ctl.round == s.ctl.round
    &&& q == Phase::DeletePoll ==> p == Phase::DeleteSleep && n.0.ctl.round == s.ctl.round
    &&& a is Keys || a is Text ==> p == Phase::Deleting || p == Phase::ReplayingKeys || (p
        == Phase::DeletePoll && (found_typing(reply) && !n.0.ctl.suspicious ==> s.ctl.round >= 2))
    // The end.
    &&& a is Announce ==> a->sound == c.play_sound && a->switched == s.ctl.switching
    &&& q == Phase::EchoPoll || q == Phase::EchoSleep ==> is_echo_phase(p)
    &&& a is Finish ==> match a->aftermath {
        Aftermath::Nothing => !(p == Phase::EchoPoll),
        Aftermath::KeyStillDown => (p == Phase::Begin || p == Phase::WaitSleep) && r.trigger_down
            && s.ctl.live,
        Aftermath::Uncertain { layout_changed } => is_early(p) && layout_changed
            == s.ctl.switching && n.0.ctl.suspicious,
        Aftermath::Unplaced => p == Phase::EchoPoll && n.0.ctl.suspicious,
        Aftermath::Reassemble => p == Phase::EchoPoll && !n.0.ctl.suspicious,
    }
    &&& p == Phase::EchoPoll && a is Finish ==> a->applied
}

#[verifier::spinoff_prover]
#[verifier::rlimit(80)]
proof fn lemma_asks_waiting(c: Correction, db: LayoutDb, s: RunV, reply: ReplyV, r: Readings)
    requires
        is_waiting(s.ctl.phase),
        expects(s.ctl.phase, reply),
    ensures
        asks(c, db, s, reply, r),
{
    reveal(step);
    match s.ctl.phase {
        Phase::Begin => {
            reveal(begin);
            reveal(wait_on);
            reveal(hold);
        },
        Phase::WaitPoll => {
            reveal(on_wait_poll);
        },
        Phase::WaitSleep => {
            reveal(wait_on);
            reveal(hold);
        },
        Phase::Listing => {
            reveal(on_listed);
        },
        Phase::Switching => {
            reveal(on_switched);
            reveal(hold);
        },
        _ => {},
    }
}

#[verifier::spinoff_prover]
#[verifier::rlimit(80)]
proof fn lemma_asks_settling(c: Correction, db: LayoutDb, s: RunV, reply: ReplyV, r: Readings)
    requires
        is_settling(s.ctl.phase),
        expects(s.ctl.phase, reply),
    ensures
        asks(c, db, s, reply, r),
{
    reveal(step);
    match s.ctl.phase {
        Phase::AbsorbPoll => {
            reveal(on_absorb_poll);
            reveal(hold);
        },
        Phase::SettleSleep => {
            reveal(hold);
        },
        Phase::HoldProbe => {
            reveal(on_hold_probe);
        },
        _ => {},
    }
}

#[verifier::spinoff_prover]
#[verifier::rlimit(80)]
proof fn lemma_asks_pressing(c: Correction, db: LayoutDb, s: RunV, reply: ReplyV, r: Readings)
    requires
        is_pressing(s.ctl.phase),
        expects(s.ctl.phase, reply),
    ensures
        asks(c, db, s, reply, r),
{
    reveal(step);
    match s.ctl.phase {
        Phase::AskingShortcut => {
            reveal(on_shortcut);
        },
        Phase::Pressing => {
            reveal(on_pressed);
        },
        Phase::PressVerify => {
            reveal(on_press_verify);
        },
        Phase::Acquiring => {
            reveal(on_gate);
        },
        _ => {},
    }
}

#[verifier::spinoff_prover]
#[verifier::rlimit(80)]
proof fn lemma_asks_erasing(c: Correction, db: LayoutDb, s: RunV, reply: ReplyV, r: Readings)
    requires
        is_erasing(s.ctl.phase),
        expects(s.ctl.phase, reply),
    ensures
        asks(c, db, s, reply, r),
{
    reveal(step);
    match s.ctl.phase {
        Phase::Deleting => {
            reveal(on_deleted);
        },
        Phase::DeletePoll => {
            reveal(on_delete_poll);
        },
        _ => {},
    }
}

#[verifier::spinoff_prover]
#[verifier::rlimit(80)]
proof fn lemma_asks_replaying(c: Correction, db: LayoutDb, s: RunV, reply: ReplyV, r: Readings)
    requires
        s.ctl.phase == Phase::ReplayingKeys || s.ctl.phase == Phase::ReplayingText,
        expects(s.ctl.phase, reply),
    ensures
        asks(c, db, s, reply, r),
{
    reveal(step);
    reveal(announce);
    reveal(on_keys);
    reveal(on_text);
}

#[verifier::spinoff_prover]
#[verifier::rlimit(80)]
proof fn lemma_asks_later(c: Correction, db: LayoutDb, s: RunV, reply: ReplyV, r: Readings)
    requires
        !is_early(s.ctl.phase),
        !is_emitting(s.ctl.phase),
        expects(s.ctl.phase, reply),
    ensures
        asks(c, db, s, reply, r),
{
    reveal(step);
    match s.ctl.phase {
        Phase::FlushPoll => {
            reveal(on_flush_poll);
        },
        Phase::Flushing => {
            reveal(on_flushed);
        },
        Phase::LastPoll => {
            reveal(on_last_poll);
            reveal(announce);
        },
        Phase::LastFlush => {
            reveal(announce);
        },
        Phase::ProbePoll => {
            reveal(on_probe_poll);
            reveal(announce);
        },
        Phase::Announcing => {
            reveal(on_announced);
        },
        Phase::EchoPoll => {
            reveal(on_echo_poll);
        },
        _ => {},
    }
}

proof fn lemma_asks(c: Correction, db: LayoutDb, s: RunV, reply: ReplyV, r: Readings)
    requires
        expects(s.ctl.phase, reply),
    ensures
        asks(c, db, s, reply, r),
{
    let p = s.ctl.phase;
    if is_waiting(p) {
        lemma_asks_waiting(c, db, s, reply, r);
    } else if is_settling(p) {
        lemma_asks_settling(c, db, s, reply, r);
    } else if is_pressing(p) {
        lemma_asks_pressing(c, db, s, reply, r);
    } else if is_erasing(p) {
        lemma_asks_erasing(c, db, s, reply, r);
    } else if is_emitting(p) {
        lemma_asks_replaying(c, db, s, reply, r);
    } else {
        lemma_asks_later(c, db, s, reply, r);
    }
}

/// What is known of the last answer of a run.
proof fn lemma_last(c: Correction, db: LayoutDb, live: bool, inputs: Seq<Input>)
    requires
        inputs.len() > 0,
        follows(c, db, live, inputs),
    ensures
        follows(c, db, live, inputs.drop_last()),
        expects(state_after(c, db, live, inputs.drop_last()).ctl.phase, inputs.last().reply),
        asks(
            c,
            db,
            state_after(c, db, live, inputs.drop_last()),
            inputs.last().reply,
            inputs.last().r,
        ),
{
    lemma_follows_prefix(c, db, live, inputs);
    lemma_asks(
        c,
        db,
        state_after(c, db, live, inputs.drop_last()),
        inputs.last().reply,
        inputs.last().r,
    );
}

proof fn lemma_layout(c: Correction, db: LayoutDb, live: bool, inputs: Seq<Input>)
    requires
        follows(c, db, live, inputs),
    ensures
        ({
            let s = state_after(c, db, live, inputs);
            &&& s.ctl.switching == (c.from@ != c.to@)
            &&& s.ctl.live == live
            &&& layout_inv(s)
        }),
    decreases inputs.len(),
{
    if inputs.len() > 0 {
        lemma_last(c, db, live, inputs);
        lemma_layout(c, db, live, inputs.drop_last());
    }
}

// ─── The layout ──────────────────────────────────────────────────────

/// Only a layout that the system has enabled, as far as it says, is
/// switched to; where it says otherwise the run ends and nothing happened.
pub proof fn law_only_an_enabled_layout_is_switched_to(
    c: Correction,
    db: LayoutDb,
    live: bool,
    inputs: Seq<Input>,
)
    requires
        inputs.len() > 0,
        follows(c, db, live, inputs),
    ensures
        ({
            let a = action_after(c, db, live, inputs);
            let reply = inputs.last().reply;
            &&& a is SwitchTo ==> reply is Layouts && c.from@ != c.to@
            &&& reply is Layouts ==> {
                let list = reply->Layouts_0;
                if list is None || exists|i: int|
                    0 <= i < list->0.len() && #[trigger] list->0[i] == c.to@ {
                    a is SwitchTo
                } else {
                    a == (ActionV::Finish { applied: false, aftermath: Aftermath::Nothing })
                }
            }
            &&& reply == ReplyV::Done(false) && inputs.len() > 1 && action_after(
                c,
                db,
                live,
                inputs.drop_last(),
            ) is SwitchTo ==> a == (ActionV::Finish {
                applied: false,
                aftermath: Aftermath::Nothing,
            })
        }),
{
    let init = inputs.drop_last();
    lemma_last(c, db, live, inputs);
    lemma_layout(c, db, live, inputs);
    if init.len() > 0 {
        lemma_last(c, db, live, init);
    }
    let s = state_after(c, db, live, init);
    if s.ctl.phase == Phase::Listing || s.ctl.phase == Phase::Switching {
        lemma_switch_step(c, db, s, inputs.last().reply, inputs.last().r);
    }
}

proof fn lemma_switch_step(c: Correction, db: LayoutDb, s: RunV, reply: ReplyV, r: Readings)
    requires
        s.ctl.phase == Phase::Listing || s.ctl.phase == Phase::Switching,
        expects(s.ctl.phase, reply),
    ensures
        ({
            let a = step(c, db, s, reply, r).1;
            &&& s.ctl.phase == Phase::Listing ==> reply is Layouts && if reply->Layouts_0 is None
                || reply->Layouts_0->0.contains(c.to@) {
                a is SwitchTo
            } else {
                a == (ActionV::Finish { applied: false, aftermath: Aftermath::Nothing })
            }
            &&& s.ctl.phase == Phase::Switching && reply == ReplyV::Done(false) ==> a == (
            ActionV::Finish { applied: false, aftermath: Aftermath::Nothing })
        }),
{
    reveal(step);
    reveal(on_listed);
    reveal(on_switched);
}

/// A replacement within one layout leaves the layout alone: nothing about it
/// is asked, switched or pressed.
pub proof fn law_a_replacement_leaves_the_layout_alone(
    c: Correction,
    db: LayoutDb,
    live: bool,
    inputs: Seq<Input>,
)
    requires
        inputs.len() > 0,
        follows(c, db, live, inputs),
        c.from@ == c.to@,
    ensures
        ({
            let a = action_after(c, db, live, inputs);
            &&& !(a is ListActive) && !(a is SwitchTo) && !(a is VerifySwitched)
            &&& !(a is AskShortcut) && !(a is PressShortcut)
            &&& a is Announce ==> !a->switched
        }),
{
    lemma_last(c, db, live, inputs);
    lemma_layout(c, db, live, inputs);
    lemma_layout(c, db, live, inputs.drop_last());
}

/// How often the switch was checked.
pub open spec fn checks(c: Correction, db: LayoutDb, live: bool, inputs: Seq<Input>) -> nat
    decreases inputs.len(),
{
    if inputs.len() == 0 {
        0
    } else {
        checks(c, db, live, inputs.drop_last()) + if action_after(c, db, live, inputs)
            is VerifySwitched {
            1nat
        } else {
            0
        }
    }
}

/// The host was asked for the desktop's own shortcut.
pub open spec fn asked_for_the_shortcut(
    c: Correction,
    db: LayoutDb,
    live: bool,
    inputs: Seq<Input>,
) -> bool
    decreases inputs.len(),
{
    inputs.len() > 0 && (action_after(c, db, live, inputs) is AskShortcut
        || asked_for_the_shortcut(c, db, live, inputs.drop_last()))
}

proof fn lemma_checks(c: Correction, db: LayoutDb, live: bool, inputs: Seq<Input>)
    requires
        follows(c, db, live, inputs),
    ensures
        ({
            let s = state_after(c, db, live, inputs);
            let n = checks(c, db, live, inputs);
            &&& is_before_the_check(s.ctl.phase) ==> n == 0
            &&& s.ctl.phase == Phase::HoldProbe ==> n == s.ctl.probe + 1
            &&& s.ctl.phase == Phase::HoldSleep ==> n == s.ctl.probe
            &&& is_shortcut_phase(s.ctl.phase) || s.ctl.phase == Phase::AskingShortcut
                ==> asked_for_the_shortcut(c, db, live, inputs)
        }),
    decreases inputs.len(),
{
    if inputs.len() > 0 {
        lemma_last(c, db, live, inputs);
        lemma_checks(c, db, live, inputs.drop_last());
    }
}

/// A switch must be seen to hold: it is checked three times over before the
/// word is touched, a pause between the checks, and one check that fails
/// sends the run to the desktop's own shortcut.
pub proof fn law_a_switch_is_checked_three_times(
    c: Correction,
    db: LayoutDb,
    live: bool,
    inputs: Seq<Input>,
)
    requires
        inputs.len() > 0,
        follows(c, db, live, inputs),
        inputs.last().reply is Verified,
        !asked_for_the_shortcut(c, db, live, inputs.drop_last()),
    ensures
        ({
            let a = action_after(c, db, live, inputs);
            let n = checks(c, db, live, inputs.drop_last());
            if inputs.last().reply == ReplyV::Verified(Some(false)) {
                a is AskShortcut
            } else if n < 3 {
                a is Sleep
            } else {
                a is ReleaseModifiers || a is AcquireGate
            }
        }),
{
    lemma_last(c, db, live, inputs);
    lemma_checks(c, db, live, inputs.drop_last());
}

/// How often the desktop's own shortcut was pressed.
pub open spec fn shortcut_presses(c: Correction, db: LayoutDb, live: bool, inputs: Seq<Input>) -> nat
    decreases inputs.len(),
{
    if inputs.len() == 0 {
        0
    } else {
        shortcut_presses(c, db, live, inputs.drop_last()) + if action_after(c, db, live, inputs)
            is PressShortcut {
            1nat
        } else {
            0
        }
    }
}

/// As often as the shortcut may be pressed: once for each layout, and twice
/// where their number is not known.
pub open spec fn presses_allowed(inputs: Seq<Input>) -> nat
    decreases inputs.len(),
{
    if inputs.len() == 0 {
        0
    } else if inputs.last().reply is Shortcut {
        if !inputs.last().reply->found {
            0
        } else if inputs.last().reply->layouts is None {
            2
        } else {
            inputs.last().reply->layouts->0 as nat
        }
    } else {
        presses_allowed(inputs.drop_last())
    }
}

proof fn lemma_shortcut_step(c: Correction, db: LayoutDb, s: RunV, reply: ReplyV, r: Readings)
    requires
        expects(s.ctl.phase, reply),
        s.ctl.phase == Phase::AskingShortcut || s.ctl.phase == Phase::PressVerify,
    ensures
        ({
            let n = step(c, db, s, reply, r);
            &&& s.ctl.phase == Phase::AskingShortcut ==> reply is Shortcut
            &&& reply is Shortcut ==> {
                let most = if !reply->found {
                    0int
                } else if reply->layouts is None {
                    2
                } else {
                    reply->layouts->0 as int
                };
                if most == 0 {
                    n.1 == (ActionV::Finish { applied: false, aftermath: Aftermath::Nothing })
                } else {
                    n.1 is PressShortcut && n.0.ctl.steps_left + 1 == most
                }
            }
            &&& s.ctl.phase == Phase::PressVerify && reply != ReplyV::Verified(Some(true))
                ==> if s.ctl.steps_left == 0 {
                n.1 == (ActionV::Finish { applied: false, aftermath: Aftermath::Nothing })
            } else {
                n.1 is PressShortcut
            }
        }),
{
    reveal(step);
    reveal(on_shortcut);
    reveal(on_press_verify);
}

/// The shortcut was never pressed before it was asked for.
proof fn lemma_presses(c: Correction, db: LayoutDb, live: bool, inputs: Seq<Input>)
    requires
        follows(c, db, live, inputs),
    ensures
        ({
            let s = state_after(c, db, live, inputs);
            let n = shortcut_presses(c, db, live, inputs);
            &&& is_before_the_check(s.ctl.phase) || s.ctl.phase == Phase::HoldProbe || s.ctl.phase
                == Phase::HoldSleep || s.ctl.phase == Phase::AskingShortcut ==> n == 0
            &&& is_shortcut_phase(s.ctl.phase) ==> n + s.ctl.steps_left == presses_allowed(inputs)
            &&& n == 0 || n <= presses_allowed(inputs)
        }),
    decreases inputs.len(),
{
    if inputs.len() > 0 {
        let init = inputs.drop_last();
        let s = state_after(c, db, live, init);
        lemma_last(c, db, live, inputs);
        lemma_presses(c, db, live, init);
        if s.ctl.phase == Phase::AskingShortcut || s.ctl.phase == Phase::PressVerify {
            lemma_shortcut_step(c, db, s, inputs.last().reply, inputs.last().r);
        }
    }
}

/// The desktop's own shortcut is pressed once for each of its layouts at
/// most, until the wanted one is seen; then the run goes on, and without it
/// the run ends with the word untouched.
pub proof fn law_the_shortcut_goes_round_once(
    c: Correction,
    db: LayoutDb,
    live: bool,
    inputs: Seq<Input>,
)
    requires
        inputs.len() > 0,
        follows(c, db, live, inputs),
        asked_for_the_shortcut(c, db, live, inputs.drop_last()),
        inputs.last().reply is Verified || inputs.last().reply is Shortcut,
    ensures
        ({
            let a = action_after(c, db, live, inputs);
            let before = shortcut_presses(c, db, live, inputs.drop_last());
            if inputs.last().reply == ReplyV::Verified(Some(true)) {
                a is ReleaseModifiers || a is AcquireGate
            } else if before < presses_allowed(inputs) {
                a is PressShortcut
            } else {
                a == (ActionV::Finish { applied: false, aftermath: Aftermath::Nothing })
            }
        }),
{
    let init = inputs.drop_last();
    let s = state_after(c, db, live, init);
    lemma_last(c, db, live, inputs);
    lemma_presses(c, db, live, init);
    lemma_asked_means_past_the_check(c, db, live, init);
    lemma_shortcut_step(c, db, s, inputs.last().reply, inputs.last().r);
}

proof fn lemma_asked_means_past_the_check(
    c: Correction,
    db: LayoutDb,
    live: bool,
    inputs: Seq<Input>,
)
    requires
        follows(c, db, live, inputs),
        asked_for_the_shortcut(c, db, live, inputs),
    ensures
        ({
            let p = state_after(c, db, live, inputs).ctl.phase;
            !is_before_the_check(p) && p != Phase::HoldProbe && p != Phase::HoldSleep
        }),
    decreases inputs.len(),
{
    lemma_last(c, db, live, inputs);
    if !(action_after(c, db, live, inputs) is AskShortcut) {
        lemma_asked_means_past_the_check(c, db, live, inputs.drop_last());
    }
}

// ─── The word ────────────────────────────────────────────────────────

/// Nothing is sent under a held modifier: those held are lifted first, just
/// those, and the keyboard is taken only then.
pub proof fn law_modifiers_are_lifted_first(
    c: Correction,
    db: LayoutDb,
    live: bool,
    inputs: Seq<Input>,
)
    requires
        inputs.len() > 0,
        follows(c, db, live, inputs),
    ensures
        ({
            let a = action_after(c, db, live, inputs);
            let m = inputs.last().r.held;
            &&& a is ReleaseModifiers ==> a->ReleaseModifiers_0 == m && holds_any(m)
            &&& a is AcquireGate && holds_any(m) ==> inputs.len() > 1 && action_after(
                c,
                db,
                live,
                inputs.drop_last(),
            ) is ReleaseModifiers
        }),
{
    lemma_last(c, db, live, inputs);
    if inputs.len() > 1 {
        lemma_last(c, db, live, inputs.drop_last());
    }
}

/// How many bursts of backspaces there were in a row, looks and sleeps
/// between them aside.
pub open spec fn bursts(c: Correction, db: LayoutDb, live: bool, inputs: Seq<Input>) -> nat
    decreases inputs.len(),
{
    if inputs.len() == 0 {
        0
    } else {
        let a = action_after(c, db, live, inputs);
        if a is Backspaces {
            1 + bursts(c, db, live, inputs.drop_last())
        } else if a is Poll || a is Sleep {
            bursts(c, db, live, inputs.drop_last())
        } else {
            0
        }
    }
}

spec fn is_probing(p: Phase) -> bool {
    p == Phase::ProbeSleep || p == Phase::ProbePoll
}

proof fn lemma_bursts(c: Correction, db: LayoutDb, live: bool, inputs: Seq<Input>)
    requires
        follows(c, db, live, inputs),
    ensures
        ({
            let s = state_after(c, db, live, inputs);
            let n = bursts(c, db, live, inputs);
            &&& is_erasing(s.ctl.phase) ==> n == s.ctl.round + 1
            &&& is_early(s.ctl.phase) || is_probing(s.ctl.phase) || s.ctl.phase
                == Phase::ReplayingKeys || s.ctl.phase == Phase::ReplayingText ==> n == 0
        }),
    decreases inputs.len(),
{
    if inputs.len() > 0 {
        let init = inputs.drop_last();
        let s = state_after(c, db, live, init);
        lemma_last(c, db, live, inputs);
        lemma_bursts(c, db, live, init);
        lemma_burst_phases(c, db, s, inputs.last().reply, inputs.last().r);
    }
}

#[verifier::spinoff_prover]
#[verifier::rlimit(80)]
proof fn lemma_burst_phases(c: Correction, db: LayoutDb, s: RunV, reply: ReplyV, r: Readings)
    requires
        expects(s.ctl.phase, reply),
    ensures
        ({
            let n = step(c, db, s, reply, r);
            let q = n.0.ctl.phase;
            &&& q == Phase::DeleteSleep ==> n.1 is Sleep
            &&& q == Phase::DeletePoll ==> n.1 is Poll
            &&& (q == Phase::ReplayingKeys) == (n.1 is Keys)
            &&& (q == Phase::ReplayingText) == (n.1 is Text)
            &&& is_early(q) ==> is_early(s.ctl.phase)
            &&& is_probing(q) ==> is_probing(s.ctl.phase) || s.ctl.phase == Phase::ReplayingKeys
                || s.ctl.phase == Phase::ReplayingText
        }),
{
    let p = s.ctl.phase;
    crate::engine::correction_laws::lemma_step(c, db, s, reply, r);
    if is_waiting(p) {
        lemma_early_phases(c, db, s, reply, r);
    } else if is_settling(p) || is_pressing(p) {
        lemma_early_phases(c, db, s, reply, r);
    } else {
        lemma_late_phases(c, db, s, reply, r);
    }
}

#[verifier::spinoff_prover]
#[verifier::rlimit(80)]
proof fn lemma_early_phases(c: Correction, db: LayoutDb, s: RunV, reply: ReplyV, r: Readings)
    requires
        expects(s.ctl.phase, reply),
        is_early(s.ctl.phase),
    ensures
        ({
            let q = step(c, db, s, reply, r).0.ctl.phase;
            is_early(q) || q == Phase::Finished || q == Phase::Deleting
        }),
{
    reveal(step);
    match s.ctl.phase {
        Phase::Begin => {
            reveal(begin);
            reveal(wait_on);
            reveal(hold);
        },
        Phase::WaitPoll => {
            reveal(on_wait_poll);
        },
        Phase::WaitSleep => {
            reveal(wait_on);
            reveal(hold);
        },
        Phase::Listing => {
            reveal(on_listed);
        },
        Phase::Switching => {
            reveal(on_switched);
            reveal(hold);
        },
        Phase::AbsorbPoll => {
            reveal(on_absorb_poll);
            reveal(hold);
        },
        Phase::SettleSleep => {
            reveal(hold);
        },
        Phase::HoldProbe => {
            reveal(on_hold_probe);
        },
        Phase::AskingShortcut => {
            reveal(on_shortcut);
        },
        Phase::Pressing => {
            reveal(on_pressed);
        },
        Phase::PressVerify => {
            reveal(on_press_verify);
        },
        Phase::Acquiring => {
            reveal(on_gate);
        },
        _ => {},
    }
}

#[verifier::spinoff_prover]
#[verifier::rlimit(80)]
proof fn lemma_late_phases(c: Correction, db: LayoutDb, s: RunV, reply: ReplyV, r: Readings)
    requires
        expects(s.ctl.phase, reply),
        !is_early(s.ctl.phase),
    ensures
        ({
            let n = step(c, db, s, reply, r);
            let q = n.0.ctl.phase;
            &&& !is_early(q)
            &&& q == Phase::DeleteSleep ==> n.1 is Sleep
            &&& q == Phase::DeletePoll ==> n.1 is Poll
            &&& is_probing(q) ==> is_probing(s.ctl.phase) || s.ctl.phase == Phase::ReplayingKeys
                || s.ctl.phase == Phase::ReplayingText
        }),
{
    reveal(step);
    match s.ctl.phase {
        Phase::Deleting => {
            reveal(on_deleted);
        },
        Phase::DeletePoll => {
            reveal(on_delete_poll);
        },
        Phase::ReplayingKeys => {
            reveal(announce);
            reveal(on_keys);
        },
        Phase::ReplayingText => {
            reveal(announce);
            reveal(on_text);
        },
        Phase::FlushPoll => {
            reveal(on_flush_poll);
        },
        Phase::Flushing => {
            reveal(on_flushed);
        },
        Phase::LastPoll => {
            reveal(on_last_poll);
            reveal(announce);
        },
        Phase::LastFlush => {
            reveal(announce);
        },
        Phase::ProbePoll => {
            reveal(on_probe_poll);
            reveal(announce);
        },
        Phase::Announcing => {
            reveal(on_announced);
        },
        Phase::EchoPoll => {
            reveal(on_echo_poll);
        },
        _ => {},
    }
}

/// What lands during a deletion is deleted too: a replay that follows a look
/// which found typing comes only after three bursts in a row, and there are
/// never more than three.
pub proof fn law_stragglers_are_erased_too(
    c: Correction,
    db: LayoutDb,
    live: bool,
    inputs: Seq<Input>,
)
    requires
        inputs.len() > 0,
        follows(c, db, live, inputs),
    ensures
        ({
            let a = action_after(c, db, live, inputs);
            &&& (a is Keys || a is Text) && found_typing(inputs.last().reply) && !state_after(
                c,
                db,
                live,
                inputs,
            ).ctl.suspicious ==> bursts(c, db, live, inputs.drop_last()) >= 3
            &&& a is Backspaces ==> bursts(c, db, live, inputs) <= 3
        }),
{
    lemma_last(c, db, live, inputs);
    lemma_bursts(c, db, live, inputs.drop_last());
    lemma_bursts(c, db, live, inputs);
}

// ─── The end ─────────────────────────────────────────────────────────

/// The correction was announced.
pub open spec fn was_announced(c: Correction, db: LayoutDb, live: bool, inputs: Seq<Input>) -> bool
    decreases inputs.len(),
{
    inputs.len() > 0 && (action_after(c, db, live, inputs) is Announce || was_announced(
        c,
        db,
        live,
        inputs.drop_last(),
    ))
}

proof fn lemma_announced(c: Correction, db: LayoutDb, live: bool, inputs: Seq<Input>)
    requires
        follows(c, db, live, inputs),
    ensures
        is_echo_phase(state_after(c, db, live, inputs).ctl.phase) ==> was_announced(
            c,
            db,
            live,
            inputs,
        ),
    decreases inputs.len(),
{
    if inputs.len() > 0 {
        lemma_last(c, db, live, inputs);
        lemma_announced(c, db, live, inputs.drop_last());
    }
}

/// What is announced is true: the sound is the one that was asked for, a
/// change of layout is told exactly where there is one, and the buffer is
/// put together again only after a correction that was announced, applied
/// and free of anything that cannot be placed.
pub proof fn law_what_is_announced_is_true(
    c: Correction,
    db: LayoutDb,
    live: bool,
    inputs: Seq<Input>,
)
    requires
        inputs.len() > 0,
        follows(c, db, live, inputs),
    ensures
        ({
            let a = action_after(c, db, live, inputs);
            let s = state_after(c, db, live, inputs);
            &&& a is Announce ==> a->sound == c.play_sound && a->switched == (c.from@ != c.to@)
            &&& a is Finish ==> match a->aftermath {
                Aftermath::Nothing => true,
                Aftermath::KeyStillDown => live && inputs.last().r.trigger_down,
                Aftermath::Uncertain { layout_changed } => s.ctl.suspicious && layout_changed == (
                c.from@ != c.to@),
                Aftermath::Unplaced => a->applied && s.ctl.suspicious && was_announced(
                    c,
                    db,
                    live,
                    inputs,
                ),
                Aftermath::Reassemble => a->applied && !s.ctl.suspicious && was_announced(
                    c,
                    db,
                    live,
                    inputs,
                ),
            }
        }),
{
    lemma_last(c, db, live, inputs);
    lemma_layout(c, db, live, inputs.drop_last());
    lemma_announced(c, db, live, inputs.drop_last());
}

} // verus!
