//! How long a correction waits, and for what.

use vstd::prelude::*;

use crate::engine::correction::{
    announce, begin, clock_ok, expects, hold, on_absorb_poll, on_announced, on_echo_poll,
    on_flush_poll, on_flushed, on_keys, on_probe_poll, on_switched, on_text, step, wait_on,
    ActionV, Aftermath, KeysOutcome, Phase, Readings, ReplyV, RunV,
};
use crate::engine::dialogue_laws::holds_any;
use crate::engine::types::Correction;
use crate::layouts::LayoutDb;

verus! {

/// The user typed something meanwhile that the buffer does not know of.
pub open spec fn swallowed_something(s: RunV) -> bool {
    s.tail.len() > 0 || s.ctl.suspicious || s.ctl.resume is Some
}

/// While the finger is on the hotkey the run only looks on, for three
/// seconds at most, and no longer than up to a separator or something that
/// cannot be placed. Then it ends, and nothing happened; the buffer is given
/// back what it missed, where it missed anything. Once the finger is off,
/// the run goes on.
pub proof fn law_the_finger_is_waited_for(
    c: Correction,
    db: LayoutDb,
    s: RunV,
    reply: ReplyV,
    r: Readings,
)
    requires
        s.ctl.phase == Phase::Begin || s.ctl.phase == Phase::WaitSleep,
        expects(s.ctl.phase, reply),
        clock_ok(r),
    ensures
        ({
            let n = step(c, db, s, reply, r);
            let a = n.1;
            let clear = !s.ctl.suspicious && s.ctl.resume is None;
            &&& r.trigger_down && s.ctl.phase == Phase::Begin ==> (a is Poll <==> s.ctl.live
                && clear)
            &&& r.trigger_down && s.ctl.phase == Phase::Begin && a is Poll ==> n.0.ctl.deadline
                == r.now.nanos + 3_000_000_000
            &&& r.trigger_down && s.ctl.phase == Phase::WaitSleep ==> (a is Poll <==> clear
                && r.now.nanos < s.ctl.deadline)
            &&& r.trigger_down && !(a is Poll) ==> a is Finish && !a->applied && (a->aftermath
                == Aftermath::KeyStillDown <==> s.ctl.live && swallowed_something(s))
            &&& r.trigger_down ==> n.0.tail == s.tail && n.0.ctl.resume == s.ctl.resume
            &&& !r.trigger_down && s.ctl.switching ==> a is ListActive
            &&& !r.trigger_down ==> !(a is Finish && a->aftermath == Aftermath::KeyStillDown)
        }),
{
    reveal(step);
    reveal(begin);
    reveal(wait_on);
    reveal(hold);
}

/// A word is touched only in a pause: while the user types, the run looks
/// again, until three looks in a row found nothing and no modifier is held,
/// a separator came, or its time is up.
pub proof fn law_a_pause_in_typing_is_waited_for(
    c: Correction,
    db: LayoutDb,
    s: RunV,
    reply: ReplyV,
    r: Readings,
)
    requires
        s.ctl.phase == Phase::AbsorbPoll,
        expects(s.ctl.phase, reply),
        s.ctl.quiet < 3,
        !s.ctl.suspicious,
    ensures
        ({
            let n = step(c, db, s, reply, r);
            let w = reply->drain;
            let again = n.0.ctl.phase == Phase::AbsorbSleep;
            &&& again ==> n.1 is Sleep
            &&& w.resume is Some || w.suspicious || r.now.nanos >= s.ctl.deadline ==> !again
            &&& w.resume is None && !w.suspicious && r.now.nanos < s.ctl.deadline ==> {
                &&& w.saw_user_press ==> again && n.0.ctl.quiet == 0
                &&& !w.saw_user_press && holds_any(r.held) ==> again
                &&& !w.saw_user_press && s.ctl.quiet < 2 ==> again && n.0.ctl.quiet == s.ctl.quiet
                    + 1
                &&& !w.saw_user_press && s.ctl.quiet == 2 && !holds_any(r.held) ==> !again
            }
            &&& w.suspicious ==> n.1 == (ActionV::Finish {
                applied: false,
                aftermath: Aftermath::Uncertain { layout_changed: s.ctl.switching },
            })
        }),
{
    reveal(step);
    reveal(on_absorb_poll);
    reveal(hold);
}

/// After the switch the layout gets its time to settle before it is checked:
/// what is still missing of it is slept.
pub proof fn law_the_layout_gets_time_to_settle(
    c: Correction,
    db: LayoutDb,
    s: RunV,
    reply: ReplyV,
    r: Readings,
)
    requires
        s.ctl.phase == Phase::Switching && reply == ReplyV::Done(true) || s.ctl.phase
            == Phase::AbsorbPoll && reply is Window && s.ctl.switched_at is Some
            && s.ctl.switched_at->0.nanos <= r.now.nanos,
    ensures
        ({
            let n = step(c, db, s, reply, r);
            let switched = n.0.ctl.switched_at->0.nanos;
            &&& n.0.ctl.switched_at is Some
            &&& s.ctl.phase == Phase::Switching ==> switched == r.now.nanos
            &&& s.ctl.phase == Phase::AbsorbPoll ==> n.0.ctl.switched_at == s.ctl.switched_at
            &&& n.0.ctl.phase == Phase::SettleSleep ==> n.1 is Sleep && r.now.nanos
                + n.1->Sleep_0 == switched + 80_000_000
            &&& n.1 is VerifySwitched ==> r.now.nanos >= switched + 80_000_000
            &&& !(n.1 is AcquireGate) && !(n.1 is ReleaseModifiers)
        }),
{
    reveal(step);
    reveal(on_switched);
    reveal(on_absorb_poll);
    reveal(hold);
}

/// Keystrokes that are held back are let go when two looks in a row found
/// none, when something came that cannot be placed, when sending them fails,
/// or when their time is up; until then there is another look.
pub proof fn law_the_keyboard_is_held_until_it_is_quiet(
    c: Correction,
    db: LayoutDb,
    s: RunV,
    reply: ReplyV,
    r: Readings,
)
    requires
        s.ctl.phase == Phase::FlushPoll || s.ctl.phase == Phase::Flushing,
        expects(s.ctl.phase, reply),
        s.ctl.quiet < 2,
    ensures
        ({
            let n = step(c, db, s, reply, r);
            let late = r.now.nanos >= s.ctl.deadline;
            &&& n.1 is ReleaseGate || n.1 is Sleep || n.1 is FlushHeld
            &&& s.ctl.phase == Phase::Flushing ==> (n.1 is ReleaseGate <==> reply == ReplyV::Done(
                false,
            ) || s.ctl.suspicious || late)
            &&& s.ctl.phase == Phase::FlushPoll && !(n.1 is FlushHeld) ==> (n.1 is ReleaseGate
                <==> s.ctl.quiet == 1 || n.0.ctl.suspicious || late)
            &&& n.1 is FlushHeld ==> n.0.ctl.quiet == 0
        }),
{
    reveal(step);
    reveal(on_flush_poll);
    reveal(on_flushed);
}

/// After a replay without a hold the run looks whether something landed in
/// it: nothing, and the correction is announced; something, and once three
/// looks in a row found no more it is all erased and typed again, the one
/// time that this is done.
pub proof fn law_an_intrusion_is_repaired_once(
    c: Correction,
    db: LayoutDb,
    s: RunV,
    reply: ReplyV,
    r: Readings,
)
    requires
        s.ctl.phase == Phase::ProbePoll,
        expects(s.ctl.phase, reply),
        s.ctl.quiet < 3,
        s.ctl.probe < 19,
        !s.ctl.suspicious,
    ensures
        ({
            let n = step(c, db, s, reply, r);
            let w = reply->drain;
            let landed = s.ctl.intruders > 0 || w.word_keys.len() > 0 || w.resume is Some;
            &&& !landed && !w.suspicious ==> n.1 is Announce && !n.0.ctl.suspicious
            &&& w.suspicious ==> n.1 is Announce
            &&& n.1 is Backspaces ==> landed && !w.saw_user_press && s.ctl.quiet == 2
                && s.ctl.repairs_left > 0 && n.0.ctl.repairs_left == s.ctl.repairs_left - 1
            &&& landed && !n.0.ctl.suspicious && w.saw_user_press ==> n.1 is Sleep
                && n.0.ctl.quiet == 0
            &&& s.ctl.intruders > 0 && w.word_keys.len() == 0 && w.resume is None && !w.suspicious
                && !w.saw_user_press ==> if s.ctl.quiet < 2 {
                n.1 is Sleep && n.0.ctl.quiet == s.ctl.quiet + 1
            } else if s.ctl.repairs_left > 0 {
                n.1 is Backspaces
            } else {
                n.1 is Announce && n.0.ctl.suspicious
            }
        }),
{
    reveal(step);
    reveal(on_probe_poll);
    reveal(announce);
}

/// After the announcement the run waits for its own keystrokes to come back,
/// for four tenths of a second at most; then it ends.
pub proof fn law_echoes_are_waited_for(
    c: Correction,
    db: LayoutDb,
    s: RunV,
    reply: ReplyV,
    r: Readings,
)
    requires
        s.ctl.phase == Phase::EchoPoll || s.ctl.phase == Phase::Announcing && s.ctl.live,
        expects(s.ctl.phase, reply),
        clock_ok(r),
    ensures
        ({
            let n = step(c, db, s, reply, r);
            &&& s.ctl.phase == Phase::Announcing ==> n.1 is Poll && n.0.ctl.deadline == r.now.nanos
                + 400_000_000
            &&& s.ctl.phase == Phase::EchoPoll ==> (n.1 is Finish <==> !reply->echo_pending
                || r.now.nanos >= s.ctl.deadline)
            &&& s.ctl.phase == Phase::EchoPoll && !(n.1 is Finish) ==> n.1 is Sleep
                && n.0.ctl.deadline == s.ctl.deadline
        }),
{
    reveal(step);
    reveal(on_announced);
    reveal(on_echo_poll);
}

/// A replay that went out is followed up: without a key stream it is
/// announced; with the keyboard held it is time to type out what was held,
/// for half a second at most; else the run looks whether something landed in
/// it. One that failed ends the run, and what is held is let go first.
pub proof fn law_a_replay_is_followed_up(
    c: Correction,
    db: LayoutDb,
    s: RunV,
    reply: ReplyV,
    r: Readings,
)
    requires
        s.ctl.phase == Phase::ReplayingKeys || s.ctl.phase == Phase::ReplayingText,
        expects(s.ctl.phase, reply),
        clock_ok(r),
    ensures
        ({
            let n = step(c, db, s, reply, r);
            let sent = reply == ReplyV::Keys(KeysOutcome::Sent) || reply == ReplyV::Done(true);
            let failed = reply == ReplyV::Keys(KeysOutcome::Failed) || reply == ReplyV::Done(false);
            &&& sent && !s.ctl.live ==> n.1 is Announce
            &&& sent && s.ctl.live && s.ctl.held ==> n.1 is Sleep && n.0.ctl.phase
                == Phase::FlushSleep && n.0.ctl.deadline == r.now.nanos + 500_000_000
            &&& sent && s.ctl.live && !s.ctl.held && s.ctl.suspicious ==> n.1 is Announce
            &&& sent && s.ctl.live && !s.ctl.held && !s.ctl.suspicious ==> n.1 is Sleep
                && n.0.ctl.phase == Phase::ProbeSleep && n.0.ctl.intruders == 0 && n.0.ctl.quiet
                == 0 && n.0.ctl.probe == 0
            &&& failed && s.ctl.held ==> n.1 is ReleaseGate
            &&& failed && !s.ctl.held ==> n.1 is Finish && n.1->applied == s.ctl.touched
        }),
{
    reveal(step);
    reveal(on_keys);
    reveal(on_text);
    reveal(announce);
}

} // verus!
