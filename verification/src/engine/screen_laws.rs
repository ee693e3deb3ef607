//! How many characters a correction has on screen at every point, and that
//! it erases exactly those.

use vstd::prelude::*;

use crate::engine::conservation::as_list;
use crate::engine::correction::{
    announce, begin, expects, hold, on_absorb_poll, on_announced, on_delete_poll, on_deleted,
    on_echo_poll, on_flush_poll, on_flushed, on_gate, on_hold_probe, on_keys, on_last_poll,
    on_listed, on_press_verify, on_pressed, on_probe_poll, on_shortcut, on_switched, on_text,
    on_wait_poll, step, wait_on, ActionV, KeysOutcome, Phase, Readings, ReplyV, RunV,
};
use crate::engine::correction_laws::{
    action_after, fits, follows, is_early, is_emitting, is_pressing, is_settling, is_waiting,
    lemma_fits, lemma_follows_prefix, lemma_step, state_after, Input,
};
use crate::engine::types::Correction;
use crate::layouts::LayoutDb;

verus! {

/// What one answer changes on screen, given what was asked: what the user
/// typed is there; what was erased is gone; what was typed for them is there.
pub open spec fn screen_change(asked: ActionV, reply: ReplyV) -> int {
    match reply {
        ReplyV::Window { drain, .. } => drain.word_keys.len() + if drain.resume is Some {
            1int
        } else {
            0
        },
        ReplyV::Done(true) => match asked {
            ActionV::Backspaces(n) => -(n as int),
            ActionV::Text(t) => t.len() as int,
            _ => 0,
        },
        ReplyV::Keys(KeysOutcome::Sent) => match asked {
            ActionV::Keys(keys) => keys.len() as int,
            _ => 0,
        },
        _ => 0,
    }
}

/// How many characters are on screen from the start of the word to the
/// caret: at first what the correction is to erase.
pub open spec fn on_screen_after(c: Correction, db: LayoutDb, live: bool, inputs: Seq<Input>) -> int
    decreases inputs.len(),
{
    if inputs.len() == 0 {
        c.backspaces as int
    } else {
        let init = inputs.drop_last();
        on_screen_after(c, db, live, init) + if init.len() == 0 {
            0
        } else {
            screen_change(action_after(c, db, live, init), inputs.last().reply)
        }
    }
}

/// The user typed something in the look that the answer is about.
pub open spec fn found_typing(reply: ReplyV) -> bool {
    screen_change(ActionV::Poll, reply) != 0
}

/// It never came to more characters than can be counted, and no replay was
/// sent off straight after a look that found something.
pub open spec fn is_calm(c: Correction, db: LayoutDb, live: bool, inputs: Seq<Input>) -> bool
    decreases inputs.len(),
{
    inputs.len() == 0 || {
        let a = action_after(c, db, live, inputs);
        &&& is_calm(c, db, live, inputs.drop_last())
        &&& on_screen_after(c, db, live, inputs) <= usize::MAX
        &&& a is Keys || a is Text ==> !found_typing(inputs.last().reply)
    }
}

/// How the machine's own counts go with what is on screen.
spec fn counts(c: Correction, s: RunV, asked: ActionV, shown: int) -> bool {
    let p = s.ctl.phase;
    &&& is_early(p) ==> shown == c.backspaces + s.tail.len() + as_list(s.ctl.resume).len()
    &&& p == Phase::Deleting ==> asked == ActionV::Backspaces(s.ctl.to_delete) && shown
        == s.ctl.to_delete
    &&& p == Phase::DeleteSleep || p == Phase::DeletePoll ==> shown == 0
    &&& p == Phase::ReplayingKeys ==> shown == 0 && asked is Keys && s.ctl.emitted
        == asked->Keys_0.len() as usize
    &&& p == Phase::ReplayingText ==> shown == 0 && asked is Text && s.ctl.emitted
        == asked->Text_0.len() as usize
    &&& p == Phase::ProbeSleep || p == Phase::ProbePoll ==> shown == s.ctl.emitted + s.ctl.intruders
}

spec fn counts_on(
    c: Correction,
    db: LayoutDb,
    s: RunV,
    asked: ActionV,
    shown: int,
    reply: ReplyV,
    r: Readings,
) -> bool {
    let n = step(c, db, s, reply, r);
    let now = shown + screen_change(asked, reply);
    &&& expects(s.ctl.phase, reply)
    &&& fits(s.ctl.phase, asked)
    &&& counts(c, s, asked, shown)
    &&& 0 <= shown <= usize::MAX
    &&& now <= usize::MAX
    &&& !n.0.ctl.suspicious
    &&& n.1 is Keys || n.1 is Text ==> !found_typing(reply)
}

spec fn counts_after(
    c: Correction,
    db: LayoutDb,
    s: RunV,
    asked: ActionV,
    shown: int,
    reply: ReplyV,
    r: Readings,
) -> bool {
    let n = step(c, db, s, reply, r);
    let now = shown + screen_change(asked, reply);
    now >= 0 && counts(c, n.0, n.1, now)
}

#[verifier::spinoff_prover]
#[verifier::rlimit(60)]
proof fn lemma_counts_waiting(
    c: Correction,
    db: LayoutDb,
    s: RunV,
    asked: ActionV,
    shown: int,
    reply: ReplyV,
    r: Readings,
)
    requires
        is_waiting(s.ctl.phase),
        counts_on(c, db, s, asked, shown, reply, r),
    ensures
        counts_after(c, db, s, asked, shown, reply, r),
{
    reveal(step);
    match s.ctl.phase {
        Phase::Begin => {
            reveal(begin);
            reveal(wait_on);
            reveal(hold);
        },
        Phase::WaitPoll => {
            reveal(on_wait_poll);
        },
        Phase::WaitSleep => {
            reveal(wait_on);
            reveal(hold);
        },
        Phase::Listing => {
            reveal(on_listed);
        },
        Phase::Switching => {
            reveal(on_switched);
            reveal(hold);
        },
        _ => {},
    }
}

#[verifier::spinoff_prover]
#[verifier::rlimit(60)]
proof fn lemma_counts_settling(
    c: Correction,
    db: LayoutDb,
    s: RunV,
    asked: ActionV,
    shown: int,
    reply: ReplyV,
    r: Readings,
)
    requires
        is_settling(s.ctl.phase) || is_pressing(s.ctl.phase),
        counts_on(c, db, s, asked, shown, reply, r),
    ensures
        counts_after(c, db, s, asked, shown, reply, r),
{
    reveal(step);
    match s.ctl.phase {
        Phase::AbsorbPoll => {
            reveal(on_absorb_poll);
            reveal(hold);
        },
        Phase::SettleSleep => {
            reveal(hold);
        },
        Phase::HoldProbe => {
            reveal(on_hold_probe);
        },
        Phase::AskingShortcut => {
            reveal(on_shortcut);
        },
        Phase::Pressing => {
            reveal(on_pressed);
        },
        Phase::PressVerify => {
            reveal(on_press_verify);
        },
        Phase::Acquiring => {
            reveal(on_gate);
        },
        _ => {},
    }
}

#[verifier::spinoff_prover]
#[verifier::rlimit(60)]
proof fn lemma_counts_deleting(
    c: Correction,
    db: LayoutDb,
    s: RunV,
    asked: ActionV,
    shown: int,
    reply: ReplyV,
    r: Readings,
)
    requires
        s.ctl.phase == Phase::Deleting || s.ctl.phase == Phase::DeleteSleep || s.ctl.phase
            == Phase::DeletePoll,
        counts_on(c, db, s, asked, shown, reply, r),
    ensures
        counts_after(c, db, s, asked, shown, reply, r),
{
    reveal(step);
    reveal(on_deleted);
    reveal(on_delete_poll);
}

#[verifier::spinoff_prover]
#[verifier::rlimit(60)]
proof fn lemma_counts_replaying(
    c: Correction,
    db: LayoutDb,
    s: RunV,
    asked: ActionV,
    shown: int,
    reply: ReplyV,
    r: Readings,
)
    requires
        s.ctl.phase == Phase::ReplayingKeys || s.ctl.phase == Phase::ReplayingText,
        counts_on(c, db, s, asked, shown, reply, r),
    ensures
        counts_after(c, db, s, asked, shown, reply, r),
{
    reveal(step);
    reveal(announce);
    reveal(on_keys);
    reveal(on_text);
}

#[verifier::spinoff_prover]
#[verifier::rlimit(60)]
proof fn lemma_counts_later(
    c: Correction,
    db: LayoutDb,
    s: RunV,
    asked: ActionV,
    shown: int,
    reply: ReplyV,
    r: Readings,
)
    requires
        !is_early(s.ctl.phase),
        !is_emitting(s.ctl.phase),
        counts_on(c, db, s, asked, shown, reply, r),
    ensures
        counts_after(c, db, s, asked, shown, reply, r),
{
    reveal(step);
    match s.ctl.phase {
        Phase::FlushPoll => {
            reveal(on_flush_poll);
        },
        Phase::Flushing => {
            reveal(on_flushed);
        },
        Phase::LastPoll => {
            reveal(on_last_poll);
            reveal(announce);
        },
        Phase::LastFlush => {
            reveal(announce);
        },
        Phase::ProbePoll => {
            reveal(on_probe_poll);
            reveal(announce);
        },
        Phase::Announcing => {
            reveal(on_announced);
        },
        Phase::EchoPoll => {
            reveal(on_echo_poll);
        },
        _ => {},
    }
}

proof fn lemma_counts(c: Correction, db: LayoutDb, live: bool, inputs: Seq<Input>)
    requires
        follows(c, db, live, inputs),
        is_calm(c, db, live, inputs),
        !state_after(c, db, live, inputs).ctl.suspicious,
    ensures
        inputs.len() > 0 ==> counts(
            c,
            state_after(c, db, live, inputs),
            action_after(c, db, live, inputs),
            on_screen_after(c, db, live, inputs),
        ),
        on_screen_after(c, db, live, inputs) >= 0,
    decreases inputs.len(),
{
    if inputs.len() > 0 {
        let init = inputs.drop_last();
        let s = state_after(c, db, live, init);
        let reply = inputs.last().reply;
        let r = inputs.last().r;
        let shown = on_screen_after(c, db, live, init);
        lemma_follows_prefix(c, db, live, inputs);
        lemma_step(c, db, s, reply, r);
        lemma_counts(c, db, live, init);
        let asked = if init.len() == 0 {
            ActionV::Poll
        } else {
            lemma_fits(c, db, live, init);
            action_after(c, db, live, init)
        };
        lemma_counts_once(c, db, s, asked, shown, reply, r);
    }
}

proof fn lemma_counts_once(
    c: Correction,
    db: LayoutDb,
    s: RunV,
    asked: ActionV,
    shown: int,
    reply: ReplyV,
    r: Readings,
)
    requires
        counts_on(c, db, s, asked, shown, reply, r),
    ensures
        counts_after(c, db, s, asked, shown, reply, r),
{
    let p = s.ctl.phase;
    if is_waiting(p) {
        lemma_counts_waiting(c, db, s, asked, shown, reply, r);
    } else if is_settling(p) || is_pressing(p) {
        lemma_counts_settling(c, db, s, asked, shown, reply, r);
    } else if p == Phase::ReplayingKeys || p == Phase::ReplayingText {
        lemma_counts_replaying(c, db, s, asked, shown, reply, r);
    } else if is_emitting(p) {
        lemma_counts_deleting(c, db, s, asked, shown, reply, r);
    } else {
        lemma_counts_later(c, db, s, asked, shown, reply, r);
    }
}

/// A correction erases what is its own and nothing else: every burst of
/// backspaces is exactly as long as what is on screen from the start of the
/// word to the caret, what the user typed meanwhile among it; and nothing is
/// typed again before all of that is gone. So long as the run can place what
/// the user types, and the user leaves it a moment without typing.
pub proof fn law_exactly_what_is_on_screen_is_erased(
    c: Correction,
    db: LayoutDb,
    live: bool,
    inputs: Seq<Input>,
)
    requires
        inputs.len() > 0,
        follows(c, db, live, inputs),
        is_calm(c, db, live, inputs),
        !state_after(c, db, live, inputs).ctl.suspicious,
    ensures
        ({
            let a = action_after(c, db, live, inputs);
            let shown = on_screen_after(c, db, live, inputs);
            &&& a is Backspaces ==> a->Backspaces_0 == shown
            &&& a is Keys || a is Text ==> shown == 0
        }),
{
    lemma_counts(c, db, live, inputs);
    lemma_fits(c, db, live, inputs);
}

} // verus!
