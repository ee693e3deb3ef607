//! What holds of every correction, whatever the host reports back.

use vstd::prelude::*;

use crate::engine::consts::INTRUSION_REPAIRS;
use crate::engine::correction::{
    absorbed, announce, begin, expects, hold, on_absorb_poll, on_announced, on_delete_poll,
    on_deleted, on_echo_poll, on_flush_poll, on_flushed, on_gate, on_hold_probe, on_keys,
    on_last_poll, on_listed, on_press_verify, on_pressed, on_probe_poll, on_shortcut, on_switched,
    on_text, on_wait_poll, replay_keys, start_state, step, text_to_type, wait_on, ActionV,
    KeysOutcome, Phase, Readings, ReplyV, RunV,
};
use crate::engine::heuristics::submits;
use crate::engine::types::Correction;
use crate::keys::{replay_of_events, KeyEvent, ReplayKey};
use crate::layouts::LayoutDb;

verus! {

/// One reply of the host, with its readings.
pub struct Input {
    pub reply: ReplyV,
    pub r: Readings,
}

/// The state after the replies so far.
pub open spec fn state_after(c: Correction, db: LayoutDb, live: bool, inputs: Seq<Input>) -> RunV
    decreases inputs.len(),
{
    if inputs.len() == 0 {
        start_state(c, live)
    } else {
        step(
            c,
            db,
            state_after(c, db, live, inputs.drop_last()),
            inputs.last().reply,
            inputs.last().r,
        ).0
    }
}

/// The action that answers the last reply.
pub open spec fn action_after(
    c: Correction,
    db: LayoutDb,
    live: bool,
    inputs: Seq<Input>,
) -> ActionV {
    step(
        c,
        db,
        state_after(c, db, live, inputs.drop_last()),
        inputs.last().reply,
        inputs.last().r,
    ).1
}

/// Every reply is of the kind that was asked for.
pub open spec fn follows(c: Correction, db: LayoutDb, live: bool, inputs: Seq<Input>) -> bool {
    forall|k: int|
        0 <= k < inputs.len() ==> expects(
            state_after(c, db, live, inputs.take(k)).ctl.phase,
            (#[trigger] inputs[k]).reply,
        )
}

/// An action that changes the text under the caret.
pub open spec fn is_emission(a: ActionV) -> bool {
    a is Backspaces || a is Keys || a is Text
}

/// The reply says that the keystrokes went out.
pub open spec fn went_out(reply: ReplyV) -> bool {
    reply == ReplyV::Done(true) || reply == ReplyV::Keys(KeysOutcome::Sent)
}

pub proof fn lemma_follows_prefix(c: Correction, db: LayoutDb, live: bool, inputs: Seq<Input>)
    requires
        follows(c, db, live, inputs),
        inputs.len() > 0,
    ensures
        follows(c, db, live, inputs.drop_last()),
        expects(
            state_after(c, db, live, inputs.drop_last()).ctl.phase,
            inputs.last().reply,
        ),
{
    let init = inputs.drop_last();
    assert forall|k: int| 0 <= k < init.len() implies expects(
        state_after(c, db, live, init.take(k)).ctl.phase,
        (#[trigger] init[k]).reply,
    ) by {
        assert(init[k] == inputs[k]);
        assert(init.take(k) =~= inputs.take(k));
    }
    let n = inputs.len() - 1;
    assert(inputs.take(n) =~= init);
    assert(inputs[n] == inputs.last());
}

// ─── The shape of one step ───────────────────────────────────────────

/// Before anything is emitted.
pub open spec fn is_early(p: Phase) -> bool {
    match p {
        Phase::Begin | Phase::WaitPoll | Phase::WaitSleep | Phase::Listing | Phase::Switching
        | Phase::AbsorbPoll | Phase::AbsorbSleep | Phase::SettleSleep | Phase::HoldProbe
        | Phase::HoldSleep | Phase::AskingShortcut | Phase::Pressing | Phase::PressSleep
        | Phase::PressVerify | Phase::Releasing | Phase::Acquiring => true,
        _ => false,
    }
}

/// The action and the phase that waits for its reply belong together.
pub open spec fn fits(p: Phase, a: ActionV) -> bool {
    &&& (p == Phase::Deleting) == (a is Backspaces)
    &&& (p == Phase::ReplayingKeys) == (a is Keys)
    &&& (p == Phase::ReplayingText) == (a is Text)
    &&& (p == Phase::Finished) == (a is Finish)
    &&& (p == Phase::Switching) == (a is SwitchTo)
    &&& (p == Phase::LettingGo || p == Phase::Closing) == (a is ReleaseGate)
}

/// The reply to an emission says that it went out.
pub open spec fn sends(p: Phase, reply: ReplyV) -> bool {
    (p == Phase::Deleting || p == Phase::ReplayingKeys || p == Phase::ReplayingText) && went_out(
        reply,
    )
}

/// Nothing went out in an early phase; something did in a late one.
pub open spec fn touch_inv(s: RunV) -> bool {
    let p = s.ctl.phase;
    &&& is_early(p) ==> !s.ctl.touched
    &&& !is_early(p) && p != Phase::Deleting && p != Phase::Closing && p != Phase::Finished
        ==> s.ctl.touched
}

/// Where the user's keystrokes may be held back: from the first deletion
/// until they are let go.
pub open spec fn hold_inv(s: RunV) -> bool {
    s.ctl.held ==> match s.ctl.phase {
        Phase::Deleting | Phase::ReplayingKeys | Phase::ReplayingText | Phase::FlushSleep
        | Phase::FlushPoll | Phase::Flushing | Phase::LettingGo | Phase::Closing => true,
        Phase::Announcing => !s.ctl.live,
        _ => false,
    }
}

/// The phases in which the layout may have been seen to be another one.
pub open spec fn is_in_doubt(p: Phase) -> bool {
    p == Phase::AskingShortcut || p == Phase::Pressing || p == Phase::PressSleep || p
        == Phase::PressVerify || p == Phase::Finished
}

/// What the budget leaves: before a replay one replay is owed on top of
/// the repairs.
pub open spec fn budget(s: RunV) -> int {
    let p = s.ctl.phase;
    if is_early(p) {
        1 + INTRUSION_REPAIRS
    } else if p == Phase::Deleting || p == Phase::DeleteSleep || p == Phase::DeletePoll {
        1 + s.ctl.repairs_left
    } else if p == Phase::Finished {
        0
    } else {
        s.ctl.repairs_left as int
    }
}

/// What the laws below need to know of one step.
pub open spec fn step_facts(
    c: Correction,
    db: LayoutDb,
    s: RunV,
    reply: ReplyV,
    r: Readings,
) -> bool {
    let n = step(c, db, s, reply, r);
    let p = s.ctl.phase;
    let q = n.0.ctl.phase;
    &&& fits(q, n.1)
    &&& touch_inv(s) ==> {
        &&& touch_inv(n.0)
        &&& n.0.ctl.touched == (s.ctl.touched || sends(p, reply))
        &&& n.1 matches ActionV::Finish { applied, .. } ==> applied == n.0.ctl.touched
    }
    &&& hold_inv(s) ==> {
        &&& hold_inv(n.0)
        &&& reply == ReplyV::Gate(true) ==> n.0.ctl.held
        &&& s.ctl.held && !n.0.ctl.held ==> p == Phase::LettingGo || p == Phase::Closing
    }
    &&& n.0.ctl.switching == s.ctl.switching
    &&& s.ctl.switching && is_waiting(p) && !is_waiting(q) && q != Phase::Finished
        ==> p == Phase::Switching && reply == ReplyV::Done(true)
    &&& reply == ReplyV::Verified(Some(false)) ==> is_in_doubt(q)
    &&& is_in_doubt(p) && !is_in_doubt(q) ==> reply == ReplyV::Verified(Some(true))
    &&& budget(n.0) + (if n.1 is Keys {
        1int
    } else {
        0
    }) <= budget(s)
    &&& n.0.tail == s.tail || (reply matches ReplyV::Window { drain, .. } && n.0.tail == s.tail
        + drain.word_keys)
    &&& n.0.ctl.resume == s.ctl.resume || (n.0.ctl.resume matches Some(x) && !submits(x.scancode))
    &&& n.1 matches ActionV::Keys(keys) ==> c.replay_keys matches Some(rk) && keys == replay_keys(
        rk@,
        n.0,
    )
    &&& n.1 matches ActionV::Text(t) ==> t == text_to_type(c, db, n.0, r.held.caps)
    &&& s.ctl.suspicious || (reply matches ReplyV::Window { drain, .. } && drain.suspicious)
        ==> n.0.ctl.suspicious
}

/// Before the layout has been switched.
pub open spec fn is_waiting(p: Phase) -> bool {
    match p {
        Phase::Begin | Phase::WaitPoll | Phase::WaitSleep | Phase::Listing | Phase::Switching => true,
        _ => false,
    }
}

#[verifier::spinoff_prover]
#[verifier::rlimit(40)]
proof fn lemma_step_waiting(c: Correction, db: LayoutDb, s: RunV, reply: ReplyV, r: Readings)
    requires
        is_waiting(s.ctl.phase),
        expects(s.ctl.phase, reply),
    ensures
        step_facts(c, db, s, reply, r),
{
    reveal(step);
    match s.ctl.phase {
        Phase::Begin => {
            reveal(begin);
            reveal(wait_on);
            reveal(hold);
        },
        Phase::WaitPoll => {
            reveal(on_wait_poll);
        },
        Phase::WaitSleep => {
            reveal(wait_on);
            reveal(hold);
        },
        Phase::Listing => {
            reveal(on_listed);
        },
        Phase::Switching => {
            reveal(on_switched);
            reveal(hold);
        },
        _ => {},
    }
}

/// From the switch to the check that it held.
pub open spec fn is_settling(p: Phase) -> bool {
    match p {
        Phase::AbsorbPoll | Phase::AbsorbSleep | Phase::SettleSleep | Phase::HoldProbe
        | Phase::HoldSleep => true,
        _ => false,
    }
}

#[verifier::spinoff_prover]
#[verifier::rlimit(40)]
proof fn lemma_step_settling(c: Correction, db: LayoutDb, s: RunV, reply: ReplyV, r: Readings)
    requires
        is_settling(s.ctl.phase),
        expects(s.ctl.phase, reply),
    ensures
        step_facts(c, db, s, reply, r),
{
    reveal(step);
    match s.ctl.phase {
        Phase::AbsorbPoll => {
            reveal(on_absorb_poll);
            reveal(hold);
        },
        Phase::SettleSleep => {
            reveal(hold);
        },
        Phase::HoldProbe => {
            reveal(on_hold_probe);
        },
        _ => {},
    }
}

/// From a switch that did not hold to the first deletion.
pub open spec fn is_pressing(p: Phase) -> bool {
    match p {
        Phase::AskingShortcut | Phase::Pressing | Phase::PressSleep | Phase::PressVerify
        | Phase::Releasing | Phase::Acquiring => true,
        _ => false,
    }
}

#[verifier::spinoff_prover]
#[verifier::rlimit(40)]
proof fn lemma_step_pressing(c: Correction, db: LayoutDb, s: RunV, reply: ReplyV, r: Readings)
    requires
        is_pressing(s.ctl.phase),
        expects(s.ctl.phase, reply),
    ensures
        step_facts(c, db, s, reply, r),
{
    reveal(step);
    match s.ctl.phase {
        Phase::AskingShortcut => {
            reveal(on_shortcut);
        },
        Phase::Pressing => {
            reveal(on_pressed);
        },
        Phase::PressVerify => {
            reveal(on_press_verify);
        },
        Phase::Acquiring => {
            reveal(on_gate);
        },
        _ => {},
    }
}

/// The deletion and the replay.
pub open spec fn is_emitting(p: Phase) -> bool {
    match p {
        Phase::Deleting | Phase::DeleteSleep | Phase::DeletePoll | Phase::ReplayingKeys
        | Phase::ReplayingText => true,
        _ => false,
    }
}

#[verifier::spinoff_prover]
#[verifier::rlimit(60)]
proof fn lemma_step_deleting(c: Correction, db: LayoutDb, s: RunV, reply: ReplyV, r: Readings)
    requires
        s.ctl.phase == Phase::Deleting || s.ctl.phase == Phase::DeleteSleep,
        expects(s.ctl.phase, reply),
    ensures
        step_facts(c, db, s, reply, r),
{
    reveal(step);
    reveal(on_deleted);
}

#[verifier::spinoff_prover]
#[verifier::rlimit(60)]
proof fn lemma_step_recounting(c: Correction, db: LayoutDb, s: RunV, reply: ReplyV, r: Readings)
    requires
        s.ctl.phase == Phase::DeletePoll,
        expects(s.ctl.phase, reply),
    ensures
        step_facts(c, db, s, reply, r),
{
    reveal(step);
    reveal(on_delete_poll);
}

#[verifier::spinoff_prover]
#[verifier::rlimit(60)]
proof fn lemma_step_replaying(c: Correction, db: LayoutDb, s: RunV, reply: ReplyV, r: Readings)
    requires
        s.ctl.phase == Phase::ReplayingKeys || s.ctl.phase == Phase::ReplayingText,
        expects(s.ctl.phase, reply),
    ensures
        step_facts(c, db, s, reply, r),
{
    reveal(step);
    reveal(announce);
    if s.ctl.phase == Phase::ReplayingKeys {
        reveal(on_keys);
    } else {
        reveal(on_text);
    }
}

proof fn lemma_step_emitting(c: Correction, db: LayoutDb, s: RunV, reply: ReplyV, r: Readings)
    requires
        is_emitting(s.ctl.phase),
        expects(s.ctl.phase, reply),
    ensures
        step_facts(c, db, s, reply, r),
{
    if s.ctl.phase == Phase::DeletePoll {
        lemma_step_recounting(c, db, s, reply, r);
    } else if s.ctl.phase == Phase::Deleting || s.ctl.phase == Phase::DeleteSleep {
        lemma_step_deleting(c, db, s, reply, r);
    } else {
        lemma_step_replaying(c, db, s, reply, r);
    }
}

#[verifier::spinoff_prover]
#[verifier::rlimit(40)]
proof fn lemma_step_after(c: Correction, db: LayoutDb, s: RunV, reply: ReplyV, r: Readings)
    requires
        !is_early(s.ctl.phase),
        !is_emitting(s.ctl.phase),
        expects(s.ctl.phase, reply),
    ensures
        step_facts(c, db, s, reply, r),
{
    reveal(step);
    match s.ctl.phase {
        Phase::FlushPoll => {
            reveal(on_flush_poll);
        },
        Phase::Flushing => {
            reveal(on_flushed);
        },
        Phase::LastPoll => {
            reveal(on_last_poll);
            reveal(announce);
        },
        Phase::LastFlush => {
            reveal(announce);
        },
        Phase::ProbePoll => {
            reveal(on_probe_poll);
            reveal(announce);
        },
        Phase::Announcing => {
            reveal(on_announced);
        },
        Phase::EchoPoll => {
            reveal(on_echo_poll);
        },
        _ => {},
    }
}

pub proof fn lemma_step(c: Correction, db: LayoutDb, s: RunV, reply: ReplyV, r: Readings)
    requires
        expects(s.ctl.phase, reply),
    ensures
        step_facts(c, db, s, reply, r),
{
    let p = s.ctl.phase;
    if is_waiting(p) {
        lemma_step_waiting(c, db, s, reply, r);
    } else if is_settling(p) {
        lemma_step_settling(c, db, s, reply, r);
    } else if is_pressing(p) {
        lemma_step_pressing(c, db, s, reply, r);
    } else if is_emitting(p) {
        lemma_step_emitting(c, db, s, reply, r);
    } else {
        lemma_step_after(c, db, s, reply, r);
    }
}

pub proof fn lemma_touch(c: Correction, db: LayoutDb, live: bool, inputs: Seq<Input>)
    requires
        follows(c, db, live, inputs),
    ensures
        touch_inv(state_after(c, db, live, inputs)),
    decreases inputs.len(),
{
    if inputs.len() > 0 {
        lemma_follows_prefix(c, db, live, inputs);
        lemma_touch(c, db, live, inputs.drop_last());
        lemma_step(
            c,
            db,
            state_after(c, db, live, inputs.drop_last()),
            inputs.last().reply,
            inputs.last().r,
        );
    }
}

/// The action asked for is the one whose reply the state waits for.
pub proof fn lemma_fits(c: Correction, db: LayoutDb, live: bool, inputs: Seq<Input>)
    requires
        inputs.len() > 0,
        follows(c, db, live, inputs),
    ensures
        fits(
            state_after(c, db, live, inputs).ctl.phase,
            action_after(c, db, live, inputs),
        ),
{
    lemma_follows_prefix(c, db, live, inputs);
    lemma_touch(c, db, live, inputs.drop_last());
    lemma_step(
        c,
        db,
        state_after(c, db, live, inputs.drop_last()),
        inputs.last().reply,
        inputs.last().r,
    );
}

// ─── False means untouched ───────────────────────────────────────────

proof fn lemma_untouched(c: Correction, db: LayoutDb, live: bool, inputs: Seq<Input>, k: int)
    requires
        follows(c, db, live, inputs),
        !state_after(c, db, live, inputs).ctl.touched,
        0 < k < inputs.len(),
        is_emission(action_after(c, db, live, inputs.take(k))),
    ensures
        !went_out(inputs[k].reply),
    decreases inputs.len(),
{
    let init = inputs.drop_last();
    lemma_follows_prefix(c, db, live, inputs);
    lemma_touch(c, db, live, init);
    let s = state_after(c, db, live, init);
    lemma_step(c, db, s, inputs.last().reply, inputs.last().r);
    if k < inputs.len() - 1 {
        assert(init.take(k) =~= inputs.take(k));
        lemma_untouched(c, db, live, init, k);
    } else {
        let before = inputs.take(k);
        assert(before =~= init);
        lemma_follows_prefix(c, db, live, init);
        lemma_touch(c, db, live, init.drop_last());
        lemma_step(
            c,
            db,
            state_after(c, db, live, init.drop_last()),
            init.last().reply,
            init.last().r,
        );
    }
}

/// A correction that answers `false` has left the user's text untouched:
/// no deletion and no replay of it ever went out.
pub proof fn law_false_means_untouched(
    c: Correction,
    db: LayoutDb,
    live: bool,
    inputs: Seq<Input>,
)
    requires
        inputs.len() > 0,
        follows(c, db, live, inputs),
        action_after(c, db, live, inputs) matches ActionV::Finish { applied, .. } && !applied,
    ensures
        forall|k: int|
            0 < k < inputs.len() && is_emission(
                #[trigger] action_after(c, db, live, inputs.take(k)),
            ) ==> !went_out(inputs[k].reply),
{
    lemma_follows_prefix(c, db, live, inputs);
    lemma_touch(c, db, live, inputs.drop_last());
    lemma_step(
        c,
        db,
        state_after(c, db, live, inputs.drop_last()),
        inputs.last().reply,
        inputs.last().r,
    );
    assert forall|k: int|
        0 < k < inputs.len() && is_emission(
            #[trigger] action_after(c, db, live, inputs.take(k)),
        ) implies !went_out(inputs[k].reply) by {
        lemma_untouched(c, db, live, inputs, k);
    }
}

// ─── Nothing is typed under the hotkey ───────────────────────────────

proof fn lemma_key_down(c: Correction, db: LayoutDb, live: bool, inputs: Seq<Input>)
    requires
        follows(c, db, live, inputs),
        forall|k: int| 0 <= k < inputs.len() ==> (#[trigger] inputs[k]).r.trigger_down,
    ensures
        ({
            let p = state_after(c, db, live, inputs).ctl.phase;
            p == Phase::Begin || p == Phase::WaitPoll || p == Phase::WaitSleep || p
                == Phase::Finished
        }),
        inputs.len() > 0 ==> match action_after(c, db, live, inputs) {
            ActionV::Sleep(_) => true,
            ActionV::Poll => true,
            ActionV::Finish { applied, .. } => !applied,
            _ => false,
        },
    decreases inputs.len(),
{
    reveal(step);
    reveal(begin);
    reveal(wait_on);
    reveal(on_wait_poll);
    if inputs.len() > 0 {
        let init = inputs.drop_last();
        lemma_follows_prefix(c, db, live, inputs);
        assert forall|k: int| 0 <= k < init.len() implies (#[trigger] init[k]).r.trigger_down by {
            assert(init[k] == inputs[k]);
        }
        lemma_key_down(c, db, live, init);
        assert(inputs[inputs.len() - 1].r.trigger_down);
    }
}

/// While the key that asked for a correction is down, the machine does
/// nothing but look, wait and give up.
pub proof fn law_nothing_happens_under_a_held_hotkey(
    c: Correction,
    db: LayoutDb,
    live: bool,
    inputs: Seq<Input>,
)
    requires
        inputs.len() > 0,
        follows(c, db, live, inputs),
        forall|k: int| 0 <= k < inputs.len() ==> (#[trigger] inputs[k]).r.trigger_down,
    ensures
        match action_after(c, db, live, inputs) {
            ActionV::Sleep(_) => true,
            ActionV::Poll => true,
            ActionV::Finish { applied, .. } => !applied,
            _ => false,
        },
{
    lemma_key_down(c, db, live, inputs);
}

// ─── The layout first ────────────────────────────────────────────────

/// The last answer to "is it the wanted layout now?".
pub open spec fn last_answer(inputs: Seq<Input>) -> Option<Option<bool>>
    decreases inputs.len(),
{
    if inputs.len() == 0 {
        None
    } else {
        match inputs.last().reply {
            ReplyV::Verified(a) => Some(a),
            _ => last_answer(inputs.drop_last()),
        }
    }
}

/// Some attempt to switch the layout succeeded.
pub open spec fn has_switched(c: Correction, db: LayoutDb, live: bool, inputs: Seq<Input>) -> bool {
    exists|k: int|
        0 < k < inputs.len() && #[trigger] action_after(c, db, live, inputs.take(k))
            == ActionV::SwitchTo && inputs[k].reply == ReplyV::Done(true)
}

proof fn lemma_switch(c: Correction, db: LayoutDb, live: bool, inputs: Seq<Input>)
    requires
        follows(c, db, live, inputs),
    ensures
        ({
            let s = state_after(c, db, live, inputs);
            let p = s.ctl.phase;
            &&& s.ctl.switching == (c.from@ != c.to@)
            &&& s.ctl.switching && !is_waiting(p) && p != Phase::Finished ==> has_switched(
                c,
                db,
                live,
                inputs,
            )
            &&& !is_in_doubt(p) ==> last_answer(inputs) != Some(Some(false))
        }),
    decreases inputs.len(),
{
    if inputs.len() > 0 {
        let init = inputs.drop_last();
        let s = state_after(c, db, live, init);
        let q = state_after(c, db, live, inputs).ctl.phase;
        lemma_follows_prefix(c, db, live, inputs);
        lemma_switch(c, db, live, init);
        lemma_step(c, db, s, inputs.last().reply, inputs.last().r);
        if s.ctl.switching && !is_waiting(q) && q != Phase::Finished {
            if is_waiting(s.ctl.phase) {
                let n = inputs.len() - 1;
                assert(inputs.take(n) =~= init);
                assert(init.len() > 0);
                lemma_fits(c, db, live, init);
                assert(action_after(c, db, live, inputs.take(n)) == ActionV::SwitchTo);
            } else {
                let k = choose|k: int|
                    0 < k < init.len() && #[trigger] action_after(c, db, live, init.take(k))
                        == ActionV::SwitchTo && init[k].reply == ReplyV::Done(true);
                assert(init.take(k) =~= inputs.take(k));
                assert(inputs[k] == init[k]);
            }
        }
    }
}

/// A correction that changes the layout touches the text only after the
/// layout was switched, and only while nothing has shown that the switch
/// did not hold.
pub proof fn law_layout_is_switched_before_the_text_changes(
    c: Correction,
    db: LayoutDb,
    live: bool,
    inputs: Seq<Input>,
)
    requires
        c.from@ != c.to@,
        inputs.len() > 0,
        follows(c, db, live, inputs),
        is_emission(action_after(c, db, live, inputs)),
    ensures
        has_switched(c, db, live, inputs),
        last_answer(inputs) != Some(Some(false)),
{
    lemma_switch(c, db, live, inputs);
    lemma_fits(c, db, live, inputs);
}

// ─── The keyboard is let go ──────────────────────────────────────────

proof fn lemma_held(c: Correction, db: LayoutDb, live: bool, inputs: Seq<Input>)
    requires
        follows(c, db, live, inputs),
    ensures
        hold_inv(state_after(c, db, live, inputs)),
    decreases inputs.len(),
{
    if inputs.len() > 0 {
        let init = inputs.drop_last();
        lemma_follows_prefix(c, db, live, inputs);
        lemma_held(c, db, live, init);
        lemma_step(
            c,
            db,
            state_after(c, db, live, init),
            inputs.last().reply,
            inputs.last().r,
        );
    }
}

/// Somewhere behind the reply `k` the host was told to let go, and did.
pub open spec fn let_go_since(
    c: Correction,
    db: LayoutDb,
    live: bool,
    inputs: Seq<Input>,
    k: int,
) -> bool {
    exists|j: int|
        k < j < inputs.len() && #[trigger] action_after(c, db, live, inputs.take(j))
            == ActionV::ReleaseGate
}

proof fn lemma_let_go(c: Correction, db: LayoutDb, live: bool, inputs: Seq<Input>, k: int)
    requires
        follows(c, db, live, inputs),
        0 <= k < inputs.len(),
        inputs[k].reply == ReplyV::Gate(true),
    ensures
        state_after(c, db, live, inputs).ctl.held || let_go_since(c, db, live, inputs, k),
    decreases inputs.len(),
{
    let init = inputs.drop_last();
    let s = state_after(c, db, live, init);
    let n = inputs.len() - 1;
    lemma_follows_prefix(c, db, live, inputs);
    lemma_held(c, db, live, init);
    lemma_step(c, db, s, inputs.last().reply, inputs.last().r);
    assert(inputs.take(n) =~= init);
    if k < n {
        assert(init[k] == inputs[k]);
        lemma_let_go(c, db, live, init, k);
        if let_go_since(c, db, live, init, k) {
            let j = choose|j: int|
                k < j < init.len() && #[trigger] action_after(c, db, live, init.take(j))
                    == ActionV::ReleaseGate;
            assert(init.take(j) =~= inputs.take(j));
        } else if !state_after(c, db, live, inputs).ctl.held {
            lemma_fits(c, db, live, init);
            assert(action_after(c, db, live, inputs.take(n)) == ActionV::ReleaseGate);
        }
    }
}

/// Whenever the user's keystrokes were held back they have been let go by
/// the time a correction is over, however it ended.
pub proof fn law_the_keyboard_is_let_go(
    c: Correction,
    db: LayoutDb,
    live: bool,
    inputs: Seq<Input>,
    k: int,
)
    requires
        follows(c, db, live, inputs),
        0 <= k < inputs.len(),
        inputs[k].reply == ReplyV::Gate(true),
        action_after(c, db, live, inputs) is Finish,
    ensures
        let_go_since(c, db, live, inputs, k),
{
    lemma_held(c, db, live, inputs);
    lemma_fits(c, db, live, inputs);
    lemma_let_go(c, db, live, inputs, k);
}

// ─── No submission is repeated ───────────────────────────────────────

/// None of the keys sends a line or moves the focus.
pub open spec fn submits_nothing(keys: Seq<ReplayKey>) -> bool {
    forall|i: int| 0 <= i < keys.len() ==> !submits((#[trigger] keys[i]).scancode)
}

/// None of the events does.
pub open spec fn events_submit_nothing(evs: Seq<KeyEvent>) -> bool {
    forall|i: int| 0 <= i < evs.len() ==> !submits((#[trigger] evs[i]).scancode)
}

/// A key that submits ends a word, it is never part of one.
pub open spec fn words_submit_nothing(inputs: Seq<Input>) -> bool {
    forall|k: int|
        0 <= k < inputs.len() ==> ((#[trigger] inputs[k]).reply matches ReplyV::Window {
            drain,
            ..
        } ==> events_submit_nothing(drain.word_keys))
}

proof fn lemma_nothing_submits(c: Correction, db: LayoutDb, live: bool, inputs: Seq<Input>)
    requires
        follows(c, db, live, inputs),
        words_submit_nothing(inputs),
    ensures
        ({
            let s = state_after(c, db, live, inputs);
            &&& events_submit_nothing(s.tail)
            &&& s.ctl.resume matches Some(x) ==> !submits(x.scancode)
        }),
    decreases inputs.len(),
{
    if inputs.len() > 0 {
        let init = inputs.drop_last();
        let s = state_after(c, db, live, init);
        lemma_follows_prefix(c, db, live, inputs);
        assert forall|k: int| 0 <= k < init.len() implies ((
        #[trigger] init[k]).reply matches ReplyV::Window { drain, .. } ==> events_submit_nothing(
            drain.word_keys,
        )) by {
            assert(init[k] == inputs[k]);
        }
        lemma_nothing_submits(c, db, live, init);
        lemma_step(c, db, s, inputs.last().reply, inputs.last().r);
        assert(inputs[inputs.len() - 1] == inputs.last());
        let tail = state_after(c, db, live, inputs).tail;
        assert forall|i: int| 0 <= i < tail.len() implies !submits(
            (#[trigger] tail[i]).scancode,
        ) by {
            if i < s.tail.len() {
                assert(tail[i] == s.tail[i]);
            }
        }
    }
}

/// A correction never presses Enter or Tab again: whatever the user typed
/// meanwhile, a replay has no such key in it unless the correction itself
/// asked for one.
pub proof fn law_a_submission_is_never_replayed(
    c: Correction,
    db: LayoutDb,
    live: bool,
    inputs: Seq<Input>,
)
    requires
        inputs.len() > 0,
        follows(c, db, live, inputs),
        words_submit_nothing(inputs),
        c.replay_keys matches Some(rk) ==> submits_nothing(rk@),
    ensures
        action_after(c, db, live, inputs) matches ActionV::Keys(keys) ==> submits_nothing(keys),
{
    lemma_follows_prefix(c, db, live, inputs);
    lemma_nothing_submits(c, db, live, inputs);
    lemma_step(
        c,
        db,
        state_after(c, db, live, inputs.drop_last()),
        inputs.last().reply,
        inputs.last().r,
    );
    let s = state_after(c, db, live, inputs);
    if let ActionV::Keys(keys) = action_after(c, db, live, inputs) {
        let rk = c.replay_keys->0@;
        let own = absorbed(s);
        assert(keys == rk + replay_of_events(own));
        assert forall|i: int| 0 <= i < keys.len() implies !submits(
            (#[trigger] keys[i]).scancode,
        ) by {
            if i < rk.len() {
                assert(keys[i] == rk[i]);
            } else {
                let k = i - rk.len();
                assert(keys[i].scancode == own[k].scancode);
                if k < s.tail.len() {
                    assert(own[k] == s.tail[k]);
                }
            }
        }
    }
}

// ─── A bounded number of replays ─────────────────────────────────────

/// How many times keys were replayed.
pub open spec fn replays(c: Correction, db: LayoutDb, live: bool, inputs: Seq<Input>) -> nat
    decreases inputs.len(),
{
    if inputs.len() == 0 {
        0
    } else {
        replays(c, db, live, inputs.drop_last()) + if action_after(c, db, live, inputs) is Keys {
            1nat
        } else {
            0
        }
    }
}

proof fn lemma_budget(c: Correction, db: LayoutDb, live: bool, inputs: Seq<Input>)
    requires
        follows(c, db, live, inputs),
    ensures
        replays(c, db, live, inputs) + budget(state_after(c, db, live, inputs)) <= 1
            + INTRUSION_REPAIRS,
    decreases inputs.len(),
{
    if inputs.len() > 0 {
        let init = inputs.drop_last();
        lemma_follows_prefix(c, db, live, inputs);
        lemma_budget(c, db, live, init);
        lemma_step(
            c,
            db,
            state_after(c, db, live, init),
            inputs.last().reply,
            inputs.last().r,
        );
    }
}

/// However persistently the user types into it, a correction is replayed
/// at most once and then once per repair it has.
pub proof fn law_replays_are_bounded(c: Correction, db: LayoutDb, live: bool, inputs: Seq<Input>)
    requires
        follows(c, db, live, inputs),
    ensures
        replays(c, db, live, inputs) <= 1 + INTRUSION_REPAIRS,
{
    lemma_budget(c, db, live, inputs);
}

} // verus!
