//! When a correction stops vouching for the text.

use vstd::prelude::*;

use crate::engine::conservation::{
    as_list, boundaries_seen, is_murky, none_submits, saw_something_murky,
};
use crate::engine::correction::{
    announce, begin, expects, hold, on_absorb_poll, on_announced, on_delete_poll, on_deleted,
    on_echo_poll, on_flush_poll, on_flushed, on_gate, on_hold_probe, on_keys, on_last_poll,
    on_listed, on_press_verify, on_pressed, on_probe_poll, on_shortcut, on_switched, on_text,
    on_wait_poll, step, wait_on, Phase, Readings, ReplyV, RunV,
};
use crate::engine::correction_laws::{
    follows, is_early, is_emitting, is_pressing, is_settling, is_waiting, lemma_follows_prefix,
    state_after, Input,
};
use crate::engine::heuristics::submits;
use crate::engine::types::Correction;
use crate::layouts::LayoutDb;

verus! {

/// How many boundaries the run has kept.
spec fn kept_boundaries(s: RunV) -> int {
    (as_list(s.ctl.resume).len() + as_list(s.ctl.post_resume).len()) as int
}

spec fn doubts_for_a_reason(
    c: Correction,
    db: LayoutDb,
    s: RunV,
    reply: ReplyV,
    r: Readings,
) -> bool {
    let n = step(c, db, s, reply, r).0;
    let boundary = reply is Window && reply->drain.resume is Some;
    &&& n.ctl.suspicious && !s.ctl.suspicious ==> is_murky(reply) || n.ctl.intruders > 0 || (boundary
        && (submits(reply->drain.resume->0.scancode) || kept_boundaries(s) > 0))
    &&& s.ctl.suspicious && s.ctl.intruders > 0 ==> n.ctl.intruders > 0
    &&& kept_boundaries(n) <= kept_boundaries(s) + if boundary {
        1int
    } else {
        0
    }
}

#[verifier::spinoff_prover]
#[verifier::rlimit(60)]
proof fn lemma_doubts_early(c: Correction, db: LayoutDb, s: RunV, reply: ReplyV, r: Readings)
    requires
        is_waiting(s.ctl.phase) || is_settling(s.ctl.phase),
        expects(s.ctl.phase, reply),
    ensures
        doubts_for_a_reason(c, db, s, reply, r),
{
    reveal(step);
    match s.ctl.phase {
        Phase::Begin => {
            reveal(begin);
            reveal(wait_on);
            reveal(hold);
        },
        Phase::WaitPoll => {
            reveal(on_wait_poll);
        },
        Phase::WaitSleep => {
            reveal(wait_on);
            reveal(hold);
        },
        Phase::Listing => {
            reveal(on_listed);
        },
        Phase::Switching => {
            reveal(on_switched);
            reveal(hold);
        },
        Phase::AbsorbPoll => {
            reveal(on_absorb_poll);
            reveal(hold);
        },
        Phase::SettleSleep => {
            reveal(hold);
        },
        Phase::HoldProbe => {
            reveal(on_hold_probe);
        },
        _ => {},
    }
}

#[verifier::spinoff_prover]
#[verifier::rlimit(60)]
proof fn lemma_doubts_emitting(c: Correction, db: LayoutDb, s: RunV, reply: ReplyV, r: Readings)
    requires
        is_pressing(s.ctl.phase) || is_emitting(s.ctl.phase),
        expects(s.ctl.phase, reply),
    ensures
        doubts_for_a_reason(c, db, s, reply, r),
{
    reveal(step);
    match s.ctl.phase {
        Phase::AskingShortcut => {
            reveal(on_shortcut);
        },
        Phase::Pressing => {
            reveal(on_pressed);
        },
        Phase::PressVerify => {
            reveal(on_press_verify);
        },
        Phase::Acquiring => {
            reveal(on_gate);
        },
        Phase::Deleting => {
            reveal(on_deleted);
        },
        Phase::DeletePoll => {
            reveal(on_delete_poll);
        },
        Phase::ReplayingKeys => {
            reveal(announce);
            reveal(on_keys);
        },
        Phase::ReplayingText => {
            reveal(announce);
            reveal(on_text);
        },
        _ => {},
    }
}

#[verifier::spinoff_prover]
#[verifier::rlimit(60)]
proof fn lemma_doubts_later(c: Correction, db: LayoutDb, s: RunV, reply: ReplyV, r: Readings)
    requires
        !is_early(s.ctl.phase),
        !is_emitting(s.ctl.phase),
        expects(s.ctl.phase, reply),
    ensures
        doubts_for_a_reason(c, db, s, reply, r),
{
    reveal(step);
    match s.ctl.phase {
        Phase::FlushPoll => {
            reveal(on_flush_poll);
        },
        Phase::Flushing => {
            reveal(on_flushed);
        },
        Phase::LastPoll => {
            reveal(on_last_poll);
            reveal(announce);
        },
        Phase::LastFlush => {
            reveal(announce);
        },
        Phase::ProbePoll => {
            reveal(on_probe_poll);
            reveal(announce);
        },
        Phase::Announcing => {
            reveal(on_announced);
        },
        Phase::EchoPoll => {
            reveal(on_echo_poll);
        },
        _ => {},
    }
}

proof fn lemma_doubts(c: Correction, db: LayoutDb, live: bool, inputs: Seq<Input>)
    requires
        follows(c, db, live, inputs),
    ensures
        ({
            let s = state_after(c, db, live, inputs);
            &&& kept_boundaries(s) <= boundaries_seen(inputs).len()
            &&& s.ctl.suspicious && s.ctl.intruders == 0 && !saw_something_murky(inputs)
                && none_submits(boundaries_seen(inputs)) ==> boundaries_seen(inputs).len() > 1
        }),
    decreases inputs.len(),
{
    if inputs.len() > 0 {
        let init = inputs.drop_last();
        let s = state_after(c, db, live, init);
        let reply = inputs.last().reply;
        let r = inputs.last().r;
        lemma_follows_prefix(c, db, live, inputs);
        lemma_doubts(c, db, live, init);
        let p = s.ctl.phase;
        if is_waiting(p) || is_settling(p) {
            lemma_doubts_early(c, db, s, reply, r);
        } else if is_pressing(p) || is_emitting(p) {
            lemma_doubts_emitting(c, db, s, reply, r);
        } else {
            lemma_doubts_later(c, db, s, reply, r);
        }
        let before = boundaries_seen(init);
        let now = boundaries_seen(inputs);
        if none_submits(now) {
            assert(none_submits(before)) by {
                assert forall|i: int| 0 <= i < before.len() implies !submits(
                    (#[trigger] before[i]).scancode,
                ) by {
                    assert(now[i] == before[i]);
                }
            }
            if reply is Window && reply->drain.resume is Some {
                assert(now[now.len() - 1] == reply->drain.resume->0);
            }
        }
    }
}

/// A run doubts the text only for a reason: something that cannot be placed
/// was seen, a separator that sends a line, a second separator, or keys that
/// landed inside the replay. Where there was none of these, it vouches.
pub proof fn law_a_run_doubts_only_for_a_reason(
    c: Correction,
    db: LayoutDb,
    live: bool,
    inputs: Seq<Input>,
)
    requires
        follows(c, db, live, inputs),
        !saw_something_murky(inputs),
        none_submits(boundaries_seen(inputs)),
        boundaries_seen(inputs).len() <= 1,
    ensures
        ({
            let s = state_after(c, db, live, inputs);
            s.ctl.intruders == 0 ==> !s.ctl.suspicious
        }),
{
    lemma_doubts(c, db, live, inputs);
}

} // verus!
