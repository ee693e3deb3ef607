//! What a correction does with the user's own keystrokes: none is lost, none
//! is erased that was not on screen, none comes back out of order.

use vstd::prelude::*;

use crate::engine::correction::{
    absorbed, announce, as_word_keys, begin, expects, hold, on_absorb_poll, on_announced,
    on_delete_poll, on_deleted, on_echo_poll, on_flush_poll, on_flushed, on_gate, on_hold_probe,
    on_keys, on_last_poll, on_listed, on_press_verify, on_pressed, on_probe_poll, on_shortcut,
    on_switched, on_text, on_wait_poll, step, wait_on, ActionV, KeysOutcome, Phase, Readings,
    ReplyV, RunV,
};
use crate::engine::correction_laws::{
    action_after, follows, lemma_fits, lemma_follows_prefix, lemma_step, state_after, Input,
};
use crate::engine::heuristics::submits;
use crate::engine::types::{Correction, WindowV};
use crate::keys::{replay_of_events, KeyEvent, ReplayKey, WordKey};
use crate::layouts::LayoutDb;

verus! {

// ─── Held keystrokes ─────────────────────────────────────────────────

/// How many keystrokes of the user's one look at the key stream found.
pub open spec fn presses_in(w: WindowV) -> int {
    w.word_keys.len() + (if w.resume is Some {
        1int
    } else {
        0
    }) + (if w.stopper is Some {
        1int
    } else {
        0
    })
}

/// The key is the press: the same key on the same level.
pub open spec fn same_press(k: ReplayKey, ev: KeyEvent) -> bool {
    k.scancode == ev.scancode && k.shift == ev.modifiers.shift
}

/// The keys are all the presses of the look, in the order they were made:
/// the letters, then the boundary, then what could not be placed.
pub open spec fn types_out(keys: Seq<ReplayKey>, w: WindowV) -> bool {
    let n = w.word_keys.len() as int;
    &&& keys.len() == presses_in(w)
    &&& forall|i: int| 0 <= i < n ==> same_press(#[trigger] keys[i], w.word_keys[i])
    &&& w.resume matches Some(b) ==> same_press(keys[n], b)
    &&& w.stopper matches Some(x) ==> same_press(keys[keys.len() - 1], x)
}

/// The action types the presses of the look out.
pub open spec fn flushes(a: ActionV, w: WindowV) -> bool {
    a matches ActionV::FlushHeld(keys) && types_out(keys, w)
}

/// From the moment the keyboard is held back to the last look after it was
/// let go.
spec fn is_burst(s: RunV) -> bool {
    match s.ctl.phase {
        Phase::Deleting | Phase::ReplayingKeys | Phase::ReplayingText | Phase::FlushSleep
        | Phase::FlushPoll | Phase::Flushing | Phase::LettingGo | Phase::Closing => s.ctl.held,
        Phase::LastPoll | Phase::LastFlush | Phase::Finished => true,
        _ => false,
    }
}

#[verifier::spinoff_prover]
#[verifier::rlimit(40)]
proof fn lemma_burst_step(c: Correction, db: LayoutDb, s: RunV, reply: ReplyV, r: Readings)
    requires
        is_burst(s) || reply == ReplyV::Gate(true),
        expects(s.ctl.phase, reply),
    ensures
        ({
            let n = step(c, db, s, reply, r);
            &&& is_burst(n.0) || n.1 is Announce
            &&& reply matches ReplyV::Window { drain, .. } ==> {
                &&& presses_in(drain) == 0 ==> !(n.1 is FlushHeld)
                &&& presses_in(drain) > 0 ==> flushes(n.1, drain)
            }
        }),
{
    reveal(step);
    match s.ctl.phase {
        Phase::Acquiring => {
            reveal(on_gate);
        },
        Phase::Deleting => {
            reveal(on_deleted);
        },
        Phase::ReplayingKeys => {
            reveal(on_keys);
            reveal(announce);
        },
        Phase::ReplayingText => {
            reveal(on_text);
            reveal(announce);
        },
        Phase::FlushPoll => {
            reveal(on_flush_poll);
        },
        Phase::Flushing => {
            reveal(on_flushed);
        },
        Phase::LastPoll => {
            reveal(on_last_poll);
            reveal(announce);
        },
        Phase::LastFlush => {
            reveal(announce);
        },
        _ => {},
    }
}

/// At some reply the keyboard was held back, and nothing has been announced
/// since.
pub open spec fn is_holding(c: Correction, db: LayoutDb, live: bool, inputs: Seq<Input>) -> bool
    decreases inputs.len(),
{
    &&& inputs.len() > 0
    &&& inputs.last().reply == ReplyV::Gate(true) || is_holding(c, db, live, inputs.drop_last())
    &&& !(action_after(c, db, live, inputs) is Announce)
}

proof fn lemma_burst(c: Correction, db: LayoutDb, live: bool, inputs: Seq<Input>)
    requires
        follows(c, db, live, inputs),
        is_holding(c, db, live, inputs),
    ensures
        is_burst(state_after(c, db, live, inputs)),
    decreases inputs.len(),
{
    let init = inputs.drop_last();
    lemma_follows_prefix(c, db, live, inputs);
    if inputs.last().reply != ReplyV::Gate(true) {
        lemma_burst(c, db, live, init);
    }
    lemma_burst_step(
        c,
        db,
        state_after(c, db, live, init),
        inputs.last().reply,
        inputs.last().r,
    );
}

/// Every keystroke that was held back from the application is typed out, in
/// the order it was pressed: once the keyboard is held, and until the
/// correction is announced, a look that found any press is answered by
/// typing out exactly those, the boundary and the stopper with the letters;
/// a look that found none is not.
pub proof fn law_held_keystrokes_are_typed_out(
    c: Correction,
    db: LayoutDb,
    live: bool,
    inputs: Seq<Input>,
    w: WindowV,
)
    requires
        inputs.len() > 0,
        follows(c, db, live, inputs),
        is_holding(c, db, live, inputs.drop_last()),
        inputs.last().reply matches ReplyV::Window { drain, .. } && drain == w,
    ensures
        presses_in(w) > 0 ==> flushes(action_after(c, db, live, inputs), w),
        presses_in(w) == 0 ==> !(action_after(c, db, live, inputs) is FlushHeld),
{
    let init = inputs.drop_last();
    lemma_follows_prefix(c, db, live, inputs);
    lemma_burst(c, db, live, init);
    lemma_burst_step(
        c,
        db,
        state_after(c, db, live, init),
        inputs.last().reply,
        inputs.last().r,
    );
}

// ─── Nothing typed is lost ───────────────────────────────────────────

/// Every letter the looks so far found, in order.
pub open spec fn letters_seen(inputs: Seq<Input>) -> Seq<KeyEvent>
    decreases inputs.len(),
{
    if inputs.len() == 0 {
        Seq::empty()
    } else {
        letters_seen(inputs.drop_last()) + match inputs.last().reply {
            ReplyV::Window { drain, .. } => drain.word_keys,
            _ => Seq::empty(),
        }
    }
}

/// Every boundary the looks so far found, in order.
pub open spec fn boundaries_seen(inputs: Seq<Input>) -> Seq<KeyEvent>
    decreases inputs.len(),
{
    if inputs.len() == 0 {
        Seq::empty()
    } else {
        let init = boundaries_seen(inputs.drop_last());
        match inputs.last().reply {
            ReplyV::Window { drain, .. } => match drain.resume {
                Some(b) => init.push(b),
                None => init,
            },
            _ => init,
        }
    }
}

/// The look found something that cannot be placed.
pub open spec fn is_murky(reply: ReplyV) -> bool {
    reply matches ReplyV::Window { drain, .. } && drain.suspicious
}

/// Some look did.
pub open spec fn saw_something_murky(inputs: Seq<Input>) -> bool
    decreases inputs.len(),
{
    inputs.len() > 0 && (is_murky(inputs.last().reply) || saw_something_murky(inputs.drop_last()))
}

/// A key, or none, as a list.
pub open spec fn as_list(k: Option<KeyEvent>) -> Seq<KeyEvent> {
    match k {
        Some(x) => seq![x],
        None => Seq::empty(),
    }
}

spec fn is_late(p: Phase) -> bool {
    p == Phase::EchoPoll || p == Phase::EchoSleep || p == Phase::Finished
}

spec fn late_inv(s: RunV) -> bool {
    !is_late(s.ctl.phase) ==> s.post_tail.len() == 0 && s.ctl.post_resume is None
}

/// What one step makes of the user's keystrokes.
spec fn keeps(s: RunV, reply: ReplyV, n: RunV) -> bool {
    &&& late_inv(n)
    &&& s.ctl.suspicious ==> n.ctl.suspicious
    &&& match reply {
        ReplyV::Window { drain, .. } => {
            &&& drain.suspicious ==> n.ctl.suspicious
            &&& n.tail + n.post_tail == s.tail + s.post_tail + drain.word_keys
            &&& n.tail == s.tail || n.post_tail == s.post_tail
            &&& !n.ctl.suspicious ==> match drain.resume {
                Some(b) => {
                    &&& !submits(b.scancode)
                    &&& as_list(n.ctl.resume) + as_list(n.ctl.post_resume) == (as_list(s.ctl.resume)
                        + as_list(s.ctl.post_resume)).push(b)
                },
                None => n.ctl.resume == s.ctl.resume && n.ctl.post_resume == s.ctl.post_resume,
            }
        },
        _ => {
            &&& n.tail == s.tail && n.post_tail == s.post_tail
            &&& n.ctl.resume == s.ctl.resume && n.ctl.post_resume == s.ctl.post_resume
        },
    }
}

#[verifier::spinoff_prover]
#[verifier::rlimit(60)]
proof fn lemma_window_keeps(c: Correction, db: LayoutDb, s: RunV, reply: ReplyV, r: Readings)
    requires
        late_inv(s),
        reply is Window,
        expects(s.ctl.phase, reply),
    ensures
        keeps(s, reply, step(c, db, s, reply, r).0),
{
    reveal(step);
    let n = step(c, db, s, reply, r).0;
    let drain = reply->drain;
    assert(s.tail + Seq::<KeyEvent>::empty() =~= s.tail);
    assert(s.tail + drain.word_keys + Seq::<KeyEvent>::empty() =~= s.tail + drain.word_keys);
    assert(s.tail + (s.post_tail + drain.word_keys) =~= s.tail + s.post_tail + drain.word_keys);
    match s.ctl.phase {
        Phase::WaitPoll => {
            reveal(on_wait_poll);
        },
        Phase::AbsorbPoll => {
            reveal(on_absorb_poll);
            reveal(hold);
        },
        Phase::DeletePoll => {
            reveal(on_delete_poll);
        },
        Phase::FlushPoll => {
            reveal(on_flush_poll);
        },
        Phase::LastPoll => {
            reveal(on_last_poll);
            reveal(announce);
        },
        Phase::ProbePoll => {
            reveal(on_probe_poll);
            reveal(announce);
        },
        _ => {
            reveal(on_echo_poll);
        },
    }
    assert(n.tail + n.post_tail =~= s.tail + s.post_tail + drain.word_keys);
    if !n.ctl.suspicious {
        if let Some(b) = drain.resume {
            assert(as_list(n.ctl.resume) + as_list(n.ctl.post_resume) =~= (as_list(s.ctl.resume)
                + as_list(s.ctl.post_resume)).push(b));
        }
    }
}

#[verifier::spinoff_prover]
#[verifier::rlimit(60)]
proof fn lemma_other_keeps(c: Correction, db: LayoutDb, s: RunV, reply: ReplyV, r: Readings)
    requires
        late_inv(s),
        !(reply is Window),
        expects(s.ctl.phase, reply),
    ensures
        keeps(s, reply, step(c, db, s, reply, r).0),
{
    reveal(step);
    match s.ctl.phase {
        Phase::Begin => {
            reveal(begin);
            reveal(wait_on);
            reveal(hold);
        },
        Phase::WaitSleep => {
            reveal(wait_on);
            reveal(hold);
        },
        Phase::Listing => {
            reveal(on_listed);
        },
        Phase::Switching => {
            reveal(on_switched);
            reveal(hold);
        },
        Phase::SettleSleep => {
            reveal(hold);
        },
        Phase::HoldProbe => {
            reveal(on_hold_probe);
        },
        Phase::AskingShortcut => {
            reveal(on_shortcut);
        },
        Phase::Pressing => {
            reveal(on_pressed);
        },
        Phase::PressVerify => {
            reveal(on_press_verify);
        },
        Phase::Acquiring => {
            reveal(on_gate);
        },
        Phase::Deleting => {
            reveal(on_deleted);
        },
        Phase::ReplayingKeys => {
            reveal(on_keys);
            reveal(announce);
        },
        Phase::ReplayingText => {
            reveal(on_text);
            reveal(announce);
        },
        Phase::Flushing => {
            reveal(on_flushed);
        },
        Phase::LastFlush => {
            reveal(announce);
        },
        Phase::Announcing => {
            reveal(on_announced);
        },
        _ => {},
    }
}

proof fn lemma_keeps(c: Correction, db: LayoutDb, s: RunV, reply: ReplyV, r: Readings)
    requires
        late_inv(s),
        expects(s.ctl.phase, reply),
    ensures
        keeps(s, reply, step(c, db, s, reply, r).0),
{
    if reply is Window {
        lemma_window_keeps(c, db, s, reply, r);
    } else {
        lemma_other_keeps(c, db, s, reply, r);
    }
}

/// None of the keys sends a line or moves the focus.
pub open spec fn none_submits(evs: Seq<KeyEvent>) -> bool {
    forall|i: int| 0 <= i < evs.len() ==> !submits((#[trigger] evs[i]).scancode)
}

proof fn lemma_letters(c: Correction, db: LayoutDb, live: bool, inputs: Seq<Input>)
    requires
        follows(c, db, live, inputs),
    ensures
        late_inv(state_after(c, db, live, inputs)),
        state_after(c, db, live, inputs).tail + state_after(c, db, live, inputs).post_tail
            == letters_seen(inputs),
    decreases inputs.len(),
{
    let s = state_after(c, db, live, inputs);
    if inputs.len() == 0 {
        assert(s.tail + s.post_tail =~= letters_seen(inputs));
    } else {
        let init = inputs.drop_last();
        let before = state_after(c, db, live, init);
        let reply = inputs.last().reply;
        lemma_follows_prefix(c, db, live, inputs);
        lemma_letters(c, db, live, init);
        lemma_keeps(c, db, before, reply, inputs.last().r);
        let seen = letters_seen(init);
        if reply is Window {
            assert(s.tail + s.post_tail == seen + reply->drain.word_keys);
        } else {
            assert(seen + Seq::<KeyEvent>::empty() =~= seen);
        }
    }
}

proof fn lemma_murk_stays(c: Correction, db: LayoutDb, s: RunV, reply: ReplyV, r: Readings)
    requires
        expects(s.ctl.phase, reply),
        s.ctl.suspicious || is_murky(reply),
    ensures
        step(c, db, s, reply, r).0.ctl.suspicious,
{
    lemma_step(c, db, s, reply, r);
}

proof fn lemma_murk(c: Correction, db: LayoutDb, live: bool, inputs: Seq<Input>)
    requires
        follows(c, db, live, inputs),
        saw_something_murky(inputs),
    ensures
        state_after(c, db, live, inputs).ctl.suspicious,
    decreases inputs.len(),
{
    let init = inputs.drop_last();
    lemma_follows_prefix(c, db, live, inputs);
    if saw_something_murky(init) {
        lemma_murk(c, db, live, init);
    }
    lemma_murk_stays(
        c,
        db,
        state_after(c, db, live, init),
        inputs.last().reply,
        inputs.last().r,
    );
}

proof fn lemma_boundaries(c: Correction, db: LayoutDb, live: bool, inputs: Seq<Input>)
    requires
        follows(c, db, live, inputs),
        !state_after(c, db, live, inputs).ctl.suspicious,
    ensures
        boundaries_seen(inputs) == as_list(state_after(c, db, live, inputs).ctl.resume) + as_list(
            state_after(c, db, live, inputs).ctl.post_resume,
        ),
        none_submits(boundaries_seen(inputs)),
    decreases inputs.len(),
{
    let s = state_after(c, db, live, inputs);
    if inputs.len() == 0 {
        assert(boundaries_seen(inputs) =~= as_list(s.ctl.resume) + as_list(s.ctl.post_resume));
    } else {
        let init = inputs.drop_last();
        let before = state_after(c, db, live, init);
        let reply = inputs.last().reply;
        lemma_follows_prefix(c, db, live, inputs);
        lemma_letters(c, db, live, init);
        lemma_keeps(c, db, before, reply, inputs.last().r);
        lemma_boundaries(c, db, live, init);
        if reply is Window && reply->drain.resume is Some {
            let seen = boundaries_seen(init);
            let b = reply->drain.resume->0;
            assert(boundaries_seen(inputs) == seen.push(b));
            assert forall|i: int| 0 <= i < seen.push(b).len() implies !submits(
                (#[trigger] seen.push(b)[i]).scancode,
            ) by {
                if i < seen.len() {
                    assert(seen[i] == seen.push(b)[i]);
                }
            }
        }
    }
}

/// Nothing the user types while a correction is under way is lost, moved or
/// made up: the letters the run has kept, those before its end and those
/// after, are all the letters every look found, in the order they came. And
/// where the run still vouches for the text, so are the boundaries, nothing
/// murky was seen, and none of the boundaries submits.
pub proof fn law_everything_typed_is_kept(
    c: Correction,
    db: LayoutDb,
    live: bool,
    inputs: Seq<Input>,
)
    requires
        follows(c, db, live, inputs),
    ensures
        ({
            let s = state_after(c, db, live, inputs);
            &&& s.tail + s.post_tail == letters_seen(inputs)
            &&& !s.ctl.suspicious ==> {
                &&& !saw_something_murky(inputs)
                &&& boundaries_seen(inputs) == as_list(s.ctl.resume) + as_list(s.ctl.post_resume)
                &&& none_submits(boundaries_seen(inputs))
            }
        }),
{
    lemma_letters(c, db, live, inputs);
    if !state_after(c, db, live, inputs).ctl.suspicious {
        if saw_something_murky(inputs) {
            lemma_murk(c, db, live, inputs);
        }
        lemma_boundaries(c, db, live, inputs);
    }
}

// ─── What is erased, and what is typed again ─────────────────────────

/// The keys are the given ones, then the events, each with its own level.
pub open spec fn followed_by(
    keys: Seq<ReplayKey>,
    first: Seq<ReplayKey>,
    own: Seq<KeyEvent>,
) -> bool {
    &&& keys.len() == first.len() + own.len()
    &&& forall|i: int| 0 <= i < first.len() ==> #[trigger] keys[i] == first[i]
    &&& forall|i: int| 0 <= i < own.len() ==> same_press(keys[first.len() + i], #[trigger] own[i])
}

/// The events as keys to look up, under a lock.
pub open spec fn looked_up(own: Seq<KeyEvent>, caps: bool) -> Seq<WordKey> {
    Seq::new(
        own.len(),
        |i: int|
            WordKey {
                scancode: own[i].scancode,
                shift: own[i].modifiers.shift,
                caps,
                timestamp_ms: 0,
            },
    )
}

/// A number of characters, as far as it can be counted.
pub open spec fn countable(n: int) -> bool {
    0 <= n <= usize::MAX
}

/// What one step says about the emissions, over the state it leads to: the
/// user's own keystrokes are the tail and the boundary behind it.
spec fn emits_right(c: Correction, db: LayoutDb, s: RunV, reply: ReplyV, r: Readings) -> bool {
    let n = step(c, db, s, reply, r);
    let own = n.0.tail + as_list(n.0.ctl.resume);
    &&& n.1 matches ActionV::Keys(keys) ==> c.replay_keys is Some && followed_by(
        keys,
        c.replay_keys->0@,
        own,
    )
    &&& n.1 matches ActionV::Text(t) ==> t == c.corrected@ + db.reads(
        c.to@,
        looked_up(own, r.held.caps),
    )
    &&& reply is Gate && countable(c.backspaces + own.len()) ==> n.1 == ActionV::Backspaces(
        (c.backspaces + own.len()) as usize,
    )
    &&& reply == ReplyV::Keys(KeysOutcome::Unsupported) ==> n.1 is Text
}

proof fn lemma_emits(c: Correction, db: LayoutDb, s: RunV, reply: ReplyV, r: Readings)
    requires
        expects(s.ctl.phase, reply),
    ensures
        emits_right(c, db, s, reply, r),
{
    let n = step(c, db, s, reply, r);
    let own = n.0.tail + as_list(n.0.ctl.resume);
    lemma_step(c, db, s, reply, r);
    assert(absorbed(n.0) =~= own);
    if let ActionV::Keys(keys) = n.1 {
        assert(keys == c.replay_keys->0@ + replay_of_events(own));
    }
    if n.1 is Text {
        assert(as_word_keys(own, r.held.caps) =~= looked_up(own, r.held.caps));
    }
    if reply is Gate {
        reveal(step);
        reveal(on_gate);
    }
    if reply == ReplyV::Keys(KeysOutcome::Unsupported) {
        reveal(step);
        reveal(on_keys);
    }
}

/// A replay puts everything back: the keys it presses are the correction's
/// own, then every letter the user typed meanwhile and the boundary behind
/// them, each on the level it was typed on; a replay as text is the
/// corrected text and the same keystrokes as they read in the target.
pub proof fn law_a_replay_puts_everything_back(
    c: Correction,
    db: LayoutDb,
    live: bool,
    inputs: Seq<Input>,
)
    requires
        inputs.len() > 0,
        follows(c, db, live, inputs),
    ensures
        ({
            let s = state_after(c, db, live, inputs);
            let own = letters_seen(inputs) + as_list(s.ctl.resume);
            &&& action_after(c, db, live, inputs) matches ActionV::Keys(keys) ==> c.replay_keys is Some
                && followed_by(keys, c.replay_keys->0@, own)
            &&& action_after(c, db, live, inputs) matches ActionV::Text(t) ==> t == c.corrected@
                + db.reads(c.to@, looked_up(own, inputs.last().r.held.caps))
            &&& inputs.last().reply == ReplyV::Keys(KeysOutcome::Unsupported) ==> action_after(
                c,
                db,
                live,
                inputs,
            ) is Text
        }),
{
    let s = state_after(c, db, live, inputs);
    lemma_follows_prefix(c, db, live, inputs);
    lemma_letters(c, db, live, inputs);
    lemma_emits(
        c,
        db,
        state_after(c, db, live, inputs.drop_last()),
        inputs.last().reply,
        inputs.last().r,
    );
    lemma_fits(c, db, live, inputs);
    if s.ctl.phase == Phase::ReplayingKeys || s.ctl.phase == Phase::ReplayingText {
        assert(s.tail =~= letters_seen(inputs));
    }
}

/// The first deletion erases exactly what is to go: the word with its
/// separator, every letter typed since, and the boundary behind them.
pub proof fn law_the_deletion_covers_what_is_on_screen(
    c: Correction,
    db: LayoutDb,
    live: bool,
    inputs: Seq<Input>,
)
    requires
        inputs.len() > 0,
        follows(c, db, live, inputs),
        inputs.last().reply is Gate,
    ensures
        ({
            let s = state_after(c, db, live, inputs);
            let n = c.backspaces + letters_seen(inputs).len() + as_list(s.ctl.resume).len();
            countable(n) ==> action_after(c, db, live, inputs) == ActionV::Backspaces(n as usize)
        }),
{
    let s = state_after(c, db, live, inputs);
    lemma_follows_prefix(c, db, live, inputs);
    lemma_letters(c, db, live, inputs);
    lemma_emits(
        c,
        db,
        state_after(c, db, live, inputs.drop_last()),
        inputs.last().reply,
        inputs.last().r,
    );
    reveal(step);
    reveal(on_gate);
    assert(s.ctl.phase == Phase::Deleting);
    assert(s.tail =~= letters_seen(inputs));
}

} // verus!
