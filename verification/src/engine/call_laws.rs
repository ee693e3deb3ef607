//! What holds of calls to the engine, and of one call after another: each
//! law speaks of the engine before and after, of what was handed in and of
//! what came back.

use vstd::prelude::*;

use crate::engine::correction::Aftermath;
use crate::engine::decide::{CompletedWord, Decision, Surroundings};
use crate::engine::decide_laws::{are_the_allowed, may_switch_to};
use crate::engine::echo::Echo;
use crate::engine::force_laws::{comes_next, law_a_press_moves_to_the_next_layout};
use crate::engine::heuristics::opt_names;
use crate::engine::hotkeys::AcceptedDigit;
use crate::engine::key_laws::only_modifies;
use crate::engine::run_loop::{
    BufferView, CommandStep, EngineCommand, FeedStep, IdleStep, KeyStep, SwitchLast, WordBoundary,
};
use crate::engine::switcher::SwitcherEngine;
use crate::engine::types::{Correction, LastWord};
use crate::input::focus::SensitiveInput;
use crate::keys::{KeyDirection, KeyEvent};
use crate::layouts::{LayoutDb, LayoutId};
use crate::settings::Settings;
use crate::time::{Duration, Instant};

verus! {

// ─── Keys ────────────────────────────────────────────────────────────

/// No shortcut reaches the buffer: a key that is fed to it was pressed with
/// none of Ctrl, Alt and Meta held, or is itself a modifier key; it was
/// emitted by no program, and into no field that may be secret while those
/// are guarded.
pub proof fn law_only_typing_is_fed(
    e: SwitcherEngine,
    after: SwitcherEngine,
    ev: &KeyEvent,
    guarded: bool,
    field: SensitiveInput,
    now: Instant,
    step: KeyStep,
)
    requires
        exists|m: &mut SwitcherEngine|
            *m == e && *final(m) == after && #[trigger] call_ensures(
                SwitcherEngine::handle_key,
                (m, ev, guarded, field, now),
                step,
            ),
        step is Feed,
    ensures
        !ev.modifiers.control && !ev.modifiers.alt && !ev.modifiers.meta || only_modifies(
            ev.scancode,
        ),
        !ev.injected,
        guarded ==> field is NotSensitive,
        after.last_word == e.last_word,
        after.word_layout == e.word_layout,
{
    crate::engine::key_laws::law_shortcuts_are_not_typing(*ev, false, false);
    crate::engine::key_laws::law_typing_reaches_the_buffer_only_if(*ev);
}

/// A secret leaves no trace: a key of the user's in a guarded field that is
/// not known to be safe is forgotten, and with it the stash and the stamp.
pub proof fn law_a_secret_is_forgotten(
    e: SwitcherEngine,
    after: SwitcherEngine,
    ev: &KeyEvent,
    field: SensitiveInput,
    now: Instant,
    step: KeyStep,
)
    requires
        exists|m: &mut SwitcherEngine|
            *m == e && *final(m) == after && #[trigger] call_ensures(
                SwitcherEngine::handle_key,
                (m, ev, true, field, now),
                step,
            ),
        !ev.injected,
        !(field is NotSensitive),
    ensures
        step is Forget,
        after.last_word is None,
        after.word_layout is None,
        after.paste_guard_until == e.paste_guard_until,
{
}

/// What is pasted is not judged: a word that is completed within eight
/// tenths of a second after the user pressed a paste shortcut is guarded,
/// and one that is completed later is not, on that account.
pub proof fn law_a_pasted_word_is_not_judged(
    e: SwitcherEngine,
    pasted: SwitcherEngine,
    after: SwitcherEngine,
    ev: &KeyEvent,
    field: SensitiveInput,
    t0: Instant,
    t1: Instant,
    step: KeyStep,
    word: WordBoundary,
    grace: bool,
    fed: FeedStep,
)
    requires
        exists|m: &mut SwitcherEngine|
            *m == e && *final(m) == pasted && #[trigger] call_ensures(
                SwitcherEngine::handle_key,
                (m, ev, false, field, t0),
                step,
            ),
        exists|m: &mut SwitcherEngine|
            *m == pasted && *final(m) == after && #[trigger] call_ensures(
                SwitcherEngine::after_feed,
                (m, word, grace, t1),
                fed,
            ),
        t0.nanos + 800_000_000 <= u128::MAX,
        !ev.injected,
        ev.direction == KeyDirection::Press,
        ev.scancode == 0x2F,
        ev.modifiers.control,
        !ev.modifiers.alt,
        !ev.modifiers.meta,
        word is WordCompleted,
        !word->tainted,
    ensures
        fed is PasteGuarded <==> t1.nanos < t0.nanos + 800_000_000,
        fed is PasteGuarded || fed is Decide,
        fed is Decide ==> fed->Decide_boundary_scancode == word->boundary_scancode
            && fed->Decide_boundary_shift == word->boundary_shift
            && fed->Decide_started_clean == word->started_clean,
        after == pasted,
{
}

/// A word that the buffer lost track of is not judged, and takes the stash
/// with it; a key within a word changes nothing.
pub proof fn law_a_lost_word_is_not_judged(
    e: SwitcherEngine,
    after: SwitcherEngine,
    word: WordBoundary,
    grace: bool,
    now: Instant,
    fed: FeedStep,
)
    requires
        exists|m: &mut SwitcherEngine|
            *m == e && *final(m) == after && #[trigger] call_ensures(
                SwitcherEngine::after_feed,
                (m, word, grace, now),
                fed,
            ),
    ensures
        fed is Decide ==> word is WordCompleted && !word->tainted && now.nanos
            >= e.paste_guard_until.nanos,
        word is WordCompleted && word->tainted ==> fed is Tainted && after.last_word is None,
        word is Abandoned ==> after.last_word is None && fed is Abandoned && fed->dismiss != grace,
        word is InProgress ==> fed is Nothing && after == e,
{
}

/// A word bears the layout it was begun in: its first key stamps it, and no
/// later key does.
pub proof fn law_a_word_is_stamped_once(
    e: SwitcherEngine,
    begun: SwitcherEngine,
    after: SwitcherEngine,
    first: Option<LayoutId>,
    later: Option<LayoutId>,
    still: bool,
)
    requires
        exists|m: &mut SwitcherEngine|
            *m == e && *final(m) == begun && #[trigger] call_ensures(
                SwitcherEngine::feed_buffer,
                (m, true, false, first),
                (),
            ),
        exists|m: &mut SwitcherEngine|
            *m == begun && *final(m) == after && #[trigger] call_ensures(
                SwitcherEngine::feed_buffer,
                (m, false, still, later),
                (),
            ),
    ensures
        begun.word_layout == first,
        after.word_layout == first,
        after.last_word == e.last_word,
{
}

/// The word in flight is given up after its pause; the stash outlives it, up
/// to half a minute; and while an offer is being read nothing is given up.
pub proof fn law_the_stash_outlives_the_word(
    e: SwitcherEngine,
    after: SwitcherEngine,
    elapsed: Duration,
    idle: Duration,
    live_offer: bool,
    buffer_empty: bool,
    step: IdleStep,
)
    requires
        exists|m: &mut SwitcherEngine|
            *m == e && *final(m) == after && #[trigger] call_ensures(
                SwitcherEngine::after_pause,
                (m, elapsed, idle, live_offer, buffer_empty),
                step,
            ),
    ensures
        step is Abandon <==> elapsed.nanos > idle.nanos && !(live_offer && buffer_empty),
        step is NotIdle <==> elapsed.nanos <= idle.nanos,
        step is Abandon && elapsed.nanos > 30_000_000_000 ==> after.last_word is None,
        !(step is Abandon) || elapsed.nanos <= 30_000_000_000 ==> after == e,
        after.word_layout == e.word_layout,
{
}

// ─── Commands ────────────────────────────────────────────────────────

/// After a request to pause or to resume the engine is as asked, whatever it
/// was, and otherwise unchanged; a change is told, and none is not.
pub proof fn law_a_pause_is_as_asked(
    e: SwitcherEngine,
    after: SwitcherEngine,
    want: bool,
    buffer: &BufferView,
    current: &Option<LayoutId>,
    layouts: &LayoutDb,
    now: Instant,
    step: CommandStep,
)
    requires
        exists|m: &mut SwitcherEngine|
            *m == e && *final(m) == after && #[trigger] call_ensures(
                SwitcherEngine::handle_command,
                (m, EngineCommand::SetPaused(want), buffer, current, layouts, now),
                step,
            ),
    ensures
        after.paused == want,
        after == (SwitcherEngine { paused: want, ..e }),
        step is PauseChanged <==> e.paused != want,
        step is PauseChanged ==> step->paused == want,
{
}

/// A press straight after a switch is its echo: for a hundred and fifty
/// milliseconds presses do nothing, and from then on they act.
pub proof fn law_an_echoed_press_does_nothing(
    e: SwitcherEngine,
    switched: SwitcherEngine,
    after: SwitcherEngine,
    last: LastWord,
    target: &LayoutId,
    t0: Instant,
    buffer: &BufferView,
    current: &Option<LayoutId>,
    layouts: &LayoutDb,
    t1: Instant,
    step: CommandStep,
)
    requires
        exists|m: &mut SwitcherEngine|
            *m == e && *final(m) == switched && #[trigger] call_ensures(
                SwitcherEngine::force_switched,
                (m, last, target, t0),
                (),
            ),
        exists|m: &mut SwitcherEngine|
            *m == switched && *final(m) == after && #[trigger] call_ensures(
                SwitcherEngine::handle_command,
                (m, EngineCommand::SwitchLastForcefully, buffer, current, layouts, t1),
                step,
            ),
        t0.nanos <= t1.nanos,
    ensures
        step is Switch,
        step->Switch_0 is Rearming <==> t1.nanos < t0.nanos + 150_000_000,
        step->Switch_0 is Rearming ==> after == switched,
{
}

/// The word that a press acts on is put back by a press that came to
/// nothing: the engine is as it was before.
pub proof fn law_a_press_that_came_to_nothing_changes_nothing(
    e: SwitcherEngine,
    taken: SwitcherEngine,
    after: SwitcherEngine,
    buffer: &BufferView,
    current: &Option<LayoutId>,
    layouts: &LayoutDb,
    now: Instant,
    word: LastWord,
    in_progress: bool,
    poisoned: bool,
)
    requires
        exists|m: &mut SwitcherEngine|
            *m == e && *final(m) == taken && #[trigger] call_ensures(
                SwitcherEngine::handle_command,
                (m, EngineCommand::SwitchLastForcefully, buffer, current, layouts, now),
                CommandStep::Switch(SwitchLast::Word { word, in_progress }),
            ),
        exists|m: &mut SwitcherEngine|
            *m == taken && *final(m) == after && #[trigger] call_ensures(
                SwitcherEngine::give_back,
                (m, word, in_progress, poisoned),
                (),
            ),
    ensures
        !poisoned ==> after == e,
        poisoned && !in_progress ==> after.last_word is None,
        in_progress ==> word.keys@ == buffer.keys@ && !buffer.poisoned,
        !in_progress ==> buffer.keys@.len() == 0 && buffer.boundary_run@.len() <= 1,
{
}

/// What was completed can be switched: a word that the engine took a
/// decision about is the one that a press then acts on, as it was typed, so
/// long as nothing but its own separator stands behind it.
pub proof fn law_a_decided_word_can_be_switched(
    e: SwitcherEngine,
    decided: SwitcherEngine,
    after: SwitcherEngine,
    layouts: &LayoutDb,
    settings: &Settings,
    word: &CompletedWord,
    around: &Surroundings,
    d: Decision,
    buffer: &BufferView,
    current: &Option<LayoutId>,
    now: Instant,
    step: CommandStep,
)
    requires
        exists|m: &mut SwitcherEngine|
            *m == e && *final(m) == decided && #[trigger] call_ensures(
                SwitcherEngine::decide,
                (m, layouts, settings, word, around),
                d,
            ),
        exists|m: &mut SwitcherEngine|
            *m == decided && *final(m) == after && #[trigger] call_ensures(
                SwitcherEngine::handle_command,
                (m, EngineCommand::SwitchLastForcefully, buffer, current, layouts, now),
                step,
            ),
        !(d is Ignored),
        e.last_force_switch is None,
        buffer.keys@.len() == 0,
        buffer.boundary_run@.len() == 1,
        buffer.completed@.len() > 0,
    ensures
        step matches CommandStep::Switch(SwitchLast::Word { word: w, in_progress }) && !in_progress
            && w.keys@ == word.keys@ && w.corrected_to is None && w.boundary is Some
            && w.boundary->0.scancode == word.boundary_scancode && w.boundary->0.shift
            == word.boundary_shift,
        after.last_word is None,
{
}

/// What a word is judged against is what the user allows, whatever the
/// decision is about: no layout on the user's list of ignored ones is a
/// candidate, and a paused engine judges nothing.
pub proof fn law_an_ignored_layout_is_never_a_candidate(
    e: SwitcherEngine,
    after: SwitcherEngine,
    layouts: &LayoutDb,
    settings: &Settings,
    word: &CompletedWord,
    around: &Surroundings,
    d: Decision,
    i: int,
    k: int,
)
    requires
        exists|m: &mut SwitcherEngine|
            *m == e && *final(m) == after && #[trigger] call_ensures(
                SwitcherEngine::decide,
                (m, layouts, settings, word, around),
                d,
            ),
        d is Judge,
        0 <= i < d->Judge_0.candidates@.len(),
        0 <= k < settings.languages.ignored@.len(),
    ensures
        d->Judge_0.candidates@[i].0@ != settings.languages.ignored@[k]@,
        !e.paused,
        word.keys@.len() > 0,
        are_the_allowed(*layouts, *settings, *around, d->Judge_0.candidates@),
{
    let name = d->Judge_0.candidates@[i].0@;
    assert(may_switch_to(*layouts, *settings, *around, name));
}

// ─── Our own keystrokes ──────────────────────────────────────────────

/// One press goes out and comes back once: the first press of that key
/// within a second is ours, and the next is the user's.
pub proof fn law_a_press_comes_back_once(
    e: SwitcherEngine,
    sent: SwitcherEngine,
    back: SwitcherEngine,
    after: SwitcherEngine,
    scancodes: &Vec<u32>,
    ev: &KeyEvent,
    t0: Instant,
    t1: Instant,
    t2: Instant,
    first: bool,
    second: bool,
)
    requires
        e.expected_echo@.len() == 0,
        scancodes@.len() == 1,
        scancodes@[0] == ev.scancode,
        ev.direction == KeyDirection::Press,
        t0.nanos + 1_000_000_000 <= u128::MAX,
        exists|m: &mut SwitcherEngine|
            *m == e && *final(m) == sent && #[trigger] call_ensures(
                SwitcherEngine::push_echoes,
                (m, scancodes, t0),
                (),
            ),
        exists|m: &mut SwitcherEngine|
            *m == sent && *final(m) == back && #[trigger] call_ensures(
                SwitcherEngine::consume_echo,
                (m, ev, t1),
                first,
            ),
        exists|m: &mut SwitcherEngine|
            *m == back && *final(m) == after && #[trigger] call_ensures(
                SwitcherEngine::consume_echo,
                (m, ev, t2),
                second,
            ),
    ensures
        first <==> t1.nanos < t0.nanos + 1_000_000_000,
        !second,
{
    let echo = Echo {
        scancode: ev.scancode,
        until: Instant { nanos: (t0.nanos + 1_000_000_000) as u128 },
    };
    let f = |sc: u32| Echo {
        scancode: sc,
        until: Instant { nanos: (t0.nanos + 1_000_000_000) as u128 },
    };
    assert(sent.expected_echo@ =~= seq![echo]);
    assert(Seq::<Echo>::empty().push(echo) =~= seq![echo]);
    crate::engine::stream_laws::law_an_echo_is_waited_for_until_its_time(
        Seq::empty(),
        echo,
        t1,
    );
    let live = crate::engine::echo::live_echoes(sent.expected_echo@, t1);
    crate::engine::stream_laws::law_an_echo_is_waited_for_until_its_time(
        Seq::empty(),
        echo,
        t2,
    );
    if t1.nanos < t0.nanos + 1_000_000_000 {
        assert(live =~= seq![echo]);
        assert(live[0].scancode == ev.scancode);
        assert(first);
        assert(back.expected_echo@.len() == 0);
    } else {
        assert(live.len() == 0);
        assert(!first);
        assert(back.expected_echo@.len() == 0);
    }
    assert(back.expected_echo@ =~= Seq::empty());
}

/// A digit that is held down accepts once: pressed again without coming up
/// it accepts nothing, whatever is on offer.
pub proof fn law_a_held_digit_accepts_once(
    e: SwitcherEngine,
    pressed: SwitcherEngine,
    after: SwitcherEngine,
    ev: &KeyEvent,
    first: Option<AcceptedDigit>,
    second: Option<AcceptedDigit>,
)
    requires
        exists|m: &mut SwitcherEngine|
            *m == e && *final(m) == pressed && #[trigger] call_ensures(
                SwitcherEngine::check_suggestion_chord,
                (m, ev),
                first,
            ),
        exists|m: &mut SwitcherEngine|
            *m == pressed && *final(m) == after && #[trigger] call_ensures(
                SwitcherEngine::check_suggestion_chord,
                (m, ev),
                second,
            ),
    ensures
        second is None,
        first is Some ==> ev.direction == KeyDirection::Press && e.pending_suggestion is Some
            && first->0.generation == e.pending_suggestion->0.generation && first->0.index
            == ev.scancode - 0x02,
        after.pending_suggestion == e.pending_suggestion,
{
}

// ─── A correction and what the hotkey then does ──────────────────────

/// One press undoes a correction: once the engine has noted where it moved
/// the stashed word, the press acts on that word and moves it from there
/// back to the layout it was typed in, whatever layouts there are.
pub proof fn law_one_press_undoes_a_correction(
    e: SwitcherEngine,
    noted: SwitcherEngine,
    after: SwitcherEngine,
    to: &LayoutId,
    buffer: &BufferView,
    current: &Option<LayoutId>,
    layouts: &LayoutDb,
    now: Instant,
    word: &LastWord,
    os_active: Option<&[LayoutId]>,
    play_sound: bool,
    c: Option<Correction>,
)
    requires
        e.last_word is Some,
        !e.last_word->0.user_placed,
        layouts.known(e.last_word->0.layout@),
        exists|m: &mut SwitcherEngine|
            *m == e && *final(m) == noted && #[trigger] call_ensures(
                SwitcherEngine::note_corrected,
                (m, to),
                (),
            ),
        exists|m: &mut SwitcherEngine|
            *m == noted && *final(m) == after && #[trigger] call_ensures(
                SwitcherEngine::handle_command,
                (m, EngineCommand::SwitchLastForcefully, buffer, current, layouts, now),
                CommandStep::Switch(SwitchLast::Word { word: *word, in_progress: false }),
            ),
        call_ensures(
            SwitcherEngine::force_switch_last,
            (word, layouts, os_active, play_sound),
            c,
        ),
    ensures
        c is Some,
        c->0.from@ == to@,
        c->0.to@ == e.last_word->0.layout@,
        word.keys@ == e.last_word->0.keys@,
{
}

/// A press goes on where the last one left off: once the engine has
/// remembered that a press moved the word, the next acts on that word, and
/// moves it from there to the layout that comes next on the system's list.
pub proof fn law_the_next_press_starts_where_the_last_one_ended(
    e: SwitcherEngine,
    switched: SwitcherEngine,
    after: SwitcherEngine,
    last: LastWord,
    target: &LayoutId,
    t0: Instant,
    buffer: &BufferView,
    current: &Option<LayoutId>,
    layouts: &LayoutDb,
    t1: Instant,
    word: &LastWord,
    os_active: Option<&[LayoutId]>,
    list: Seq<Seq<char>>,
    a: int,
    b: int,
    play_sound: bool,
    c: Option<Correction>,
)
    requires
        opt_names(os_active) == Some(list),
        list.no_duplicates(),
        comes_next(*layouts, list, a, b),
        target@ == list[a],
        exists|m: &mut SwitcherEngine|
            *m == e && *final(m) == switched && #[trigger] call_ensures(
                SwitcherEngine::force_switched,
                (m, last, target, t0),
                (),
            ),
        exists|m: &mut SwitcherEngine|
            *m == switched && *final(m) == after && #[trigger] call_ensures(
                SwitcherEngine::handle_command,
                (m, EngineCommand::SwitchLastForcefully, buffer, current, layouts, t1),
                CommandStep::Switch(SwitchLast::Word { word: *word, in_progress: false }),
            ),
        call_ensures(
            SwitcherEngine::force_switch_last,
            (word, layouts, os_active, play_sound),
            c,
        ),
    ensures
        word.keys@ == last.keys@,
        c is Some,
        c->0.from@ == list[a],
        c->0.to@ == list[b],
{
    law_a_press_moves_to_the_next_layout(*layouts, list, *word, a, b);
}

/// After a correction that left the text in doubt there is nothing to move:
/// a press finds no word, unless another is being typed.
pub proof fn law_a_doubtful_text_is_not_touched(
    e: SwitcherEngine,
    doubted: SwitcherEngine,
    after: SwitcherEngine,
    aftermath: Aftermath,
    buffer: &BufferView,
    current: &Option<LayoutId>,
    layouts: &LayoutDb,
    now: Instant,
    step: CommandStep,
)
    requires
        aftermath is Uncertain || aftermath is Unplaced,
        exists|m: &mut SwitcherEngine|
            *m == e && *final(m) == doubted && #[trigger] call_ensures(
                SwitcherEngine::after_correction,
                (m, aftermath),
                (),
            ),
        exists|m: &mut SwitcherEngine|
            *m == doubted && *final(m) == after && #[trigger] call_ensures(
                SwitcherEngine::handle_command,
                (m, EngineCommand::SwitchLastForcefully, buffer, current, layouts, now),
                step,
            ),
        buffer.keys@.len() == 0,
    ensures
        doubted.last_word is None,
        step is Switch,
        step->Switch_0 is NoWord || step->Switch_0 is Rearming,
        after == doubted,
{
}

} // verus!
