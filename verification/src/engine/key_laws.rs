//! What holds of every key event, in terms of the key, the modifiers held
//! and what was pressed before.

use vstd::prelude::*;

use crate::engine::consts::{MOD_DOUBLE_TAP_GAP, MOD_TAP_MAX, PASTE_GUARD};
use crate::engine::heuristics::{
    chord_fires, holds_exactly, latch_after, role_of, tap_after, tap_fires,
};
use crate::engine::hotkeys::{
    accepts_digit, digit_index, is_chord, is_opt_chord, opt_binding_after, opt_binding_fires,
    trigger_after,
};
use crate::engine::run_loop::{
    is_blocked, key_route, key_state, pause_flipped, rearming, stash_reachable, typing_reachable,
    BufferView,
};
use crate::engine::switcher::SwitcherEngine;
use crate::engine::types::{
    Binding, BindingState, Chord, KeystreamHotkeys, ModChord, ModRole, ModSet, ModTapState,
    PendingSuggestion, WindowV,
};
use crate::engine::window::{window_after, KeyKind};
use crate::input::focus::SensitiveInput;
use crate::keys::{KeyDirection, KeyEvent, Modifiers};
use crate::layouts::{LayoutDb, LayoutId};
use crate::time::Instant;

verus! {

// ─── Where a key goes ────────────────────────────────────────────────

/// Ctrl, Alt or Meta is held.
pub open spec fn commands(m: Modifiers) -> bool {
    !(!m.control && !m.alt && !m.meta)
}

/// One of the keys that only change what other keys do: either Ctrl, Shift,
/// Alt or Meta, and Caps Lock.
pub open spec fn only_modifies(scancode: u32) -> bool {
    seq![0x1Du32, 0x61, 0x2A, 0x36, 0x38, 0x64, 0x5B, 0x5C, 0x7D, 0x7E, 0x3A].contains(scancode)
}

proof fn lemma_only_modifies(scancode: u32)
    ensures
        only_modifies(scancode) == crate::engine::heuristics::is_bare_modifier(scancode),
{
    let s = seq![0x1Du32, 0x61, 0x2A, 0x36, 0x38, 0x64, 0x5B, 0x5C, 0x7D, 0x7E, 0x3A];
    assert(s[0] == 0x1D && s[1] == 0x61 && s[2] == 0x2A && s[3] == 0x36 && s[4] == 0x38 && s[5]
        == 0x64 && s[6] == 0x5B && s[7] == 0x5C && s[8] == 0x7D && s[9] == 0x7E && s[10] == 0x3A);
    if s.contains(scancode) {
        let i = choose|i: int| 0 <= i < s.len() && s[i] == scancode;
    }
}

/// A shortcut is not typing: a key that reaches the buffer was pressed with
/// none of Ctrl, Alt and Meta held, or only changes what other keys do.
pub proof fn law_shortcuts_are_not_typing(ev: KeyEvent, blocked: bool, own_switch: bool)
    ensures
        key_route(ev, blocked, own_switch) is Feed ==> !ev.modifiers.control && !ev.modifiers.alt
            && !ev.modifiers.meta || only_modifies(ev.scancode),
{
    lemma_only_modifies(ev.scancode);
}

/// What the user types reaches the buffer: every key of the user's that is
/// neither a secret nor the engine's own hotkey, unless Ctrl, Alt or Meta
/// makes a shortcut of it. Only a pressed pointer button leaves an offer as
/// it is until the click is told apart.
pub proof fn law_typing_reaches_the_buffer(ev: KeyEvent, own_switch: bool)
    requires
        !ev.injected,
        !own_switch,
        !commands(ev.modifiers) || only_modifies(ev.scancode),
    ensures
        ({
            let step = key_route(ev, false, own_switch);
            &&& step is Feed
            &&& step->freeze_offer ==> ev.scancode == 0x110 && !(ev.direction
                == KeyDirection::Release)
            &&& ev.scancode == 0x110 && ev.direction == KeyDirection::Press ==> step->freeze_offer
        }),
{
    lemma_only_modifies(ev.scancode);
}

/// A key that reaches the buffer was typed by the user, into a field that is
/// not guarded, and is not the engine's own hotkey.
pub proof fn law_typing_reaches_the_buffer_only_if(ev: KeyEvent)
    ensures
        forall|blocked: bool, own_switch: bool|
            #[trigger] key_route(ev, blocked, own_switch) is Feed ==> !ev.injected && !blocked
                && !own_switch && (!commands(ev.modifiers) || only_modifies(ev.scancode)),
{
    lemma_only_modifies(ev.scancode);
}

/// Whatever is not fed to the buffer has its one reason: it came from a
/// program, may be a secret, is the engine's own hotkey, or is a shortcut,
/// among which Backspace erases a word.
pub proof fn law_every_key_has_its_route(ev: KeyEvent, blocked: bool, own_switch: bool)
    ensures
        ({
            let step = key_route(ev, blocked, own_switch);
            &&& step is Ignore <==> ev.injected
            &&& step is Forget <==> blocked && !ev.injected
            &&& step is OwnSwitch <==> own_switch && !blocked && !ev.injected
            &&& step is WordDelete ==> ev.scancode == 0x0E && commands(ev.modifiers)
            &&& step is Shortcut ==> ev.scancode != 0x0E && commands(ev.modifiers)
                && !only_modifies(ev.scancode)
        }),
{
    lemma_only_modifies(ev.scancode);
}

/// What a key is not about, it leaves alone: the stash goes only with a
/// secret and with a deleted word, the stamp only with a secret, and the
/// settings, the hotkeys and what they remember do not change.
pub proof fn law_a_key_changes_only_what_it_is_about(
    e: SwitcherEngine,
    ev: KeyEvent,
    blocked: bool,
    own_switch: bool,
    now: Instant,
)
    ensures
        ({
            let after = key_state(e, ev, key_route(ev, blocked, own_switch), now);
            &&& ev.injected ==> after == e
            &&& blocked && !ev.injected ==> after.last_word is None && after.word_layout is None
                && after.paste_guard_until == e.paste_guard_until
            &&& !blocked ==> after.word_layout == e.word_layout
            &&& !blocked && !(ev.scancode == 0x0E && commands(ev.modifiers)) ==> after.last_word
                == e.last_word
            &&& !blocked && !ev.injected && !own_switch && ev.scancode == 0x0E && commands(
                ev.modifiers,
            ) ==> after.last_word is None
            &&& after == (SwitcherEngine {
                last_word: after.last_word,
                word_layout: after.word_layout,
                paste_guard_until: after.paste_guard_until,
                ..e
            })
        }),
{
}

/// What is pasted is not judged: a word that is completed within the guard's
/// time after the user's own paste is behind the guard, and a key that
/// pastes nothing does not move the guard.
pub proof fn law_a_paste_raises_the_guard(
    e: SwitcherEngine,
    ev: KeyEvent,
    blocked: bool,
    own_switch: bool,
    now: Instant,
)
    requires
        now.nanos + PASTE_GUARD <= u128::MAX,
        !ev.injected,
        !blocked,
    ensures
        ({
            let after = key_state(e, ev, key_route(ev, blocked, own_switch), now);
            let m = ev.modifiers;
            let v = ev.scancode == 0x2F && m.control && !m.alt && !m.meta;
            let insert = ev.scancode == 0x6E && m.shift && !m.control && !m.alt && !m.meta;
            if (v || insert) && ev.direction == KeyDirection::Press {
                forall|t: Instant|
                    t.nanos < after.paste_guard_until.nanos <==> #[trigger] t.nanos < now.nanos
                        + 800_000_000
            } else {
                after.paste_guard_until == e.paste_guard_until
            }
        }),
{
}

/// With the guard on, only a field that is known to be safe is read; with it
/// off, every field is.
pub proof fn law_only_a_safe_field_is_read(enabled: bool, state: SensitiveInput)
    ensures
        !is_blocked(enabled, state) ==> !enabled || state is NotSensitive,
        is_blocked(enabled, state) ==> enabled,
        !is_blocked(true, SensitiveInput::NotSensitive),
        !is_blocked(false, state),
{
}

// ─── Commands ────────────────────────────────────────────────────────

/// After a switch at `t`, presses are dropped for exactly the rearming time;
/// before any switch none is.
pub proof fn law_a_press_is_an_echo_for_a_while(t: Instant, now: Instant)
    ensures
        rearming(Some(t), now) <==> now.nanos < t.nanos + 150_000_000,
        !rearming(None, now),
{
}

/// At most one word can be taken, and it touches the caret: the word being
/// typed where there is one; the stash only where nothing stands between it
/// and the caret but the one separator that closed it.
pub proof fn law_the_word_touches_the_caret(
    stamp: Option<LayoutId>,
    buffer: BufferView,
    current: Option<LayoutId>,
    layouts: LayoutDb,
)
    ensures
        stash_reachable(buffer) ==> buffer.keys@.len() + buffer.boundary_run@.len() <= 1,
        stash_reachable(buffer) && buffer.boundary_run@.len() == 1 ==> buffer.completed@.len() != 0,
        buffer.keys@.len() + buffer.boundary_run@.len() == 0 ==> stash_reachable(buffer),
        buffer.keys@.len() == 0 && buffer.boundary_run@.len() == 1 && buffer.completed@.len() != 0
            ==> stash_reachable(buffer),
        !(stash_reachable(buffer) && typing_reachable(stamp, buffer, current, layouts)),
        typing_reachable(stamp, buffer, current, layouts) ==> !buffer.poisoned && buffer.keys@.len()
            != 0 && (stamp is Some || current is Some),
        stamp is Some ==> typing_reachable(stamp, buffer, current, layouts) == (
        !buffer.poisoned && buffer.keys@.len() != 0 && layouts.known(stamp->0@)),
        stamp is None && current is Some ==> typing_reachable(stamp, buffer, current, layouts) == (
        !buffer.poisoned && buffer.keys@.len() != 0 && layouts.known(current->0@)),
{
}

/// A flip of the pause changes the pause and nothing else.
pub proof fn law_a_flip_changes_the_pause(e: SwitcherEngine)
    ensures
        pause_flipped(e).paused != e.paused,
        e == (SwitcherEngine { paused: e.paused, ..pause_flipped(e) }),
{
}

// ─── Hotkeys ─────────────────────────────────────────────────────────

/// An event is exactly one chord: the one of its own key and of all the
/// modifiers held, Ctrl, Shift, Alt and Meta, no more and no fewer.
pub proof fn law_an_event_is_one_chord(ev: KeyEvent, c: Chord, d: Chord)
    ensures
        is_chord(ev, c) && is_chord(ev, d) ==> c == d,
        exists|own: Chord| #[trigger] is_chord(ev, own) && own.scancode == ev.scancode,
        holds_exactly(ev.modifiers, c) && holds_exactly(ev.modifiers, d) ==> c.ctrl == d.ctrl
            && c.shift == d.shift && c.alt == d.alt && c.meta == d.meta,
        is_chord(ev, c) ==> c.ctrl == ev.modifiers.control && c.meta == ev.modifiers.meta,
{
    let m = ev.modifiers;
    assert(is_chord(
        ev,
        Chord {
            scancode: ev.scancode,
            ctrl: m.control,
            shift: m.shift,
            alt: m.alt,
            meta: m.meta,
        },
    ));
}

/// A chord that was let go of fires again when it is pressed again, with
/// exactly its modifiers held; with any other held it does not.
pub proof fn law_a_chord_fires_again_after_its_release(
    up: KeyEvent,
    down: KeyEvent,
    chord: Chord,
    latched: bool,
)
    requires
        up.scancode == chord.scancode,
        up.direction == KeyDirection::Release,
        down.scancode == chord.scancode,
        down.direction == KeyDirection::Press,
    ensures
        chord_fires(down, chord, latch_after(up, chord, latched)) <==> down.modifiers.control
            == chord.ctrl && down.modifiers.shift == chord.shift && down.modifiers.alt == chord.alt
            && down.modifiers.meta == chord.meta,
        !chord_fires(up, chord, latched),
{
}

/// A key that is none of a chord's leaves it alone.
pub proof fn law_other_keys_leave_a_chord_alone(ev: KeyEvent, chord: Chord, latched: bool)
    requires
        ev.scancode != chord.scancode,
    ensures
        !chord_fires(ev, chord, latched),
        latch_after(ev, chord, latched) == latched,
{
}

/// The latch after the events.
pub open spec fn trigger_after_all(
    evs: Seq<KeyEvent>,
    hk: KeystreamHotkeys,
    down: Option<u32>,
) -> Option<u32>
    decreases evs.len(),
{
    if evs.len() == 0 {
        down
    } else {
        trigger_after(evs.last(), hk, trigger_after_all(evs.drop_last(), hk, down))
    }
}

/// The user's own press of a chord is known to be down until that key comes
/// up, whatever else is typed meanwhile, and no longer.
pub proof fn law_a_trigger_is_down_until_it_comes_up(
    press: KeyEvent,
    between: Seq<KeyEvent>,
    up: KeyEvent,
    hk: KeystreamHotkeys,
    c: Chord,
)
    requires
        !press.injected,
        press.direction == KeyDirection::Press,
        hk.pause == Some(Binding::Key(c)) || hk.switch_last == Some(Binding::Key(c)),
        press.scancode == c.scancode,
        press.modifiers.control == c.ctrl,
        press.modifiers.shift == c.shift,
        press.modifiers.alt == c.alt,
        press.modifiers.meta == c.meta,
        forall|i: int|
            0 <= i < between.len() ==> (#[trigger] between[i]).injected || between[i].scancode
                != press.scancode || between[i].direction == KeyDirection::Press,
        !up.injected,
        up.direction == KeyDirection::Release,
        up.scancode == press.scancode,
    ensures
        ({
            let down = trigger_after_all(between, hk, trigger_after(press, hk, None));
            &&& down == Some(press.scancode)
            &&& trigger_after(up, hk, down) is None
        }),
    decreases between.len(),
{
    if between.len() > 0 {
        assert forall|i: int| 0 <= i < between.drop_last().len() implies (
        #[trigger] between.drop_last()[i]).injected || between.drop_last()[i].scancode
            != press.scancode || between.drop_last()[i].direction == KeyDirection::Press by {
            assert(between[i] == between.drop_last()[i]);
        }
        law_a_trigger_is_down_until_it_comes_up(press, between.drop_last(), up, hk, c);
        assert(between[between.len() - 1] == between.last());
    }
}

/// What a program emits is nobody's press.
pub proof fn law_injected_events_move_no_latch(
    ev: KeyEvent,
    hk: KeystreamHotkeys,
    down: Option<u32>,
)
    requires
        ev.injected,
    ensures
        trigger_after(ev, hk, down) == down,
{
}

/// A hotkey is under the finger while the key that took the latch is, and
/// where the system has taken the chord while exactly the chord's modifiers
/// are held.
pub proof fn law_a_hotkey_is_under_the_finger(e: SwitcherEngine, c: Chord)
    requires
        c.ctrl == e.held_modifiers.control,
        c.shift == e.held_modifiers.shift,
        c.alt == e.held_modifiers.alt,
        c.meta == e.held_modifiers.meta,
    ensures
        ({
            let m = e.held_modifiers;
            let grabbed = e.keystream_hotkeys.grabbed@;
            let none = !m.control && !m.shift && !m.alt && !m.meta;
            &&& e.chord_state.trigger_down is Some ==> e.trigger_is_down()
            &&& e.chord_state.trigger_down is None && none ==> !e.trigger_is_down()
            &&& !none && (grabbed[0] == Some(c) || grabbed[1] == Some(c)) ==> e.trigger_is_down()
            &&& e.chord_state.trigger_down is None && e.trigger_is_down() ==> exists|i: int|
                0 <= i < 2 && #[trigger] grabbed[i] is Some && grabbed[i]->0.ctrl == m.control
                    && grabbed[i]->0.shift == m.shift && grabbed[i]->0.alt == m.alt
                    && grabbed[i]->0.meta == m.meta
        }),
{
    let grabbed = e.keystream_hotkeys.grabbed@;
    let first = grabbed[0];
    let second = grabbed[1];
}

/// A hotkey fires as its chord does, whichever kind it has, and follows that
/// one alone.
pub proof fn law_a_binding_acts_as_its_chord(
    ev: KeyEvent,
    c: Chord,
    m: ModChord,
    st: BindingState,
    now: Instant,
)
    ensures
        opt_binding_fires(ev, Some(Binding::Key(c)), st, now) == chord_fires(ev, c, st.key_down),
        opt_binding_fires(ev, Some(Binding::Mods(m)), st, now) == tap_fires(ev, m, st.mods, now),
        opt_binding_after(ev, Some(Binding::Key(c)), st, now).key_down == latch_after(
            ev,
            c,
            st.key_down,
        ),
        opt_binding_after(ev, Some(Binding::Mods(m)), st, now).mods == tap_after(
            ev,
            m,
            st.mods,
            now,
        ),
        opt_binding_after(ev, Some(Binding::Key(c)), st, now).mods == st.mods,
        opt_binding_after(ev, Some(Binding::Mods(m)), st, now).key_down == st.key_down,
        opt_binding_after(ev, None, st, now) == st,
{
}

/// A hotkey that is not set never fires.
pub proof fn law_no_binding_never_fires(ev: KeyEvent, st: BindingState, now: Instant)
    ensures
        !opt_binding_fires(ev, None, st, now),
{
}

/// The key is the left or the right one of a modifier.
pub open spec fn stands_for(scancode: u32, r: ModRole) -> bool {
    match r {
        ModRole::Ctrl => seq![0x1Du32, 0x61].contains(scancode),
        ModRole::Shift => seq![0x2Au32, 0x36].contains(scancode),
        ModRole::Alt => seq![0x38u32, 0x64].contains(scancode),
        ModRole::Meta => seq![0x5Bu32, 0x5C, 0x7D, 0x7E].contains(scancode),
    }
}

/// A key has a modifier's role exactly where it is the left or the right one
/// of that modifier.
pub proof fn law_only_modifiers_have_a_role(scancode: u32, r: ModRole)
    ensures
        role_of(scancode) == Some(r) <==> stands_for(scancode, r),
{
    let keys = match r {
        ModRole::Ctrl => seq![0x1Du32, 0x61],
        ModRole::Shift => seq![0x2Au32, 0x36],
        ModRole::Alt => seq![0x38u32, 0x64],
        ModRole::Meta => seq![0x5Bu32, 0x5C, 0x7D, 0x7E],
    };
    if stands_for(scancode, r) {
        let i = choose|i: int| 0 <= i < keys.len() && keys[i] == scancode;
    }
    if role_of(scancode) == Some(r) {
        let i: int = if scancode == keys[0] {
            0
        } else if scancode == keys[1] {
            1
        } else if scancode == 0x7D {
            2
        } else {
            3
        };
        assert(keys[i] == scancode);
    }
}

/// Two modifiers held together fire a chord of just those two, when the last
/// of them comes up in time, whichever that is; a chord of one of them alone
/// does not fire.
pub proof fn law_two_modifiers_fire_together(
    first: KeyEvent,
    second: KeyEvent,
    up: KeyEvent,
    last: KeyEvent,
    chord: ModChord,
    st: ModTapState,
    t0: Instant,
    t1: Instant,
    t2: Instant,
    t3: Instant,
    r: ModRole,
    q: ModRole,
)
    requires
        st.down == ModSet::spec_none(),
        !chord.double_tap,
        r != q,
        stands_for(first.scancode, r),
        stands_for(second.scancode, q),
        first.direction == KeyDirection::Press,
        second.direction == KeyDirection::Press,
        up.direction == KeyDirection::Release,
        last.direction == KeyDirection::Release,
        up.scancode == first.scancode && last.scancode == second.scancode || up.scancode
            == second.scancode && last.scancode == first.scancode,
        t0.nanos <= t1.nanos <= t2.nanos <= t3.nanos,
    ensures
        ({
            let s1 = tap_after(first, chord, st, t0);
            let s2 = tap_after(second, chord, s1, t1);
            let s3 = tap_after(up, chord, s2, t2);
            &&& !tap_fires(first, chord, st, t0) && !tap_fires(second, chord, s1, t1)
                && !tap_fires(up, chord, s2, t2)
            &&& chord.mods == ModSet::spec_none().with(r).with(q) ==> (tap_fires(
                last,
                chord,
                s3,
                t3,
            ) <==> t3.nanos <= t0.nanos + MOD_TAP_MAX)
            &&& chord.mods == ModSet::spec_none().with(r) || chord.mods
                == ModSet::spec_none().with(q) ==> !tap_fires(last, chord, s3, t3)
        }),
{
    law_only_modifiers_have_a_role(first.scancode, r);
    law_only_modifiers_have_a_role(second.scancode, q);
}

/// A lone modifier, tapped: pressed with nothing else held and let go of in
/// time, it fires a chord of just that modifier; held for longer, it does
/// not.
pub proof fn law_a_short_tap_fires(
    down: KeyEvent,
    up: KeyEvent,
    chord: ModChord,
    st: ModTapState,
    t0: Instant,
    t1: Instant,
    r: ModRole,
)
    requires
        st.down == ModSet::spec_none(),
        !chord.double_tap,
        chord.mods == ModSet::spec_none().with(r),
        down.direction == KeyDirection::Press,
        up.direction == KeyDirection::Release,
        down.scancode == up.scancode,
        t0.nanos <= t1.nanos,
        stands_for(down.scancode, r),
    ensures
        tap_fires(up, chord, tap_after(down, chord, st, t0), t1) <==> t1.nanos <= t0.nanos
            + MOD_TAP_MAX,
{
}

/// A second tap fires a double-tap chord where it follows the first closely,
/// and the first does not.
pub proof fn law_a_double_tap_fires_on_the_second(
    down: KeyEvent,
    up: KeyEvent,
    chord: ModChord,
    st: ModTapState,
    t0: Instant,
    t1: Instant,
    t2: Instant,
    t3: Instant,
    r: ModRole,
)
    requires
        st.down == ModSet::spec_none(),
        st.last_tap is None,
        chord.double_tap,
        chord.mods == ModSet::spec_none().with(r),
        down.direction == KeyDirection::Press,
        up.direction == KeyDirection::Release,
        down.scancode == up.scancode,
        stands_for(down.scancode, r),
        t0.nanos <= t1.nanos <= t2.nanos <= t3.nanos,
        t1.nanos <= t0.nanos + MOD_TAP_MAX,
        t3.nanos <= t2.nanos + MOD_TAP_MAX,
    ensures
        ({
            let s1 = tap_after(down, chord, st, t0);
            let s2 = tap_after(up, chord, s1, t1);
            let s3 = tap_after(down, chord, s2, t2);
            &&& !tap_fires(up, chord, s1, t1)
            &&& tap_fires(up, chord, s3, t3) <==> t3.nanos <= t1.nanos + MOD_DOUBLE_TAP_GAP
        }),
{
}

// ─── Digits ──────────────────────────────────────────────────────────

/// The digit keys count up: the nine keys from `1` on stand for the entries
/// in their order, and no other key for any.
pub proof fn law_digits_count_the_entries(a: u32, b: u32)
    ensures
        digit_index(0x02) == Some(0int),
        a == b + 1 && digit_index(b) is Some && b != 0x0A ==> digit_index(a) == Some(
            digit_index(b)->0 + 1,
        ),
        digit_index(a) is Some && digit_index(a) == digit_index(b) ==> a == b,
        digit_index(a) is Some ==> 0 <= digit_index(a)->0 < 9,
        digit_index(0x0A) == Some(8int),
{
}

/// A digit accepts an entry only of the offer that is up, only one the offer
/// has, and only with exactly the offer's modifiers held; and then it does.
pub proof fn law_a_digit_accepts_an_entry_of_the_offer(
    offer: Option<PendingSuggestion>,
    m: Modifiers,
    index: int,
    other: Modifiers,
)
    ensures
        offer is None ==> accepts_digit(offer, m, index) is None,
        accepts_digit(offer, m, index) is Some ==> offer is Some && accepts_digit(offer, m, index)
            == Some(offer->0.generation) && index < offer->0.entries && offer->0.accept is Some,
        accepts_digit(offer, m, index) is Some && accepts_digit(offer, other, index) is Some
            ==> m.control == other.control && m.shift == other.shift && m.alt == other.alt && m.meta
            == other.meta,
        offer is Some && offer->0.accept is Some ==> {
            let a = offer->0.accept->0;
            accepts_digit(
                offer,
                Modifiers {
                    control: a.ctrl,
                    shift: a.shift,
                    alt: a.alt,
                    meta: a.meta,
                    caps: m.caps,
                },
                index,
            ) is Some <==> index < offer->0.entries
        },
{
}

// ─── The look at the key stream ──────────────────────────────────────

/// No press of the user's is lost in a look: a letter is the last of the
/// letters; a separator is the one to resume with; any other key that means
/// something is the one that stopped it, and marks the look as suspicious;
/// what was seen before stays.
pub proof fn law_a_look_keeps_every_press(w: WindowV, ev: KeyEvent, kind: KeyKind)
    ensures
        ({
            let (after, more) = window_after(w, ev, kind);
            let plain = !commands(ev.modifiers);
            &&& after.saw_user_press
            &&& after.word_keys.len() == w.word_keys.len() + if plain && kind is Word {
                1int
            } else {
                0
            }
            &&& after.word_keys.take(w.word_keys.len() as int) == w.word_keys
            &&& plain && kind is Word ==> after.word_keys.last() == ev
            &&& plain && kind is Boundary ==> after.resume == Some(ev)
            &&& plain && (kind is Backspace || kind is EndAndDiscard) && ev.scancode != 0x110
                ==> after.stopper == Some(ev)
            &&& !(plain && kind is Boundary) ==> after.resume == w.resume
            &&& plain && (kind is Word || kind is Boundary || kind is Discard) ==> after.stopper
                == w.stopper
            &&& !plain || ev.scancode == 0x110 ==> after.stopper == w.stopper
            &&& after.suspicious <==> w.suspicious || !plain || kind is Backspace
                || kind is EndAndDiscard
            &&& more <==> plain && (kind is Word || kind is Discard)
        }),
{
    let (after, more) = window_after(w, ev, kind);
    assert(after.word_keys.take(w.word_keys.len() as int) =~= w.word_keys);
}

/// An event is the user's own press when nobody emitted it, it is no
/// release, and it is neither one of the engine's chords nor the click that
/// accepted an offer.
pub proof fn law_whose_press_it_is(e: SwitcherEngine, ev: KeyEvent, allowance: usize, c: Chord)
    requires
        c == (Chord {
            scancode: ev.scancode,
            ctrl: ev.modifiers.control,
            shift: ev.modifiers.shift,
            alt: ev.modifiers.alt,
            meta: ev.modifiers.meta,
        }),
    ensures
        ({
            let hk = e.keystream_hotkeys;
            let own = hk.pause == Some(Binding::Key(c)) || hk.switch_last == Some(Binding::Key(c))
                || hk.grabbed@[0] == Some(c) || hk.grabbed@[1] == Some(c);
            &&& e.is_user_press(ev, allowance) <==> ev.direction == KeyDirection::Press
                && !ev.injected && !own && !(ev.scancode == 0x110 && allowance != 0)
            &&& is_opt_chord(ev, hk.switch()) ==> own
            &&& hk.switch_last == Some(Binding::Key(c)) ==> is_opt_chord(ev, hk.switch())
            &&& hk.switch_last is None && hk.grabbed@[1] == Some(c) ==> is_opt_chord(
                ev,
                hk.switch(),
            )
        }),
{
}

} // verus!
