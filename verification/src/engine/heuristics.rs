//! Pure decision helpers of the engine.

use vstd::prelude::*;
use vstd::string::*;

use crate::engine::consts::{MOD_DOUBLE_TAP_GAP, MOD_TAP_MAX};
use crate::engine::types::{
    Binding, BindingState, Chord, ModChord, ModRole, ModSet, ModTapState,
};
use crate::keys::{
    plain_key, separator_key, KeyDirection, KeyEvent, Modifiers, WordKey, SC_INSERT, SC_V,
};
use crate::layouts::{contains_id, key_of_char, names, LayoutDb, LayoutId};
use crate::text::{
    ascii_fold, char_is_alphabetic, char_is_lowercase, char_is_uppercase, chars_of,
    eq_ignore_ascii_case,
};
use crate::time::{span_between, Instant};

verus! {

broadcast use vstd::string::group_string_axioms;

// ─── Chords ──────────────────────────────────────────────────────────

/// Exactly the chord's modifiers are held.
pub open spec fn holds_exactly(m: Modifiers, c: Chord) -> bool {
    m.control == c.ctrl && m.shift == c.shift && m.alt == c.alt && m.meta == c.meta
}

/// The latch of a chord's key after one event: down after a press of the
/// key, up after its release, untouched by every other key.
pub open spec fn latch_after(ev: KeyEvent, chord: Chord, latched: bool) -> bool {
    if ev.scancode == chord.scancode {
        ev.direction == KeyDirection::Press
    } else {
        latched
    }
}

/// The chord fires on the press that takes its key down, with exactly its
/// modifiers held.
pub open spec fn chord_fires(ev: KeyEvent, chord: Chord, latched: bool) -> bool {
    &&& ev.scancode == chord.scancode
    &&& ev.direction == KeyDirection::Press
    &&& !latched
    &&& holds_exactly(ev.modifiers, chord)
}

/// Returns `true` exactly once per physical press of `chord`'s key while
/// the chord's modifiers are held. `key_down` carries the latch state
/// across calls.
pub fn match_chord(ev: &KeyEvent, chord: Chord, key_down: &mut bool) -> (fired: bool)
    ensures
        fired == chord_fires(*ev, chord, *old(key_down)),
        *final(key_down) == latch_after(*ev, chord, *old(key_down)),
{
    if ev.scancode != chord.scancode {
        return false;
    }
    match ev.direction {
        KeyDirection::Release => {
            *key_down = false;
            false
        },
        KeyDirection::Press => {
            if *key_down {
                return false;
            }
            *key_down = true;
            ev.modifiers.control == chord.ctrl && ev.modifiers.shift == chord.shift
                && ev.modifiers.alt == chord.alt && ev.modifiers.meta == chord.meta
        },
    }
}

/// What one event makes of a hotkey's memory.
pub open spec fn binding_after(
    ev: KeyEvent,
    binding: Binding,
    st: BindingState,
    now: Instant,
) -> BindingState {
    match binding {
        Binding::Key(c) => BindingState { key_down: latch_after(ev, c, st.key_down), ..st },
        Binding::Mods(m) => BindingState { mods: tap_after(ev, m, st.mods, now), ..st },
    }
}

pub open spec fn binding_fires(
    ev: KeyEvent,
    binding: Binding,
    st: BindingState,
    now: Instant,
) -> bool {
    match binding {
        Binding::Key(c) => chord_fires(ev, c, st.key_down),
        Binding::Mods(m) => tap_fires(ev, m, st.mods, now),
    }
}

/// Match one key event against whichever kind of binding this hotkey
/// carries. `state` is the hotkey's own, one per hotkey.
pub fn match_binding(
    ev: &KeyEvent,
    binding: Binding,
    state: &mut BindingState,
    now: Instant,
) -> (fired: bool)
    ensures
        fired == binding_fires(*ev, binding, *old(state), now),
        *final(state) == binding_after(*ev, binding, *old(state), now),
{
    match binding {
        Binding::Key(c) => match_chord(ev, c, &mut state.key_down),
        Binding::Mods(m) => match_mod_chord(ev, m, &mut state.mods, now),
    }
}

/// Which modifier a bare modifier key stands for, left and right alike.
pub open spec fn role_of(sc: u32) -> Option<ModRole> {
    if sc == 0x1D || sc == 0x61 {
        Some(ModRole::Ctrl)
    } else if sc == 0x2A || sc == 0x36 {
        Some(ModRole::Shift)
    } else if sc == 0x38 || sc == 0x64 {
        Some(ModRole::Alt)
    } else if sc == 0x5B || sc == 0x5C || sc == 0x7D || sc == 0x7E {
        Some(ModRole::Meta)
    } else {
        None
    }
}

/// Which modifier a bare modifier key's scancode stands for, or `None`
/// for every other key — including Caps Lock, which is a key the user
/// types with, not a modifier we can bind.
pub fn modifier_role(sc: u32) -> (role: Option<ModRole>)
    ensures
        role == role_of(sc),
{
    match sc {
        0x1D | 0x61 => Some(ModRole::Ctrl),
        0x2A | 0x36 => Some(ModRole::Shift),
        0x38 | 0x64 => Some(ModRole::Alt),
        0x5B | 0x5C | 0x7D | 0x7E => Some(ModRole::Meta),
        _ => None,
    }
}

/// This event lets the last held modifier up.
pub open spec fn ends_hold(ev: KeyEvent, st: ModTapState) -> bool {
    ev.direction == KeyDirection::Release && (role_of(ev.scancode) matches Some(r)
        && st.down.without(r) == ModSet::spec_none())
}

/// The hold that ends at `now` was a tap of exactly the chord's modifiers:
/// none missing, none extra, no other key in between, and short.
pub open spec fn is_tap(chord: ModChord, st: ModTapState, now: Instant) -> bool {
    &&& !st.dirty
    &&& st.peak == chord.mods
    &&& st.started matches Some(t) && span_between(now, t) <= MOD_TAP_MAX
}

/// The previous tap counted and is recent enough to pair with this one.
pub open spec fn pairs_up(st: ModTapState, now: Instant) -> bool {
    st.last_tap matches Some(t) && span_between(now, t) <= MOD_DOUBLE_TAP_GAP
}

/// A modifier-only chord fires when the last modifier comes back up after
/// a tap — a paired one, where the chord is a double tap. Never on a press.
pub open spec fn tap_fires(ev: KeyEvent, chord: ModChord, st: ModTapState, now: Instant) -> bool {
    &&& ends_hold(ev, st)
    &&& is_tap(chord, st, now)
    &&& chord.double_tap ==> pairs_up(st, now)
}

/// What one event makes of the hold in progress.
pub open spec fn tap_after(
    ev: KeyEvent,
    chord: ModChord,
    st: ModTapState,
    now: Instant,
) -> ModTapState {
    match (ev.direction, role_of(ev.scancode)) {
        (KeyDirection::Press, Some(r)) => {
            let fresh = st.down == ModSet::spec_none();
            ModTapState {
                down: st.down.with(r),
                peak: (if fresh { ModSet::spec_none() } else { st.peak }).with(r),
                dirty: !fresh && st.dirty,
                started: if fresh { Some(now) } else { st.started },
                last_tap: st.last_tap,
            }
        },
        (KeyDirection::Press, None) => ModTapState {
            dirty: st.dirty || st.down != ModSet::spec_none(),
            ..st
        },
        (KeyDirection::Release, Some(r)) => if ends_hold(ev, st) {
            ModTapState {
                down: ModSet::spec_none(),
                peak: ModSet::spec_none(),
                dirty: false,
                started: None,
                last_tap: if !is_tap(chord, st, now) {
                    None
                } else if !chord.double_tap {
                    st.last_tap
                } else if pairs_up(st, now) {
                    None
                } else {
                    Some(now)
                },
            }
        } else {
            ModTapState { down: st.down.without(r), ..st }
        },
        (KeyDirection::Release, None) => st,
    }
}

/// Returns `true` once per completed modifier-only gesture.
///
/// Nothing fires on press, so the gesture lives alongside shortcuts that
/// use the same modifiers: the chord is judged when the last modifier comes
/// back up. `now` is passed in rather than read here.
pub fn match_mod_chord(ev: &KeyEvent, chord: ModChord, st: &mut ModTapState, now: Instant) -> (fired:
    bool)
    ensures
        fired == tap_fires(*ev, chord, *old(st), now),
        *final(st) == tap_after(*ev, chord, *old(st), now),
{
    let role = modifier_role(ev.scancode);
    match (ev.direction, role) {
        (KeyDirection::Press, Some(r)) => {
            if st.down.is_empty() {
                st.started = Some(now);
                st.peak = ModSet::none();
                st.dirty = false;
            }
            st.down = st.down.with(r);
            st.peak = st.peak.with(r);
            false
        },
        (KeyDirection::Press, None) => {
            st.dirty = st.dirty || !st.down.is_empty();
            false
        },
        (KeyDirection::Release, Some(r)) => {
            st.down = st.down.without(r);
            if !st.down.is_empty() {
                return false;
            }
            let short = match st.started {
                Some(t) => now.saturating_duration_since(t).nanos <= MOD_TAP_MAX,
                None => false,
            };
            let qualified = !st.dirty && st.peak == chord.mods && short;
            st.peak = ModSet::none();
            st.dirty = false;
            st.started = None;
            if !qualified {
                st.last_tap = None;
                return false;
            }
            if !chord.double_tap {
                return true;
            }
            let paired = match st.last_tap {
                Some(prev) => now.saturating_duration_since(prev).nanos <= MOD_DOUBLE_TAP_GAP,
                None => false,
            };
            if paired {
                st.last_tap = None;
                true
            } else {
                st.last_tap = Some(now);
                false
            }
        },
        (KeyDirection::Release, None) => false,
    }
}

/// The latch after a run of events.
pub open spec fn latch_after_all(evs: Seq<KeyEvent>, chord: Chord, latched: bool) -> bool
    decreases evs.len(),
{
    if evs.len() == 0 {
        latched
    } else {
        latch_after(evs.last(), chord, latch_after_all(evs.drop_last(), chord, latched))
    }
}

/// The chord's key comes back up.
pub open spec fn lets_go(ev: KeyEvent, chord: Chord) -> bool {
    ev.scancode == chord.scancode && ev.direction == KeyDirection::Release
}

/// A chord fires once per physical press: after the press that fired it,
/// whatever else is typed, it does not fire again before its key came up.
pub proof fn law_chord_fires_once_per_press(
    fired: KeyEvent,
    between: Seq<KeyEvent>,
    next: KeyEvent,
    chord: Chord,
    latched: bool,
)
    requires
        chord_fires(fired, chord, latched),
        forall|i: int| 0 <= i < between.len() ==> !lets_go(#[trigger] between[i], chord),
    ensures
        !chord_fires(
            next,
            chord,
            latch_after_all(between, chord, latch_after(fired, chord, latched)),
        ),
    decreases between.len(),
{
    if between.len() > 0 {
        assert forall|i: int| 0 <= i < between.drop_last().len() implies !lets_go(
            #[trigger] between.drop_last()[i],
            chord,
        ) by {
            assert(between.drop_last()[i] == between[i]);
        }
        law_chord_fires_once_per_press(fired, between.drop_last(), next, chord, latched);
        assert(!lets_go(between[between.len() - 1], chord));
        let before = latch_after_all(
            between.drop_last(),
            chord,
            latch_after(fired, chord, latched),
        );
        if !before {
            lemma_latch_stays_down(between.drop_last(), chord);
        }
    }
}

/// A latched key stays latched until it is let go.
proof fn lemma_latch_stays_down(evs: Seq<KeyEvent>, chord: Chord)
    requires
        forall|i: int| 0 <= i < evs.len() ==> !lets_go(#[trigger] evs[i], chord),
    ensures
        latch_after_all(evs, chord, true),
    decreases evs.len(),
{
    if evs.len() > 0 {
        assert forall|i: int| 0 <= i < evs.drop_last().len() implies !lets_go(
            #[trigger] evs.drop_last()[i],
            chord,
        ) by {
            assert(evs.drop_last()[i] == evs[i]);
        }
        lemma_latch_stays_down(evs.drop_last(), chord);
        assert(!lets_go(evs[evs.len() - 1], chord));
    }
}

/// Letting the chord's key go arms it again: its next press fires exactly
/// when the chord's modifiers are held with it.
pub proof fn law_release_rearms_the_chord(up: KeyEvent, down: KeyEvent, chord: Chord, latched: bool)
    requires
        lets_go(up, chord),
        down.scancode == chord.scancode,
        down.direction == KeyDirection::Press,
    ensures
        chord_fires(down, chord, latch_after(up, chord, latched)) == holds_exactly(
            down.modifiers,
            chord,
        ),
{
}

/// A hold in progress, seen through a run of events at their times.
pub open spec fn tap_after_all(
    evs: Seq<(KeyEvent, Instant)>,
    chord: ModChord,
    st: ModTapState,
) -> ModTapState
    decreases evs.len(),
{
    if evs.len() == 0 {
        st
    } else {
        tap_after(
            evs.last().0,
            chord,
            tap_after_all(evs.drop_last(), chord, st),
            evs.last().1,
        )
    }
}

/// No event of the run lets the last modifier up.
pub open spec fn hold_lasts(evs: Seq<(KeyEvent, Instant)>, chord: ModChord, st: ModTapState) -> bool {
    forall|i: int|
        0 <= i < evs.len() ==> !ends_hold(
            (#[trigger] evs[i]).0,
            tap_after_all(evs.take(i), chord, st),
        )
}

/// A modifier-only chord never fires on a press, nor on a key that is no
/// modifier.
pub proof fn law_modifier_chord_fires_only_on_release(
    ev: KeyEvent,
    chord: ModChord,
    st: ModTapState,
    now: Instant,
)
    ensures
        tap_fires(ev, chord, st, now) ==> ev.direction == KeyDirection::Release && role_of(
            ev.scancode,
        ) is Some,
{
}

/// A key pressed while modifiers are held makes the hold a shortcut: the
/// chord does not fire when that hold ends, whatever follows the key.
pub proof fn law_key_during_the_hold_is_a_shortcut(
    st: ModTapState,
    key: KeyEvent,
    at: Instant,
    rest: Seq<(KeyEvent, Instant)>,
    end: KeyEvent,
    now: Instant,
    chord: ModChord,
)
    requires
        st.down != ModSet::spec_none(),
        key.direction == KeyDirection::Press,
        role_of(key.scancode) is None,
        hold_lasts(rest, chord, tap_after(key, chord, st, at)),
    ensures
        !tap_fires(end, chord, tap_after_all(rest, chord, tap_after(key, chord, st, at)), now),
{
    lemma_dirty_hold_stays_dirty(rest, chord, tap_after(key, chord, st, at));
}

proof fn lemma_dirty_hold_stays_dirty(
    evs: Seq<(KeyEvent, Instant)>,
    chord: ModChord,
    st: ModTapState,
)
    requires
        st.down != ModSet::spec_none(),
        st.dirty,
        hold_lasts(evs, chord, st),
    ensures
        tap_after_all(evs, chord, st).dirty,
        tap_after_all(evs, chord, st).down != ModSet::spec_none(),
    decreases evs.len(),
{
    if evs.len() > 0 {
        let init = evs.drop_last();
        assert(hold_lasts(init, chord, st)) by {
            assert forall|i: int| 0 <= i < init.len() implies !ends_hold(
                (#[trigger] init[i]).0,
                tap_after_all(init.take(i), chord, st),
            ) by {
                assert(init[i] == evs[i]);
                assert(init.take(i) =~= evs.take(i));
            }
        }
        lemma_dirty_hold_stays_dirty(init, chord, st);
        assert(evs.take(evs.len() - 1) =~= init);
        assert(!ends_hold(evs[evs.len() - 1].0, tap_after_all(init, chord, st)));
    }
}

// ─── Single keys ─────────────────────────────────────────────────────

pub open spec fn pastes(ev: KeyEvent) -> bool {
    let m = ev.modifiers;
    &&& ev.direction == KeyDirection::Press
    &&& {
        ||| m.control && !m.alt && !m.meta && ev.scancode == SC_V
        ||| m.shift && !m.control && !m.alt && !m.meta && ev.scancode == SC_INSERT
    }
}

/// True for the common clipboard-paste chords: `Ctrl+V`, `Ctrl+Shift+V`
/// (terminals), and `Shift+Insert`.
pub fn is_paste_shortcut(ev: &KeyEvent) -> (b: bool)
    ensures
        b == pastes(*ev),
{
    if ev.direction != KeyDirection::Press {
        return false;
    }
    let m = ev.modifiers;
    (m.control && !m.alt && !m.meta && ev.scancode == SC_V) || (m.shift && !m.control && !m.alt
        && !m.meta && ev.scancode == SC_INSERT)
}

/// Enter, Tab and numpad Enter.
pub open spec fn submits(sc: u32) -> bool {
    sc == 0x1C || sc == 0x0F || sc == 0x60
}

/// Scancodes whose replay would submit a line / move focus (Enter,
/// Tab, numpad Enter) — never safe to re-emit as part of a correction.
pub fn is_submission_scancode(sc: u32) -> (b: bool)
    ensures
        b == submits(sc),
{
    matches!(sc, 0x1C | 0x0F | 0x60)
}

/// A key with a modifier's role, or Caps Lock, which has none.
pub open spec fn is_bare_modifier(sc: u32) -> bool {
    role_of(sc) is Some || sc == 0x3A
}

/// Bare modifier keys: left/right Ctrl, Shift, Alt, Meta and Caps Lock.
pub fn is_modifier_scancode(sc: u32) -> (b: bool)
    ensures
        b == is_bare_modifier(sc),
{
    modifier_role(sc).is_some() || sc == 0x3A
}

// ─── Applications ────────────────────────────────────────────────────

/// `exe` is on the list, the case of ASCII letters aside.
pub open spec fn on_app_list(exe: Seq<char>, list: Seq<String>) -> bool {
    exists|i: int| 0 <= i < list.len() && ascii_fold((#[trigger] list[i])@) == ascii_fold(exe)
}

/// Case-insensitive basename match against the user's disabled-apps list.
pub fn app_is_disabled(exe: &str, disabled: &[String]) -> (b: bool)
    ensures
        b == on_app_list(exe@, disabled@),
{
    let mut i: usize = 0;
    while i < disabled.len()
        invariant
            i <= disabled.len(),
            forall|j: int|
                0 <= j < i ==> ascii_fold((#[trigger] disabled@[j])@) != ascii_fold(exe@),
        decreases disabled.len() - i,
    {
        if eq_ignore_ascii_case(disabled[i].as_str(), exe) {
            return true;
        }
        i += 1;
    }
    false
}

// ─── Separators ──────────────────────────────────────────────────────

pub open spec fn is_structural(ch: char) -> bool {
    ch == ':' || ch == '/' || ch == '\\' || ch == '@' || ch == '=' || ch == '#' || ch == '&'
}

/// Boundary characters that mean URL / path / email / code rather than
/// prose, and therefore suppress auto-switching.
pub fn is_structural_boundary(ch: char) -> (b: bool)
    ensures
        b == is_structural(ch),
{
    matches!(ch, ':' | '/' | '\\' | '@' | '=' | '#' | '&')
}

pub open spec fn ends_sentence(ch: char) -> bool {
    ch == '.' || ch == ',' || ch == '!' || ch == '?'
}

/// Sentence punctuation that can appear as a structural symbol while
/// the wrong layout is active.
pub fn is_sentence_punctuation(ch: char) -> (b: bool)
    ensures
        b == ends_sentence(ch),
{
    matches!(ch, '.' | ',' | '!' | '?')
}

/// Render one physical boundary key under a candidate target layout.
pub fn boundary_char_in_layout(
    layouts: &LayoutDb,
    target: &LayoutId,
    scancode: u32,
    shift: bool,
) -> (c: Option<char>)
    ensures
        c == layouts.renders(target@, plain_key(scancode, shift)),
{
    match layouts.get(target) {
        Some(m) => m.translate_key(separator_key(scancode, shift)),
        None => None,
    }
}

pub open spec fn is_line_end(ch: char) -> bool {
    ch == '\n' || ch == '\r' || ch == '\t'
}

/// A boundary that *submits* or *navigates* rather than separating
/// words mid-line.
pub fn is_submission_boundary(ch: char) -> (b: bool)
    ensures
        b == is_line_end(ch),
{
    matches!(ch, '\n' | '\r' | '\t')
}

/// How many characters of `s` are upper-case letters.
pub open spec fn upper_count(s: Seq<char>) -> nat {
    s.filter(|c: char| char_is_uppercase(c)).len()
}

/// No lower-case letter, and at least two upper-case ones.
pub open spec fn is_all_caps(s: Seq<char>) -> bool {
    &&& forall|i: int| 0 <= i < s.len() ==> !char_is_lowercase(#[trigger] s[i])
    &&& upper_count(s) >= 2
}

/// True when the rendered word looks like a deliberate ALL-CAPS
/// abbreviation: at least two cased letters, every one uppercase.
pub fn looks_like_all_caps(text: &str) -> (b: bool)
    ensures
        b == is_all_caps(text@),
{
    let v = chars_of(text);
    let mut upper_letters: usize = 0;
    let mut i: usize = 0;
    proof {
        reveal(Seq::filter);
    }
    while i < v.len()
        invariant
            i <= v.len(),
            v@ == text@,
            upper_letters <= i,
            upper_letters == upper_count(v@.take(i as int)),
            forall|j: int| 0 <= j < i ==> !char_is_lowercase(#[trigger] v@[j]),
        decreases v.len() - i,
    {
        let c = v[i];
        if c.is_lowercase() {
            assert(char_is_lowercase(text@[i as int]));
            return false;
        }
        proof {
            reveal(Seq::filter);
            assert(v@.take(i + 1).drop_last() =~= v@.take(i as int));
        }
        if c.is_uppercase() {
            upper_letters += 1;
        }
        i += 1;
    }
    assert(v@.take(v@.len() as int) =~= v@);
    upper_letters >= 2
}

// ─── Layouts ─────────────────────────────────────────────────────────

/// `id` passes the user's allow-list, the user's block-list and the list of
/// layouts the OS has enabled; the current layout needs no entry on the
/// first and the last.
pub open spec fn eligible(
    id: Seq<char>,
    current: Seq<char>,
    active: Seq<Seq<char>>,
    ignored: Seq<Seq<char>>,
    os_active: Option<Seq<Seq<char>>>,
) -> bool {
    &&& active.len() == 0 || active.contains(id) || id == current
    &&& !ignored.contains(id)
    &&& os_active matches Some(list) ==> list.contains(id) || id == current
}

/// The names on an optional list of layouts.
pub open spec fn opt_names(ids: Option<&[LayoutId]>) -> Option<Seq<Seq<char>>> {
    match ids {
        Some(list) => Some(names(list@)),
        None => None,
    }
}

/// Decide whether `id` belongs in the candidate set the detectors score
/// against. Without an answer from the OS its list does not count.
pub fn is_layout_eligible(
    id: &LayoutId,
    current: &LayoutId,
    settings_active: &[LayoutId],
    settings_ignored: &[LayoutId],
    os_active: Option<&[LayoutId]>,
) -> (b: bool)
    ensures
        b == eligible(
            id@,
            current@,
            names(settings_active@),
            names(settings_ignored@),
            opt_names(os_active),
        ),
{
    let is_current = id.same(current);
    let allowed = settings_active.len() == 0 || contains_id(settings_active, id) || is_current;
    let blocked = contains_id(settings_ignored, id);
    let os_ok = match os_active {
        Some(a) => contains_id(a, id) || is_current,
        None => true,
    };
    allowed && !blocked && os_ok
}

/// The layout in use is a candidate unless the user ignores it, and an
/// ignored layout never is.
pub proof fn law_current_layout_is_eligible_unless_ignored(
    current: Seq<char>,
    active: Seq<Seq<char>>,
    ignored: Seq<Seq<char>>,
    os_active: Option<Seq<Seq<char>>>,
)
    ensures
        eligible(current, current, active, ignored, os_active) == !ignored.contains(current),
        forall|id: Seq<char>|
            ignored.contains(id) ==> !eligible(id, current, active, ignored, os_active),
{
}

/// The key that types `ch` under `target`: the one that was pressed where
/// it gives `ch` there too, else the layout's own key for `ch`, else the
/// one that was pressed.
pub open spec fn boundary_key(
    layouts: LayoutDb,
    target: Seq<char>,
    scancode: u32,
    shift: bool,
    ch: char,
) -> (u32, bool) {
    if layouts.renders(target, plain_key(scancode, shift)) == Some(ch) {
        (scancode, shift)
    } else {
        match key_of_char(layouts.chars(target), ch) {
            Some(k) => k,
            None => (scancode, shift),
        }
    }
}

/// Which key reproduces the boundary character `ch` under `target`.
pub fn boundary_key_for(
    layouts: &LayoutDb,
    target: &LayoutId,
    scancode: u32,
    shift: bool,
    ch: char,
) -> (key: (u32, bool))
    ensures
        key == boundary_key(*layouts, target@, scancode, shift, ch),
{
    let mapping = match layouts.get(target) {
        Some(m) => m,
        None => {
            return (scancode, shift);
        },
    };
    let as_typed = mapping.translate_key(separator_key(scancode, shift));
    if let Some(c) = as_typed {
        if c == ch {
            return (scancode, shift);
        }
    }
    match mapping.key_for_char(ch) {
        Some(k) => k,
        None => (scancode, shift),
    }
}

/// The rendering of `keys` under the layout `id`, without the cross-layout
/// artifacts: characters that are no letters here, on keys that are letters
/// in some other layout.
pub open spec fn code_reading(layouts: LayoutDb, id: Seq<char>, keys: Seq<WordKey>) -> Seq<char>
    decreases keys.len(),
{
    if keys.len() == 0 {
        Seq::empty()
    } else {
        let init = code_reading(layouts, id, keys.drop_last());
        let k = keys.last();
        match layouts.renders(id, k) {
            Some(c) => if char_is_alphabetic(c) || !layouts.letter_somewhere(k.scancode, k.shift) {
                init.push(c)
            } else {
                init
            },
            None => init,
        }
    }
}

/// Render the buffer through the current layout, skipping every
/// *cross-layout artifact*. Falls back to `fallback` when the current
/// layout is not in the DB.
pub fn render_for_code_check(
    keys: &[WordKey],
    current_layout: &LayoutId,
    layouts: &LayoutDb,
    fallback: &str,
) -> (out: String)
    ensures
        out@ == if layouts.known(current_layout@) {
            code_reading(*layouts, current_layout@, keys@)
        } else {
            fallback@
        },
{
    let mapping = match layouts.get(current_layout) {
        Some(m) => m,
        None => {
            return fallback.to_owned();
        },
    };
    let mut out = String::new();
    let mut i: usize = 0;
    while i < keys.len()
        invariant
            i <= keys.len(),
            mapping.levels@ == layouts.levels(current_layout@),
            out@ == code_reading(*layouts, current_layout@, keys@.take(i as int)),
        decreases keys.len() - i,
    {
        assert(keys@.take(i + 1).drop_last() =~= keys@.take(i as int));
        let k = keys[i];
        if let Some(c) = mapping.translate_key(k) {
            if c.is_alphabetic() || !layouts.is_letter_in_any_layout(k.scancode, k.shift) {
                out.push(c);
            }
        }
        i += 1;
    }
    assert(keys@.take(keys@.len() as int) =~= keys@);
    out
}

} // verus!
