//! Hotkeys matched off the key stream and suggestion-accept digit chords.

use vstd::prelude::*;

use crate::engine::heuristics::{binding_after, binding_fires, holds_exactly, match_binding};
use crate::engine::switcher::SwitcherEngine;
use crate::engine::types::{
    Binding, BindingState, Chord, ChordState, KeystreamHotkeys, PendingSuggestion,
};
use crate::keys::{KeyDirection, KeyEvent, Modifiers};
use crate::time::Instant;

verus! {

/// Exactly the chord's key, with exactly its modifiers.
pub open spec fn is_chord(ev: KeyEvent, c: Chord) -> bool {
    ev.scancode == c.scancode && holds_exactly(ev.modifiers, c)
}

/// Does this key event carry exactly the chord's key and modifiers?
/// Extra held modifiers do not match, the same rule `match_chord` uses.
pub fn chord_matches(ev: &KeyEvent, c: Chord) -> (b: bool)
    ensures
        b == is_chord(*ev, c),
{
    ev.scancode == c.scancode && ev.modifiers.control == c.ctrl && ev.modifiers.shift == c.shift
        && ev.modifiers.alt == c.alt && ev.modifiers.meta == c.meta
}

/// Which suggestion-accept digit a scancode is.
pub open spec fn digit_index(scancode: u32) -> Option<int> {
    if 0x02 <= scancode <= 0x0A {
        Some(scancode - 0x02)
    } else {
        None
    }
}

/// Which suggestion-accept digit a scancode is, if any: the digit row
/// `1`..=`9`.
pub fn suggestion_digit_index(scancode: u32) -> (index: Option<usize>)
    ensures
        match index {
            Some(i) => digit_index(scancode) == Some(i as int) && i < 9,
            None => digit_index(scancode) is None,
        },
{
    if 0x02 <= scancode && scancode <= 0x0A {
        Some((scancode - 0x02) as usize)
    } else {
        None
    }
}

/// The key chord of a binding that has one.
pub open spec fn key_chord(b: Option<Binding>) -> Option<Chord> {
    match b {
        Some(Binding::Key(c)) => Some(c),
        _ => None,
    }
}

fn key_chord_of(b: Option<Binding>) -> (c: Option<Chord>)
    ensures
        c == key_chord(b),
{
    match b {
        Some(Binding::Key(c)) => Some(c),
        _ => None,
    }
}

/// `ev` is the optional chord.
pub open spec fn is_opt_chord(ev: KeyEvent, c: Option<Chord>) -> bool {
    c matches Some(x) && is_chord(ev, x)
}

fn opt_chord_matches(ev: &KeyEvent, c: Option<Chord>) -> (b: bool)
    ensures
        b == is_opt_chord(*ev, c),
{
    match c {
        Some(x) => chord_matches(ev, x),
        None => false,
    }
}

impl KeystreamHotkeys {
    /// `ev` is one of the chords matched on the key stream.
    pub open spec fn is_matched(self, ev: KeyEvent) -> bool {
        is_opt_chord(ev, key_chord(self.pause)) || is_opt_chord(ev, key_chord(self.switch_last))
    }

    /// `ev` is one of the chords an OS grab owns.
    pub open spec fn is_grabbed(self, ev: KeyEvent) -> bool {
        is_opt_chord(ev, self.grabbed@[0]) || is_opt_chord(ev, self.grabbed@[1])
    }

    /// The force-switch chord, wherever it is observed.
    pub open spec fn switch(self) -> Option<Chord> {
        match key_chord(self.switch_last) {
            Some(c) => Some(c),
            None => self.grabbed@[1],
        }
    }

    pub fn switch_chord(&self) -> (c: Option<Chord>)
        ensures
            c == self.switch(),
    {
        match key_chord_of(self.switch_last) {
            Some(c) => Some(c),
            None => self.grabbed[1],
        }
    }

    pub fn matches_own_chord(&self, ev: &KeyEvent) -> (b: bool)
        ensures
            b == self.is_matched(*ev),
    {
        opt_chord_matches(ev, key_chord_of(self.pause)) || opt_chord_matches(
            ev,
            key_chord_of(self.switch_last),
        )
    }
}

/// What one event makes of the memory of an optional hotkey.
pub open spec fn opt_binding_after(
    ev: KeyEvent,
    b: Option<Binding>,
    st: BindingState,
    now: Instant,
) -> BindingState {
    match b {
        Some(x) => binding_after(ev, x, st, now),
        None => st,
    }
}

pub open spec fn opt_binding_fires(
    ev: KeyEvent,
    b: Option<Binding>,
    st: BindingState,
    now: Instant,
) -> bool {
    b matches Some(x) && binding_fires(ev, x, st, now)
}

fn match_optional(ev: &KeyEvent, b: Option<Binding>, st: &mut BindingState, now: Instant) -> (fired:
    bool)
    ensures
        fired == opt_binding_fires(*ev, b, *old(st), now),
        *final(st) == opt_binding_after(*ev, b, *old(st), now),
{
    match b {
        Some(x) => match_binding(ev, x, st, now),
        None => false,
    }
}

/// The trigger latch after one event: taken by the press of a matched
/// chord while it is free, freed by the release of the key that took it.
pub open spec fn trigger_after(ev: KeyEvent, hk: KeystreamHotkeys, down: Option<u32>) -> Option<u32> {
    if ev.injected {
        down
    } else if ev.direction == KeyDirection::Press && hk.is_matched(ev) && down is None {
        Some(ev.scancode)
    } else if ev.direction == KeyDirection::Release && down == Some(ev.scancode) {
        None
    } else {
        down
    }
}

/// The two hotkeys one event fired.
#[derive(Clone, Copy, PartialEq, Eq, Structural, Debug)]
pub struct HotkeyHits {
    pub pause: bool,
    pub switch_last: bool,
}

/// An offer accepted from the keyboard: its stamp and the entry.
#[derive(Clone, Copy, PartialEq, Eq, Structural, Debug)]
pub struct AcceptedDigit {
    pub generation: u64,
    pub index: usize,
}

/// The offer that a press of digit `index` under `m` accepts.
pub open spec fn accepts_digit(
    offer: Option<PendingSuggestion>,
    m: Modifiers,
    index: int,
) -> Option<u64> {
    match offer {
        Some(p) => match p.accept {
            Some(a) => if m.control == a.ctrl && m.shift == a.shift && m.alt == a.alt && m.meta
                == a.meta && index < p.entries {
                Some(p.generation)
            } else {
                None
            },
            None => None,
        },
        None => None,
    }
}

impl SwitcherEngine {
    /// Match the raw key event against whatever the app asked us to
    /// watch for. Injected events match nothing and change nothing.
    pub fn check_keystream_hotkeys(&mut self, ev: &KeyEvent, now: Instant) -> (hits: HotkeyHits)
        ensures
            ev.injected ==> !hits.pause && !hits.switch_last && *final(self) == *old(self),
            !ev.injected ==> {
                let hk = old(self).keystream_hotkeys;
                let st = old(self).chord_state;
                &&& hits.pause == opt_binding_fires(*ev, hk.pause, st.pause, now)
                &&& hits.switch_last == opt_binding_fires(*ev, hk.switch_last, st.switch, now)
                &&& *final(self) == (SwitcherEngine {
                    chord_state: ChordState {
                        pause: opt_binding_after(*ev, hk.pause, st.pause, now),
                        switch: opt_binding_after(*ev, hk.switch_last, st.switch, now),
                        trigger_down: trigger_after(*ev, hk, st.trigger_down),
                        suggest_digit_down: st.suggest_digit_down,
                    },
                    ..*old(self)
                })
            },
    {
        if ev.injected {
            return HotkeyHits { pause: false, switch_last: false };
        }
        self.track_trigger_key(ev);
        let hk = self.keystream_hotkeys;
        let pause = match_optional(ev, hk.pause, &mut self.chord_state.pause, now);
        let switch_last = match_optional(ev, hk.switch_last, &mut self.chord_state.switch, now);
        HotkeyHits { pause, switch_last }
    }

    /// Is this press one of the hotkey chords itself, repeating — matched
    /// here or owned by an OS grab?
    pub fn is_own_hotkey_press(&self, ev: &KeyEvent) -> (b: bool)
        ensures
            b == (self.keystream_hotkeys.is_matched(*ev) || self.keystream_hotkeys.is_grabbed(*ev)),
    {
        self.keystream_hotkeys.matches_own_chord(ev) || opt_chord_matches(
            ev,
            self.keystream_hotkeys.grabbed[0],
        ) || opt_chord_matches(ev, self.keystream_hotkeys.grabbed[1])
    }

    /// Follow which hotkey key is physically down. Only the chords we match
    /// ourselves: a grabbed chord's release never arrives.
    pub fn track_trigger_key(&mut self, ev: &KeyEvent)
        ensures
            *final(self) == (SwitcherEngine {
                chord_state: ChordState {
                    trigger_down: trigger_after(
                        *ev,
                        old(self).keystream_hotkeys,
                        old(self).chord_state.trigger_down,
                    ),
                    ..old(self).chord_state
                },
                ..*old(self)
            }),
    {
        if ev.injected {
            return;
        }
        let matched = ev.direction == KeyDirection::Press
            && self.keystream_hotkeys.matches_own_chord(ev);
        match ev.direction {
            KeyDirection::Press => {
                if matched && self.chord_state.trigger_down.is_none() {
                    self.chord_state.trigger_down = Some(ev.scancode);
                }
            },
            KeyDirection::Release => {
                if let Some(sc) = self.chord_state.trigger_down {
                    if sc == ev.scancode {
                        self.chord_state.trigger_down = None;
                    }
                }
            },
        }
    }

    /// Narrower: is this the *force-switch* chord's own key?
    pub fn is_own_switch_press(&self, ev: &KeyEvent) -> (b: bool)
        ensures
            b == is_opt_chord(*ev, self.keystream_hotkeys.switch()),
    {
        opt_chord_matches(ev, self.keystream_hotkeys.switch_chord())
    }

    /// A hotkey key is under the user's finger: the latch of a matched
    /// chord says so, or exactly the modifiers of a grabbed chord are held.
    pub open spec fn trigger_is_down(&self) -> bool {
        let m = self.held_modifiers;
        let hk = self.keystream_hotkeys;
        ||| self.chord_state.trigger_down is Some
        ||| m.any_held() && {
            ||| hk.grabbed@[0] matches Some(c) && holds_exactly(m, c)
            ||| hk.grabbed@[1] matches Some(c) && holds_exactly(m, c)
        }
    }

    /// Is a hotkey key under the user's finger right now?
    pub fn trigger_key_down(&self) -> (b: bool)
        ensures
            b == self.trigger_is_down(),
    {
        if self.chord_state.trigger_down.is_some() {
            return true;
        }
        let m = self.held_modifiers;
        if !m.any_held() {
            return false;
        }
        let mut i: usize = 0;
        while i < 2
            invariant
                i <= 2,
                m == self.held_modifiers,
                m.any_held(),
                forall|j: int|
                    0 <= j < i ==> !((#[trigger] self.keystream_hotkeys.grabbed@[j]) matches Some(c)
                        && holds_exactly(m, c)),
            decreases 2 - i,
        {
            if let Some(c) = self.keystream_hotkeys.grabbed[i] {
                if m.control == c.ctrl && m.shift == c.shift && m.alt == c.alt && m.meta == c.meta {
                    return true;
                }
            }
            i += 1;
        }
        false
    }

    /// Keep the chord latches honest about releases the correction window
    /// swallowed. Whatever they match is dropped rather than reported.
    pub fn observe_swallowed_release(&mut self, ev: &KeyEvent, now: Instant)
        ensures
            ev.injected || ev.direction != KeyDirection::Release ==> *final(self) == *old(self),
            !ev.injected && ev.direction == KeyDirection::Release ==> {
                let hk = old(self).keystream_hotkeys;
                let st = old(self).chord_state;
                let now_st = final(self).chord_state;
                &&& now_st.pause == opt_binding_after(*ev, hk.pause, st.pause, now)
                &&& now_st.switch == opt_binding_after(*ev, hk.switch_last, st.switch, now)
                &&& now_st.trigger_down == st.trigger_down
                &&& now_st.suggest_digit_down@ == match digit_index(ev.scancode) {
                    Some(i) => st.suggest_digit_down@.update(i, false),
                    None => st.suggest_digit_down@,
                }
                &&& *final(self) == (SwitcherEngine { chord_state: now_st, ..*old(self) })
            },
    {
        if ev.injected || ev.direction != KeyDirection::Release {
            return;
        }
        let hk = self.keystream_hotkeys;
        let _ = match_optional(ev, hk.pause, &mut self.chord_state.pause, now);
        let _ = match_optional(ev, hk.switch_last, &mut self.chord_state.switch, now);
        if let Some(i) = suggestion_digit_index(ev.scancode) {
            self.chord_state.suggest_digit_down[i] = false;
        }
    }

    /// The suggestion-accept digit chord (`<modifiers>+1` … `+9`): the
    /// first press of the digit, with exactly the offer's modifiers held,
    /// accepts the entry of that number.
    pub fn check_suggestion_chord(&mut self, ev: &KeyEvent) -> (hit: Option<AcceptedDigit>)
        ensures
            match digit_index(ev.scancode) {
                None => hit is None && *final(self) == *old(self),
                Some(i) => {
                    let was_down = old(self).chord_state.suggest_digit_down@[i];
                    let accepted = accepts_digit(old(self).pending_suggestion, ev.modifiers, i);
                    &&& hit == if ev.direction == KeyDirection::Press && !was_down
                        && accepted is Some {
                        Some(AcceptedDigit { generation: accepted->0, index: i as usize })
                    } else {
                        None
                    }
                    &&& final(self).chord_state.suggest_digit_down@
                        == old(self).chord_state.suggest_digit_down@.update(
                        i,
                        ev.direction == KeyDirection::Press,
                    )
                    &&& *final(self) == (SwitcherEngine {
                        chord_state: ChordState {
                            suggest_digit_down: final(self).chord_state.suggest_digit_down,
                            ..old(self).chord_state
                        },
                        ..*old(self)
                    })
                },
            },
    {
        let index = match suggestion_digit_index(ev.scancode) {
            Some(i) => i,
            None => {
                return None;
            },
        };
        match ev.direction {
            KeyDirection::Release => {
                self.chord_state.suggest_digit_down[index] = false;
                None
            },
            KeyDirection::Press => {
                if self.chord_state.suggest_digit_down[index] {
                    assert(self.chord_state.suggest_digit_down@.update(index as int, true)
                        =~= self.chord_state.suggest_digit_down@);
                    return None;
                }
                self.chord_state.suggest_digit_down[index] = true;
                let p = match self.pending_suggestion {
                    Some(p) => p,
                    None => {
                        return None;
                    },
                };
                let a = match p.accept {
                    Some(a) => a,
                    None => {
                        return None;
                    },
                };
                if ev.modifiers.control == a.ctrl && ev.modifiers.shift == a.shift
                    && ev.modifiers.alt == a.alt && ev.modifiers.meta == a.meta && index
                    < p.entries {
                    Some(AcceptedDigit { generation: p.generation, index })
                } else {
                    None
                }
            },
        }
    }
}

} // verus!
