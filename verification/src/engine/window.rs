//! Reading the key stream while a correction is under way.

use vstd::prelude::*;

use crate::engine::consts::PASTE_GUARD;
use crate::engine::correction::Readings;
use crate::engine::heuristics::{is_paste_shortcut, pastes};
use crate::engine::hotkeys::{digit_index, opt_binding_after, trigger_after};
use crate::engine::switcher::SwitcherEngine;
use crate::engine::types::{WindowDrain, WindowV};
use crate::keys::{KeyDirection, KeyEvent, SC_POINTER_BUTTON};
use crate::time::{Duration, Instant};

verus! {

/// What a key is to the word buffer.
#[derive(Clone, Copy, PartialEq, Eq, Structural, Debug)]
pub enum KeyKind {
    Word,
    Boundary,
    Discard,
    Backspace,
    EndAndDiscard,
}

/// The click that accepted an offer, echoing through the key stream.
pub open spec fn is_allowed_click(ev: KeyEvent, allowance: usize) -> bool {
    ev.scancode == SC_POINTER_BUTTON && allowance > 0
}

/// What one press of the user's adds to a look at the key stream, and
/// whether the look ends there.
pub open spec fn window_after(w: WindowV, ev: KeyEvent, kind: KeyKind) -> (WindowV, bool) {
    let seen = WindowV { saw_user_press: true, ..w };
    if ev.modifiers.is_command() {
        (WindowV { suspicious: true, ..seen }, false)
    } else {
        match kind {
            KeyKind::Word => (WindowV { word_keys: w.word_keys.push(ev), ..seen }, true),
            KeyKind::Discard => (seen, true),
            KeyKind::Boundary => (WindowV { resume: Some(ev), ..seen }, false),
            KeyKind::Backspace | KeyKind::EndAndDiscard => (
                WindowV {
                    suspicious: true,
                    stopper: if ev.scancode != SC_POINTER_BUTTON {
                        Some(ev)
                    } else {
                        w.stopper
                    },
                    ..seen
                },
                false,
            ),
        }
    }
}

impl SwitcherEngine {
    /// What the machine is told along with every reply.
    pub fn readings(&self, now: Instant) -> (r: Readings)
        ensures
            r == (Readings {
                now,
                trigger_down: self.trigger_is_down(),
                held: self.held_modifiers,
            }),
    {
        Readings { now, trigger_down: self.trigger_key_down(), held: self.held_modifiers }
    }

    /// A press of the user's own: not ours, not a hotkey repeating, not the
    /// click that accepted an offer.
    pub open spec fn is_user_press(&self, ev: KeyEvent, allowance: usize) -> bool {
        &&& !ev.injected
        &&& ev.direction == KeyDirection::Press
        &&& !self.keystream_hotkeys.is_matched(ev)
        &&& !self.keystream_hotkeys.is_grabbed(ev)
        &&& !is_allowed_click(ev, allowance)
    }

    /// Take one event off the key stream during a correction. The latches
    /// follow every event of the user's; only presses that are the user's
    /// own reach the window. False once the look is over.
    pub fn drain_correction_window(
        &mut self,
        out: &mut WindowDrain,
        ev: &KeyEvent,
        kind: KeyKind,
        click_allowance: &mut usize,
        now: Instant,
    ) -> (more: bool)
        requires
            now.nanos + PASTE_GUARD <= u128::MAX,
        ensures
            ({
                let hk = old(self).keystream_hotkeys;
                let st = old(self).chord_state;
                let user = old(self).is_user_press(*ev, *old(click_allowance));
                &&& if user {
                    (final(out)@, more) == window_after(old(out)@, *ev, kind)
                } else {
                    final(out)@ == old(out)@ && more
                }
                &&& *final(click_allowance) == if !ev.injected && ev.direction
                    == KeyDirection::Press && !hk.is_matched(*ev) && !hk.is_grabbed(*ev)
                    && is_allowed_click(*ev, *old(click_allowance)) {
                    (*old(click_allowance) - 1) as usize
                } else {
                    *old(click_allowance)
                }
                &&& final(self).held_modifiers == if ev.injected {
                    old(self).held_modifiers
                } else {
                    ev.modifiers
                }
                &&& final(self).paste_guard_until == if user && pastes(*ev) {
                    Instant { nanos: (now.nanos + PASTE_GUARD) as u128 }
                } else {
                    old(self).paste_guard_until
                }
                &&& final(self).chord_state.trigger_down == trigger_after(*ev, hk, st.trigger_down)
                &&& final(self).chord_state.pause == if !ev.injected && ev.direction
                    == KeyDirection::Release {
                    opt_binding_after(*ev, hk.pause, st.pause, now)
                } else {
                    st.pause
                }
                &&& final(self).chord_state.switch == if !ev.injected && ev.direction
                    == KeyDirection::Release {
                    opt_binding_after(*ev, hk.switch_last, st.switch, now)
                } else {
                    st.switch
                }
                &&& final(self).chord_state.suggest_digit_down@ == if !ev.injected && ev.direction
                    == KeyDirection::Release && digit_index(ev.scancode) is Some {
                    st.suggest_digit_down@.update(digit_index(ev.scancode)->0, false)
                } else {
                    st.suggest_digit_down@
                }
                &&& *final(self) == (SwitcherEngine {
                    held_modifiers: final(self).held_modifiers,
                    paste_guard_until: final(self).paste_guard_until,
                    chord_state: final(self).chord_state,
                    ..*old(self)
                })
            }),
    {
        if !ev.injected {
            self.held_modifiers = ev.modifiers;
            self.track_trigger_key(ev);
            self.observe_swallowed_release(ev, now);
        }
        if ev.injected || ev.direction != KeyDirection::Press {
            return true;
        }
        if self.is_own_hotkey_press(ev) {
            return true;
        }
        if ev.scancode == SC_POINTER_BUTTON && *click_allowance > 0 {
            *click_allowance = *click_allowance - 1;
            return true;
        }
        out.saw_user_press = true;
        if is_paste_shortcut(ev) {
            self.paste_guard_until = now.plus(Duration { nanos: PASTE_GUARD });
        }
        if ev.modifiers.is_command() {
            out.suspicious = true;
            return false;
        }
        match kind {
            KeyKind::Word => {
                out.word_keys.push(*ev);
                true
            },
            KeyKind::Discard => true,
            KeyKind::Boundary => {
                out.resume = Some(*ev);
                false
            },
            KeyKind::Backspace | KeyKind::EndAndDiscard => {
                out.suspicious = true;
                if ev.scancode != SC_POINTER_BUTTON {
                    out.stopper = Some(*ev);
                }
                false
            },
        }
    }
}

} // verus!
