//! The engine's state.

use vstd::prelude::*;

use crate::engine::echo::Echo;
use crate::engine::types::{
    BindingState, ChordState, KeystreamHotkeys, LastWord, ModTapState, PendingSuggestion,
};
use crate::keys::Modifiers;
use crate::layouts::LayoutId;
use crate::time::Instant;

verus! {

/// Everything the engine remembers between two events.
pub struct SwitcherEngine {
    /// Automatic switching is off; the engine still watches.
    pub paused: bool,
    /// Modifiers held as of the last event.
    pub held_modifiers: Modifiers,
    /// The word the manual hotkey acts on.
    pub last_word: Option<LastWord>,
    /// When the last force-switch finished.
    pub last_force_switch: Option<Instant>,
    pub chord_state: ChordState,
    /// Layout in effect when the word being typed got its first key.
    pub word_layout: Option<LayoutId>,
    /// Our own presses that are expected to come back, oldest first.
    pub expected_echo: Vec<Echo>,
    pub keystream_hotkeys: KeystreamHotkeys,
    pub pending_suggestion: Option<PendingSuggestion>,
    /// Completed words are left alone before this time.
    pub paste_guard_until: Instant,
}

impl SwitcherEngine {
    /// A fresh engine: nothing typed, nothing held, no hotkey of its own.
    pub fn new(start_paused: bool, now: Instant) -> (e: SwitcherEngine)
        ensures
            e.paused == start_paused,
            !e.held_modifiers.any_held() && !e.held_modifiers.caps,
            e.last_word is None,
            e.last_force_switch is None,
            e.chord_state.trigger_down is None,
            !e.chord_state.pause.key_down && !e.chord_state.switch.key_down,
            e.chord_state.pause.mods == ModTapState::fresh(),
            e.chord_state.switch.mods == ModTapState::fresh(),
            forall|i: int| 0 <= i < 9 ==> !#[trigger] e.chord_state.suggest_digit_down@[i],
            e.word_layout is None,
            e.expected_echo@.len() == 0,
            e.keystream_hotkeys.pause is None,
            e.keystream_hotkeys.switch_last is None,
            e.keystream_hotkeys.grabbed@[0] is None && e.keystream_hotkeys.grabbed@[1] is None,
            e.pending_suggestion is None,
            e.paste_guard_until == now,
    {
        SwitcherEngine {
            paused: start_paused,
            held_modifiers: Modifiers::none(),
            last_word: None,
            last_force_switch: None,
            chord_state: ChordState {
                pause: BindingState::new(),
                switch: BindingState::new(),
                trigger_down: None,
                suggest_digit_down: [false, false, false, false, false, false, false, false, false],
            },
            word_layout: None,
            expected_echo: Vec::new(),
            keystream_hotkeys: KeystreamHotkeys {
                pause: None,
                switch_last: None,
                grabbed: [None, None],
            },
            pending_suggestion: None,
            paste_guard_until: now,
        }
    }

    pub fn paused(&self) -> (b: bool)
        ensures
            b == self.paused,
    {
        self.paused
    }
}

} // verus!
