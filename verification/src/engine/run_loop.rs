//! What the run loop does with a command, a key and a pause.

use vstd::prelude::*;
use vstd::string::*;

use crate::engine::consts::{FORCE_SWITCH_REARM, LAST_WORD_TTL, PASTE_GUARD};
use crate::engine::heuristics::{
    is_bare_modifier, is_modifier_scancode, is_paste_shortcut, pastes,
};
use crate::engine::hotkeys::is_opt_chord;
use crate::engine::switcher::SwitcherEngine;
use crate::engine::types::{opt_name, KeystreamHotkeys, LastWord};
use crate::input::focus::SensitiveInput;
use crate::keys::{
    KeyDirection, KeyEvent, WordKey, SC_BACKSPACE, SC_POINTER_BUTTON,
};
use crate::layouts::{LayoutDb, LayoutId};
use crate::time::{span_between, Duration, Instant};

verus! {

broadcast use vstd::string::group_string_axioms;

// ─── Commands ────────────────────────────────────────────────────────

pub enum EngineCommand {
    SetKeystreamHotkeys(KeystreamHotkeys),
    SetPaused(bool),
    TogglePause,
    SwitchLastForcefully,
    SettingsReloaded,
    AcceptSuggestion { generation: u64, index: usize, typed_digit: bool, from_pointer: bool },
    DismissSuggestions { generation: u64 },
}

/// The buffer's model of the text left of the caret: the completed word,
/// the separators after it, the word being typed.
pub struct BufferView {
    pub keys: Vec<WordKey>,
    pub completed: Vec<WordKey>,
    pub boundary_run: Vec<(u32, bool)>,
    /// The caret is somewhere the buffer did not see it move to.
    pub poisoned: bool,
}

/// What the manual hotkey acts on.
pub enum SwitchLast {
    /// An echo of the press before: nothing happens.
    Rearming,
    /// Withdraw any offer, then move this word. A word still being typed is
    /// settled once it has moved: its own completion is not judged again.
    Word { word: LastWord, in_progress: bool },
    /// Try the separator, then the selection.
    NoWord,
}

/// What is left to do about a command.
pub enum CommandStep {
    Nothing,
    /// Announce it, with its sound; withdraw any offer when pausing.
    PauseChanged { paused: bool },
    Switch(SwitchLast),
    /// Refresh the sounds, reset the buffer, withdraw any offer.
    Reload,
    Accept { generation: u64, index: usize, typed_digit: bool, from_pointer: bool },
    Dismiss { generation: u64 },
}

/// The last force-switch is so recent that this press is its echo.
pub open spec fn rearming(last: Option<Instant>, now: Instant) -> bool {
    last matches Some(t) && span_between(now, t) < FORCE_SWITCH_REARM
}

/// The stashed word is the last thing left of the caret, at most the one
/// separator that closed it aside.
pub open spec fn stash_reachable(buffer: BufferView) -> bool {
    &&& buffer.keys@.len() == 0
    &&& buffer.boundary_run@.len() <= 1
    &&& buffer.boundary_run@.len() == 0 || buffer.completed@.len() > 0
}

/// The word being typed can be moved: the caret is known, and the word has
/// a known layout.
pub open spec fn typing_reachable(
    stamp: Option<LayoutId>,
    buffer: BufferView,
    current: Option<LayoutId>,
    layouts: LayoutDb,
) -> bool {
    let layout = match stamp {
        Some(id) => Some(id@),
        None => opt_name(current),
    };
    &&& buffer.keys@.len() > 0
    &&& !buffer.poisoned
    &&& layout matches Some(l) && layouts.known(l)
}

/// The engine with automatic switching turned off, or on again.
pub open spec fn pause_flipped(e: SwitcherEngine) -> SwitcherEngine {
    SwitcherEngine { paused: !e.paused, ..e }
}

impl SwitcherEngine {
    /// Take in a command. What concerns the engine's own state happens
    /// here; the rest is said in the answer.
    pub fn handle_command(
        &mut self,
        cmd: EngineCommand,
        buffer: &BufferView,
        current: &Option<LayoutId>,
        layouts: &LayoutDb,
        now: Instant,
    ) -> (step: CommandStep)
        ensures
            match cmd {
                EngineCommand::SetKeystreamHotkeys(hk) => step is Nothing && *final(self) == (
                SwitcherEngine { keystream_hotkeys: hk, ..*old(self) }),
                EngineCommand::SetPaused(want) => {
                    if old(self).paused == want {
                        step is Nothing && *final(self) == *old(self)
                    } else {
                        &&& *final(self) == pause_flipped(*old(self))
                        &&& step matches CommandStep::PauseChanged { paused } && paused == want
                    }
                },
                EngineCommand::TogglePause => {
                    &&& *final(self) == pause_flipped(*old(self))
                    &&& step matches CommandStep::PauseChanged { paused } && paused
                        == !old(self).paused
                },
                EngineCommand::SwitchLastForcefully => {
                    &&& step matches CommandStep::Switch(s)
                    &&& match s {
                        SwitchLast::Rearming => rearming(old(self).last_force_switch, now)
                            && *final(self) == *old(self),
                        SwitchLast::Word { word, in_progress } => {
                            &&& !rearming(old(self).last_force_switch, now)
                            &&& if in_progress {
                                &&& typing_reachable(
                                    old(self).word_layout,
                                    *buffer,
                                    *current,
                                    *layouts,
                                )
                                &&& word.keys@ == buffer.keys@
                                &&& Some(word.layout@) == match old(self).word_layout {
                                    Some(id) => Some(id@),
                                    None => opt_name(*current),
                                }
                                &&& word.rendered@ == layouts.reads(word.layout@, buffer.keys@)
                                &&& word.boundary is None && word.corrected_to is None
                                &&& !word.user_placed
                                &&& *final(self) == *old(self)
                            } else {
                                &&& stash_reachable(*buffer)
                                &&& old(self).last_word == Some(word)
                                &&& *final(self) == (SwitcherEngine {
                                    last_word: None,
                                    ..*old(self)
                                })
                            }
                        },
                        SwitchLast::NoWord => {
                            &&& !rearming(old(self).last_force_switch, now)
                            &&& !typing_reachable(
                                old(self).word_layout,
                                *buffer,
                                *current,
                                *layouts,
                            )
                            &&& !(stash_reachable(*buffer) && old(self).last_word is Some)
                            &&& *final(self) == *old(self)
                        },
                    }
                },
                EngineCommand::SettingsReloaded => step is Reload && *final(self) == *old(self),
                EngineCommand::AcceptSuggestion {
                    generation,
                    index,
                    typed_digit,
                    from_pointer,
                } => {
                    &&& step == (CommandStep::Accept {
                        generation,
                        index,
                        typed_digit,
                        from_pointer,
                    })
                    &&& *final(self) == *old(self)
                },
                EngineCommand::DismissSuggestions { generation } => {
                    &&& step == (CommandStep::Dismiss { generation })
                    &&& *final(self) == *old(self)
                },
            },
    {
        match cmd {
            EngineCommand::SetKeystreamHotkeys(hk) => {
                self.keystream_hotkeys = hk;
                CommandStep::Nothing
            },
            EngineCommand::SetPaused(want) => {
                if self.paused != want {
                    self.toggle_pause()
                } else {
                    CommandStep::Nothing
                }
            },
            EngineCommand::TogglePause => self.toggle_pause(),
            EngineCommand::SwitchLastForcefully => CommandStep::Switch(
                self.take_word(buffer, current, layouts, now),
            ),
            EngineCommand::SettingsReloaded => CommandStep::Reload,
            EngineCommand::AcceptSuggestion { generation, index, typed_digit, from_pointer } =>
            CommandStep::Accept { generation, index, typed_digit, from_pointer },
            EngineCommand::DismissSuggestions { generation } => CommandStep::Dismiss { generation },
        }
    }

    fn toggle_pause(&mut self) -> (step: CommandStep)
        ensures
            *final(self) == pause_flipped(*old(self)),
            step matches CommandStep::PauseChanged { paused } && paused == !old(self).paused,
    {
        self.paused = !self.paused;
        CommandStep::PauseChanged { paused: self.paused }
    }

    /// Which word the caret is sitting after decides what is switched: a
    /// correction backspaces from the caret, so only the last item of the
    /// buffer's model may be taken.
    fn take_word(
        &mut self,
        buffer: &BufferView,
        current: &Option<LayoutId>,
        layouts: &LayoutDb,
        now: Instant,
    ) -> (s: SwitchLast)
        ensures
            match s {
                SwitchLast::Rearming => rearming(old(self).last_force_switch, now) && *final(self)
                    == *old(self),
                SwitchLast::Word { word, in_progress } => {
                    &&& !rearming(old(self).last_force_switch, now)
                    &&& if in_progress {
                        &&& typing_reachable(old(self).word_layout, *buffer, *current, *layouts)
                        &&& word.keys@ == buffer.keys@
                        &&& Some(word.layout@) == match old(self).word_layout {
                            Some(id) => Some(id@),
                            None => opt_name(*current),
                        }
                        &&& word.rendered@ == layouts.reads(word.layout@, buffer.keys@)
                        &&& word.boundary is None && word.corrected_to is None
                        &&& !word.user_placed
                        &&& *final(self) == *old(self)
                    } else {
                        &&& stash_reachable(*buffer)
                        &&& old(self).last_word == Some(word)
                        &&& *final(self) == (SwitcherEngine { last_word: None, ..*old(self) })
                    }
                },
                SwitchLast::NoWord => {
                    &&& !rearming(old(self).last_force_switch, now)
                    &&& !typing_reachable(old(self).word_layout, *buffer, *current, *layouts)
                    &&& !(stash_reachable(*buffer) && old(self).last_word is Some)
                    &&& *final(self) == *old(self)
                },
            },
    {
        if let Some(t) = self.last_force_switch {
            if now.saturating_duration_since(t).nanos < FORCE_SWITCH_REARM {
                return SwitchLast::Rearming;
            }
        }
        if buffer.keys.len() > 0 {
            return match self.word_in_progress(&buffer.keys, buffer.poisoned, current, layouts) {
                Some(word) => SwitchLast::Word { word, in_progress: true },
                None => SwitchLast::NoWord,
            };
        }
        if buffer.boundary_run.len() > 1 {
            return SwitchLast::NoWord;
        }
        if buffer.boundary_run.len() > 0 && buffer.completed.len() == 0 {
            return SwitchLast::NoWord;
        }
        match self.last_word.take() {
            Some(word) => SwitchLast::Word { word, in_progress: false },
            None => SwitchLast::NoWord,
        }
    }

    /// A press that came to nothing must not have eaten the word it was
    /// going to act on — unless the buffer was tainted on the way, which
    /// says that the caret is no longer where the stash thinks it is.
    pub fn give_back(&mut self, word: LastWord, in_progress: bool, poisoned: bool)
        ensures
            *final(self) == if !in_progress && !poisoned {
                SwitcherEngine { last_word: Some(word), ..*old(self) }
            } else {
                *old(self)
            },
    {
        if !in_progress && !poisoned {
            self.last_word = Some(word);
        }
    }

    /// After the separator was tried: a press that switched it is
    /// remembered, one that did not goes on to the selection where that is
    /// enabled.
    pub fn after_separator(
        &mut self,
        switched: bool,
        selection_enabled: bool,
        now: Instant,
    ) -> (try_selection: bool)
        ensures
            try_selection == (!switched && selection_enabled),
            *final(self) == if switched {
                SwitcherEngine { last_force_switch: Some(now), ..*old(self) }
            } else {
                *old(self)
            },
    {
        if switched {
            self.last_force_switch = Some(now);
            return false;
        }
        selection_enabled
    }

    /// After the selection was tried.
    pub fn after_selection(&mut self, converted: bool, now: Instant)
        ensures
            *final(self) == if converted {
                SwitcherEngine { last_force_switch: Some(now), ..*old(self) }
            } else {
                *old(self)
            },
    {
        if converted {
            self.last_force_switch = Some(now);
        }
    }
}

/// Pausing and resuming again changes nothing else: the engine is as it
/// was.
pub proof fn law_pausing_twice_changes_nothing(e: SwitcherEngine)
    ensures
        pause_flipped(pause_flipped(e)) == e,
{
}

// ─── Keys ────────────────────────────────────────────────────────────

pub open spec fn is_blocked(enabled: bool, state: SensitiveInput) -> bool {
    enabled && state != SensitiveInput::NotSensitive
}

/// With the guard on, whatever is not known to be safe is not read.
pub fn blocks_sensitive_input(enabled: bool, state: SensitiveInput) -> (b: bool)
    ensures
        b == is_blocked(enabled, state),
{
    enabled && state != SensitiveInput::NotSensitive
}

/// Where a key event goes.
#[derive(Clone, Copy, PartialEq, Eq, Structural, Debug)]
pub enum KeyStep {
    /// Our own keystroke coming back.
    Ignore,
    /// A secret is being typed: reset the buffer, withdraw any offer.
    Forget,
    /// The force-switch chord's own key: withdraw any offer.
    OwnSwitch,
    /// Everything left of the caret was erased: tell the buffer, withdraw
    /// any offer.
    WordDelete,
    /// The text may have been edited anywhere: abandon the buffer, mark
    /// its context unclean, withdraw any offer.
    Shortcut,
    /// The buffer takes the key; an offer is frozen first where the key is
    /// a click that may have been meant for it.
    Feed { freeze_offer: bool },
}

/// Which of the key routes an event takes.
pub open spec fn key_route(ev: KeyEvent, blocked: bool, own_switch: bool) -> KeyStep {
    if ev.injected {
        KeyStep::Ignore
    } else if blocked {
        KeyStep::Forget
    } else if own_switch {
        KeyStep::OwnSwitch
    } else if ev.scancode == SC_BACKSPACE && ev.modifiers.is_command() {
        KeyStep::WordDelete
    } else if ev.modifiers.is_command() && !is_bare_modifier(ev.scancode) {
        KeyStep::Shortcut
    } else {
        KeyStep::Feed {
            freeze_offer: ev.direction == KeyDirection::Press && ev.scancode == SC_POINTER_BUTTON,
        }
    }
}

/// The engine once a key has taken its route.
pub open spec fn key_state(
    e: SwitcherEngine,
    ev: KeyEvent,
    step: KeyStep,
    now: Instant,
) -> SwitcherEngine {
    SwitcherEngine {
        last_word: if step is Forget || step is WordDelete {
            None
        } else {
            e.last_word
        },
        word_layout: if step is Forget {
            None
        } else {
            e.word_layout
        },
        paste_guard_until: if !(step is Ignore) && !(step is Forget) && pastes(ev) {
            Instant { nanos: (now.nanos + PASTE_GUARD) as u128 }
        } else {
            e.paste_guard_until
        },
        ..e
    }
}

/// What feeding a key to the buffer led to.
#[derive(Clone, Copy, PartialEq, Eq, Structural, Debug)]
pub enum WordBoundary {
    InProgress,
    Abandoned,
    WordCompleted {
        boundary_scancode: u32,
        boundary_shift: bool,
        tainted: bool,
        started_clean: bool,
    },
}

/// What is left to do about a key the buffer took.
pub enum FeedStep {
    Nothing,
    Abandoned { dismiss: bool },
    /// Withdraw any offer and say why the word was kept.
    Tainted { reason: String },
    /// Withdraw any offer; the word is almost certainly pasted.
    PasteGuarded,
    /// Withdraw any offer and decide about the word.
    Decide { boundary_scancode: u32, boundary_shift: bool, started_clean: bool },
}

/// What the buffer needs to classify a key.
#[derive(Clone, Copy, PartialEq, Eq, Structural, Debug)]
pub struct KeyHints {
    pub letter_in_any_layout: bool,
    /// What the key gives under the current layout, where that matters.
    pub produced: Option<char>,
}

impl SwitcherEngine {
    /// Decide where a key event goes, and do what concerns the engine's
    /// own state.
    pub fn handle_key(
        &mut self,
        ev: &KeyEvent,
        ignore_in_password_fields: bool,
        sensitive: SensitiveInput,
        now: Instant,
    ) -> (step: KeyStep)
        requires
            now.nanos + PASTE_GUARD <= u128::MAX,
        ensures
            step == key_route(
                *ev,
                is_blocked(ignore_in_password_fields, sensitive),
                is_opt_chord(*ev, old(self).keystream_hotkeys.switch()),
            ),
            *final(self) == key_state(*old(self), *ev, step, now),
            step is Feed ==> !ev.modifiers.control && !ev.modifiers.alt && !ev.modifiers.meta
                || is_bare_modifier(ev.scancode),
    {
        if ev.injected {
            return KeyStep::Ignore;
        }
        if blocks_sensitive_input(ignore_in_password_fields, sensitive) {
            self.last_word = None;
            self.word_layout = None;
            return KeyStep::Forget;
        }
        if is_paste_shortcut(ev) {
            self.paste_guard_until = now.plus(Duration { nanos: PASTE_GUARD });
        }
        if self.is_own_switch_press(ev) {
            return KeyStep::OwnSwitch;
        }
        if ev.scancode == SC_BACKSPACE && ev.modifiers.is_command() {
            self.last_word = None;
            return KeyStep::WordDelete;
        }
        if ev.modifiers.is_command() && !is_modifier_scancode(ev.scancode) {
            return KeyStep::Shortcut;
        }
        KeyStep::Feed {
            freeze_offer: ev.direction == KeyDirection::Press && ev.scancode == SC_POINTER_BUTTON,
        }
    }

    /// What the buffer is told about a key: whether it is a letter in some
    /// layout and, for a press that is not, what it gives in the current
    /// one.
    pub fn feed_hints(
        ev: &KeyEvent,
        layouts: &LayoutDb,
        current: &Option<LayoutId>,
    ) -> (h: KeyHints)
        ensures
            h.letter_in_any_layout == layouts.letter_somewhere(ev.scancode, ev.modifiers.shift),
            h.produced == if ev.direction == KeyDirection::Press && !h.letter_in_any_layout
                && current is Some {
                layouts.renders(
                    current->0@,
                    WordKey {
                        scancode: ev.scancode,
                        shift: ev.modifiers.shift,
                        caps: ev.modifiers.caps,
                        timestamp_ms: 0,
                    },
                )
            } else {
                None
            },
    {
        let letter_in_any_layout = layouts.is_letter_in_any_layout(
            ev.scancode,
            ev.modifiers.shift,
        );
        let produced = if ev.direction == KeyDirection::Press && !letter_in_any_layout {
            SwitcherEngine::translate_via_current_layout(
                layouts,
                current,
                ev.scancode,
                ev.modifiers.shift,
                ev.modifiers.caps,
            )
        } else {
            None
        };
        KeyHints { letter_in_any_layout, produced }
    }

    /// Stamp a word that has just got its first key with the layout it is
    /// typed under.
    pub fn feed_buffer(&mut self, was_empty: bool, is_empty: bool, current: Option<LayoutId>)
        ensures
            *final(self) == if was_empty && !is_empty {
                SwitcherEngine { word_layout: current, ..*old(self) }
            } else {
                *old(self)
            },
    {
        if was_empty && !is_empty {
            self.word_layout = current;
        }
    }

    /// What follows from the buffer's answer.
    pub fn after_feed(
        &mut self,
        outcome: WordBoundary,
        click_grace: bool,
        now: Instant,
    ) -> (step: FeedStep)
        ensures
            match outcome {
                WordBoundary::InProgress => step is Nothing && *final(self) == *old(self),
                WordBoundary::Abandoned => {
                    &&& step == (FeedStep::Abandoned { dismiss: !click_grace })
                    &&& *final(self) == (SwitcherEngine { last_word: None, ..*old(self) })
                },
                WordBoundary::WordCompleted {
                    boundary_scancode,
                    boundary_shift,
                    tainted,
                    started_clean,
                } => if tainted {
                    &&& step matches FeedStep::Tainted { reason }
                    &&& reason@
                        == "buffer lost track of this word (caret moved / idle / edited past word start) — not correcting"@
                    &&& *final(self) == (SwitcherEngine { last_word: None, ..*old(self) })
                } else if now.nanos < old(self).paste_guard_until.nanos {
                    step is PasteGuarded && *final(self) == *old(self)
                } else {
                    &&& step == (FeedStep::Decide {
                        boundary_scancode,
                        boundary_shift,
                        started_clean,
                    })
                    &&& *final(self) == *old(self)
                },
            },
    {
        match outcome {
            WordBoundary::InProgress => FeedStep::Nothing,
            WordBoundary::Abandoned => {
                self.last_word = None;
                FeedStep::Abandoned { dismiss: !click_grace }
            },
            WordBoundary::WordCompleted {
                boundary_scancode,
                boundary_shift,
                tainted,
                started_clean,
            } => {
                if tainted {
                    self.last_word = None;
                    return FeedStep::Tainted {
                        reason:
                            "buffer lost track of this word (caret moved / idle / edited past word start) — not correcting".to_owned(),
                    };
                }
                if now.nanos < self.paste_guard_until.nanos {
                    return FeedStep::PasteGuarded;
                }
                FeedStep::Decide { boundary_scancode, boundary_shift, started_clean }
            },
        }
    }
}

/// What is typed into a field that may be secret leaves no trace: the
/// buffer is to be reset, and no stash and no stamp remain.
pub proof fn law_secrets_leave_no_trace(
    e: SwitcherEngine,
    ev: KeyEvent,
    state: SensitiveInput,
    own_switch: bool,
    now: Instant,
)
    requires
        !ev.injected,
        state != SensitiveInput::NotSensitive,
    ensures
        ({
            let step = key_route(ev, is_blocked(true, state), own_switch);
            let after = key_state(e, ev, step, now);
            step == KeyStep::Forget && after.last_word is None && after.word_layout is None
        }),
{
}

// ─── Pauses ──────────────────────────────────────────────────────────

/// What a pause before a key event means for the buffer.
#[derive(Clone, Copy, PartialEq, Eq, Structural, Debug)]
pub enum IdleStep {
    NotIdle,
    /// The user is reading an offer: nothing is given up.
    OfferLives,
    /// Abandon the buffer and withdraw any offer.
    Abandon,
}

impl SwitcherEngine {
    /// Idle hygiene. The word in flight is given up after the timeout; the
    /// stash outlives it up to its own, longer one.
    pub fn after_pause(
        &mut self,
        elapsed: Duration,
        idle_timeout: Duration,
        live_offer: bool,
        buffer_empty: bool,
    ) -> (step: IdleStep)
        ensures
            step == if elapsed.nanos <= idle_timeout.nanos {
                IdleStep::NotIdle
            } else if live_offer && buffer_empty {
                IdleStep::OfferLives
            } else {
                IdleStep::Abandon
            },
            *final(self) == if step is Abandon && elapsed.nanos > LAST_WORD_TTL {
                SwitcherEngine { last_word: None, ..*old(self) }
            } else {
                *old(self)
            },
    {
        if elapsed.nanos <= idle_timeout.nanos {
            return IdleStep::NotIdle;
        }
        if live_offer && buffer_empty {
            return IdleStep::OfferLives;
        }
        if elapsed.nanos > LAST_WORD_TTL {
            self.last_word = None;
        }
        IdleStep::Abandon
    }
}

} // verus!
