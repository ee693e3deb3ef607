//! What the engine remembers of keys, chords, words and offers.

use vstd::prelude::*;

use crate::keys::{KeyEvent, ReplayKey, WordKey};
use crate::layouts::LayoutId;
use crate::time::Instant;

verus! {

// ─── Hotkeys ─────────────────────────────────────────────────────────

/// A key together with exactly the modifiers that must be held with it.
#[derive(Clone, Copy, PartialEq, Eq, Structural, Debug)]
pub struct Chord {
    pub ctrl: bool,
    pub shift: bool,
    pub alt: bool,
    pub meta: bool,
    pub scancode: u32,
}

#[derive(Clone, Copy, PartialEq, Eq, Structural, Debug)]
pub enum ModRole {
    Ctrl,
    Shift,
    Alt,
    Meta,
}

/// A set of modifiers.
#[derive(Clone, Copy, PartialEq, Eq, Structural, Debug)]
pub struct ModSet {
    pub ctrl: bool,
    pub shift: bool,
    pub alt: bool,
    pub meta: bool,
}

impl ModSet {
    pub open spec fn has(self, r: ModRole) -> bool {
        match r {
            ModRole::Ctrl => self.ctrl,
            ModRole::Shift => self.shift,
            ModRole::Alt => self.alt,
            ModRole::Meta => self.meta,
        }
    }

    pub open spec fn spec_none() -> ModSet {
        ModSet { ctrl: false, shift: false, alt: false, meta: false }
    }

    /// The empty set.
    #[verifier::when_used_as_spec(spec_none)]
    pub fn none() -> (s: ModSet)
        ensures
            s == ModSet::spec_none(),
    {
        ModSet { ctrl: false, shift: false, alt: false, meta: false }
    }

    pub open spec fn spec_is_empty(self) -> bool {
        forall|r: ModRole| !self.has(r)
    }

    #[verifier::when_used_as_spec(spec_is_empty)]
    pub fn is_empty(self) -> (b: bool)
        ensures
            b == self.spec_is_empty(),
            b == (self == ModSet::spec_none()),
    {
        let b = !(self.ctrl || self.shift || self.alt || self.meta);
        proof {
            assert(self.has(ModRole::Ctrl) == self.ctrl);
            assert(self.has(ModRole::Shift) == self.shift);
            assert(self.has(ModRole::Alt) == self.alt);
            assert(self.has(ModRole::Meta) == self.meta);
        }
        b
    }

    pub open spec fn spec_with(self, r: ModRole) -> ModSet {
        ModSet {
            ctrl: self.ctrl || r == ModRole::Ctrl,
            shift: self.shift || r == ModRole::Shift,
            alt: self.alt || r == ModRole::Alt,
            meta: self.meta || r == ModRole::Meta,
        }
    }

    #[verifier::when_used_as_spec(spec_with)]
    pub fn with(self, r: ModRole) -> (s: ModSet)
        ensures
            s == self.spec_with(r),
    {
        ModSet {
            ctrl: self.ctrl || r == ModRole::Ctrl,
            shift: self.shift || r == ModRole::Shift,
            alt: self.alt || r == ModRole::Alt,
            meta: self.meta || r == ModRole::Meta,
        }
    }

    pub open spec fn spec_without(self, r: ModRole) -> ModSet {
        ModSet {
            ctrl: self.ctrl && r != ModRole::Ctrl,
            shift: self.shift && r != ModRole::Shift,
            alt: self.alt && r != ModRole::Alt,
            meta: self.meta && r != ModRole::Meta,
        }
    }

    #[verifier::when_used_as_spec(spec_without)]
    pub fn without(self, r: ModRole) -> (s: ModSet)
        ensures
            s == self.spec_without(r),
    {
        ModSet {
            ctrl: self.ctrl && r != ModRole::Ctrl,
            shift: self.shift && r != ModRole::Shift,
            alt: self.alt && r != ModRole::Alt,
            meta: self.meta && r != ModRole::Meta,
        }
    }
}

/// A chord of modifiers alone, tapped once or twice.
#[derive(Clone, Copy, PartialEq, Eq, Structural, Debug)]
pub struct ModChord {
    pub mods: ModSet,
    pub double_tap: bool,
}

#[derive(Clone, Copy, PartialEq, Eq, Structural, Debug)]
pub enum Binding {
    Key(Chord),
    Mods(ModChord),
}

/// What a modifier-only chord has seen of the hold in progress.
#[derive(Clone, Copy, PartialEq, Eq, Structural, Debug)]
pub struct ModTapState {
    /// Modifiers down now.
    pub down: ModSet,
    /// Every modifier that was down during this hold.
    pub peak: ModSet,
    /// Another key was pressed during this hold.
    pub dirty: bool,
    pub started: Option<Instant>,
    /// When the previous tap ended, if it counted.
    pub last_tap: Option<Instant>,
}

impl ModTapState {
    /// Nothing held, no tap behind it.
    pub open spec fn fresh() -> ModTapState {
        ModTapState {
            down: ModSet::spec_none(),
            peak: ModSet::spec_none(),
            dirty: false,
            started: None,
            last_tap: None,
        }
    }

    pub fn new() -> (s: ModTapState)
        ensures
            s == ModTapState::fresh(),
    {
        ModTapState {
            down: ModSet::none(),
            peak: ModSet::none(),
            dirty: false,
            started: None,
            last_tap: None,
        }
    }
}

/// One hotkey's memory, whichever kind of binding it has.
#[derive(Clone, Copy, PartialEq, Eq, Structural, Debug)]
pub struct BindingState {
    pub key_down: bool,
    pub mods: ModTapState,
}

impl BindingState {
    pub fn new() -> (s: BindingState)
        ensures
            !s.key_down,
            s.mods == ModTapState::fresh(),
    {
        BindingState { key_down: false, mods: ModTapState::new() }
    }
}

/// Hotkeys to watch for on the key stream, and the chords an OS-level grab
/// owns instead: those of pause and of switch-last, in that order.
#[derive(Clone, Copy, PartialEq, Eq, Debug)]
pub struct KeystreamHotkeys {
    pub pause: Option<Binding>,
    pub switch_last: Option<Binding>,
    pub grabbed: [Option<Chord>; 2],
}

/// What every keystream chord has seen so far.
#[derive(Clone, Copy, PartialEq, Eq, Debug)]
pub struct ChordState {
    pub pause: BindingState,
    pub switch: BindingState,
    /// The matched chord's key that is physically down.
    pub trigger_down: Option<u32>,
    /// Which digit keys of the suggestion chord are down, `1` first.
    pub suggest_digit_down: [bool; 9],
}

// ─── Words ───────────────────────────────────────────────────────────

/// The separator that closed a word.
#[derive(Clone, Copy, PartialEq, Eq, Structural, Debug)]
pub struct WordBoundaryKey {
    pub ch: char,
    pub scancode: u32,
    pub shift: bool,
}

/// The word the manual hotkey acts on.
#[derive(Clone, Debug)]
pub struct LastWord {
    pub keys: Vec<WordKey>,
    /// What the keys read as in `layout`.
    pub rendered: String,
    /// The layout the word was typed in.
    pub layout: LayoutId,
    /// None while the word is still being typed.
    pub boundary: Option<WordBoundaryKey>,
    /// The layout the word was moved to, if it was.
    pub corrected_to: Option<LayoutId>,
    /// The last move was the user's own press.
    pub user_placed: bool,
}

/// The name of an optional layout.
pub open spec fn opt_name(id: Option<LayoutId>) -> Option<Seq<char>> {
    match id {
        Some(l) => Some(l@),
        None => None,
    }
}

pub fn copy_keys(keys: &Vec<WordKey>) -> (out: Vec<WordKey>)
    ensures
        out@ == keys@,
{
    let mut out: Vec<WordKey> = Vec::new();
    let mut i: usize = 0;
    while i < keys.len()
        invariant
            i <= keys.len(),
            out@ == keys@.take(i as int),
        decreases keys.len() - i,
    {
        out.push(keys[i]);
        i += 1;
        assert(out@ =~= keys@.take(i as int));
    }
    assert(keys@.take(keys@.len() as int) =~= keys@);
    out
}

/// A change to the text left of the caret: erase so many characters, then
/// type the corrected ones under another layout.
#[derive(Clone, Debug)]
pub struct Correction {
    pub from: LayoutId,
    pub to: LayoutId,
    pub original: String,
    pub corrected: String,
    pub backspaces: usize,
    pub reason: String,
    pub play_sound: bool,
    /// The physical keys that type `corrected` under `to`; none where only
    /// the text itself can be typed.
    pub replay_keys: Option<Vec<ReplayKey>>,
    /// Pointer presses that are the acceptance of an offer, not a click
    /// into the text.
    pub pointer_click_allowance: usize,
}

/// What one look at the key stream found while a correction was under way.
#[derive(Clone, Debug)]
pub struct WindowDrain {
    /// Presses that extend the word being typed, in order.
    pub word_keys: Vec<KeyEvent>,
    /// The boundary press the look stopped at.
    pub resume: Option<KeyEvent>,
    /// Something that cannot be placed in the text.
    pub suspicious: bool,
    pub saw_user_press: bool,
    /// The keyboard form of what could not be placed, where it has one.
    pub stopper: Option<KeyEvent>,
}

/// A look at the key stream, with its presses as a sequence.
pub struct WindowV {
    pub word_keys: Seq<KeyEvent>,
    pub resume: Option<KeyEvent>,
    pub suspicious: bool,
    pub saw_user_press: bool,
    pub stopper: Option<KeyEvent>,
}

impl View for WindowDrain {
    type V = WindowV;

    open spec fn view(&self) -> WindowV {
        WindowV {
            word_keys: self.word_keys@,
            resume: self.resume,
            suspicious: self.suspicious,
            saw_user_press: self.saw_user_press,
            stopper: self.stopper,
        }
    }
}

impl WindowDrain {
    pub fn new() -> (w: WindowDrain)
        ensures
            w.word_keys@.len() == 0,
            w.resume is None,
            !w.suspicious,
            !w.saw_user_press,
            w.stopper is None,
    {
        WindowDrain {
            word_keys: Vec::new(),
            resume: None,
            suspicious: false,
            saw_user_press: false,
            stopper: None,
        }
    }
}

/// The modifiers that accept an offer together with a digit.
#[derive(Clone, Copy, PartialEq, Eq, Structural, Debug)]
pub struct AcceptModifiers {
    pub ctrl: bool,
    pub shift: bool,
    pub alt: bool,
    pub meta: bool,
}

/// The offer in flight: how it is accepted, how many entries it has, and
/// the stamp a late acceptance must carry.
#[derive(Clone, Copy, PartialEq, Eq, Structural, Debug)]
pub struct PendingSuggestion {
    pub accept: Option<AcceptModifiers>,
    pub entries: usize,
    pub generation: u64,
}

} // verus!
