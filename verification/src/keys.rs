//! Key events as the listener reports them, and keystrokes as the engine
//! keeps and replays them.

use vstd::prelude::*;

verus! {

/// Scancode of the letter key that carries `V`.
pub const SC_V: u32 = 0x2F;

/// Scancode the listeners report for Insert.
pub const SC_INSERT: u32 = 0x6E;

pub const SC_BACKSPACE: u32 = 0x0E;

pub const SC_SPACE: u32 = 0x39;

/// Pseudo-scancode of a pointer button press.
pub const SC_POINTER_BUTTON: u32 = 0x110;

#[derive(Clone, Copy, PartialEq, Eq, Structural, Debug)]
pub enum KeyDirection {
    Press,
    Release,
}

#[derive(Clone, Copy, PartialEq, Eq, Structural, Debug)]
pub struct Modifiers {
    pub control: bool,
    pub shift: bool,
    pub alt: bool,
    pub meta: bool,
    pub caps: bool,
}

impl Modifiers {
    /// No modifier held, no lock on.
    pub fn none() -> (m: Modifiers)
        ensures
            m == (Modifiers { control: false, shift: false, alt: false, meta: false, caps: false }),
    {
        Modifiers { control: false, shift: false, alt: false, meta: false, caps: false }
    }

    pub open spec fn spec_is_command(self) -> bool {
        self.control || self.alt || self.meta
    }

    /// A held Ctrl, Alt or Meta turns a key press into a shortcut.
    #[verifier::when_used_as_spec(spec_is_command)]
    pub fn is_command(self) -> (b: bool)
        ensures
            b == self.spec_is_command(),
    {
        self.control || self.alt || self.meta
    }

    pub open spec fn spec_any_held(self) -> bool {
        self.control || self.shift || self.alt || self.meta
    }

    /// Any modifier down, Shift counted and locks not.
    #[verifier::when_used_as_spec(spec_any_held)]
    pub fn any_held(self) -> (b: bool)
        ensures
            b == self.spec_any_held(),
    {
        self.control || self.shift || self.alt || self.meta
    }
}

/// One edge of one key, as observed.
#[derive(Clone, Copy, PartialEq, Eq, Structural, Debug)]
pub struct KeyEvent {
    pub vk: u32,
    pub scancode: u32,
    pub direction: KeyDirection,
    pub modifiers: Modifiers,
    /// Emitted by a program rather than typed.
    pub injected: bool,
    pub timestamp_ms: u64,
}

/// A key the word buffer holds: which key, and the level it was typed on.
#[derive(Clone, Copy, PartialEq, Eq, Structural, Debug)]
pub struct WordKey {
    pub scancode: u32,
    pub shift: bool,
    pub caps: bool,
    pub timestamp_ms: u64,
}

/// A key to put back on the wire.
#[derive(Clone, Copy, PartialEq, Eq, Structural, Debug)]
pub struct ReplayKey {
    pub scancode: u32,
    pub shift: bool,
}

/// The key without a lock and without a time: what a separator is looked
/// up under.
pub open spec fn plain_key(scancode: u32, shift: bool) -> WordKey {
    WordKey { scancode, shift, caps: false, timestamp_ms: 0 }
}

pub fn separator_key(scancode: u32, shift: bool) -> (k: WordKey)
    ensures
        k == plain_key(scancode, shift),
{
    WordKey { scancode, shift, caps: false, timestamp_ms: 0 }
}

/// The replay of a word: each key with its level, in typed order.
pub open spec fn replay_of(keys: Seq<WordKey>) -> Seq<ReplayKey> {
    keys.map_values(|k: WordKey| ReplayKey { scancode: k.scancode, shift: k.shift })
}

pub fn replay_keys_of(keys: &Vec<WordKey>) -> (replay: Vec<ReplayKey>)
    ensures
        replay@ == replay_of(keys@),
{
    let mut replay: Vec<ReplayKey> = Vec::new();
    let mut i: usize = 0;
    while i < keys.len()
        invariant
            i <= keys.len(),
            replay@ == replay_of(keys@.take(i as int)),
        decreases keys.len() - i,
    {
        replay.push(ReplayKey { scancode: keys[i].scancode, shift: keys[i].shift });
        i += 1;
        assert(replay@ =~= replay_of(keys@.take(i as int)));
    }
    assert(keys@.take(keys@.len() as int) =~= keys@);
    replay
}

/// The replay of observed presses.
pub open spec fn replay_of_events(events: Seq<KeyEvent>) -> Seq<ReplayKey> {
    events.map_values(
        |e: KeyEvent| ReplayKey { scancode: e.scancode, shift: e.modifiers.shift },
    )
}

/// Append the replay of `events` to `out`.
pub fn push_replay_of_events(out: &mut Vec<ReplayKey>, events: &Vec<KeyEvent>)
    ensures
        final(out)@ == old(out)@ + replay_of_events(events@),
{
    let ghost before = out@;
    let mut i: usize = 0;
    while i < events.len()
        invariant
            i <= events.len(),
            out@ == before + replay_of_events(events@.take(i as int)),
        decreases events.len() - i,
    {
        out.push(ReplayKey { scancode: events[i].scancode, shift: events[i].modifiers.shift });
        i += 1;
        assert(out@ =~= before + replay_of_events(events@.take(i as int)));
    }
    assert(events@.take(events@.len() as int) =~= events@);
}

} // verus!
