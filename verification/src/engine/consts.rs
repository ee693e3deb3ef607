//! Time windows and budgets of the engine. Spans are in nanoseconds.

use vstd::prelude::*;

use crate::time::Duration;

verus! {

/// Longest hold that still reads as a tap of a modifier.
pub const MOD_TAP_MAX: u128 = 300_000_000;

/// Longest pause between the two taps of a double tap.
pub const MOD_DOUBLE_TAP_GAP: u128 = 400_000_000;

/// After a force-switch, everything inside this window is an echo of the
/// same press. Past the keyboard's repeat interval, short of a person's
/// second press.
pub const FORCE_SWITCH_REARM: u128 = 150_000_000;

/// How long after a paste completed words are left alone.
pub const PASTE_GUARD: u128 = 800_000_000;

/// How long the stash outlives the last key event.
pub const LAST_WORD_TTL: u128 = 30_000_000_000;

/// How long a correction waits for the key that asked for it to come up.
pub const CHORD_RELEASE_WAIT: u128 = 3_000_000_000;

/// Between two looks at the key stream while that key is down.
pub const CHORD_RELEASE_STEP: u128 = 20_000_000;

/// How long a correction waits for the user's fingers to lift.
pub const ABSORB_WAIT: u128 = 600_000_000;

/// Between two looks at the key stream while they have not.
pub const ABSORB_STEP: u128 = 30_000_000;

/// Empty looks in a row that say the user has paused.
pub const ABSORB_QUIET_PROBES: u8 = 3;

/// A layout switch needs this long to reach every application.
pub const LAYOUT_SETTLE: u128 = 80_000_000;

/// How often a fresh switch is looked at before it counts as held.
pub const SWITCH_HOLD_PROBES: u8 = 3;

/// Between two of those looks.
pub const SWITCH_HOLD_STEP: u128 = 30_000_000;

/// How often the desktop's own switch shortcut is pressed where the OS does
/// not say how many layouts there are.
pub const SHORTCUT_STEPS: usize = 2;

/// What that shortcut needs to take effect.
pub const CHORD_SETTLE: u128 = 120_000_000;

/// Emitted keys need this long to come back on the key stream.
pub const POST_EMIT_LAG: u128 = 15_000_000;

/// How long an emitted key may take to come back on the key stream.
pub const ECHO_EXPIRY: u128 = 1_000_000_000;

/// Deletion bursts per replay: the word, and what raced the deletion.
pub const DELETE_ROUNDS: u8 = 3;

/// How long held keystrokes are typed out before the keyboard is let go.
pub const HELD_FLUSH: u128 = 500_000_000;

/// Empty looks in a row that end the typing-out of held keystrokes.
pub const HELD_FLUSH_QUIET_PROBES: u8 = 2;

/// Looks at the key stream after a replay, at most.
pub const INTRUSION_PROBES: u8 = 20;

/// Empty looks in a row that say the user has stopped typing into it.
pub const INTRUSION_QUIET_PROBES: u8 = 3;

/// How many times a replay that was typed into is done over.
pub const INTRUSION_REPAIRS: u8 = 1;

/// How long a correction waits for its own echoes at the end.
pub const SETTLE_WAIT: u128 = 400_000_000;

/// Between two looks for them.
pub const SETTLE_STEP: u128 = 10_000_000;

/// Between releasing a held chord and pressing another.
pub const CHORD_RELEASE_SETTLE: u128 = 40_000_000;

/// How long a copied selection may take to reach the clipboard.
pub const SELECTION_COPY_WAIT: u128 = 400_000_000;

/// Between two looks at the clipboard.
pub const SELECTION_COPY_STEP: u128 = 20_000_000;

/// What a paste needs before the clipboard may change again.
pub const PASTE_SETTLE: u128 = 200_000_000;

/// [`FORCE_SWITCH_REARM`] as a span.
pub fn force_switch_rearm() -> (d: Duration)
    ensures
        d.nanos == FORCE_SWITCH_REARM,
{
    Duration { nanos: FORCE_SWITCH_REARM }
}

} // verus!
