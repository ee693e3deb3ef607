//! Names and default hotkeys.

use vstd::prelude::*;

verus! {

pub const APP_ID: &'static str = "dev.opensource.poltertype";

pub const APP_NAME: &'static str = "PolterType";

/// The default for the manual "switch the last word" hotkey.
pub const DEFAULT_SWITCH_LAST: &'static str = "Ctrl+Shift+Backspace";

/// The default for the pause/resume hotkey.
pub const DEFAULT_PAUSE_TOGGLE: &'static str = "Ctrl+Shift+Space";

/// Stands in for the default pause chord where macOS switches input sources
/// with it.
pub const MACOS_SAFE_PAUSE_TOGGLE: &'static str = "Ctrl+Shift+P";

/// Stands in for the default switch chord where the focused app sees it too:
/// a key nothing is deleted by.
pub const WAYLAND_SAFE_SWITCH_LAST: &'static str = "Ctrl+Shift+F9";

/// The tray submenu that holds words a tooltip offered to add and lost to the
/// next keystroke.
pub const DEFERRED_MENU_LABEL: &'static str = "Add a missed word to the dictionary…";

/// The one row of that submenu while nothing has been missed.
pub const DEFERRED_MENU_EMPTY: &'static str = "No missed words yet";

} // verus!
