//! What the engine takes from the desktop besides keys: the clipboard, the
//! focused window, and whether what is focused may be read at all.

pub mod clipboard;
pub mod focus;
