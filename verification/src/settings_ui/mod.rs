//! The settings window: what it knows, what it shows, what it changes.

pub mod edit_laws;
pub mod enums;
pub mod lines;
pub mod pane_laws;
pub mod plugin_edits;
pub mod plugin_pane;
pub mod state;
pub mod view;
pub mod view_laws;
