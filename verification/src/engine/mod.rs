//! The switching engine: what it keeps, what it decides, what it asks the
//! host to do.

pub mod call_laws;
pub mod conservation;
pub mod consts;
pub mod correction;
pub mod correction_laws;
pub mod decide;
pub mod decide_laws;
pub mod dialogue_laws;
pub mod doubt_laws;
pub mod echo;
pub mod events;
pub mod force_laws;
pub mod force_switch;
pub mod held;
pub mod heuristics;
pub mod hotkeys;
pub mod key_laws;
pub mod patience_laws;
pub mod run_loop;
pub mod screen_laws;
pub mod selection;
pub mod selection_laws;
pub mod stream_laws;
pub mod switcher;
pub mod types;
pub mod window;
