//! Plug-ins: what they declare, and the little of it that this build does.

pub mod menu;
pub mod menu_laws;
pub mod supervisor;
pub mod types;
