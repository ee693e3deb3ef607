//! Keyboard-layout auto-switching: the decisions of the engine, its
//! settings and the settings window, each stated as a contract and proved.

pub mod assoc;
pub mod commands;
pub mod consts;
pub mod detector_laws;
pub mod detectors;
pub mod engine;
pub mod input;
pub mod keys;
pub mod layout_laws;
pub mod layouts;
pub mod logsafe;
pub mod order;
pub mod plugins;
pub mod settings;
pub mod settings_ui;
pub mod text;
pub mod text_laws;
pub mod time;
