//! User commands: text triggers and what they do.

use vstd::prelude::*;

use crate::commands::shell::ShellCommand;

pub mod shell;

verus! {

/// What a command does once its trigger was typed.
#[derive(Clone, Debug)]
pub enum CommandAction {
    TypeText { text: String },
    SwitchLayout { layout: String },
    OpenPath { path: String },
    RunShell(ShellCommand),
}

#[derive(Clone, Debug)]
pub struct UserCommand {
    pub id: String,
    pub name: String,
    /// The token that sets it off, to be typed exactly.
    pub trigger: String,
    pub action: CommandAction,
    /// Where it works; empty for everywhere.
    pub apps: Vec<String>,
}

} // verus!
