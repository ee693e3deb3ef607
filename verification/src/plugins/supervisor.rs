//! Executable plug-ins are disabled in this build: no function here starts
//! a process, and every one that would have to says so.

use vstd::prelude::*;
use vstd::string::*;

use crate::assoc::AssocMap;
use crate::plugins::menu::MenuRow;
use crate::plugins::types::DiscoveredExtension;

verus! {

/// A plug-in that ended by itself.
#[derive(Clone, Debug)]
pub struct Departed {
    pub id: String,
    pub why: String,
}

pub struct Supervisor;

impl Supervisor {
    pub fn new() -> (s: Supervisor)
        ensures
            !s.runs_something(),
    {
        Supervisor
    }

    /// Whether any plug-in is running.
    pub open spec fn runs_something(&self) -> bool {
        false
    }

    /// Nothing runs, so nothing has departed.
    pub fn reap(&mut self) -> (gone: Vec<Departed>)
        ensures
            gone@.len() == 0,
            *final(self) == *old(self),
    {
        Vec::new()
    }

    pub fn has_services(&self) -> (b: bool)
        ensures
            b == self.runs_something(),
            !b,
    {
        false
    }

    pub fn stop_all(&mut self)
        ensures
            *final(self) == *old(self),
    {
    }
}

/// Why nothing is run.
pub open spec fn disabled() -> Seq<char> {
    "executable plug-ins are disabled in the privacy-first Work build"@
}

fn refusal() -> (s: String)
    ensures
        s@ == disabled(),
{
    "executable plug-ins are disabled in the privacy-first Work build".to_owned()
}

pub fn run_command(_ext: &DiscoveredExtension, _command_id: &str) -> (r: Result<(), String>)
    ensures
        r matches Err(e) && e@ == disabled(),
{
    Err(refusal())
}

pub fn run_command_for_row(
    _ext: &DiscoveredExtension,
    _command_id: &str,
    _row_id: &str,
) -> (r: Result<(), String>)
    ensures
        r matches Err(e) && e@ == disabled(),
{
    Err(refusal())
}

pub fn run_command_for_row_waiting(
    _ext: &DiscoveredExtension,
    _command_id: &str,
    _row_id: &str,
) -> (r: Result<String, String>)
    ensures
        r matches Err(e) && e@ == disabled(),
{
    Err(refusal())
}

pub fn read_rows(_ext: &DiscoveredExtension, _command_id: &str) -> (rows: Vec<MenuRow>)
    ensures
        rows@.len() == 0,
{
    Vec::new()
}

pub fn read_state(_ext: &DiscoveredExtension) -> (state: Option<AssocMap<String, String>>)
    ensures
        state is None,
{
    None
}

pub fn read_report(_ext: &DiscoveredExtension, _command_id: &str) -> (r: Result<String, String>)
    ensures
        r matches Err(e) && e@ == disabled(),
{
    Err(refusal())
}

} // verus!
