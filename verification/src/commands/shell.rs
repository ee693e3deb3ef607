//! Running a shell command from a text trigger. This build refuses it.

use vstd::prelude::*;

use crate::text::{is_blank, is_blank_text};

verus! {

#[derive(Clone, Debug)]
pub struct ShellCommand {
    pub program: String,
    pub args: Vec<String>,
    pub insert_output: bool,
}

#[derive(Clone, Copy, PartialEq, Eq, Structural, Debug)]
pub enum ShellRefusal {
    DisabledInWorkBuild,
    EmptyProgram,
}

impl ShellRefusal {
    pub open spec fn message(self) -> Seq<char> {
        match self {
            ShellRefusal::DisabledInWorkBuild =>
                "`run_shell` is disabled in the privacy-first Work build"@,
            ShellRefusal::EmptyProgram => "`run_shell` needs a non-empty `program`"@,
        }
    }

    /// The refusal in words.
    pub fn to_string(&self) -> (s: String)
        ensures
            s@ == self.message(),
    {
        match self {
            ShellRefusal::DisabledInWorkBuild =>
                "`run_shell` is disabled in the privacy-first Work build".to_owned(),
            ShellRefusal::EmptyProgram => "`run_shell` needs a non-empty `program`".to_owned(),
        }
    }
}

/// A command with a blank program is refused for that; every other one is
/// refused because this build runs none. The opt-in flag is not consulted.
pub fn check(cmd: &ShellCommand, _allow_run_shell: bool) -> (r: Result<(), ShellRefusal>)
    ensures
        r == Err::<(), ShellRefusal>(
            if is_blank(cmd.program@) {
                ShellRefusal::EmptyProgram
            } else {
                ShellRefusal::DisabledInWorkBuild
            },
        ),
{
    if is_blank_text(cmd.program.as_str()) {
        return Err(ShellRefusal::EmptyProgram);
    }
    Err(ShellRefusal::DisabledInWorkBuild)
}

/// Runs nothing and returns no output, whatever the command.
pub fn run(_cmd: &ShellCommand) -> (output: Option<String>)
    ensures
        output is None,
{
    None
}

/// No command gets past the check, opted in or not.
pub proof fn law_no_command_is_ever_allowed(
    cmd: ShellCommand,
    allow_run_shell: bool,
    r: Result<(), ShellRefusal>,
)
    requires
        call_ensures(check, (&cmd, allow_run_shell), r),
    ensures
        r is Err,
{
}

} // verus!
