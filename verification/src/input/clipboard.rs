//! Clipboard capability boundary. This build never reads or overwrites
//! another application's clipboard.

use vstd::prelude::*;
use vstd::string::*;

verus! {

/// Why an input operation did not work.
#[derive(Clone, Debug)]
pub enum InputError {
    Unsupported(String),
    Failed(String),
}

/// The clipboard as the engine would use it.
pub trait Clipboard: Send + Sync {
    fn text(&self) -> Result<Option<String>, InputError>;

    fn set_text(&self, text: &str) -> Result<(), InputError>;
}

/// Why selection conversion is unavailable.
#[derive(Clone, Copy, PartialEq, Eq, Structural, Debug)]
pub enum ClipboardGap {
    DisabledInWorkBuild,
}

impl ClipboardGap {
    /// The reason in words.
    pub fn to_string(&self) -> (s: String)
        ensures
            s@ == "selection conversion is disabled in the privacy-first Work build"@,
    {
        "selection conversion is disabled in the privacy-first Work build".to_owned()
    }
}

/// Work builds never expose a system clipboard implementation.
pub fn clipboard() -> (r: Result<Box<dyn Clipboard>, ClipboardGap>)
    ensures
        r is Err,
        r->Err_0 == ClipboardGap::DisabledInWorkBuild,
{
    Err(ClipboardGap::DisabledInWorkBuild)
}

/// Work builds never allow selection conversion.
pub fn selection_support() -> (r: Result<(), ClipboardGap>)
    ensures
        r == Err::<(), ClipboardGap>(ClipboardGap::DisabledInWorkBuild),
{
    Err(ClipboardGap::DisabledInWorkBuild)
}

} // verus!
