//! Panes and choices of the settings window.

use vstd::prelude::*;
use vstd::string::*;

use crate::text::{ascii_fold, eq_ignore_ascii_case, trim_ref, trimmed};

verus! {

broadcast use vstd::string::group_string_axioms;

#[derive(Clone, Copy, PartialEq, Eq, Structural, Debug)]
pub enum Pane {
    Setup,
    Languages,
    Hotkeys,
    Commands,
    Wordlists,
    General,
    Exceptions,
    Suggestions,
    Plugins,
    About,
}

/// Action kind picker in the "Add command" form.
#[derive(Clone, Copy, PartialEq, Eq, Structural, Debug)]
pub enum CommandActionKind {
    TypeText,
    SwitchLayout,
    OpenPath,
}

impl CommandActionKind {
    pub open spec fn label_text(self) -> Seq<char> {
        match self {
            CommandActionKind::TypeText => "Type text (snippet)"@,
            CommandActionKind::SwitchLayout => "Switch layout"@,
            CommandActionKind::OpenPath => "Open file / URL"@,
        }
    }

    pub fn label(self) -> (s: &'static str)
        ensures
            s@ == self.label_text(),
    {
        match self {
            CommandActionKind::TypeText => "Type text (snippet)",
            CommandActionKind::SwitchLayout => "Switch layout",
            CommandActionKind::OpenPath => "Open file / URL",
        }
    }

    pub open spec fn placeholder_text(self) -> Seq<char> {
        match self {
            CommandActionKind::TypeText => "Best regards,\\nDmytro"@,
            CommandActionKind::SwitchLayout => "en-US"@,
            CommandActionKind::OpenPath => "https://… or C:\\path\\to\\file.md"@,
        }
    }

    pub fn placeholder(self) -> (s: &'static str)
        ensures
            s@ == self.placeholder_text(),
    {
        match self {
            CommandActionKind::TypeText => "Best regards,\\nDmytro",
            CommandActionKind::SwitchLayout => "en-US",
            CommandActionKind::OpenPath => "https://… or C:\\path\\to\\file.md",
        }
    }
}

/// Which user overlay the Wordlists pane is editing.
#[derive(Clone, Copy, PartialEq, Eq, Structural, Debug)]
pub enum WordlistKind {
    Extras,
    Stop,
}

impl WordlistKind {
    pub open spec fn suffix_text(self) -> Seq<char> {
        match self {
            WordlistKind::Extras => ""@,
            WordlistKind::Stop => "-stop"@,
        }
    }

    pub fn suffix(self) -> (s: &'static str)
        ensures
            s@ == self.suffix_text(),
    {
        match self {
            WordlistKind::Extras => "",
            WordlistKind::Stop => "-stop",
        }
    }

    pub open spec fn label_text(self) -> Seq<char> {
        match self {
            WordlistKind::Extras => "Extras (full words)"@,
            WordlistKind::Stop => "Stop list (short tokens)"@,
        }
    }

    pub fn label(self) -> (s: &'static str)
        ensures
            s@ == self.label_text(),
    {
        match self {
            WordlistKind::Extras => "Extras (full words)",
            WordlistKind::Stop => "Stop list (short tokens)",
        }
    }
}

/// Which hotkey is being rebound.
#[derive(Clone, Copy, PartialEq, Eq, Structural, Debug)]
pub enum HotkeyKind {
    Pause,
    SwitchLast,
}

/// The window's colour-theme preference.
#[derive(Clone, Copy, PartialEq, Eq, Structural, Debug)]
pub enum ThemeChoice {
    System,
    Light,
    Dark,
}

/// What a config value means: `light` or `dark` whatever its case and
/// surrounding white space, the system's choice for everything else.
pub open spec fn theme_of(s: Seq<char>) -> ThemeChoice {
    let folded = ascii_fold(trimmed(s));
    if folded == ascii_fold("light"@) {
        ThemeChoice::Light
    } else if folded == ascii_fold("dark"@) {
        ThemeChoice::Dark
    } else {
        ThemeChoice::System
    }
}

impl ThemeChoice {
    /// Parse the config value. Unknown strings fall back to `System`.
    pub fn from_config(s: &str) -> (t: ThemeChoice)
        ensures
            t == theme_of(s@),
    {
        let value = trim_ref(s);
        if eq_ignore_ascii_case(value, "light") {
            ThemeChoice::Light
        } else if eq_ignore_ascii_case(value, "dark") {
            ThemeChoice::Dark
        } else {
            ThemeChoice::System
        }
    }

    pub open spec fn config_text(self) -> Seq<char> {
        match self {
            ThemeChoice::System => "system"@,
            ThemeChoice::Light => "light"@,
            ThemeChoice::Dark => "dark"@,
        }
    }

    /// The canonical spelling in the config.
    pub fn config_value(self) -> (s: &'static str)
        ensures
            s@ == self.config_text(),
    {
        match self {
            ThemeChoice::System => "system",
            ThemeChoice::Light => "light",
            ThemeChoice::Dark => "dark",
        }
    }

    pub open spec fn label_text(self) -> Seq<char> {
        match self {
            ThemeChoice::System => "System"@,
            ThemeChoice::Light => "Light"@,
            ThemeChoice::Dark => "Dark"@,
        }
    }

    pub fn label(self) -> (s: &'static str)
        ensures
            s@ == self.label_text(),
    {
        match self {
            ThemeChoice::System => "System",
            ThemeChoice::Light => "Light",
            ThemeChoice::Dark => "Dark",
        }
    }

    /// Whether the window is dark, given the OS preference.
    pub open spec fn dark(self, system_prefers_dark: bool) -> bool {
        match self {
            ThemeChoice::Light => false,
            ThemeChoice::Dark => true,
            ThemeChoice::System => system_prefers_dark,
        }
    }

    pub fn is_dark(self, system_prefers_dark: bool) -> (b: bool)
        ensures
            b == self.dark(system_prefers_dark),
    {
        match self {
            ThemeChoice::Light => false,
            ThemeChoice::Dark => true,
            ThemeChoice::System => system_prefers_dark,
        }
    }
}

/// A choice written to the config reads back as itself.
pub proof fn law_theme_survives_the_config(t: ThemeChoice)
    ensures
        theme_of(t.config_text()) == t,
{
    reveal_strlit("system");
    reveal_strlit("light");
    reveal_strlit("dark");
    let s = t.config_text();
    assert(trimmed(s) =~= s) by {
        assert(crate::text::trim_start(s) =~= s);
        assert(crate::text::trim_end(s) =~= s);
    }
    assert(ascii_fold("system"@).len() == 6);
    assert(ascii_fold("light"@).len() == 5);
    assert(ascii_fold("dark"@).len() == 4);
}

/// How the tray icon is drawn.
#[derive(Clone, Copy, PartialEq, Eq, Structural, Debug)]
pub enum TrayIconStyle {
    Color,
    Mono,
    Hidden,
}

/// What the last flush of the wordlist editor came to.
#[derive(Clone, Debug)]
pub enum WordlistFlushOutcome {
    /// Nothing was unsaved.
    Nothing,
    /// No layout has been picked yet.
    NoLayout,
    /// Where it was saved.
    Saved(String),
    /// What went wrong.
    Failed(String),
}

} // verus!
