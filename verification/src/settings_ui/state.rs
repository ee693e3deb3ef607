//! The settings window's whole mutable state, as far as it is plain data.

use vstd::prelude::*;
use vstd::string::*;

use crate::engine::types::{ModRole, ModSet};
use crate::input::clipboard::selection_support;
use crate::layouts::LayoutId;
use crate::settings::Settings;
use crate::settings_ui::enums::{
    theme_of, CommandActionKind, HotkeyKind, Pane, ThemeChoice, WordlistKind,
};
use crate::settings_ui::plugin_pane::PluginPane;

verus! {

broadcast use vstd::string::group_string_axioms;

#[derive(Clone, Debug)]
pub struct SaveBanner {
    pub text: String,
    pub is_error: bool,
}

/// Capture state for a modifier-only chord.
#[derive(Clone, Copy, PartialEq, Eq, Structural, Debug)]
pub struct ModCapture {
    /// Modifier keys down right now.
    pub down: ModSet,
    /// Every modifier seen during this hold.
    pub peak: ModSet,
    /// A single-modifier tap that is waiting for its twin.
    pub pending_tap: Option<ModSet>,
}

impl Default for ModCapture {
    fn default() -> (m: Self)
        ensures
            m.down == ModSet::spec_none(),
            m.peak == ModSet::spec_none(),
            m.pending_tap is None,
    {
        ModCapture { down: ModSet::none(), peak: ModSet::none(), pending_tap: None }
    }
}

pub struct SettingsApp {
    pub settings: Settings,
    pub os_layouts: Vec<LayoutId>,
    pub config_path: String,
    pub pane: Pane,
    /// The OS preference, for the theme that follows it.
    pub system_prefers_dark: bool,
    /// How often the backdrop was drawn.
    pub bg_jitter: u32,
    /// Whether selections can be converted here, or why not.
    pub selection_support: Result<(), String>,
    /// The user has picked a conversion mode in this window.
    pub conversion_chosen_here: bool,
    pub save_banner: Option<SaveBanner>,
    /// Which hotkey is being rebound.
    pub capturing: Option<HotkeyKind>,
    pub mod_capture: ModCapture,
    /// A permission is still missing.
    pub setup_needs_attention: bool,
    pub layout_backend: Option<String>,
    pub setup_status: Option<SaveBanner>,
    pub exception_draft: String,
    pub plugins: Vec<PluginPane>,
    pub command_draft_name: String,
    pub command_draft_trigger: String,
    pub command_draft_action_kind: CommandActionKind,
    pub command_draft_param: String,
    pub command_draft_apps: String,
    pub command_status: Option<SaveBanner>,
    /// Empty for the global overlay.
    pub wordlist_profile: String,
    pub wordlist_layout: Option<LayoutId>,
    pub wordlist_kind: WordlistKind,
    pub wordlist_status: Option<SaveBanner>,
    pub wordlist_dirty: bool,
}

/// What a key press means while a hotkey is being captured.
pub enum Capture {
    Cancel,
    Modifier { role: ModRole, held: ModSet },
    Combo(String),
}

impl SettingsApp {
    /// The window as it opens: on the given pane, with empty drafts, the
    /// Wordlists pane on the first layout the OS has.
    pub fn new(
        settings: Settings,
        os_layouts: Vec<LayoutId>,
        config_path: String,
        initial_pane: Pane,
        layout_backend: Option<String>,
        system_prefers_dark: bool,
        setup_needs_attention: bool,
    ) -> (app: SettingsApp)
        ensures
            app.settings == settings,
            app.os_layouts == os_layouts,
            app.config_path == config_path,
            app.pane == initial_pane,
            app.layout_backend == layout_backend,
            app.system_prefers_dark == system_prefers_dark,
            app.setup_needs_attention == setup_needs_attention,
            app.bg_jitter == 0,
            app.selection_support matches Err(why) && why@
                == "selection conversion is disabled in the privacy-first Work build"@,
            !app.conversion_chosen_here,
            app.save_banner is None && app.setup_status is None && app.command_status is None,
            app.wordlist_status is None,
            app.capturing is None,
            app.mod_capture.down == ModSet::spec_none(),
            app.mod_capture.peak == ModSet::spec_none(),
            app.mod_capture.pending_tap is None,
            app.exception_draft@.len() == 0,
            app.plugins@.len() == 0,
            app.command_draft_name@.len() == 0 && app.command_draft_trigger@.len() == 0,
            app.command_draft_param@.len() == 0 && app.command_draft_apps@.len() == 0,
            app.command_draft_action_kind == CommandActionKind::TypeText,
            app.wordlist_profile@.len() == 0,
            match app.wordlist_layout {
                Some(id) => os_layouts@.len() > 0 && id == os_layouts@[0],
                None => os_layouts@.len() == 0,
            },
            app.wordlist_kind == WordlistKind::Extras,
            !app.wordlist_dirty,
    {
        let wordlist_layout = if os_layouts.len() > 0 {
            Some(os_layouts[0].copy())
        } else {
            None
        };
        let support = match selection_support() {
            Ok(()) => Ok(()),
            Err(gap) => Err(gap.to_string()),
        };
        SettingsApp {
            settings,
            os_layouts,
            config_path,
            pane: initial_pane,
            system_prefers_dark,
            bg_jitter: 0,
            selection_support: support,
            conversion_chosen_here: false,
            save_banner: None,
            capturing: None,
            mod_capture: ModCapture::default(),
            setup_needs_attention,
            layout_backend,
            setup_status: None,
            exception_draft: String::new(),
            plugins: Vec::new(),
            command_draft_name: String::new(),
            command_draft_trigger: String::new(),
            command_draft_action_kind: CommandActionKind::TypeText,
            command_draft_param: String::new(),
            command_draft_apps: String::new(),
            command_status: None,
            wordlist_profile: String::new(),
            wordlist_layout,
            wordlist_kind: WordlistKind::Extras,
            wordlist_status: None,
            wordlist_dirty: false,
        }
    }

    pub fn title(&self) -> (s: String)
        ensures
            s@ == "PolterType · Settings ("@ + self.config_path@ + ")"@,
    {
        let mut s = "PolterType · Settings (".to_owned();
        s.append(self.config_path.as_str());
        s.append(")");
        s
    }

    /// The user's theme preference, read fresh from the staged settings so
    /// that the picker applies at once.
    pub fn theme_choice(&self) -> (t: ThemeChoice)
        ensures
            t == theme_of(self.settings.general.ui_theme@),
    {
        ThemeChoice::from_config(self.settings.general.ui_theme.as_str())
    }

    /// Whether the window is dark.
    pub fn theme(&self) -> (dark: bool)
        ensures
            dark == theme_of(self.settings.general.ui_theme@).dark(self.system_prefers_dark),
    {
        self.theme_choice().is_dark(self.system_prefers_dark)
    }

    /// Which of the 251 imperceptible backdrop shades comes next. The count
    /// wraps; the shade changes with every drawing.
    pub fn backdrop_step(&mut self) -> (shade: u32)
        ensures
            final(self).bg_jitter == if old(self).bg_jitter == u32::MAX {
                0
            } else {
                (old(self).bg_jitter + 1) as u32
            },
            shade == final(self).bg_jitter % 251,
            *final(self) == (SettingsApp { bg_jitter: final(self).bg_jitter, ..*old(self) }),
    {
        self.bg_jitter = if self.bg_jitter == u32::MAX {
            0
        } else {
            self.bg_jitter + 1
        };
        self.bg_jitter % 251
    }

    /// The window listens for keys only while a hotkey is being captured.
    pub fn listens_for_keys(&self) -> (b: bool)
        ensures
            b == self.capturing is Some,
    {
        self.capturing.is_some()
    }

    /// What a key press means while a hotkey is being captured: Escape
    /// cancels; a modifier is one half of a gesture; a bare key is none of
    /// ours, Caps Lock aside; anything else is a combination, spelled by
    /// what the key renders as, or by its place on the keyboard where that
    /// cannot be read back.
    pub fn capture_press(
        is_escape: bool,
        role: Option<ModRole>,
        held: ModSet,
        no_modifiers: bool,
        is_capslock: bool,
        combo: String,
        usable: bool,
        physical: Option<String>,
    ) -> (c: Option<Capture>)
        ensures
            is_escape ==> c == Some(Capture::Cancel),
            !is_escape && role is Some ==> c == Some(Capture::Modifier { role: role->0, held }),
            !is_escape && role is None && no_modifiers && !is_capslock ==> c is None,
            !is_escape && role is None && !(no_modifiers && !is_capslock) ==> c == Some(
                Capture::Combo(
                    if usable || physical is None {
                        combo
                    } else {
                        physical->0
                    },
                ),
            ),
    {
        if is_escape {
            return Some(Capture::Cancel);
        }
        if let Some(role) = role {
            return Some(Capture::Modifier { role, held });
        }
        if no_modifiers && !is_capslock {
            return None;
        }
        if usable {
            return Some(Capture::Combo(combo));
        }
        match physical {
            Some(p) => Some(Capture::Combo(p)),
            None => Some(Capture::Combo(combo)),
        }
    }
}

} // verus!
