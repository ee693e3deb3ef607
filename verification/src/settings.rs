//! The settings and their defaults.

use vstd::prelude::*;
use vstd::string::*;

use crate::commands::UserCommand;
use crate::layouts::LayoutId;
use crate::text::{letters_lower, letters_only_lower, str_eq};
use crate::time::Duration;

verus! {

broadcast use vstd::string::group_string_axioms;

pub const SCHEMA_VERSION: u32 = 1;

/// Never check for updates more often than this, whatever the config says.
pub const MIN_UPDATE_INTERVAL_HOURS: u64 = 1;

/// The 32-bit pattern of 0.55.
pub const DEFAULT_CONFIDENCE_BITS: u32 = 0x3F0C_CCCD;

/// The 32-bit pattern of 0.6.
pub const DEFAULT_VOLUME_BITS: u32 = 0x3F19_999A;

#[derive(Clone, Debug)]
pub struct Settings {
    pub schema_version: u32,
    pub general: GeneralSettings,
    pub languages: LanguageSettings,
    pub engine: EngineSettings,
    pub exceptions: ExceptionSettings,
    pub hotkeys: HotkeySettings,
    pub commands: Vec<UserCommand>,
    /// Whether shell commands may execute at all. Off by default.
    pub commands_allow_run_shell: bool,
    pub wordlists: WordlistSettings,
    pub sounds: SoundSettings,
    pub suggestions: SuggestionSettings,
    pub updates: UpdateSettings,
    pub selection: SelectionSettings,
    pub ai: AiSettings,
}

impl Default for Settings {
    fn default() -> (s: Self)
        ensures
            s.schema_version == SCHEMA_VERSION,
            s.general.is_default(),
            s.languages.is_default(),
            s.engine.is_default(),
            s.exceptions.is_default(),
            s.hotkeys.is_default(),
            s.commands@.len() == 0,
            !s.commands_allow_run_shell,
            s.wordlists.profiles@.len() == 0,
            s.sounds.is_default(),
            s.suggestions.is_default(),
            s.updates.is_default(),
            !s.selection.enabled,
            s.ai.is_default(),
    {
        Settings {
            schema_version: SCHEMA_VERSION,
            general: GeneralSettings::default(),
            languages: LanguageSettings::default(),
            engine: EngineSettings::default(),
            exceptions: ExceptionSettings::default(),
            hotkeys: HotkeySettings::default(),
            commands: Vec::new(),
            commands_allow_run_shell: false,
            wordlists: WordlistSettings::default(),
            sounds: SoundSettings::default(),
            suggestions: SuggestionSettings::default(),
            updates: UpdateSettings::default(),
            selection: SelectionSettings::default(),
            ai: AiSettings::default(),
        }
    }
}

/// Converting a *selected* passage rather than the last word. Off by
/// default: it reads another application's clipboard.
#[derive(Clone, Copy, PartialEq, Eq, Structural, Debug)]
pub struct SelectionSettings {
    pub enabled: bool,
}

impl Default for SelectionSettings {
    fn default() -> (s: Self)
        ensures
            !s.enabled,
    {
        SelectionSettings { enabled: false }
    }
}

#[derive(Clone, Debug)]
pub struct GeneralSettings {
    pub autostart: bool,
    pub sound_on_correct: bool,
    pub show_notifications: bool,
    pub ui_language: String,
    /// `"system"`, `"light"` or `"dark"`; anything else reads as `"system"`.
    pub ui_theme: String,
    /// `"color"`, `"mono"` or `"hidden"`.
    pub tray_icon: String,
    pub log_level: String,
    /// Auto-switching is off.
    pub paused: bool,
}

impl GeneralSettings {
    pub open spec fn is_default(self) -> bool {
        &&& !self.autostart
        &&& self.sound_on_correct
        &&& !self.show_notifications
        &&& self.ui_language@ == "system"@
        &&& self.ui_theme@ == "system"@
        &&& self.tray_icon@ == "color"@
        &&& self.log_level@ == "info"@
        &&& !self.paused
    }
}

impl Default for GeneralSettings {
    fn default() -> (s: Self)
        ensures
            s.is_default(),
    {
        GeneralSettings {
            autostart: false,
            sound_on_correct: true,
            show_notifications: false,
            ui_language: "system".to_owned(),
            ui_theme: "system".to_owned(),
            tray_icon: "color".to_owned(),
            log_level: "info".to_owned(),
            paused: false,
        }
    }
}

#[derive(Clone, Debug)]
pub struct LanguageSettings {
    /// Layouts the engine considers when deciding. Empty = use every
    /// layout known to the OS.
    pub active: Vec<LayoutId>,
    /// Layouts the engine should never switch to, even if the OS has
    /// them enabled.
    pub ignored: Vec<LayoutId>,
}

impl LanguageSettings {
    pub open spec fn is_default(self) -> bool {
        self.active@.len() == 0 && self.ignored@.len() == 0
    }
}

impl Default for LanguageSettings {
    fn default() -> (s: Self)
        ensures
            s.is_default(),
    {
        LanguageSettings { active: Vec::new(), ignored: Vec::new() }
    }
}

#[derive(Clone, Copy, PartialEq, Eq, Structural, Debug)]
pub struct EngineSettings {
    pub min_word_length: usize,
    /// The threshold's 32-bit floating-point pattern.
    pub confidence_threshold_bits: u32,
    pub ignore_in_password_fields: bool,
    /// The word buffer is given up after a pause of so many milliseconds.
    pub idle_timeout_ms: u64,
    /// Skip auto-switching when the token looks like an identifier.
    pub suppress_in_identifiers: bool,
    /// Skip auto-switching when the word is ALL CAPS.
    pub suppress_for_all_caps: bool,
}

impl EngineSettings {
    pub open spec fn is_default(self) -> bool {
        self == (EngineSettings {
            min_word_length: 3,
            confidence_threshold_bits: DEFAULT_CONFIDENCE_BITS,
            ignore_in_password_fields: true,
            idle_timeout_ms: 2000,
            suppress_in_identifiers: true,
            suppress_for_all_caps: true,
        })
    }
}

impl Default for EngineSettings {
    fn default() -> (s: Self)
        ensures
            s.is_default(),
    {
        EngineSettings {
            min_word_length: 3,
            confidence_threshold_bits: DEFAULT_CONFIDENCE_BITS,
            ignore_in_password_fields: true,
            idle_timeout_ms: 2000,
            suppress_in_identifiers: true,
            suppress_for_all_caps: true,
        }
    }
}

#[derive(Clone, Debug)]
pub struct ExceptionSettings {
    /// Foreground apps where auto-switching is disabled. Empty by default:
    /// the user decides where they type.
    pub disabled_apps: Vec<String>,
    /// Words that should never be auto-corrected.
    pub word_whitelist: Vec<String>,
}

impl ExceptionSettings {
    pub open spec fn is_default(self) -> bool {
        self.disabled_apps@.len() == 0 && self.word_whitelist@.len() == 0
    }

    /// Some entry of the never-touch list has exactly these letters.
    pub open spec fn whitelists(self, stripped: Seq<char>) -> bool {
        exists|i: int|
            0 <= i < self.word_whitelist@.len() && letters_lower(
                (#[trigger] self.word_whitelist@[i])@,
            ) == stripped
    }

    /// True iff `stripped` — already reduced to its lower-cased letters —
    /// is on the never-touch list. Entries are reduced the same way.
    pub fn is_whitelisted(&self, stripped: &str) -> (b: bool)
        ensures
            b == self.whitelists(stripped@),
    {
        let mut i: usize = 0;
        while i < self.word_whitelist.len()
            invariant
                i <= self.word_whitelist.len(),
                forall|j: int|
                    0 <= j < i ==> letters_lower((#[trigger] self.word_whitelist@[j])@)
                        != stripped@,
            decreases self.word_whitelist.len() - i,
        {
            let entry = letters_only_lower(self.word_whitelist[i].as_str());
            if str_eq(entry.as_str(), stripped) {
                return true;
            }
            i += 1;
        }
        false
    }
}

impl Default for ExceptionSettings {
    fn default() -> (s: Self)
        ensures
            s.is_default(),
    {
        ExceptionSettings { disabled_apps: Vec::new(), word_whitelist: Vec::new() }
    }
}

#[derive(Clone, Debug)]
pub struct HotkeySettings {
    pub pause_toggle: String,
    pub manual_switch_last: String,
}

impl HotkeySettings {
    pub open spec fn is_default(self) -> bool {
        &&& self.pause_toggle@ == "Ctrl+Shift+Space"@
        &&& self.manual_switch_last@ == "Ctrl+Shift+Backspace"@
    }
}

impl Default for HotkeySettings {
    fn default() -> (s: Self)
        ensures
            s.is_default(),
    {
        HotkeySettings {
            pause_toggle: "Ctrl+Shift+Space".to_owned(),
            manual_switch_last: "Ctrl+Shift+Backspace".to_owned(),
        }
    }
}

#[derive(Clone, Debug)]
pub struct SoundSettings {
    pub theme: String,
    /// The volume's 32-bit floating-point pattern.
    pub volume_bits: u32,
}

impl SoundSettings {
    pub open spec fn is_default(self) -> bool {
        self.theme@ == "default"@ && self.volume_bits == DEFAULT_VOLUME_BITS
    }
}

impl Default for SoundSettings {
    fn default() -> (s: Self)
        ensures
            s.is_default(),
    {
        SoundSettings { theme: "default".to_owned(), volume_bits: DEFAULT_VOLUME_BITS }
    }
}

/// Spelling suggestions for mistyped words.
#[derive(Clone, Debug)]
pub struct SuggestionSettings {
    pub enabled: bool,
    /// Most suggestions ever offered at once.
    pub max_suggestions: usize,
    /// Seconds the tooltip stays on screen before hiding itself.
    pub tooltip_timeout_secs: u64,
    /// Modifier half of the keyboard-accept chord; empty disables it.
    pub accept_modifiers: String,
}

impl SuggestionSettings {
    pub open spec fn is_default(self) -> bool {
        &&& self.enabled
        &&& self.max_suggestions == 5
        &&& self.tooltip_timeout_secs == 30
        &&& self.accept_modifiers@ == "Ctrl+Shift"@
    }

    /// `max_suggestions` with the 1..=9 digit-addressability clamp.
    pub fn max_clamped(&self) -> (n: usize)
        ensures
            1 <= n <= 9,
            1 <= self.max_suggestions <= 9 ==> n == self.max_suggestions,
            self.max_suggestions < 1 ==> n == 1,
            self.max_suggestions > 9 ==> n == 9,
    {
        if self.max_suggestions < 1 {
            1
        } else if self.max_suggestions > 9 {
            9
        } else {
            self.max_suggestions
        }
    }

    /// Tooltip lifetime, between three seconds and ten minutes.
    pub fn timeout(&self) -> (d: Duration)
        ensures
            d.nanos == 1_000_000_000 * if self.tooltip_timeout_secs < 3 {
                3
            } else if self.tooltip_timeout_secs > 600 {
                600
            } else {
                self.tooltip_timeout_secs as int
            },
    {
        let secs: u64 = if self.tooltip_timeout_secs < 3 {
            3
        } else if self.tooltip_timeout_secs > 600 {
            600
        } else {
            self.tooltip_timeout_secs
        };
        Duration::from_secs(secs)
    }
}

impl Default for SuggestionSettings {
    fn default() -> (s: Self)
        ensures
            s.is_default(),
    {
        SuggestionSettings {
            enabled: true,
            max_suggestions: 5,
            tooltip_timeout_secs: 30,
            accept_modifiers: "Ctrl+Shift".to_owned(),
        }
    }
}

/// Updater settings, kept so that existing files stay readable. Disabled.
#[derive(Clone, Copy, PartialEq, Eq, Structural, Debug)]
pub struct UpdateSettings {
    pub enabled: bool,
    /// Hours between checks.
    pub check_interval_hours: u64,
}

impl UpdateSettings {
    pub open spec fn is_default(self) -> bool {
        !self.enabled && self.check_interval_hours == 24
    }

    /// The check interval, never under one hour.
    pub fn interval(&self) -> (d: Duration)
        requires
            self.check_interval_hours * 3600 <= u64::MAX,
        ensures
            d.nanos == 3_600_000_000_000 * if self.check_interval_hours
                < MIN_UPDATE_INTERVAL_HOURS {
                MIN_UPDATE_INTERVAL_HOURS as int
            } else {
                self.check_interval_hours as int
            },
    {
        let hours: u64 = if self.check_interval_hours < MIN_UPDATE_INTERVAL_HOURS {
            MIN_UPDATE_INTERVAL_HOURS
        } else {
            self.check_interval_hours
        };
        Duration::from_secs(hours * 60 * 60)
    }
}

impl Default for UpdateSettings {
    fn default() -> (s: Self)
        ensures
            s.is_default(),
    {
        UpdateSettings { enabled: false, check_interval_hours: 24 }
    }
}

/// A detector the user configured.
#[derive(Clone, Debug)]
pub struct AiPluginConfig {
    pub kind: String,
    pub id: String,
    pub provider: Option<String>,
    pub model: Option<String>,
    pub api_key_ref: Option<String>,
    pub endpoint: Option<String>,
    pub format: Option<String>,
    pub mode: Option<String>,
    pub model_path: Option<String>,
}

#[derive(Clone, Debug)]
pub struct AiSettings {
    pub enabled: bool,
    /// Network calls stay blocked until this is on as well.
    pub allow_remote: bool,
    pub plugins: Vec<AiPluginConfig>,
}

impl AiSettings {
    pub open spec fn is_default(self) -> bool {
        !self.enabled && !self.allow_remote && self.plugins@.len() == 0
    }
}

impl Default for AiSettings {
    fn default() -> (s: Self)
        ensures
            s.is_default(),
    {
        AiSettings { enabled: false, allow_remote: false, plugins: Vec::new() }
    }
}

/// A wordlist of its own for some applications.
#[derive(Clone, Debug)]
pub struct WordlistProfile {
    pub id: String,
    pub name: String,
    pub apps: Vec<String>,
}

#[derive(Clone, Debug)]
pub struct WordlistSettings {
    pub profiles: Vec<WordlistProfile>,
}

impl Default for WordlistSettings {
    fn default() -> (s: Self)
        ensures
            s.profiles@.len() == 0,
    {
        WordlistSettings { profiles: Vec::new() }
    }
}

/// A new profile claims nothing it was not given: no network, no shell, no
/// clipboard, no application and no word exempted, switching on.
pub proof fn law_defaults_are_private(s: Settings)
    requires
        call_ensures(Settings::default, (), s),
    ensures
        !s.updates.enabled,
        !s.ai.enabled && !s.ai.allow_remote,
        !s.commands_allow_run_shell,
        !s.selection.enabled,
        s.exceptions.disabled_apps@.len() == 0,
        s.engine.ignore_in_password_fields,
        !s.general.paused,
{
}

} // verus!
