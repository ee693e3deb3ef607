//! What each pane of the settings window shows, line by line.
//!
//! Names of keys and of files, the effective hotkeys and the summaries of
//! commands depend on the platform; the host hands them in.

use vstd::prelude::*;
use vstd::string::*;

use crate::commands::UserCommand;
use crate::consts::{
    DEFAULT_PAUSE_TOGGLE, DEFAULT_SWITCH_LAST, MACOS_SAFE_PAUSE_TOGGLE, WAYLAND_SAFE_SWITCH_LAST,
};
use crate::layouts::{contains_id, names, LayoutId};
use crate::settings::{EngineSettings, GeneralSettings, SuggestionSettings, WordlistProfile};
use crate::settings_ui::enums::{
    theme_of, CommandActionKind, HotkeyKind, Pane, ThemeChoice, TrayIconStyle, WordlistKind,
};
use crate::settings_ui::lines::{
    append, bare, buttons, check, chip, chip_views, choices, editor, header, hint, input,
    line_views, mono, plain, removable, said, say, say_with, section, stepper, tip, verbatim,
    warning, Chip, ChipV, Label, LabelV, Line, LineV, Link, UiAction,
};
use crate::settings_ui::state::{SaveBanner, SettingsApp};
use crate::text::{
    ascii_fold, decimal, decimal_text, eq_ignore_ascii_case, is_blank, is_blank_text, split,
    split_on, str_eq, texts,
};

verus! {

broadcast use vstd::string::group_string_axioms;

// ─── Shared pieces ───────────────────────────────────────────────────

/// `s` with spaces in front, so that it is at least `width` wide.
pub open spec fn padded(s: Seq<char>, width: nat) -> Seq<char> {
    if s.len() >= width {
        s
    } else {
        Seq::new((width - s.len()) as nat, |i: int| ' ') + s
    }
}

fn pad_left(s: String, width: usize) -> (t: String)
    ensures
        t@ == padded(s@, width as nat),
{
    let n: usize = s.as_str().unicode_len();
    if n >= width {
        return s;
    }
    let mut t = String::new();
    let mut i: usize = 0;
    while i < width - n
        invariant
            n < width,
            i <= width - n,
            t@ == Seq::new(i as nat, |k: int| ' '),
        decreases width - n - i,
    {
        t.push(' ');
        i += 1;
        assert(t@ =~= Seq::new(i as nat, |k: int| ' '));
    }
    t.append(s.as_str());
    t
}

/// The action where the control is enabled.
pub open spec fn spec_when(enabled: bool, action: UiAction) -> Option<UiAction> {
    if enabled {
        Some(action)
    } else {
        None
    }
}

#[verifier::when_used_as_spec(spec_when)]
pub fn when(enabled: bool, action: UiAction) -> (a: Option<UiAction>)
    ensures
        a == spec_when(enabled, action),
{
    if enabled {
        Some(action)
    } else {
        None
    }
}

/// A banner, where there is one.
pub open spec fn status_lines(banner: Option<SaveBanner>) -> Seq<LineV> {
    match banner {
        Some(b) => seq![LineV::Status { text: b.text@, is_error: b.is_error }],
        None => Seq::empty(),
    }
}

fn status(banner: &Option<SaveBanner>) -> (v: Vec<Line>)
    ensures
        line_views(v@) == status_lines(*banner),
{
    let mut v: Vec<Line> = Vec::new();
    if let Some(b) = banner {
        v.push(Line::Status { text: b.text.clone(), is_error: b.is_error });
    }
    assert(line_views(v@) =~= status_lines(*banner));
    v
}

/// `middle` with its surroundings.
fn fill(before: &str, middle: &str, after: &str) -> (s: String)
    ensures
        s@ == before@ + middle@ + after@,
{
    let mut s = before.to_owned();
    s.append(middle);
    s.append(after);
    s
}

// ─── Languages ───────────────────────────────────────────────────────

/// The head of the Languages pane.
pub open spec fn languages_top_lines(status: LabelV) -> Seq<LineV> {
    seq![
        LineV::Header {
            title: said("languages.languages"@, "Languages"@),
            subtitle: said(
                "languages.subtitle"@,
                "This list mirrors the keyboard layouts enabled in your operating system. To add or remove a language, change your system's keyboard settings, then reopen this window."@,
            ),
        },
        LineV::Hint(status),
    ]
}

fn languages_top(status: Label) -> (v: Vec<Line>)
    ensures
        line_views(v@) == languages_top_lines(status@),
{
    let mut v: Vec<Line> = Vec::new();
    v.push(
        header(
            say("languages.languages", "Languages"),
            say(
                "languages.subtitle",
                "This list mirrors the keyboard layouts enabled in your operating system. To add or remove a language, change your system's keyboard settings, then reopen this window.",
            ),
        ),
    );
    v.push(hint(status));
    assert(line_views(v@) =~~= languages_top_lines(status@));
    v
}

/// What stands in place of the layouts where the OS has none.
pub open spec fn no_layouts_lines() -> Seq<LineV> {
    seq![
        LineV::CardStart,
        LineV::Hint(
            bare(
                "No OS layouts detected. Add languages in your system's keyboard settings, then reopen this window."@,
            ),
        ),
        LineV::CardEnd,
    ]
}

fn no_layouts() -> (v: Vec<Line>)
    ensures
        line_views(v@) == no_layouts_lines(),
{
    let mut v: Vec<Line> = Vec::new();
    v.push(Line::CardStart);
    v.push(
        hint(
            verbatim(
                "No OS layouts detected. Add languages in your system's keyboard settings, then reopen this window.",
            ),
        ),
    );
    v.push(Line::CardEnd);
    assert(line_views(v@) =~~= no_layouts_lines());
    v
}

/// The footnote of the Languages pane.
pub open spec fn languages_tip_lines() -> Seq<LineV> {
    seq![
        LineV::Tip(
            bare(
                "Tip: 'Active' is the allow-list — when nothing is restricted every OS layout is included. 'Ignore' is a hard veto and always wins."@,
            ),
        ),
    ]
}

fn languages_tip() -> (v: Vec<Line>)
    ensures
        line_views(v@) == languages_tip_lines(),
{
    let mut v: Vec<Line> = Vec::new();
    v.push(
        tip(
            verbatim(
                "Tip: 'Active' is the allow-list — when nothing is restricted every OS layout is included. 'Ignore' is a hard veto and always wins.",
            ),
        ),
    );
    assert(line_views(v@) =~~= languages_tip_lines());
    v
}

/// How many layouts are considered.
pub open spec fn languages_status(active: nat) -> LabelV {
    if active == 0 {
        said(
            "languages.status_all"@,
            "All of them are currently considered. Untick 'Active' to restrict PolterType to a subset."@,
        )
    } else {
        LabelV {
            key: "languages.status_restricted"@,
            text: "Restricted to {} layout(s). Tick more to include them, or hit 'Reset to defaults' on the About pane to go back to 'use every OS layout'."@,
            args: seq![decimal(active)],
        }
    }
}

/// The rows of the first `n` layouts. An empty allow-list means that every
/// layout is active, and is shown as that.
pub open spec fn layout_rows_lines(app: SettingsApp, n: nat) -> Seq<LineV>
    decreases n,
{
    if n == 0 {
        Seq::empty()
    } else {
        let id = app.os_layouts@[n - 1]@;
        let active = names(app.settings.languages.active@);
        layout_rows_lines(app, (n - 1) as nat).push(
            LineV::Layout {
                id,
                active_label: said("languages.active"@, "Active"@),
                active: active.len() == 0 || active.contains(id),
                ignored_label: said("languages.ignore"@, "Ignore"@),
                ignored: names(app.settings.languages.ignored@).contains(id),
                row: (n - 1) as usize,
            },
        )
    }
}

/// The Languages pane.
pub open spec fn languages_lines(app: SettingsApp) -> Seq<LineV> {
    languages_top_lines(languages_status(app.settings.languages.active@.len())) + (
    if app.os_layouts@.len() == 0 {
        no_layouts_lines()
    } else {
        seq![LineV::CardStart] + layout_rows_lines(app, app.os_layouts@.len()) + seq![
            LineV::CardEnd,
        ]
    }) + languages_tip_lines()
}

impl SettingsApp {
    pub fn view_languages(&self) -> (v: Vec<Line>)
        ensures
            line_views(v@) == languages_lines(*self),
    {
        let active = self.settings.languages.active.as_slice();
        let ignored = self.settings.languages.ignored.as_slice();
        let note = if active.len() == 0 {
            say(
                "languages.status_all",
                "All of them are currently considered. Untick 'Active' to restrict PolterType to a subset.",
            )
        } else {
            let mut args: Vec<String> = Vec::new();
            args.push(decimal_text(active.len() as u64));
            assert(texts(args@) =~= seq![decimal(active@.len())]);
            say_with(
                "languages.status_restricted",
                "Restricted to {} layout(s). Tick more to include them, or hit 'Reset to defaults' on the About pane to go back to 'use every OS layout'.",
                args,
            )
        };
        let mut v = languages_top(note);
        if self.os_layouts.len() == 0 {
            append(&mut v, no_layouts());
        } else {
            let ghost head = line_views(v@) + seq![LineV::CardStart];
            v.push(Line::CardStart);
            assert(line_views(v@) =~= head + layout_rows_lines(*self, 0));
            let mut i: usize = 0;
            while i < self.os_layouts.len()
                invariant
                    i <= self.os_layouts.len(),
                    active@ == self.settings.languages.active@,
                    ignored@ == self.settings.languages.ignored@,
                    line_views(v@) == head + layout_rows_lines(*self, i as nat),
                decreases self.os_layouts.len() - i,
            {
                let id = &self.os_layouts[i];
                let ghost before = line_views(v@);
                let l = Line::Layout {
                    id: id.name.clone(),
                    active_label: say("languages.active", "Active"),
                    active: active.len() == 0 || contains_id(active, id),
                    ignored_label: say("languages.ignore", "Ignore"),
                    ignored: contains_id(ignored, id),
                    row: i,
                };
                let ghost lv = l@;
                v.push(l);
                i += 1;
                assert(line_views(v@) =~= before.push(lv));
                assert(line_views(v@) =~= head + layout_rows_lines(*self, i as nat));
            }
            let ghost before = line_views(v@);
            v.push(Line::CardEnd);
            assert(line_views(v@) =~= before.push(LineV::CardEnd));
        }
        append(&mut v, languages_tip());
        assert(line_views(v@) =~= languages_lines(*self));
        v
    }
}

// ─── Hotkeys ─────────────────────────────────────────────────────────

/// The head of the Hotkeys pane.
pub open spec fn hotkeys_top_lines() -> Seq<LineV> {
    seq![
        LineV::Header {
            title: said("hotkeys.hotkeys"@, "Hotkeys"@),
            subtitle: bare(
                "Hotkeys are global — they fire whatever window has focus. Click 'Rebind', press the new combination, then save. The new binding is in force as soon as this window closes."@,
            ),
        },
        LineV::CardStart,
    ]
}

fn hotkeys_top() -> (v: Vec<Line>)
    ensures
        line_views(v@) == hotkeys_top_lines(),
{
    let mut v: Vec<Line> = Vec::new();
    v.push(
        header(
            say("hotkeys.hotkeys", "Hotkeys"),
            verbatim(
                "Hotkeys are global — they fire whatever window has focus. Click 'Rebind', press the new combination, then save. The new binding is in force as soon as this window closes.",
            ),
        ),
    );
    v.push(Line::CardStart);
    assert(line_views(v@) =~~= hotkeys_top_lines());
    v
}

/// Why the chord in force is not the configured one.
#[derive(Clone, Copy, PartialEq, Eq, Structural, Debug)]
pub enum Substitution {
    /// The default reaches the focused application as well, and deletes
    /// the word there.
    DefaultIsDestructiveHere,
    /// The system uses the default itself.
    SystemOwnsDefault,
}

/// The chord in force for a hotkey.
pub struct EffectiveHotkey {
    pub chord: String,
    pub substitution: Option<Substitution>,
}

/// What the platform says about hotkeys.
pub struct HotkeyEnvironment {
    pub pause: EffectiveHotkey,
    pub switch_last: EffectiveHotkey,
    /// The name of the modifier whose second tap is awaited.
    pub tap_name: String,
    /// The modifiers a combination may have.
    pub modifier_names: String,
    /// Two modifiers held together.
    pub pair_name: String,
    /// One modifier tapped twice.
    pub double_name: String,
}

/// What is said of a substituted chord, with both chords named.
pub open spec fn substitution_text(s: Substitution) -> LabelV {
    match s {
        Substitution::DefaultIsDestructiveHere => LabelV {
            key: "hotkeys.substituted_observed_not_consumed"@,
            text: "This session reads hotkeys off the key stream, so {} would reach the app you are typing in as well — where it deletes the very word being fixed. {} is used here instead. Rebind to choose your own."@,
            args: seq![DEFAULT_SWITCH_LAST@, WAYLAND_SAFE_SWITCH_LAST@],
        },
        Substitution::SystemOwnsDefault => LabelV {
            key: "hotkeys.substituted_system_owns"@,
            text: "This system already uses {} to switch input sources, so {} is used here instead. Rebind to choose your own."@,
            args: seq![DEFAULT_PAUSE_TOGGLE@, MACOS_SAFE_PAUSE_TOGGLE@],
        },
    }
}

fn two(a: &str, b: &str) -> (v: Vec<String>)
    ensures
        texts(v@) == seq![a@, b@],
{
    let mut v: Vec<String> = Vec::new();
    v.push(a.to_owned());
    v.push(b.to_owned());
    assert(texts(v@) =~= seq![a@, b@]);
    v
}

pub fn substitution_note(s: Substitution) -> (l: Label)
    ensures
        l@ == substitution_text(s),
{
    match s {
        Substitution::DefaultIsDestructiveHere => say_with(
            "hotkeys.substituted_observed_not_consumed",
            "This session reads hotkeys off the key stream, so {} would reach the app you are typing in as well — where it deletes the very word being fixed. {} is used here instead. Rebind to choose your own.",
            two(DEFAULT_SWITCH_LAST, WAYLAND_SAFE_SWITCH_LAST),
        ),
        Substitution::SystemOwnsDefault => say_with(
            "hotkeys.substituted_system_owns",
            "This system already uses {} to switch input sources, so {} is used here instead. Rebind to choose your own.",
            two(DEFAULT_PAUSE_TOGGLE, MACOS_SAFE_PAUSE_TOGGLE),
        ),
    }
}

/// The note under a hotkey: why it was substituted, or what a bare Caps
/// Lock does.
pub open spec fn hotkey_note(e: EffectiveHotkey) -> Option<LabelV> {
    match e.substitution {
        Some(s) => Some(substitution_text(s)),
        None => if ascii_fold(e.chord@) == ascii_fold("capslock"@) {
            Some(
                said(
                    "hotkeys.caps_lock_still_locks"@,
                    "PolterType watches this key, it never swallows it, so Caps Lock still latches — and a latched lock makes the corrected word come back in capitals. Take the lock off the key first: the `caps:none` keyboard option, or whatever your remapper calls it."@,
                ),
            )
        } else {
            None
        },
    }
}

/// One hotkey: the chord as keys, or the prompt while it is being rebound,
/// with the button that starts or cancels that.
pub open spec fn hotkey_row_lines(
    app: SettingsApp,
    label: Seq<char>,
    e: EffectiveHotkey,
    kind: HotkeyKind,
    tap_name: Seq<char>,
) -> Seq<LineV> {
    let capturing = app.capturing == Some(kind);
    let row = LineV::Hotkey {
        label: bare(label),
        prompt: if capturing {
            Some(
                if app.mod_capture.pending_tap is Some {
                    bare("Tap "@ + tap_name + " again to bind it…"@)
                } else {
                    said(
                        "hotkeys.press_combination_esc_cancel"@,
                        "Press a combination… (Esc to cancel)"@,
                    )
                },
            )
        } else {
            None
        },
        keys: if capturing {
            Seq::empty()
        } else {
            split(e.chord@, '+')
        },
        joiner: said("footer.text"@, "+"@),
        button: if capturing {
            ChipV {
                label: said("hotkeys.cancel"@, "Cancel"@),
                selected: false,
                action: UiAction::RebindCancel,
            }
        } else {
            ChipV {
                label: said("hotkeys.rebind"@, "Rebind"@),
                selected: false,
                action: UiAction::RebindStart(kind),
            }
        },
    };
    match hotkey_note(e) {
        Some(n) => seq![row, LineV::Tip(n)],
        None => seq![row],
    }
}

/// Converting selections: off and disabled where this session cannot.
pub open spec fn selection_lines(app: SettingsApp) -> Seq<LineV> {
    let available = app.selection_support is Ok;
    seq![
        LineV::Check {
            label: bare("Also convert selected text"@),
            on: app.settings.selection.enabled && available,
            action: spec_when(available, UiAction::SelectionEnabled),
        },
        LineV::Tip(
            bare(
                match app.selection_support {
                    Ok(_) =>
                        "With this on, the force-switch key converts whatever you have selected when there is no just-typed word to fix. It copies the selection to read it, then puts your clipboard back."@,
                    Err(why) => "Not available here — "@ + why@ + "."@,
                },
            ),
        ),
    ]
}

/// The footnote of the Hotkeys pane.
pub open spec fn hotkeys_tip(env: HotkeyEnvironment) -> Seq<char> {
    "Tip: a combination needs at least one of "@ + env.modifier_names@
        + " — a bare key would clash with typing, and Caps Lock is the one exception. Modifiers on their own count too: hold two together ("@
        + env.pair_name@ + "), or tap one twice ("@ + env.double_name@
        + "). Those fire when the keys come back up, and only if nothing else was pressed in between, so they leave the shortcuts they are part of alone. Esc cancels capture without changing anything."@
}

/// The Hotkeys pane.
pub open spec fn hotkeys_lines(app: SettingsApp, env: HotkeyEnvironment) -> Seq<LineV> {
    hotkeys_top_lines() + hotkey_row_lines(
        app,
        "Pause / resume auto-switch"@,
        env.pause,
        HotkeyKind::Pause,
        env.tap_name@,
    ) + hotkey_row_lines(
        app,
        "Force-switch the last word"@,
        env.switch_last,
        HotkeyKind::SwitchLast,
        env.tap_name@,
    ) + selection_lines(app) + seq![LineV::CardEnd, LineV::Tip(bare(hotkeys_tip(env)))]
}

impl SettingsApp {
    fn hotkey_row(&self, label: &str, e: &EffectiveHotkey, kind: HotkeyKind, tap_name: &str) -> (v:
        Vec<Line>)
        ensures
            line_views(v@) == hotkey_row_lines(*self, label@, *e, kind, tap_name@),
    {
        let capturing = match self.capturing {
            Some(k) => k == kind,
            None => false,
        };
        let prompt = if capturing {
            if self.mod_capture.pending_tap.is_some() {
                let text = fill("Tap ", tap_name, " again to bind it…");
                Some(verbatim(text.as_str()))
            } else {
                Some(
                    say(
                        "hotkeys.press_combination_esc_cancel",
                        "Press a combination… (Esc to cancel)",
                    ),
                )
            }
        } else {
            None
        };
        let keys = if capturing {
            Vec::new()
        } else {
            split_on(e.chord.as_str(), '+')
        };
        assert(capturing ==> texts(keys@) =~= Seq::empty());
        let button = if capturing {
            chip(say("hotkeys.cancel", "Cancel"), false, UiAction::RebindCancel)
        } else {
            chip(say("hotkeys.rebind", "Rebind"), false, UiAction::RebindStart(kind))
        };
        let mut v: Vec<Line> = Vec::new();
        v.push(
            Line::Hotkey {
                label: verbatim(label),
                prompt,
                keys,
                joiner: say("footer.text", "+"),
                button,
            },
        );
        match e.substitution {
            Some(s) => {
                v.push(tip(substitution_note(s)));
            },
            None => {
                if eq_ignore_ascii_case(e.chord.as_str(), "capslock") {
                    v.push(
                        tip(
                            say(
                                "hotkeys.caps_lock_still_locks",
                                "PolterType watches this key, it never swallows it, so Caps Lock still latches — and a latched lock makes the corrected word come back in capitals. Take the lock off the key first: the `caps:none` keyboard option, or whatever your remapper calls it.",
                            ),
                        ),
                    );
                }
            },
        }
        assert(line_views(v@) =~= hotkey_row_lines(*self, label@, *e, kind, tap_name@));
        v
    }

    /// The selection-conversion toggle, disabled rather than hidden where
    /// the session cannot do it.
    fn selection_row(&self) -> (v: Vec<Line>)
        ensures
            line_views(v@) == selection_lines(*self),
    {
        let available = self.selection_support.is_ok();
        let note = match &self.selection_support {
            Ok(_) =>
                "With this on, the force-switch key converts whatever you have selected when there is no just-typed word to fix. It copies the selection to read it, then puts your clipboard back.".to_owned(),
            Err(why) => fill("Not available here — ", why.as_str(), "."),
        };
        let mut v: Vec<Line> = Vec::new();
        v.push(
            check(
                verbatim("Also convert selected text"),
                self.settings.selection.enabled && available,
                when(available, UiAction::SelectionEnabled),
            ),
        );
        v.push(tip(verbatim(note.as_str())));
        assert(line_views(v@) =~= selection_lines(*self));
        v
    }

    pub fn view_hotkeys(&self, env: &HotkeyEnvironment) -> (v: Vec<Line>)
        ensures
            line_views(v@) == hotkeys_lines(*self, *env),
    {
        let mut v = hotkeys_top();
        append(
            &mut v,
            self.hotkey_row(
                "Pause / resume auto-switch",
                &env.pause,
                HotkeyKind::Pause,
                env.tap_name.as_str(),
            ),
        );
        append(
            &mut v,
            self.hotkey_row(
                "Force-switch the last word",
                &env.switch_last,
                HotkeyKind::SwitchLast,
                env.tap_name.as_str(),
            ),
        );
        append(&mut v, self.selection_row());
        let mut note = "Tip: a combination needs at least one of ".to_owned();
        note.append(env.modifier_names.as_str());
        note.append(
            " — a bare key would clash with typing, and Caps Lock is the one exception. Modifiers on their own count too: hold two together (",
        );
        note.append(env.pair_name.as_str());
        note.append("), or tap one twice (");
        note.append(env.double_name.as_str());
        note.append(
            "). Those fire when the keys come back up, and only if nothing else was pressed in between, so they leave the shortcuts they are part of alone. Esc cancels capture without changing anything.",
        );
        let ghost before = line_views(v@);
        v.push(Line::CardEnd);
        v.push(tip(verbatim(note.as_str())));
        assert(line_views(v@) =~= before + seq![LineV::CardEnd, LineV::Tip(bare(hotkeys_tip(*env)))]);
        v
    }
}

// ─── Commands ────────────────────────────────────────────────────────

/// The head of the Commands pane.
pub open spec fn commands_top_lines() -> Seq<LineV> {
    seq![
        LineV::Header {
            title: said("commands.commands"@, "Commands"@),
            subtitle: bare(
                "Type a short token, get a phrase — like classic snippet expanders. For example: typing the trigger `anrl` + space expands into `Anatomical Reference List `. The engine watches every word boundary and fires when the typed token matches. Pause / switch-last live separately on the Hotkeys pane. New commands take effect after Save + restart."@,
            ),
        },
        LineV::CardStart,
    ]
}

fn commands_top() -> (v: Vec<Line>)
    ensures
        line_views(v@) == commands_top_lines(),
{
    let mut v: Vec<Line> = Vec::new();
    v.push(
        header(
            say("commands.commands", "Commands"),
            verbatim(
                "Type a short token, get a phrase — like classic snippet expanders. For example: typing the trigger `anrl` + space expands into `Anatomical Reference List `. The engine watches every word boundary and fires when the typed token matches. Pause / switch-last live separately on the Hotkeys pane. New commands take effect after Save + restart.",
            ),
        ),
    );
    v.push(Line::CardStart);
    assert(line_views(v@) =~~= commands_top_lines());
    v
}

/// What stands in place of the commands where there are none.
pub open spec fn no_commands_lines() -> Seq<LineV> {
    seq![
        LineV::Hint(
            said(
                "commands.no_commands_yet_fill"@,
                "No commands yet — fill the form below to add one."@,
            ),
        ),
    ]
}

fn no_commands() -> (v: Vec<Line>)
    ensures
        line_views(v@) == no_commands_lines(),
{
    let mut v: Vec<Line> = Vec::new();
    v.push(
        hint(
            say(
                "commands.no_commands_yet_fill",
                "No commands yet — fill the form below to add one.",
            ),
        ),
    );
    assert(line_views(v@) =~~= no_commands_lines());
    v
}

/// The form for a new command.
pub open spec fn command_form_lines(name: Seq<char>, trigger: Seq<char>, kind: CommandActionKind, param: Seq<char>, apps: Seq<char>) -> Seq<LineV> {
    seq![
        LineV::CardEnd,
        LineV::CardStart,
        LineV::Section(said("commands.add_new_command"@, "Add a new command"@)),
        LineV::Input {
            caption: bare("Name"@),
            placeholder: bare("e.g. Insert email signature"@),
            value: name,
            action: Some(UiAction::CommandName),
            submit: None,
        },
        LineV::Input {
            caption: bare("Trigger"@),
            placeholder: bare("e.g. anrl, ;sig, ((en))"@),
            value: trigger,
            action: Some(UiAction::CommandTrigger),
            submit: None,
        },
        LineV::Chips {
            caption: bare("Action"@),
            chips: seq![
                ChipV {
                    label: bare(CommandActionKind::TypeText.label_text()),
                    selected: kind == CommandActionKind::TypeText,
                    action: UiAction::CommandKind(CommandActionKind::TypeText),
                },
                ChipV {
                    label: bare(CommandActionKind::SwitchLayout.label_text()),
                    selected: kind == CommandActionKind::SwitchLayout,
                    action: UiAction::CommandKind(CommandActionKind::SwitchLayout),
                },
                ChipV {
                    label: bare(CommandActionKind::OpenPath.label_text()),
                    selected: kind == CommandActionKind::OpenPath,
                    action: UiAction::CommandKind(CommandActionKind::OpenPath),
                },
            ],
        },
        LineV::Input {
            caption: bare(param_caption(kind)),
            placeholder: bare(kind.placeholder_text()),
            value: param,
            action: Some(UiAction::CommandParam),
            submit: None,
        },
        LineV::Input {
            caption: bare("Apps (optional)"@),
            placeholder: bare("comma-separated, e.g. Code.exe,idea64.exe"@),
            value: apps,
            action: Some(UiAction::CommandApps),
            submit: Some(UiAction::CommandAdd),
        },
    ]
}

fn command_form(name: &str, trigger: &str, kind: CommandActionKind, param: &str, apps: &str) -> (v: Vec<Line>)
    ensures
        line_views(v@) == command_form_lines(name@, trigger@, kind, param@, apps@),
{
    let mut v: Vec<Line> = Vec::new();
    v.push(Line::CardEnd);
    v.push(Line::CardStart);
    v.push(section(say("commands.add_new_command", "Add a new command")));
    v.push(
        input(
            verbatim("Name"),
            verbatim("e.g. Insert email signature"),
            name,
            Some(UiAction::CommandName),
            None,
        ),
    );
    v.push(
        input(
            verbatim("Trigger"),
            verbatim("e.g. anrl, ;sig, ((en))"),
            trigger,
            Some(UiAction::CommandTrigger),
            None,
        ),
    );
    let mut chips5: Vec<Chip> = Vec::new();
    chips5.push(
        chip(
            verbatim(CommandActionKind::TypeText.label()),
            kind == CommandActionKind::TypeText,
            UiAction::CommandKind(CommandActionKind::TypeText),
        ),
    );
    chips5.push(
        chip(
            verbatim(CommandActionKind::SwitchLayout.label()),
            kind == CommandActionKind::SwitchLayout,
            UiAction::CommandKind(CommandActionKind::SwitchLayout),
        ),
    );
    chips5.push(
        chip(
            verbatim(CommandActionKind::OpenPath.label()),
            kind == CommandActionKind::OpenPath,
            UiAction::CommandKind(CommandActionKind::OpenPath),
        ),
    );
    v.push(choices(verbatim("Action"), chips5));
    v.push(
        input(
            verbatim(param_label(kind)),
            verbatim(kind.placeholder()),
            param,
            Some(UiAction::CommandParam),
            None,
        ),
    );
    v.push(
        input(
            verbatim("Apps (optional)"),
            verbatim("comma-separated, e.g. Code.exe,idea64.exe"),
            apps,
            Some(UiAction::CommandApps),
            Some(UiAction::CommandAdd),
        ),
    );
    assert(line_views(v@) =~~= command_form_lines(name@, trigger@, kind, param@, apps@));
    v
}

/// The end of the Commands pane.
pub open spec fn commands_end_lines() -> Seq<LineV> {
    seq![
        LineV::Buttons(
            seq![
                ChipV {
                    label: said("commands.add_command"@, "Add command"@),
                    selected: false,
                    action: UiAction::CommandAdd,
                },
            ],
        ),
        LineV::CardEnd,
        LineV::Tip(
            bare(
                "Tips: pick triggers that don't collide with words you actually type — `the` would expand on every English sentence; `;sig` or `((email))` are safer. Match is exact and case-sensitive. Leave 'Apps' empty for a global command, or list `OUTLOOK.EXE,thunderbird.exe` to scope a command (case-insensitive basename match)."@,
            ),
        ),
    ]
}

fn commands_end() -> (v: Vec<Line>)
    ensures
        line_views(v@) == commands_end_lines(),
{
    let mut v: Vec<Line> = Vec::new();
    let mut chips0: Vec<Chip> = Vec::new();
    chips0.push(chip(say("commands.add_command", "Add command"), false, UiAction::CommandAdd));
    v.push(buttons(chips0));
    v.push(Line::CardEnd);
    v.push(
        tip(
            verbatim(
                "Tips: pick triggers that don't collide with words you actually type — `the` would expand on every English sentence; `;sig` or `((email))` are safer. Match is exact and case-sensitive. Leave 'Apps' empty for a global command, or list `OUTLOOK.EXE,thunderbird.exe` to scope a command (case-insensitive basename match).",
            ),
        ),
    );
    assert(line_views(v@) =~~= commands_end_lines());
    v
}

/// What the parameter of an action is called.
pub open spec fn param_caption(kind: CommandActionKind) -> Seq<char> {
    match kind {
        CommandActionKind::TypeText => "Text"@,
        CommandActionKind::SwitchLayout => "Layout id"@,
        CommandActionKind::OpenPath => "Path / URL"@,
    }
}

fn param_label(kind: CommandActionKind) -> (s: &'static str)
    ensures
        s@ == param_caption(kind),
{
    match kind {
        CommandActionKind::TypeText => "Text",
        CommandActionKind::SwitchLayout => "Layout id",
        CommandActionKind::OpenPath => "Path / URL",
    }
}

/// The rows of the first `n` commands: the trigger, the summary, and the
/// button that removes it.
pub open spec fn command_rows_lines(
    commands: Seq<UserCommand>,
    summaries: Seq<String>,
    n: nat,
) -> Seq<LineV>
    decreases n,
{
    if n == 0 {
        Seq::empty()
    } else {
        command_rows_lines(commands, summaries, (n - 1) as nat).push(
            LineV::Removable {
                key: commands[n - 1].trigger@,
                text: summaries[n - 1]@,
                remove: UiAction::CommandRemove((n - 1) as usize),
            },
        )
    }
}

/// The Commands pane.
pub open spec fn commands_lines(app: SettingsApp, summaries: Seq<String>) -> Seq<LineV> {
    let commands = app.settings.commands@;
    commands_top_lines() + (if commands.len() == 0 {
        no_commands_lines()
    } else {
        command_rows_lines(commands, summaries, commands.len())
    }) + command_form_lines(
        app.command_draft_name@,
        app.command_draft_trigger@,
        app.command_draft_action_kind,
        app.command_draft_param@,
        app.command_draft_apps@,
    ) + status_lines(app.command_status) + commands_end_lines()
}

impl SettingsApp {
    /// `summaries` holds what each command does, in words.
    pub fn view_commands(&self, summaries: &Vec<String>) -> (v: Vec<Line>)
        requires
            summaries@.len() == self.settings.commands@.len(),
        ensures
            line_views(v@) == commands_lines(*self, summaries@),
    {
        let commands = &self.settings.commands;
        let mut v = commands_top();
        if commands.len() == 0 {
            append(&mut v, no_commands());
        } else {
            let mut rows: Vec<Line> = Vec::new();
            let mut i: usize = 0;
            assert(line_views(rows@) =~= command_rows_lines(commands@, summaries@, 0));
            while i < commands.len()
                invariant
                    i <= commands.len() == summaries.len(),
                    line_views(rows@) == command_rows_lines(commands@, summaries@, i as nat),
                decreases commands.len() - i,
            {
                let ghost before = line_views(rows@);
                let l = removable(
                    commands[i].trigger.as_str(),
                    summaries[i].as_str(),
                    UiAction::CommandRemove(i),
                );
                let ghost lv = l@;
                rows.push(l);
                i += 1;
                assert(line_views(rows@) =~= before.push(lv));
            }
            append(&mut v, rows);
        }
        append(
            &mut v,
            command_form(
                self.command_draft_name.as_str(),
                self.command_draft_trigger.as_str(),
                self.command_draft_action_kind,
                self.command_draft_param.as_str(),
                self.command_draft_apps.as_str(),
            ),
        );
        append(&mut v, status(&self.command_status));
        append(&mut v, commands_end());
        v
    }
}

// ─── Wordlists ───────────────────────────────────────────────────────

/// The head of the Wordlists pane.
pub open spec fn wordlists_top_lines() -> Seq<LineV> {
    seq![
        LineV::Header {
            title: said("wordlists.wordlists"@, "Wordlists"@),
            subtitle: bare(
                "Add language-specific words to the per-layout dictionary overlay. Use the Save button below to persist your edits, or just close the window — either way, the engine's dictionary set refreshes so new words start counting toward detection on the next typed word, no tray restart needed."@,
            ),
        },
    ]
}

fn wordlists_top() -> (v: Vec<Line>)
    ensures
        line_views(v@) == wordlists_top_lines(),
{
    let mut v: Vec<Line> = Vec::new();
    v.push(
        header(
            say("wordlists.wordlists", "Wordlists"),
            verbatim(
                "Add language-specific words to the per-layout dictionary overlay. Use the Save button below to persist your edits, or just close the window — either way, the engine's dictionary set refreshes so new words start counting toward detection on the next typed word, no tray restart needed.",
            ),
        ),
    );
    assert(line_views(v@) =~~= wordlists_top_lines());
    v
}

/// The picker of the list to edit.
pub open spec fn kind_picker_lines(kind: WordlistKind) -> Seq<LineV> {
    seq![
        LineV::Chips {
            caption: bare("List"@),
            chips: seq![
                ChipV {
                    label: bare(WordlistKind::Extras.label_text()),
                    selected: kind == WordlistKind::Extras,
                    action: UiAction::WordlistKind(WordlistKind::Extras),
                },
                ChipV {
                    label: bare(WordlistKind::Stop.label_text()),
                    selected: kind == WordlistKind::Stop,
                    action: UiAction::WordlistKind(WordlistKind::Stop),
                },
            ],
        },
    ]
}

fn kind_picker(kind: WordlistKind) -> (v: Vec<Line>)
    ensures
        line_views(v@) == kind_picker_lines(kind),
{
    let mut v: Vec<Line> = Vec::new();
    let mut chips0: Vec<Chip> = Vec::new();
    chips0.push(
        chip(
            verbatim(WordlistKind::Extras.label()),
            kind == WordlistKind::Extras,
            UiAction::WordlistKind(WordlistKind::Extras),
        ),
    );
    chips0.push(
        chip(
            verbatim(WordlistKind::Stop.label()),
            kind == WordlistKind::Stop,
            UiAction::WordlistKind(WordlistKind::Stop),
        ),
    );
    v.push(choices(verbatim("List"), chips0));
    assert(line_views(v@) =~~= kind_picker_lines(kind));
    v
}

/// Which file is being edited.
pub open spec fn file_hint_lines(text: Seq<char>) -> Seq<LineV> {
    seq![
        LineV::Mono(bare(text)),
    ]
}

fn file_hint(text: &str) -> (v: Vec<Line>)
    ensures
        line_views(v@) == file_hint_lines(text@),
{
    let mut v: Vec<Line> = Vec::new();
    v.push(mono(verbatim(text)));
    assert(line_views(v@) =~~= file_hint_lines(text@));
    v
}

/// The editor.
pub open spec fn word_editor_lines() -> Seq<LineV> {
    seq![
        LineV::Editor { placeholder: bare("# one word per line — '#' starts a comment\n"@) },
    ]
}

fn word_editor() -> (v: Vec<Line>)
    ensures
        line_views(v@) == word_editor_lines(),
{
    let mut v: Vec<Line> = Vec::new();
    v.push(editor(verbatim("# one word per line — '#' starts a comment\n")));
    assert(line_views(v@) =~~= word_editor_lines());
    v
}

/// What stands in place of the editor before a layout is picked.
pub open spec fn no_editor_lines() -> Seq<LineV> {
    seq![
        LineV::Hint(
            said("wordlists.pick_layout_above_start"@, "Pick a layout above to start editing."@),
        ),
    ]
}

fn no_editor() -> (v: Vec<Line>)
    ensures
        line_views(v@) == no_editor_lines(),
{
    let mut v: Vec<Line> = Vec::new();
    v.push(hint(say("wordlists.pick_layout_above_start", "Pick a layout above to start editing.")));
    assert(line_views(v@) =~~= no_editor_lines());
    v
}

/// The mark of unsaved edits.
pub open spec fn unsaved_lines() -> Seq<LineV> {
    seq![
        LineV::Warning(said("wordlists.unsaved_changes"@, "unsaved changes"@)),
    ]
}

fn unsaved() -> (v: Vec<Line>)
    ensures
        line_views(v@) == unsaved_lines(),
{
    let mut v: Vec<Line> = Vec::new();
    v.push(warning(say("wordlists.unsaved_changes", "unsaved changes")));
    assert(line_views(v@) =~~= unsaved_lines());
    v
}

/// The footnote of the Wordlists pane.
pub open spec fn wordlists_tip_lines() -> Seq<LineV> {
    seq![
        LineV::Tip(
            bare(
                "Tip: Extras helps detection prefer your jargon, project nouns or family names. Stop list extends the 1- / 2-letter entries the detector accepts as real words instead of typos."@,
            ),
        ),
    ]
}

fn wordlists_tip() -> (v: Vec<Line>)
    ensures
        line_views(v@) == wordlists_tip_lines(),
{
    let mut v: Vec<Line> = Vec::new();
    v.push(
        tip(
            verbatim(
                "Tip: Extras helps detection prefer your jargon, project nouns or family names. Stop list extends the 1- / 2-letter entries the detector accepts as real words instead of typos.",
            ),
        ),
    );
    assert(line_views(v@) =~~= wordlists_tip_lines());
    v
}

/// The chips of the first `n` profiles, each under its name, or its id
/// where it has none.
pub open spec fn profile_chips(profiles: Seq<WordlistProfile>, chosen: Seq<char>, n: nat) -> Seq<ChipV>
    decreases n,
{
    if n == 0 {
        seq![
            ChipV {
                label: bare("Global"@),
                selected: chosen.len() == 0,
                action: UiAction::WordlistProfile(None),
            },
        ]
    } else {
        let p = profiles[n - 1];
        profile_chips(profiles, chosen, (n - 1) as nat).push(
            ChipV {
                label: bare(
                    if p.name@.len() == 0 {
                        p.id@
                    } else {
                        p.name@
                    },
                ),
                selected: chosen == p.id@,
                action: UiAction::WordlistProfile(Some((n - 1) as usize)),
            },
        )
    }
}

/// The chips of the first `n` layouts.
pub open spec fn layout_chips(ids: Seq<LayoutId>, chosen: Option<LayoutId>, n: nat) -> Seq<ChipV>
    decreases n,
{
    if n == 0 {
        Seq::empty()
    } else {
        layout_chips(ids, chosen, (n - 1) as nat).push(
            ChipV {
                label: bare(ids[n - 1]@),
                selected: chosen matches Some(c) && c@ == ids[n - 1]@,
                action: UiAction::WordlistLayout((n - 1) as usize),
            },
        )
    }
}

/// Which file is being edited; `path` is where that is, if anywhere.
pub open spec fn file_text(path: Option<String>) -> Seq<char> {
    "File: "@ + match path {
        Some(p) => p@,
        None => "(no config dir resolved on this platform)"@,
    }
}

/// The Wordlists pane.
pub open spec fn wordlists_lines(app: SettingsApp, path: Option<String>) -> Seq<LineV> {
    let profiles = app.settings.wordlists.profiles@;
    if app.os_layouts@.len() == 0 {
        wordlists_top_lines() + no_layouts_lines()
    } else {
        wordlists_top_lines() + (if profiles.len() == 0 {
            Seq::empty()
        } else {
            seq![
                LineV::Chips {
                    caption: bare("Profile"@),
                    chips: profile_chips(profiles, app.wordlist_profile@, profiles.len()),
                },
            ]
        }) + seq![
            LineV::Chips {
                caption: bare("Layout"@),
                chips: layout_chips(
                    app.os_layouts@,
                    app.wordlist_layout,
                    app.os_layouts@.len(),
                ),
            },
        ] + kind_picker_lines(app.wordlist_kind) + (if app.wordlist_layout is Some {
            file_hint_lines(file_text(path)) + word_editor_lines()
        } else {
            no_editor_lines()
        }) + (if app.wordlist_dirty {
            unsaved_lines()
        } else {
            Seq::empty()
        }) + status_lines(app.wordlist_status) + wordlists_tip_lines()
    }
}

impl SettingsApp {
    fn profile_picker(&self) -> (chips: Vec<Chip>)
        ensures
            chip_views(chips@) == profile_chips(
                self.settings.wordlists.profiles@,
                self.wordlist_profile@,
                self.settings.wordlists.profiles@.len(),
            ),
    {
        let profiles = &self.settings.wordlists.profiles;
        let mut chips: Vec<Chip> = Vec::new();
        chips.push(
            chip(
                verbatim("Global"),
                self.wordlist_profile.as_str().is_empty(),
                UiAction::WordlistProfile(None),
            ),
        );
        let mut i: usize = 0;
        assert(chip_views(chips@) =~= profile_chips(profiles@, self.wordlist_profile@, 0));
        while i < profiles.len()
            invariant
                i <= profiles.len(),
                chip_views(chips@) == profile_chips(
                    profiles@,
                    self.wordlist_profile@,
                    i as nat,
                ),
            decreases profiles.len() - i,
        {
            let ghost before = chip_views(chips@);
            let p = &profiles[i];
            let label = if p.name.as_str().is_empty() {
                p.id.as_str()
            } else {
                p.name.as_str()
            };
            let c = chip(
                verbatim(label),
                str_eq(self.wordlist_profile.as_str(), p.id.as_str()),
                UiAction::WordlistProfile(Some(i)),
            );
            let ghost cv = c@;
            chips.push(c);
            i += 1;
            assert(chip_views(chips@) =~= before.push(cv));
        }
        chips
    }

    fn layout_picker(&self) -> (chips: Vec<Chip>)
        ensures
            chip_views(chips@) == layout_chips(
                self.os_layouts@,
                self.wordlist_layout,
                self.os_layouts@.len(),
            ),
    {
        let mut chips: Vec<Chip> = Vec::new();
        let mut i: usize = 0;
        assert(chip_views(chips@) =~= layout_chips(self.os_layouts@, self.wordlist_layout, 0));
        while i < self.os_layouts.len()
            invariant
                i <= self.os_layouts.len(),
                chip_views(chips@) == layout_chips(
                    self.os_layouts@,
                    self.wordlist_layout,
                    i as nat,
                ),
            decreases self.os_layouts.len() - i,
        {
            let ghost before = chip_views(chips@);
            let selected = match &self.wordlist_layout {
                Some(c) => c.same(&self.os_layouts[i]),
                None => false,
            };
            let c = chip(
                verbatim(self.os_layouts[i].as_str()),
                selected,
                UiAction::WordlistLayout(i),
            );
            let ghost cv = c@;
            chips.push(c);
            i += 1;
            assert(chip_views(chips@) =~= before.push(cv));
        }
        chips
    }

    /// `path` is where the list being edited lives, where that can be told.
    pub fn view_wordlists(&self, path: &Option<String>) -> (v: Vec<Line>)
        ensures
            line_views(v@) == wordlists_lines(*self, *path),
    {
        let mut v = wordlists_top();
        if self.os_layouts.len() == 0 {
            append(&mut v, no_layouts());
            return v;
        }
        let ghost top = line_views(v@);
        if self.settings.wordlists.profiles.len() > 0 {
            v.push(choices(verbatim("Profile"), self.profile_picker()));
            assert(line_views(v@) =~= top + seq![
                LineV::Chips {
                    caption: bare("Profile"@),
                    chips: profile_chips(
                        self.settings.wordlists.profiles@,
                        self.wordlist_profile@,
                        self.settings.wordlists.profiles@.len(),
                    ),
                },
            ]);
        } else {
            assert(top + Seq::empty() =~= top);
        }
        let ghost head = line_views(v@);
        v.push(choices(verbatim("Layout"), self.layout_picker()));
        assert(line_views(v@) =~= head + seq![
            LineV::Chips {
                caption: bare("Layout"@),
                chips: layout_chips(
                    self.os_layouts@,
                    self.wordlist_layout,
                    self.os_layouts@.len(),
                ),
            },
        ]);
        append(&mut v, kind_picker(self.wordlist_kind));
        let ghost picked = line_views(v@);
        if self.wordlist_layout.is_some() {
            let mut text = "File: ".to_owned();
            match path {
                Some(p) => {
                    text.append(p.as_str());
                },
                None => {
                    text.append("(no config dir resolved on this platform)");
                },
            }
            append(&mut v, file_hint(text.as_str()));
            append(&mut v, word_editor());
            assert(line_views(v@) =~= picked + (file_hint_lines(file_text(*path))
                + word_editor_lines()));
        } else {
            append(&mut v, no_editor());
        }
        let ghost body = line_views(v@);
        if self.wordlist_dirty {
            append(&mut v, unsaved());
        } else {
            assert(body + Seq::empty() =~= body);
        }
        append(&mut v, status(&self.wordlist_status));
        append(&mut v, wordlists_tip());
        v
    }
}

// ─── Exceptions ──────────────────────────────────────────────────────

/// The head of the Exceptions pane.
pub open spec fn exceptions_top_lines() -> Seq<LineV> {
    seq![
        LineV::Header {
            title: said("exceptions.exceptions"@, "Exceptions"@),
            subtitle: bare(
                "PolterType skips auto-correction when the foreground app's executable basename is in this list. Manual switch (the hotkey on the Hotkeys pane) bypasses the list — devs can still fix wrong-layout identifiers explicitly inside an IDE."@,
            ),
        },
        LineV::CardStart,
    ]
}

fn exceptions_top() -> (v: Vec<Line>)
    ensures
        line_views(v@) == exceptions_top_lines(),
{
    let mut v: Vec<Line> = Vec::new();
    v.push(
        header(
            say("exceptions.exceptions", "Exceptions"),
            verbatim(
                "PolterType skips auto-correction when the foreground app's executable basename is in this list. Manual switch (the hotkey on the Hotkeys pane) bypasses the list — devs can still fix wrong-layout identifiers explicitly inside an IDE.",
            ),
        ),
    );
    v.push(Line::CardStart);
    assert(line_views(v@) =~~= exceptions_top_lines());
    v
}

/// What stands in place of the exceptions where there are none.
pub open spec fn no_exceptions_lines() -> Seq<LineV> {
    seq![
        LineV::Hint(
            said(
                "exceptions.no_exceptions_poltertype_active"@,
                "No exceptions — PolterType is active in every app."@,
            ),
        ),
    ]
}

fn no_exceptions() -> (v: Vec<Line>)
    ensures
        line_views(v@) == no_exceptions_lines(),
{
    let mut v: Vec<Line> = Vec::new();
    v.push(
        hint(
            say(
                "exceptions.no_exceptions_poltertype_active",
                "No exceptions — PolterType is active in every app.",
            ),
        ),
    );
    assert(line_views(v@) =~~= no_exceptions_lines());
    v
}

/// The end of the Exceptions pane.
pub open spec fn exceptions_end_lines(draft: Seq<char>) -> Seq<LineV> {
    seq![
        LineV::CardEnd,
        LineV::Input {
            caption: bare(""@),
            placeholder: bare("e.g. mygame.exe"@),
            value: draft,
            action: Some(UiAction::ExceptionDraft),
            submit: Some(UiAction::ExceptionAdd),
        },
        LineV::Buttons(
            seq![
                ChipV {
                    label: said("exceptions.add"@, "Add"@),
                    selected: false,
                    action: UiAction::ExceptionAdd,
                },
            ],
        ),
        LineV::Tip(
            bare(
                "Match is case-insensitive against the basename — both `code.exe` and `Code.exe` work."@,
            ),
        ),
    ]
}

fn exceptions_end(draft: &str) -> (v: Vec<Line>)
    ensures
        line_views(v@) == exceptions_end_lines(draft@),
{
    let mut v: Vec<Line> = Vec::new();
    v.push(Line::CardEnd);
    v.push(
        input(
            verbatim(""),
            verbatim("e.g. mygame.exe"),
            draft,
            Some(UiAction::ExceptionDraft),
            Some(UiAction::ExceptionAdd),
        ),
    );
    let mut chips2: Vec<Chip> = Vec::new();
    chips2.push(chip(say("exceptions.add", "Add"), false, UiAction::ExceptionAdd));
    v.push(buttons(chips2));
    v.push(
        tip(
            verbatim(
                "Match is case-insensitive against the basename — both `code.exe` and `Code.exe` work.",
            ),
        ),
    );
    assert(line_views(v@) =~~= exceptions_end_lines(draft@));
    v
}

/// The rows of the first `n` exceptions.
pub open spec fn exception_rows_lines(apps: Seq<String>, n: nat) -> Seq<LineV>
    decreases n,
{
    if n == 0 {
        Seq::empty()
    } else {
        exception_rows_lines(apps, (n - 1) as nat).push(
            LineV::Removable {
                key: apps[n - 1]@,
                text: ""@,
                remove: UiAction::ExceptionRemove((n - 1) as usize),
            },
        )
    }
}

/// The Exceptions pane.
pub open spec fn exceptions_lines(app: SettingsApp) -> Seq<LineV> {
    let apps = app.settings.exceptions.disabled_apps@;
    exceptions_top_lines() + (if apps.len() == 0 {
        no_exceptions_lines()
    } else {
        exception_rows_lines(apps, apps.len())
    }) + exceptions_end_lines(app.exception_draft@)
}

impl SettingsApp {
    pub fn view_exceptions(&self) -> (v: Vec<Line>)
        ensures
            line_views(v@) == exceptions_lines(*self),
    {
        let apps = &self.settings.exceptions.disabled_apps;
        let mut v = exceptions_top();
        if apps.len() == 0 {
            append(&mut v, no_exceptions());
        } else {
            let mut rows: Vec<Line> = Vec::new();
            let mut i: usize = 0;
            assert(line_views(rows@) =~= exception_rows_lines(apps@, 0));
            while i < apps.len()
                invariant
                    i <= apps.len(),
                    line_views(rows@) == exception_rows_lines(apps@, i as nat),
                decreases apps.len() - i,
            {
                let ghost before = line_views(rows@);
                let l = removable(apps[i].as_str(), "", UiAction::ExceptionRemove(i));
                let ghost lv = l@;
                rows.push(l);
                i += 1;
                assert(line_views(rows@) =~= before.push(lv));
            }
            append(&mut v, rows);
        }
        append(&mut v, exceptions_end(self.exception_draft.as_str()));
        v
    }
}

// ─── General ─────────────────────────────────────────────────────────

/// How the app behaves.
pub open spec fn behaviour_lines(g: GeneralSettings, e: EngineSettings) -> Seq<LineV> {
    seq![
        LineV::Header {
            title: said("general.general"@, "General"@),
            subtitle: bare("Behaviour of the tray app and the correction engine."@),
        },
        LineV::CardStart,
        LineV::Section(said("general.behaviour"@, "Behaviour"@)),
        LineV::Chips {
            caption: said("general.conversion"@, "Conversion"@),
            chips: seq![
                ChipV {
                    label: said("general.conversion_auto"@, "Automatic"@),
                    selected: !g.paused,
                    action: UiAction::ManualOnly(false),
                },
                ChipV {
                    label: said("general.conversion_manual"@, "Manual only"@),
                    selected: g.paused,
                    action: UiAction::ManualOnly(true),
                },
            ],
        },
        LineV::Hint(
            said(
                "general.conversion_hint"@,
                "Manual only watches what you type but corrects nothing on its own — the last word is converted when you press the manual hotkey. Same switch as the tray's Pause auto-switch, so the tray icon shows it too."@,
            ),
        ),
        LineV::Check {
            label: said(
                "general.start_automatically_when_i"@,
                "Start automatically when I sign in"@,
            ),
            on: g.autostart,
            action: Some(UiAction::Autostart),
        },
        LineV::Check {
            label: said("general.play_soft_chime_on"@, "Play a soft chime on correction"@),
            on: g.sound_on_correct,
            action: Some(UiAction::SoundOnCorrect),
        },
        LineV::Check {
            label: said(
                "general.show_second_system_notification"@,
                "Show a 2-second system notification on auto-switch"@,
            ),
            on: g.show_notifications,
            action: Some(UiAction::ShowNotifications),
        },
        LineV::Check {
            label: said(
                "general.skip_auto_switch_on"@,
                "Skip auto-switch on identifiers (foo_bar, snake_case, …)"@,
            ),
            on: e.suppress_in_identifiers,
            action: Some(UiAction::SuppressInIdentifiers),
        },
        LineV::Stepper {
            caption: said("general.idle_timeout_ms"@, "Idle timeout (ms):"@),
            down: said("general.text"@, "-100"@),
            down_action: Some(UiAction::IdleTimeout((-100) as i32)),
            value: padded(decimal(e.idle_timeout_ms as nat), 5),
            up: said("general.text2"@, "+100"@),
            up_action: Some(UiAction::IdleTimeout(100)),
            hint: said(
                "general.buffer_cleared_after_this"@,
                "Buffer is cleared after this much keyboard silence."@,
            ),
        },
        LineV::CardEnd,
    ]
}

fn behaviour(g: &GeneralSettings, e: &EngineSettings) -> (v: Vec<Line>)
    ensures
        line_views(v@) == behaviour_lines(*g, *e),
{
    let mut v: Vec<Line> = Vec::new();
    v.push(
        header(
            say("general.general", "General"),
            verbatim("Behaviour of the tray app and the correction engine."),
        ),
    );
    v.push(Line::CardStart);
    v.push(section(say("general.behaviour", "Behaviour")));
    let mut chips3: Vec<Chip> = Vec::new();
    chips3.push(
        chip(say("general.conversion_auto", "Automatic"), !g.paused, UiAction::ManualOnly(false)),
    );
    chips3.push(
        chip(say("general.conversion_manual", "Manual only"), g.paused, UiAction::ManualOnly(true)),
    );
    v.push(choices(say("general.conversion", "Conversion"), chips3));
    v.push(
        hint(
            say(
                "general.conversion_hint",
                "Manual only watches what you type but corrects nothing on its own — the last word is converted when you press the manual hotkey. Same switch as the tray's Pause auto-switch, so the tray icon shows it too.",
            ),
        ),
    );
    v.push(
        check(
            say("general.start_automatically_when_i", "Start automatically when I sign in"),
            g.autostart,
            Some(UiAction::Autostart),
        ),
    );
    v.push(
        check(
            say("general.play_soft_chime_on", "Play a soft chime on correction"),
            g.sound_on_correct,
            Some(UiAction::SoundOnCorrect),
        ),
    );
    v.push(
        check(
            say(
                "general.show_second_system_notification",
                "Show a 2-second system notification on auto-switch",
            ),
            g.show_notifications,
            Some(UiAction::ShowNotifications),
        ),
    );
    v.push(
        check(
            say(
                "general.skip_auto_switch_on",
                "Skip auto-switch on identifiers (foo_bar, snake_case, …)",
            ),
            e.suppress_in_identifiers,
            Some(UiAction::SuppressInIdentifiers),
        ),
    );
    v.push(
        stepper(
            say("general.idle_timeout_ms", "Idle timeout (ms):"),
            say("general.text", "-100"),
            Some(UiAction::IdleTimeout(-100)),
            pad_left(decimal_text(e.idle_timeout_ms), 5).as_str(),
            say("general.text2", "+100"),
            Some(UiAction::IdleTimeout(100)),
            say(
                "general.buffer_cleared_after_this",
                "Buffer is cleared after this much keyboard silence.",
            ),
        ),
    );
    v.push(Line::CardEnd);
    assert(line_views(v@) =~~= behaviour_lines(*g, *e));
    v
}

/// How the window and the tray look.
pub open spec fn appearance_lines(theme: ThemeChoice, tray: TrayIconStyle) -> Seq<LineV> {
    seq![
        LineV::CardStart,
        LineV::Section(said("general.appearance"@, "Appearance"@)),
        LineV::Chips {
            caption: said("general.theme"@, "Theme"@),
            chips: seq![
                ChipV {
                    label: bare(ThemeChoice::System.label_text()),
                    selected: theme == ThemeChoice::System,
                    action: UiAction::Theme(ThemeChoice::System),
                },
                ChipV {
                    label: bare(ThemeChoice::Light.label_text()),
                    selected: theme == ThemeChoice::Light,
                    action: UiAction::Theme(ThemeChoice::Light),
                },
                ChipV {
                    label: bare(ThemeChoice::Dark.label_text()),
                    selected: theme == ThemeChoice::Dark,
                    action: UiAction::Theme(ThemeChoice::Dark),
                },
            ],
        },
        LineV::Hint(
            said(
                "general.system_follows_os_light"@,
                "System follows the OS light/dark preference. Save to persist."@,
            ),
        ),
        LineV::Chips {
            caption: said("general.tray_icon"@, "Tray icon"@),
            chips: seq![
                ChipV {
                    label: said("general.tray_color"@, "Colour"@),
                    selected: tray == TrayIconStyle::Color,
                    action: UiAction::TrayIcon(TrayIconStyle::Color),
                },
                ChipV {
                    label: said("general.tray_mono"@, "Mono"@),
                    selected: tray == TrayIconStyle::Mono,
                    action: UiAction::TrayIcon(TrayIconStyle::Mono),
                },
                ChipV {
                    label: said("general.tray_hidden"@, "Hidden"@),
                    selected: tray == TrayIconStyle::Hidden,
                    action: UiAction::TrayIcon(TrayIconStyle::Hidden),
                },
            ],
        },
        LineV::Hint(
            said(
                "general.tray_icon_hint"@,
                "Colour gives every layout its own; Mono keeps one neutral badge. Hidden removes the icon and its menu — reopen this window by running poltertype --settings."@,
            ),
        ),
        LineV::CardEnd,
    ]
}

fn appearance(theme: ThemeChoice, tray: TrayIconStyle) -> (v: Vec<Line>)
    ensures
        line_views(v@) == appearance_lines(theme, tray),
{
    let mut v: Vec<Line> = Vec::new();
    v.push(Line::CardStart);
    v.push(section(say("general.appearance", "Appearance")));
    let mut chips2: Vec<Chip> = Vec::new();
    chips2.push(
        chip(
            verbatim(ThemeChoice::System.label()),
            theme == ThemeChoice::System,
            UiAction::Theme(ThemeChoice::System),
        ),
    );
    chips2.push(
        chip(
            verbatim(ThemeChoice::Light.label()),
            theme == ThemeChoice::Light,
            UiAction::Theme(ThemeChoice::Light),
        ),
    );
    chips2.push(
        chip(
            verbatim(ThemeChoice::Dark.label()),
            theme == ThemeChoice::Dark,
            UiAction::Theme(ThemeChoice::Dark),
        ),
    );
    v.push(choices(say("general.theme", "Theme"), chips2));
    v.push(
        hint(
            say(
                "general.system_follows_os_light",
                "System follows the OS light/dark preference. Save to persist.",
            ),
        ),
    );
    let mut chips4: Vec<Chip> = Vec::new();
    chips4.push(
        chip(
            say("general.tray_color", "Colour"),
            tray == TrayIconStyle::Color,
            UiAction::TrayIcon(TrayIconStyle::Color),
        ),
    );
    chips4.push(
        chip(
            say("general.tray_mono", "Mono"),
            tray == TrayIconStyle::Mono,
            UiAction::TrayIcon(TrayIconStyle::Mono),
        ),
    );
    chips4.push(
        chip(
            say("general.tray_hidden", "Hidden"),
            tray == TrayIconStyle::Hidden,
            UiAction::TrayIcon(TrayIconStyle::Hidden),
        ),
    );
    v.push(choices(say("general.tray_icon", "Tray icon"), chips4));
    v.push(
        hint(
            say(
                "general.tray_icon_hint",
                "Colour gives every layout its own; Mono keeps one neutral badge. Hidden removes the icon and its menu — reopen this window by running poltertype --settings.",
            ),
        ),
    );
    v.push(Line::CardEnd);
    assert(line_views(v@) =~~= appearance_lines(theme, tray));
    v
}

/// The folders.
pub open spec fn folders_lines() -> Seq<LineV> {
    seq![
        LineV::CardStart,
        LineV::Section(said("general.folders"@, "Folders"@)),
        LineV::Buttons(
            seq![
                ChipV {
                    label: bare("Open config.toml"@),
                    selected: false,
                    action: UiAction::OpenConfigFile,
                },
                ChipV { label: bare("Logs"@), selected: false, action: UiAction::OpenLogsDir },
                ChipV {
                    label: bare("User wordlists"@),
                    selected: false,
                    action: UiAction::OpenWordlistsDir,
                },
                ChipV {
                    label: bare("User layouts"@),
                    selected: false,
                    action: UiAction::OpenLayoutsDir,
                },
            ],
        ),
        LineV::CardEnd,
    ]
}

fn folders() -> (v: Vec<Line>)
    ensures
        line_views(v@) == folders_lines(),
{
    let mut v: Vec<Line> = Vec::new();
    v.push(Line::CardStart);
    v.push(section(say("general.folders", "Folders")));
    let mut chips2: Vec<Chip> = Vec::new();
    chips2.push(chip(verbatim("Open config.toml"), false, UiAction::OpenConfigFile));
    chips2.push(chip(verbatim("Logs"), false, UiAction::OpenLogsDir));
    chips2.push(chip(verbatim("User wordlists"), false, UiAction::OpenWordlistsDir));
    chips2.push(chip(verbatim("User layouts"), false, UiAction::OpenLayoutsDir));
    v.push(buttons(chips2));
    v.push(Line::CardEnd);
    assert(line_views(v@) =~~= folders_lines());
    v
}

/// The General pane.
pub open spec fn general_lines(app: SettingsApp, tray: TrayIconStyle) -> Seq<LineV> {
    behaviour_lines(app.settings.general, app.settings.engine) + appearance_lines(
        theme_of(app.settings.general.ui_theme@),
        tray,
    ) + folders_lines()
}

impl SettingsApp {
    /// `tray` is how the configured tray icon reads.
    pub fn view_general(&self, tray: TrayIconStyle) -> (v: Vec<Line>)
        ensures
            line_views(v@) == general_lines(*self, tray),
    {
        let mut v = behaviour(&self.settings.general, &self.settings.engine);
        append(&mut v, appearance(self.theme_choice(), tray));
        append(&mut v, folders());
        v
    }
}

// ─── Suggestions ─────────────────────────────────────────────────────

/// The tooltip.
pub open spec fn tooltip_card_lines(s: SuggestionSettings) -> Seq<LineV> {
    seq![
        LineV::Header {
            title: said("suggestions.suggestions"@, "Suggestions"@),
            subtitle: bare(
                "Offer dictionary suggestions in a small tooltip when a typed word looks misspelled. Clicking a suggestion (or pressing the accept chord + a digit) replaces the word."@,
            ),
        },
        LineV::CardStart,
        LineV::Section(said("suggestions.tooltip"@, "Tooltip"@)),
        LineV::Check {
            label: said(
                "suggestions.show_suggestions_mistyped_words"@,
                "Show suggestions for mistyped words"@,
            ),
            on: s.enabled,
            action: Some(UiAction::SuggestionsEnabled),
        },
        LineV::Stepper {
            caption: said("suggestions.max_suggestions"@, "Max suggestions (1–9):"@),
            down: bare("-1"@),
            down_action: when(s.enabled, UiAction::SuggestionMax((-1) as i64)),
            value: padded(decimal(s.max_suggestions as nat), 2),
            up: bare("+1"@),
            up_action: when(s.enabled, UiAction::SuggestionMax(1)),
            hint: said(
                "suggestions.each_entry_applied_with"@,
                "Each entry is applied with one digit key, so 9 is the ceiling."@,
            ),
        },
        LineV::Stepper {
            caption: said("suggestions.tooltip_timeout_seconds"@, "Tooltip timeout (seconds):"@),
            down: bare("-5"@),
            down_action: when(s.enabled, UiAction::SuggestionTimeout((-5) as i64)),
            value: padded(decimal(s.tooltip_timeout_secs as nat), 3),
            up: bare("+5"@),
            up_action: when(s.enabled, UiAction::SuggestionTimeout(5)),
            hint: said(
                "suggestions.seconds_tooltip_hides_itself"@,
                "3–600 seconds; the tooltip hides itself when the time is up."@,
            ),
        },
        LineV::CardEnd,
        LineV::CardStart,
        LineV::Section(said("suggestions.keyboard_accept"@, "Keyboard accept"@)),
        LineV::Input {
            caption: said("suggestions.keyboard_accept_modifiers"@, "Keyboard accept modifiers:"@),
            placeholder: bare("e.g. Ctrl+Shift"@),
            value: s.accept_modifiers@,
            action: when(s.enabled, UiAction::SuggestionModifiers),
            submit: None,
        },
    ]
}

fn tooltip_card(s: &SuggestionSettings) -> (v: Vec<Line>)
    ensures
        line_views(v@) == tooltip_card_lines(*s),
{
    let mut v: Vec<Line> = Vec::new();
    v.push(
        header(
            say("suggestions.suggestions", "Suggestions"),
            verbatim(
                "Offer dictionary suggestions in a small tooltip when a typed word looks misspelled. Clicking a suggestion (or pressing the accept chord + a digit) replaces the word.",
            ),
        ),
    );
    v.push(Line::CardStart);
    v.push(section(say("suggestions.tooltip", "Tooltip")));
    v.push(
        check(
            say(
                "suggestions.show_suggestions_mistyped_words",
                "Show suggestions for mistyped words",
            ),
            s.enabled,
            Some(UiAction::SuggestionsEnabled),
        ),
    );
    v.push(
        stepper(
            say("suggestions.max_suggestions", "Max suggestions (1–9):"),
            verbatim("-1"),
            when(s.enabled, UiAction::SuggestionMax(-1)),
            pad_left(decimal_text(s.max_suggestions as u64), 2).as_str(),
            verbatim("+1"),
            when(s.enabled, UiAction::SuggestionMax(1)),
            say(
                "suggestions.each_entry_applied_with",
                "Each entry is applied with one digit key, so 9 is the ceiling.",
            ),
        ),
    );
    v.push(
        stepper(
            say("suggestions.tooltip_timeout_seconds", "Tooltip timeout (seconds):"),
            verbatim("-5"),
            when(s.enabled, UiAction::SuggestionTimeout(-5)),
            pad_left(decimal_text(s.tooltip_timeout_secs), 3).as_str(),
            verbatim("+5"),
            when(s.enabled, UiAction::SuggestionTimeout(5)),
            say(
                "suggestions.seconds_tooltip_hides_itself",
                "3–600 seconds; the tooltip hides itself when the time is up.",
            ),
        ),
    );
    v.push(Line::CardEnd);
    v.push(Line::CardStart);
    v.push(section(say("suggestions.keyboard_accept", "Keyboard accept")));
    v.push(
        input(
            say("suggestions.keyboard_accept_modifiers", "Keyboard accept modifiers:"),
            verbatim("e.g. Ctrl+Shift"),
            s.accept_modifiers.as_str(),
            when(s.enabled, UiAction::SuggestionModifiers),
            None,
        ),
    );
    assert(line_views(v@) =~~= tooltip_card_lines(*s));
    v
}

/// How the modifiers are written.
pub open spec fn modifier_hint_lines(text: Seq<char>) -> Seq<LineV> {
    seq![
        LineV::Hint(bare(text)),
    ]
}

fn modifier_hint(text: &str) -> (v: Vec<Line>)
    ensures
        line_views(v@) == modifier_hint_lines(text@),
{
    let mut v: Vec<Line> = Vec::new();
    v.push(hint(verbatim(text)));
    assert(line_views(v@) =~~= modifier_hint_lines(text@));
    v
}

/// That the chord does nothing as written.
pub open spec fn modifier_warning_lines(text: Seq<char>) -> Seq<LineV> {
    seq![
        LineV::Warning(bare(text)),
    ]
}

fn modifier_warning(text: &str) -> (v: Vec<Line>)
    ensures
        line_views(v@) == modifier_warning_lines(text@),
{
    let mut v: Vec<Line> = Vec::new();
    v.push(warning(verbatim(text)));
    assert(line_views(v@) =~~= modifier_warning_lines(text@));
    v
}

/// The end of the Suggestions pane.
pub open spec fn suggestions_end_lines() -> Seq<LineV> {
    seq![
        LineV::CardEnd,
        LineV::Tip(
            bare(
                "Tip: suggestions come from the same bundled dictionaries the detector already uses. Everything is computed locally — nothing you type leaves your machine."@,
            ),
        ),
    ]
}

fn suggestions_end() -> (v: Vec<Line>)
    ensures
        line_views(v@) == suggestions_end_lines(),
{
    let mut v: Vec<Line> = Vec::new();
    v.push(Line::CardEnd);
    v.push(
        tip(
            verbatim(
                "Tip: suggestions come from the same bundled dictionaries the detector already uses. Everything is computed locally — nothing you type leaves your machine.",
            ),
        ),
    );
    assert(line_views(v@) =~~= suggestions_end_lines());
    v
}

/// The Suggestions pane. `keyboard` says whether the modifiers as written
/// make a chord; without it a non-blank setting is warned about.
pub open spec fn suggestions_lines(
    app: SettingsApp,
    keyboard: bool,
    all_names: Seq<char>,
    needed_names: Seq<char>,
) -> Seq<LineV> {
    let s = app.settings.suggestions;
    tooltip_card_lines(s) + modifier_hint_lines(
        "'+'-separated: "@ + all_names
            + " — e.g. Ctrl+Shift. Applied with digit keys 1–9. Leave empty to disable keyboard accept."@,
    ) + (if !is_blank(s.accept_modifiers@) && !keyboard {
        modifier_warning_lines(
            "At least one of "@ + needed_names
                + " is required — as written, keyboard accept is off (clicking a suggestion still works)."@,
        )
    } else {
        Seq::empty()
    }) + suggestions_end_lines()
}

impl SettingsApp {
    pub fn view_suggestions(&self, keyboard: bool, all_names: &str, needed_names: &str) -> (v: Vec<
        Line,
    >)
        ensures
            line_views(v@) == suggestions_lines(*self, keyboard, all_names@, needed_names@),
    {
        let s = &self.settings.suggestions;
        let mut v = tooltip_card(s);
        let how = fill(
            "'+'-separated: ",
            all_names,
            " — e.g. Ctrl+Shift. Applied with digit keys 1–9. Leave empty to disable keyboard accept.",
        );
        append(&mut v, modifier_hint(how.as_str()));
        let ghost body = line_views(v@);
        if !is_blank_text(s.accept_modifiers.as_str()) && !keyboard {
            let why = fill(
                "At least one of ",
                needed_names,
                " is required — as written, keyboard accept is off (clicking a suggestion still works).",
            );
            append(&mut v, modifier_warning(why.as_str()));
        } else {
            assert(body + Seq::empty() =~= body);
        }
        append(&mut v, suggestions_end());
        v
    }
}

// ─── About ───────────────────────────────────────────────────────────

/// The About pane.
pub open spec fn about_body_lines(version: Seq<char>, config: Seq<char>) -> Seq<LineV> {
    seq![
        LineV::CardStart,
        LineV::Text(bare("PolterType"@)),
        LineV::Hint(bare(version)),
        LineV::Text(
            said(
                "about.cross_platform_automatic_keyboard"@,
                "Cross-platform automatic keyboard layout switcher."@,
            ),
        ),
        LineV::Buttons(
            seq![
                ChipV {
                    label: bare("poltertype.com"@),
                    selected: false,
                    action: UiAction::OpenLink(Link::Site),
                },
                ChipV {
                    label: bare("GitHub"@),
                    selected: false,
                    action: UiAction::OpenLink(Link::Repository),
                },
                ChipV {
                    label: bare("Report an issue"@),
                    selected: false,
                    action: UiAction::OpenLink(Link::Issues),
                },
            ],
        ),
        LineV::CardEnd,
        LineV::CardStart,
        LineV::Section(said("about.power_user_escape_hatches"@, "Power-user escape hatches"@)),
        LineV::Buttons(
            seq![
                ChipV {
                    label: said("about.reset_defaults"@, "Reset to defaults"@),
                    selected: false,
                    action: UiAction::ResetDefaults,
                },
                ChipV {
                    label: said("about.reload_from_disk"@, "Reload from disk"@),
                    selected: false,
                    action: UiAction::Reload,
                },
            ],
        ),
        LineV::Mono(bare(config)),
        LineV::CardEnd,
    ]
}

fn about_body(version: &str, config: &str) -> (v: Vec<Line>)
    ensures
        line_views(v@) == about_body_lines(version@, config@),
{
    let mut v: Vec<Line> = Vec::new();
    v.push(Line::CardStart);
    v.push(plain(verbatim("PolterType")));
    v.push(hint(verbatim(version)));
    v.push(
        plain(
            say(
                "about.cross_platform_automatic_keyboard",
                "Cross-platform automatic keyboard layout switcher.",
            ),
        ),
    );
    let mut chips4: Vec<Chip> = Vec::new();
    chips4.push(chip(verbatim("poltertype.com"), false, UiAction::OpenLink(Link::Site)));
    chips4.push(chip(verbatim("GitHub"), false, UiAction::OpenLink(Link::Repository)));
    chips4.push(chip(verbatim("Report an issue"), false, UiAction::OpenLink(Link::Issues)));
    v.push(buttons(chips4));
    v.push(Line::CardEnd);
    v.push(Line::CardStart);
    v.push(section(say("about.power_user_escape_hatches", "Power-user escape hatches")));
    let mut chips8: Vec<Chip> = Vec::new();
    chips8.push(
        chip(say("about.reset_defaults", "Reset to defaults"), false, UiAction::ResetDefaults),
    );
    chips8.push(chip(say("about.reload_from_disk", "Reload from disk"), false, UiAction::Reload));
    v.push(buttons(chips8));
    v.push(mono(verbatim(config)));
    v.push(Line::CardEnd);
    assert(line_views(v@) =~~= about_body_lines(version@, config@));
    v
}

/// The buttons of the footer.
pub open spec fn footer_buttons_lines() -> Seq<LineV> {
    seq![
        LineV::Buttons(
            seq![
                ChipV {
                    label: said("footer.reload"@, "Reload"@),
                    selected: false,
                    action: UiAction::Reload,
                },
                ChipV {
                    label: said("footer.save"@, "Save"@),
                    selected: false,
                    action: UiAction::Save,
                },
            ],
        ),
    ]
}

fn footer_buttons() -> (v: Vec<Line>)
    ensures
        line_views(v@) == footer_buttons_lines(),
{
    let mut v: Vec<Line> = Vec::new();
    let mut chips0: Vec<Chip> = Vec::new();
    chips0.push(chip(say("footer.reload", "Reload"), false, UiAction::Reload));
    chips0.push(chip(say("footer.save", "Save"), false, UiAction::Save));
    v.push(buttons(chips0));
    assert(line_views(v@) =~~= footer_buttons_lines());
    v
}

/// The list of panes.
pub open spec fn navigation_lines(setup: Seq<char>, pane: Pane, version: Seq<char>) -> Seq<LineV> {
    seq![
        LineV::Header { title: bare("PolterType"@), subtitle: said("ui.settings"@, "Settings"@) },
        LineV::Chips {
            caption: bare(""@),
            chips: seq![
                ChipV {
                    label: bare(setup),
                    selected: pane == Pane::Setup,
                    action: UiAction::SelectPane(Pane::Setup),
                },
                ChipV {
                    label: bare("Languages"@),
                    selected: pane == Pane::Languages,
                    action: UiAction::SelectPane(Pane::Languages),
                },
                ChipV {
                    label: bare("Hotkeys"@),
                    selected: pane == Pane::Hotkeys,
                    action: UiAction::SelectPane(Pane::Hotkeys),
                },
                ChipV {
                    label: bare("Commands"@),
                    selected: pane == Pane::Commands,
                    action: UiAction::SelectPane(Pane::Commands),
                },
                ChipV {
                    label: bare("Wordlists"@),
                    selected: pane == Pane::Wordlists,
                    action: UiAction::SelectPane(Pane::Wordlists),
                },
                ChipV {
                    label: bare("General"@),
                    selected: pane == Pane::General,
                    action: UiAction::SelectPane(Pane::General),
                },
                ChipV {
                    label: bare("Exceptions"@),
                    selected: pane == Pane::Exceptions,
                    action: UiAction::SelectPane(Pane::Exceptions),
                },
                ChipV {
                    label: bare("Suggestions"@),
                    selected: pane == Pane::Suggestions,
                    action: UiAction::SelectPane(Pane::Suggestions),
                },
                ChipV {
                    label: bare("Plug-ins"@),
                    selected: pane == Pane::Plugins,
                    action: UiAction::SelectPane(Pane::Plugins),
                },
                ChipV {
                    label: bare("About"@),
                    selected: pane == Pane::About,
                    action: UiAction::SelectPane(Pane::About),
                },
            ],
        },
        LineV::Hint(bare(version)),
    ]
}

fn navigation(setup: &str, pane: Pane, version: &str) -> (v: Vec<Line>)
    ensures
        line_views(v@) == navigation_lines(setup@, pane, version@),
{
    let mut v: Vec<Line> = Vec::new();
    v.push(header(verbatim("PolterType"), say("ui.settings", "Settings")));
    let mut chips1: Vec<Chip> = Vec::new();
    chips1.push(chip(verbatim(setup), pane == Pane::Setup, UiAction::SelectPane(Pane::Setup)));
    chips1.push(
        chip(verbatim("Languages"), pane == Pane::Languages, UiAction::SelectPane(Pane::Languages)),
    );
    chips1.push(
        chip(verbatim("Hotkeys"), pane == Pane::Hotkeys, UiAction::SelectPane(Pane::Hotkeys)),
    );
    chips1.push(
        chip(verbatim("Commands"), pane == Pane::Commands, UiAction::SelectPane(Pane::Commands)),
    );
    chips1.push(
        chip(verbatim("Wordlists"), pane == Pane::Wordlists, UiAction::SelectPane(Pane::Wordlists)),
    );
    chips1.push(
        chip(verbatim("General"), pane == Pane::General, UiAction::SelectPane(Pane::General)),
    );
    chips1.push(
        chip(
            verbatim("Exceptions"),
            pane == Pane::Exceptions,
            UiAction::SelectPane(Pane::Exceptions),
        ),
    );
    chips1.push(
        chip(
            verbatim("Suggestions"),
            pane == Pane::Suggestions,
            UiAction::SelectPane(Pane::Suggestions),
        ),
    );
    chips1.push(
        chip(verbatim("Plug-ins"), pane == Pane::Plugins, UiAction::SelectPane(Pane::Plugins)),
    );
    chips1.push(chip(verbatim("About"), pane == Pane::About, UiAction::SelectPane(Pane::About)));
    v.push(choices(verbatim(""), chips1));
    v.push(hint(verbatim(version)));
    assert(line_views(v@) =~~= navigation_lines(setup@, pane, version@));
    v
}

/// The label of the Setup pane, marked while something is unresolved.
pub open spec fn setup_label(needs_attention: bool) -> Seq<char> {
    if needs_attention {
        "Setup  (!)"@
    } else {
        "Setup"@
    }
}

pub fn setup_nav_label(needs_attention: bool) -> (s: &'static str)
    ensures
        s@ == setup_label(needs_attention),
{
    if needs_attention {
        "Setup  (!)"
    } else {
        "Setup"
    }
}

impl SettingsApp {
    pub fn view_about(&self, version: &str) -> (v: Vec<Line>)
        ensures
            line_views(v@) == about_body_lines(
                "Version "@ + version@,
                "Config: "@ + self.config_path@,
            ),
    {
        let mut release = "Version ".to_owned();
        release.append(version);
        let mut config = "Config: ".to_owned();
        config.append(self.config_path.as_str());
        about_body(release.as_str(), config.as_str())
    }

    pub fn view_footer(&self) -> (v: Vec<Line>)
        ensures
            line_views(v@) == status_lines(self.save_banner) + footer_buttons_lines(),
    {
        let mut v = status(&self.save_banner);
        append(&mut v, footer_buttons());
        v
    }

    pub fn nav_panel(&self, version: &str) -> (v: Vec<Line>)
        ensures
            line_views(v@) == navigation_lines(
                setup_label(self.setup_needs_attention),
                self.pane,
                "v"@ + version@,
            ),
    {
        let mut release = "v".to_owned();
        release.append(version);
        navigation(setup_nav_label(self.setup_needs_attention), self.pane, release.as_str())
    }

    /// The Plug-ins pane scrolls its own halves where there is one plug-in.
    pub fn scrolls_itself(&self) -> (b: bool)
        ensures
            b == (self.pane == Pane::Plugins && self.plugins@.len() == 1),
    {
        self.pane == Pane::Plugins && self.plugins.len() == 1
    }
}

// ─── The pane in front ───────────────────────────────────────────────

/// What the host tells the panes.
pub struct PaneContext {
    pub hotkeys: HotkeyEnvironment,
    /// What each command does, in words.
    pub summaries: Vec<String>,
    /// Where the word list being edited lives.
    pub list_path: Option<String>,
    /// How the configured tray icon reads.
    pub tray: TrayIconStyle,
    /// The accept modifiers make a chord.
    pub keyboard_accept: bool,
    /// The modifiers an accept chord may have, and those it needs one of.
    pub accept_names: String,
    pub needed_names: String,
    pub version: String,
}

/// What the pane in front shows. The Setup and the Plug-ins pane draw
/// themselves.
pub open spec fn body_lines(app: SettingsApp, ctx: PaneContext) -> Option<Seq<LineV>> {
    match app.pane {
        Pane::Setup => None,
        Pane::Plugins => None,
        Pane::Languages => Some(languages_lines(app)),
        Pane::Hotkeys => Some(hotkeys_lines(app, ctx.hotkeys)),
        Pane::Commands => Some(commands_lines(app, ctx.summaries@)),
        Pane::Wordlists => Some(wordlists_lines(app, ctx.list_path)),
        Pane::General => Some(general_lines(app, ctx.tray)),
        Pane::Exceptions => Some(exceptions_lines(app)),
        Pane::Suggestions => Some(
            suggestions_lines(
                app,
                ctx.keyboard_accept,
                ctx.accept_names@,
                ctx.needed_names@,
            ),
        ),
        Pane::About => Some(
            about_body_lines("Version "@ + ctx.version@, "Config: "@ + app.config_path@),
        ),
    }
}

impl SettingsApp {
    pub fn body(&self, ctx: &PaneContext) -> (v: Option<Vec<Line>>)
        requires
            ctx.summaries@.len() == self.settings.commands@.len(),
        ensures
            match v {
                Some(lines) => body_lines(*self, *ctx) == Some(line_views(lines@)),
                None => body_lines(*self, *ctx) is None,
            },
    {
        match self.pane {
            Pane::Setup => None,
            Pane::Plugins => None,
            Pane::Languages => Some(self.view_languages()),
            Pane::Hotkeys => Some(self.view_hotkeys(&ctx.hotkeys)),
            Pane::Commands => Some(self.view_commands(&ctx.summaries)),
            Pane::Wordlists => Some(self.view_wordlists(&ctx.list_path)),
            Pane::General => Some(self.view_general(ctx.tray)),
            Pane::Exceptions => Some(self.view_exceptions()),
            Pane::Suggestions => Some(
                self.view_suggestions(
                    ctx.keyboard_accept,
                    ctx.accept_names.as_str(),
                    ctx.needed_names.as_str(),
                ),
            ),
            Pane::About => Some(self.view_about(ctx.version.as_str())),
        }
    }
}

} // verus!
