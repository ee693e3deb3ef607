use poltertype::commands::{CommandAction, UserCommand};
use poltertype::engine::types::{ModRole, ModSet};
use poltertype::layouts::LayoutId;
use poltertype::settings::{Settings, WordlistProfile};
use poltertype::settings_ui::enums::{
    CommandActionKind, HotkeyKind, Pane, ThemeChoice, TrayIconStyle, WordlistKind,
};
use poltertype::settings_ui::lines::{
    say, say_with, verbatim, Chip, Label, Line, Link, UiAction,
};
use poltertype::settings_ui::state::{Capture, SaveBanner, SettingsApp};
use poltertype::settings_ui::view::{
    setup_nav_label, substitution_note, EffectiveHotkey, HotkeyEnvironment, PaneContext,
    Substitution,
};

fn app(pane: Pane) -> SettingsApp {
    SettingsApp::new(
        Settings::default(),
        vec![LayoutId::from("en-US"), LayoutId::from("uk-UA")],
        "/home/me/config.toml".to_owned(),
        pane,
        None,
        true,
        false,
    )
}

fn environment() -> HotkeyEnvironment {
    HotkeyEnvironment {
        pause: EffectiveHotkey { chord: "Ctrl+Shift+Space".to_owned(), substitution: None },
        switch_last: EffectiveHotkey {
            chord: "Ctrl+Shift+F9".to_owned(),
            substitution: Some(Substitution::DefaultIsDestructiveHere),
        },
        tap_name: "Shift".to_owned(),
        modifier_names: "Ctrl / Alt".to_owned(),
        pair_name: "Ctrl+Shift".to_owned(),
        double_name: "Shift+Shift".to_owned(),
    }
}

fn context() -> PaneContext {
    PaneContext {
        hotkeys: environment(),
        summaries: Vec::new(),
        list_path: None,
        tray: TrayIconStyle::Mono,
        keyboard_accept: true,
        accept_names: "Ctrl, Shift".to_owned(),
        needed_names: "Ctrl / Alt".to_owned(),
        version: "1.2.3".to_owned(),
    }
}

fn en(label: &Label) -> String {
    label.shown(None)
}

fn selected(chips: &[Chip]) -> Vec<String> {
    chips.iter().filter(|c| c.selected).map(|c| en(&c.label)).collect()
}

fn chips_of<'a>(lines: &'a [Line], of: &str) -> &'a [Chip] {
    for l in lines {
        if let Line::Chips { caption, chips } = l {
            if en(caption) == of {
                return chips;
            }
        }
    }
    panic!("no such row")
}

#[test]
fn the_window_opens_on_the_first_layout() {
    let a = app(Pane::General);
    assert_eq!(a.title(), "PolterType · Settings (/home/me/config.toml)");
    assert_eq!(a.wordlist_layout.as_ref().unwrap().as_str(), "en-US");
    assert!(a.selection_support.is_err());
    assert!(!a.listens_for_keys());
}

#[test]
fn a_theme_survives_the_config() {
    for choice in [ThemeChoice::System, ThemeChoice::Light, ThemeChoice::Dark] {
        assert_eq!(ThemeChoice::from_config(choice.config_value()), choice);
    }
    assert_eq!(ThemeChoice::from_config(" DARK "), ThemeChoice::Dark);
    assert_eq!(ThemeChoice::from_config("plaid"), ThemeChoice::System);
    let mut a = app(Pane::General);
    assert!(a.theme());
    a.settings.general.ui_theme = "light".to_owned();
    assert!(!a.theme());
}

#[test]
fn the_backdrop_changes_with_every_drawing() {
    let mut a = app(Pane::General);
    assert_eq!(a.backdrop_step(), 1);
    assert_eq!(a.backdrop_step(), 2);
    a.bg_jitter = u32::MAX;
    assert_eq!(a.backdrop_step(), 0);
}

#[test]
fn a_captured_key_is_a_modifier_a_combination_or_none_of_ours() {
    let none = ModSet::none();
    let press = |escape, role, bare, caps, usable, physical: Option<&str>| {
        SettingsApp::capture_press(
            escape,
            role,
            none,
            bare,
            caps,
            "Ctrl+ф".to_owned(),
            usable,
            physical.map(|s| s.to_owned()),
        )
    };
    assert!(matches!(press(true, None, true, false, true, None), Some(Capture::Cancel)));
    assert!(matches!(
        press(false, Some(ModRole::Ctrl), false, false, true, None),
        Some(Capture::Modifier { role: ModRole::Ctrl, .. })
    ));
    assert!(press(false, None, true, false, true, None).is_none());
    assert!(matches!(press(false, None, true, true, true, None), Some(Capture::Combo(_))));
    match press(false, None, false, false, false, Some("Ctrl+A")) {
        Some(Capture::Combo(c)) => assert_eq!(c, "Ctrl+A"),
        _ => panic!("no combination"),
    }
    match press(false, None, false, false, true, Some("Ctrl+A")) {
        Some(Capture::Combo(c)) => assert_eq!(c, "Ctrl+ф"),
        _ => panic!("no combination"),
    }
}

#[test]
fn an_empty_allow_list_shows_every_layout_as_active() {
    let mut a = app(Pane::Languages);
    a.settings.languages.ignored = vec![LayoutId::from("uk-UA")];
    let rows: Vec<(String, bool, bool)> = a
        .view_languages()
        .into_iter()
        .filter_map(|l| match l {
            Line::Layout { id, active, ignored, .. } => Some((id, active, ignored)),
            _ => None,
        })
        .collect();
    assert_eq!(
        rows,
        vec![("en-US".to_owned(), true, false), ("uk-UA".to_owned(), true, true)]
    );
    a.settings.languages.active = vec![LayoutId::from("uk-UA")];
    let lines = a.view_languages();
    assert!(lines.iter().any(
        |l| matches!(l, Line::Hint(t) if en(t).starts_with("Restricted to 1 layout(s). Tick more"))
    ));
    assert!(lines
        .iter()
        .any(|l| matches!(l, Line::Layout { id, active: false, .. } if id == "en-US")));
    a.os_layouts.clear();
    assert!(a
        .view_languages()
        .iter()
        .any(|l| matches!(l, Line::Hint(t) if en(t).starts_with("No OS layouts detected."))));
}

#[test]
fn a_hotkey_shows_its_keys_or_its_prompt() {
    let mut a = app(Pane::Hotkeys);
    let lines = a.view_hotkeys(&environment());
    let keys: Vec<Vec<String>> = lines
        .iter()
        .filter_map(|l| match l {
            Line::Hotkey { keys, .. } => Some(keys.clone()),
            _ => None,
        })
        .collect();
    assert_eq!(keys[0], vec!["Ctrl", "Shift", "Space"]);
    assert!(lines.iter().any(|l| matches!(l, Line::Tip(t) if en(t).contains("Ctrl+Shift+F9 is used"))));
    assert!(lines.iter().any(|l| matches!(
        l,
        Line::Check { label, on: false, action: None } if en(label) == "Also convert selected text"
    )));

    a.capturing = Some(HotkeyKind::Pause);
    let lines = a.view_hotkeys(&environment());
    assert!(lines.iter().any(|l| matches!(
        l,
        Line::Hotkey { prompt: Some(p), button, .. }
            if en(p) == "Press a combination… (Esc to cancel)" && en(&button.label) == "Cancel"
    )));
    a.mod_capture.pending_tap = Some(ModSet::none());
    let lines = a.view_hotkeys(&environment());
    assert!(lines.iter().any(
        |l| matches!(l, Line::Hotkey { prompt: Some(p), .. } if en(p) == "Tap Shift again to bind it…")
    ));
}

#[test]
fn caps_lock_is_warned_about() {
    let a = app(Pane::Hotkeys);
    let mut env = environment();
    env.pause.chord = "CapsLock".to_owned();
    assert!(a
        .view_hotkeys(&env)
        .iter()
        .any(|l| matches!(l, Line::Tip(t) if en(t).starts_with("PolterType watches this key"))));
    assert_eq!(
        en(&substitution_note(Substitution::SystemOwnsDefault)),
        "This system already uses Ctrl+Shift+Space to switch input sources, so Ctrl+Shift+P is \
         used here instead. Rebind to choose your own."
    );
}

#[test]
fn commands_are_listed_with_what_they_do() {
    let mut a = app(Pane::Commands);
    assert!(a
        .view_commands(&Vec::new())
        .iter()
        .any(|l| matches!(l, Line::Hint(t) if en(t).starts_with("No commands yet"))));
    a.settings.commands = vec![UserCommand {
        id: "anrl".to_owned(),
        name: "List".to_owned(),
        trigger: "anrl".to_owned(),
        action: CommandAction::TypeText { text: "List".to_owned() },
        apps: Vec::new(),
    }];
    a.command_draft_action_kind = CommandActionKind::OpenPath;
    a.command_status = Some(SaveBanner { text: "added".to_owned(), is_error: false });
    let lines = a.view_commands(&vec!["types List".to_owned()]);
    assert!(lines.iter().any(|l| matches!(
        l,
        Line::Removable { key, text, remove: UiAction::CommandRemove(0) }
            if key == "anrl" && text == "types List"
    )));
    assert_eq!(selected(chips_of(&lines, "Action")), vec!["Open file / URL"]);
    assert!(lines.iter().any(|l| matches!(l, Line::Input { caption, .. } if en(caption) == "Path / URL")));
    assert!(lines
        .iter()
        .any(|l| matches!(l, Line::Status { text, is_error: false } if text == "added")));
}

#[test]
fn the_word_list_in_hand_is_named() {
    let mut a = app(Pane::Wordlists);
    a.settings.wordlists.profiles = vec![
        WordlistProfile { id: "code".to_owned(), name: String::new(), apps: Vec::new() },
        WordlistProfile { id: "law".to_owned(), name: "Legal".to_owned(), apps: Vec::new() },
    ];
    a.wordlist_profile = "law".to_owned();
    a.wordlist_kind = WordlistKind::Stop;
    a.wordlist_dirty = true;
    let lines = a.view_wordlists(&Some("/w/law/en_us-stop.txt".to_owned()));
    let profiles = chips_of(&lines, "Profile");
    let labels: Vec<String> = profiles.iter().map(|c| en(&c.label)).collect();
    assert_eq!(labels, vec!["Global", "code", "Legal"]);
    assert_eq!(selected(profiles), vec!["Legal"]);
    assert_eq!(selected(chips_of(&lines, "Layout")), vec!["en-US"]);
    assert_eq!(selected(chips_of(&lines, "List")), vec!["Stop list (short tokens)"]);
    assert!(lines.iter().any(|l| matches!(l, Line::Mono(t) if en(t) == "File: /w/law/en_us-stop.txt")));
    assert!(lines.iter().any(|l| matches!(l, Line::Warning(t) if en(t) == "unsaved changes")));
    a.wordlist_layout = None;
    let lines = a.view_wordlists(&None);
    assert!(!lines.iter().any(|l| matches!(l, Line::Editor { .. })));
    a.os_layouts.clear();
    assert_eq!(a.view_wordlists(&None).len(), 4);
}

#[test]
fn exceptions_can_be_removed_one_by_one() {
    let mut a = app(Pane::Exceptions);
    assert!(a
        .view_exceptions()
        .iter()
        .any(|l| matches!(l, Line::Hint(t) if en(t).starts_with("No exceptions"))));
    a.settings.exceptions.disabled_apps = vec!["x.exe".to_owned(), "y.exe".to_owned()];
    let rows: Vec<UiAction> = a
        .view_exceptions()
        .into_iter()
        .filter_map(|l| match l {
            Line::Removable { remove, .. } => Some(remove),
            _ => None,
        })
        .collect();
    assert_eq!(rows, vec![UiAction::ExceptionRemove(0), UiAction::ExceptionRemove(1)]);
}

#[test]
fn the_general_pane_shows_the_choices_in_force() {
    let mut a = app(Pane::General);
    a.settings.general.paused = true;
    a.settings.engine.idle_timeout_ms = 750;
    let lines = a.view_general(TrayIconStyle::Hidden);
    assert_eq!(selected(chips_of(&lines, "Conversion")), vec!["Manual only"]);
    assert_eq!(selected(chips_of(&lines, "Theme")), vec!["System"]);
    assert_eq!(selected(chips_of(&lines, "Tray icon")), vec!["Hidden"]);
    assert!(lines.iter().any(|l| matches!(
        l,
        Line::Stepper { value, down_action: Some(UiAction::IdleTimeout(-100)), .. }
            if value == "  750"
    )));
    a.settings.engine.idle_timeout_ms = 1_234_567;
    assert!(a
        .view_general(TrayIconStyle::Color)
        .iter()
        .any(|l| matches!(l, Line::Stepper { value, .. } if value == "1234567")));
}

#[test]
fn suggestions_that_are_off_cannot_be_tuned() {
    let mut a = app(Pane::Suggestions);
    a.settings.suggestions.enabled = false;
    a.settings.suggestions.accept_modifiers = "Shift".to_owned();
    let lines = a.view_suggestions(false, "Ctrl, Shift", "Ctrl / Alt");
    assert!(lines
        .iter()
        .all(|l| !matches!(l, Line::Stepper { down_action: Some(_), .. } | Line::Input { action: Some(_), .. })));
    assert!(lines.iter().any(
        |l| matches!(l, Line::Warning(t) if en(t).starts_with("At least one of Ctrl / Alt is required"))
    ));
    a.settings.suggestions.accept_modifiers = "  ".to_owned();
    let lines = a.view_suggestions(false, "Ctrl, Shift", "Ctrl / Alt");
    assert!(!lines.iter().any(|l| matches!(l, Line::Warning(_))));
}

#[test]
fn the_about_pane_and_the_footer() {
    let mut a = app(Pane::About);
    let lines = a.view_about("1.2.3");
    assert!(lines.iter().any(|l| matches!(l, Line::Hint(t) if en(t) == "Version 1.2.3")));
    assert!(lines.iter().any(|l| matches!(l, Line::Mono(t) if en(t) == "Config: /home/me/config.toml")));
    assert!(lines.iter().any(|l| matches!(
        l,
        Line::Buttons(b) if b.iter().any(|c| c.action == UiAction::OpenLink(Link::Issues))
    )));
    assert_eq!(a.view_footer().len(), 1);
    a.save_banner = Some(SaveBanner { text: "Saved".to_owned(), is_error: false });
    assert!(matches!(&a.view_footer()[0], Line::Status { text, .. } if text == "Saved"));
}

#[test]
fn the_navigation_marks_the_pane_in_front() {
    let mut a = app(Pane::Plugins);
    let lines = a.nav_panel("1.2.3");
    let panes = chips_of(&lines, "");
    assert_eq!(panes.len(), 10);
    assert_eq!(selected(panes), vec!["Plug-ins"]);
    assert_eq!(en(&panes[0].label), "Setup");
    a.setup_needs_attention = true;
    assert_eq!(en(&chips_of(&a.nav_panel("1.2.3"), "")[0].label), "Setup  (!)");
    assert_eq!(setup_nav_label(false), "Setup");
    assert!(!a.scrolls_itself());
}

#[test]
fn the_pane_in_front_is_drawn() {
    let ctx = context();
    for pane in [Pane::Setup, Pane::Plugins] {
        assert!(app(pane).body(&ctx).is_none());
    }
    for (pane, title) in [
        (Pane::Languages, "Languages"),
        (Pane::Hotkeys, "Hotkeys"),
        (Pane::Commands, "Commands"),
        (Pane::Wordlists, "Wordlists"),
        (Pane::General, "General"),
        (Pane::Exceptions, "Exceptions"),
        (Pane::Suggestions, "Suggestions"),
    ] {
        let lines = app(pane).body(&ctx).unwrap();
        assert!(matches!(&lines[0], Line::Header { title: t, .. } if en(t) == title));
    }
    assert!(app(Pane::About).body(&ctx).is_some());
}

#[test]
fn the_overlay_files_of_the_two_kinds_differ() {
    assert_eq!(WordlistKind::Extras.suffix(), "");
    assert_eq!(WordlistKind::Stop.suffix(), "-stop");
}

#[test]
fn a_label_is_shown_in_the_translation_where_there_is_one() {
    let plain = say("hotkeys.cancel", "Cancel");
    assert_eq!(plain.shown(None), "Cancel");
    assert_eq!(plain.shown(Some("Скасувати")), "Скасувати");
    let args = vec!["A".to_owned(), "{}".to_owned()];
    let two = say_with("k", "{} then {}, {}", args);
    assert_eq!(two.shown(None), "A then {}, {}", "what is put in is not filled again");
    assert_eq!(two.shown(Some("лише {")), "лише {");
    assert_eq!(two.shown(Some("{}{}")), "A{}");
    assert_eq!(verbatim("{} as it is").shown(None), "{} as it is");
}

#[test]
fn texts_carry_the_key_they_are_translated_by() {
    let a = app(Pane::Languages);
    let lines = a.view_languages();
    assert!(matches!(
        &lines[0],
        Line::Header { title, subtitle }
            if title.key == "languages.languages" && subtitle.key == "languages.subtitle"
    ));
    assert!(matches!(&lines[1], Line::Hint(l) if l.key == "languages.status_all"));
    assert!(lines.iter().any(|l| matches!(
        l,
        Line::Layout { active_label, ignored_label, .. }
            if active_label.key == "languages.active" && en(active_label) == "Active"
                && ignored_label.key == "languages.ignore" && en(ignored_label) == "Ignore"
    )));
    let note = substitution_note(Substitution::DefaultIsDestructiveHere);
    assert_eq!(note.key, "hotkeys.substituted_observed_not_consumed");
    assert_eq!(note.args.len(), 2);
    let nav = a.nav_panel("1.2.3");
    assert!(matches!(&nav[0], Line::Header { title, subtitle }
        if title.key.is_empty() && subtitle.key == "ui.settings"));
    assert!(chips_of(&nav, "").iter().all(|c| c.label.key.is_empty()));
    match &a.view_footer()[0] {
        Line::Buttons(b) => {
            let keys: Vec<&str> = b.iter().map(|c| c.label.key.as_str()).collect();
            assert_eq!(keys, vec!["footer.reload", "footer.save"]);
        }
        _ => panic!("no buttons"),
    }
}
