//! What holds of everything the settings window shows.

use vstd::prelude::*;
use vstd::string::*;

use crate::commands::UserCommand;
use crate::layouts::{names, LayoutId};
use crate::settings::{EngineSettings, GeneralSettings, SuggestionSettings, WordlistProfile};
use crate::settings_ui::enums::{
    CommandActionKind, HotkeyKind, Pane, ThemeChoice, TrayIconStyle, WordlistKind,
};
use crate::settings_ui::lines::{filled, LineV, Link, UiAction};
use crate::settings_ui::state::{SaveBanner, SettingsApp};
use crate::settings_ui::view::{
    about_body_lines, appearance_lines, behaviour_lines, body_lines, command_form_lines, command_rows_lines,
    commands_lines, exception_rows_lines, exceptions_lines, folders_lines, footer_buttons_lines, hotkey_note, hotkey_row_lines,
    kind_picker_lines, languages_lines, languages_status, layout_chips, layout_rows_lines, navigation_lines, padded,
    profile_chips, selection_lines, setup_label, status_lines, tooltip_card_lines, EffectiveHotkey, PaneContext,
};
use crate::text::{decimal, is_space, joined, trim_start, trimmed};
use crate::text_laws::{law_a_written_number_is_read_back, law_the_pieces_make_up_the_text, law_trimming_leaves_a_number_alone};

verus! {

broadcast use vstd::string::group_string_axioms;

/// The line is shown.
pub open spec fn shows(lines: Seq<LineV>, line: LineV) -> bool {
    exists|i: int| 0 <= i < lines.len() && #[trigger] lines[i] == line
}

// ─── Layouts ─────────────────────────────────────────────────────────

/// Each layout of the system has its row, in the system's order: ticked as
/// active where the user lists it or lists none, and as ignored where the
/// user ignores it.
pub proof fn law_every_layout_has_its_row(app: SettingsApp, n: nat, r: int)
    requires
        0 <= r < n <= app.os_layouts@.len(),
    ensures
        layout_rows_lines(app, n).len() == n,
        ({
            let id = app.os_layouts@[r]@;
            let line = layout_rows_lines(app, n)[r];
            &&& line is Layout
            &&& line->Layout_id == id
            &&& line->row == r as usize
            &&& line->active <==> app.settings.languages.active@.len() == 0 || exists|i: int|
                0 <= i < app.settings.languages.active@.len() && (
                #[trigger] app.settings.languages.active@[i])@ == id
            &&& line->ignored <==> exists|i: int|
                0 <= i < app.settings.languages.ignored@.len() && (
                #[trigger] app.settings.languages.ignored@[i])@ == id
        }),
    decreases n,
{
    lemma_layout_rows(app, n);
    let id = app.os_layouts@[r]@;
    lemma_on_list(app.settings.languages.active@, id);
    lemma_on_list(app.settings.languages.ignored@, id);
    if r < n - 1 {
        law_every_layout_has_its_row(app, (n - 1) as nat, r);
        assert(layout_rows_lines(app, n)[r] == layout_rows_lines(app, (n - 1) as nat)[r]);
    }
}

proof fn lemma_layout_rows(app: SettingsApp, n: nat)
    ensures
        layout_rows_lines(app, n).len() == n,
    decreases n,
{
    if n > 0 {
        lemma_layout_rows(app, (n - 1) as nat);
    }
}

proof fn lemma_on_list(ids: Seq<LayoutId>, name: Seq<char>)
    ensures
        names(ids).contains(name) <==> exists|i: int|
            0 <= i < ids.len() && (#[trigger] ids[i])@ == name,
{
    if names(ids).contains(name) {
        let i = choose|i: int| 0 <= i < names(ids).len() && names(ids)[i] == name;
        assert(ids[i]@ == name);
    }
    if exists|i: int| 0 <= i < ids.len() && (#[trigger] ids[i])@ == name {
        let i = choose|i: int| 0 <= i < ids.len() && (#[trigger] ids[i])@ == name;
        assert(names(ids)[i] == name);
    }
}

/// The Languages pane shows the row of every layout.
pub proof fn law_the_languages_pane_shows_every_layout(app: SettingsApp, r: int)
    requires
        0 <= r < app.os_layouts@.len(),
    ensures
        shows(languages_lines(app), layout_rows_lines(app, app.os_layouts@.len())[r]),
{
    let n = app.os_layouts@.len();
    lemma_layout_rows(app, n);
    let rows = layout_rows_lines(app, n);
    let all = languages_lines(app);
    let top = crate::settings_ui::view::languages_top_lines(
        crate::settings_ui::view::languages_status(app.settings.languages.active@.len()),
    );
    assert(all[top.len() + 1 + r] == rows[r]);
}

/// The head of the Languages pane says how many layouts the user restricted
/// the engine to, or that all are considered.
pub proof fn law_the_status_counts_the_layouts(n: nat, m: nat)
    ensures
        languages_status(n) == languages_status(m) ==> n == m,
        n > 0 ==> languages_status(n).args.len() == 1 && languages_status(n).args[0] == decimal(n),
        languages_status(0).args.len() == 0,
{
    if languages_status(n) == languages_status(m) {
        assert(languages_status(n).args.len() == languages_status(m).args.len());
        if n > 0 {
            assert(languages_status(n).args[0] == decimal(n));
            assert(languages_status(m).args[0] == decimal(m));
            law_a_written_number_is_read_back(n as int);
            law_a_written_number_is_read_back(m as int);
        }
    }
}

// ─── Commands and exceptions ─────────────────────────────────────────

/// Each command has its row: its trigger, what it does, and a button that
/// removes that one.
pub proof fn law_every_command_has_its_row(
    commands: Seq<UserCommand>,
    summaries: Seq<String>,
    n: nat,
    i: int,
)
    requires
        0 <= i < n <= commands.len(),
    ensures
        command_rows_lines(commands, summaries, n).len() == n,
        ({
            let line = command_rows_lines(commands, summaries, n)[i];
            &&& line is Removable
            &&& line->key == commands[i].trigger@
            &&& line->Removable_text == summaries[i]@
            &&& line->remove == UiAction::CommandRemove(i as usize)
        }),
    decreases n,
{
    lemma_command_rows(commands, summaries, n);
    if i < n - 1 {
        law_every_command_has_its_row(commands, summaries, (n - 1) as nat, i);
        lemma_command_rows(commands, summaries, (n - 1) as nat);
    }
}

proof fn lemma_command_rows(commands: Seq<UserCommand>, summaries: Seq<String>, n: nat)
    ensures
        command_rows_lines(commands, summaries, n).len() == n,
    decreases n,
{
    if n > 0 {
        lemma_command_rows(commands, summaries, (n - 1) as nat);
    }
}

/// The Commands pane shows the row of every command.
pub proof fn law_the_commands_pane_shows_every_command(
    app: SettingsApp,
    summaries: Seq<String>,
    i: int,
)
    requires
        0 <= i < app.settings.commands@.len(),
    ensures
        shows(
            commands_lines(app, summaries),
            command_rows_lines(app.settings.commands@, summaries, app.settings.commands@.len())[i],
        ),
{
    let commands = app.settings.commands@;
    lemma_command_rows(commands, summaries, commands.len());
    let rows = command_rows_lines(commands, summaries, commands.len());
    let top = crate::settings_ui::view::commands_top_lines();
    assert(commands_lines(app, summaries)[top.len() + i] == rows[i]);
}

/// Each excepted application has its row, with a button that removes that
/// one, and the Exceptions pane shows it.
pub proof fn law_every_exception_has_its_row(app: SettingsApp, i: int)
    requires
        0 <= i < app.settings.exceptions.disabled_apps@.len(),
    ensures
        exists|k: int| {
            &&& 0 <= k < exceptions_lines(app).len()
            &&& (#[trigger] exceptions_lines(app)[k]) is Removable
            &&& exceptions_lines(app)[k]->key == app.settings.exceptions.disabled_apps@[i]@
            &&& exceptions_lines(app)[k]->remove == UiAction::ExceptionRemove(i as usize)
        },
{
    let apps = app.settings.exceptions.disabled_apps@;
    lemma_exception_rows(apps, apps.len(), i);
    let rows = exception_rows_lines(apps, apps.len());
    let top = crate::settings_ui::view::exceptions_top_lines();
    assert(exceptions_lines(app)[top.len() + i] == rows[i]);
}

proof fn lemma_exception_rows(apps: Seq<String>, n: nat, i: int)
    requires
        n <= apps.len(),
    ensures
        exception_rows_lines(apps, n).len() == n,
        0 <= i < n ==> {
            let line = exception_rows_lines(apps, n)[i];
            line is Removable && line->key == apps[i]@ && line->remove == UiAction::ExceptionRemove(
                i as usize,
            )
        },
    decreases n,
{
    if n > 0 {
        lemma_exception_rows(apps, (n - 1) as nat, i);
    }
}

// ─── Choices ─────────────────────────────────────────────────────────

/// Every pane has its chip in the navigation, and the one that is selected
/// is the one that leads where the window is.
pub proof fn law_every_pane_has_its_chip(
    setup: Seq<char>,
    pane: Pane,
    version: Seq<char>,
    other: Pane,
)
    ensures
        ({
            let chips = navigation_lines(setup, pane, version)[1]->Chips_chips;
            &&& exists|i: int|
                0 <= i < chips.len() && (#[trigger] chips[i]).action == UiAction::SelectPane(other)
            &&& forall|i: int|
                0 <= i < chips.len() ==> ((#[trigger] chips[i]).selected <==> chips[i].action
                    == UiAction::SelectPane(pane))
        }),
{
    let chips = navigation_lines(setup, pane, version)[1]->Chips_chips;
    let at: int = match other {
        Pane::Setup => 0,
        Pane::Languages => 1,
        Pane::Hotkeys => 2,
        Pane::Commands => 3,
        Pane::Wordlists => 4,
        Pane::General => 5,
        Pane::Exceptions => 6,
        Pane::Suggestions => 7,
        Pane::Plugins => 8,
        Pane::About => 9,
    };
    assert(chips[at].action == UiAction::SelectPane(other));
}

/// A chip leads where it says: the pane that opens bears the chip's name at
/// its head.
pub proof fn law_a_chip_leads_where_it_says(
    app: SettingsApp,
    ctx: PaneContext,
    setup: Seq<char>,
    version: Seq<char>,
    i: int,
)
    requires
        0 <= i < navigation_lines(setup, app.pane, version)[1]->Chips_chips.len(),
        navigation_lines(setup, app.pane, version)[1]->Chips_chips[i].action
            == UiAction::SelectPane(app.pane),
    ensures
        body_lines(app, ctx) is None <==> app.pane == Pane::Setup || app.pane == Pane::Plugins,
        body_lines(app, ctx) is Some && app.pane != Pane::About ==> {
            let head = body_lines(app, ctx)->0[0];
            &&& head is Header
            &&& head->title.text == navigation_lines(
                setup,
                app.pane,
                version,
            )[1]->Chips_chips[i].label.text
        },
{
}

/// The choice that is selected is the one in force, and each can be made:
/// the list to edit, the kind of a new command, the theme, the tray icon and
/// whether the engine acts on its own.
pub proof fn law_the_selected_choice_is_in_force(
    kind: WordlistKind,
    action: CommandActionKind,
    theme: ThemeChoice,
    tray: TrayIconStyle,
    g: GeneralSettings,
    e: EngineSettings,
    text: Seq<char>,
    i: int,
)
    ensures
        ({
            let lists = kind_picker_lines(kind)[0]->Chips_chips;
            let actions = command_form_lines(text, text, action, text, text)[5]->Chips_chips;
            let themes = appearance_lines(theme, tray)[2]->Chips_chips;
            let icons = appearance_lines(theme, tray)[4]->Chips_chips;
            let modes = behaviour_lines(g, e)[3]->Chips_chips;
            &&& lists.len() == 2 && actions.len() == 3 && themes.len() == 3 && icons.len() == 3
                && modes.len() == 2
            &&& 0 <= i < 2 ==> (lists[i].selected <==> lists[i].action == UiAction::WordlistKind(
                kind,
            ))
            &&& 0 <= i < 3 ==> (actions[i].selected <==> actions[i].action
                == UiAction::CommandKind(action))
            &&& 0 <= i < 3 ==> (themes[i].selected <==> themes[i].action == UiAction::Theme(theme))
            &&& 0 <= i < 3 ==> (icons[i].selected <==> icons[i].action == UiAction::TrayIcon(tray))
            &&& 0 <= i < 2 ==> (modes[i].selected <==> modes[i].action == UiAction::ManualOnly(
                g.paused,
            ))
            &&& lists[0].selected || lists[1].selected
            &&& actions[0].selected || actions[1].selected || actions[2].selected
            &&& themes[0].selected || themes[1].selected || themes[2].selected
            &&& icons[0].selected || icons[1].selected || icons[2].selected
            &&& modes[0].selected != modes[1].selected
        }),
{
}

/// Each profile has its chip behind the global one, under its name or, where
/// it has none, its id; selected is the one that is being edited.
pub proof fn law_every_profile_has_its_chip(
    profiles: Seq<WordlistProfile>,
    chosen: Seq<char>,
    n: nat,
    i: int,
)
    requires
        n <= profiles.len(),
    ensures
        ({
            let chips = profile_chips(profiles, chosen, n);
            &&& chips.len() == n + 1
            &&& chips[0].action == UiAction::WordlistProfile(None)
            &&& chips[0].selected <==> chosen.len() == 0
            &&& 0 <= i < n ==> {
                &&& chips[i + 1].action == UiAction::WordlistProfile(Some(i as usize))
                &&& chips[i + 1].selected <==> profiles[i].id@ == chosen
                &&& profiles[i].name@.len() > 0 ==> chips[i + 1].label.text == profiles[i].name@
                &&& profiles[i].name@.len() == 0 ==> chips[i + 1].label.text == profiles[i].id@
            }
        }),
    decreases n,
{
    if n > 0 {
        law_every_profile_has_its_chip(profiles, chosen, (n - 1) as nat, i);
    }
}

/// Each layout has its chip, under its own name; selected is the one that is
/// being edited.
pub proof fn law_every_layout_has_its_chip(
    ids: Seq<LayoutId>,
    chosen: Option<LayoutId>,
    n: nat,
    i: int,
)
    requires
        n <= ids.len(),
    ensures
        ({
            let chips = layout_chips(ids, chosen, n);
            &&& chips.len() == n
            &&& 0 <= i < n ==> {
                &&& chips[i].action == UiAction::WordlistLayout(i as usize)
                &&& chips[i].label.text == ids[i]@
                &&& chips[i].selected <==> chosen is Some && chosen->0@ == ids[i]@
            }
        }),
    decreases n,
{
    if n > 0 {
        law_every_layout_has_its_chip(ids, chosen, (n - 1) as nat, i);
    }
}

// ─── Controls ────────────────────────────────────────────────────────

/// A tick shows the setting that its own action changes.
pub proof fn law_a_tick_shows_its_setting(g: GeneralSettings, e: EngineSettings, i: int)
    requires
        0 <= i < behaviour_lines(g, e).len(),
        behaviour_lines(g, e)[i] is Check,
    ensures
        ({
            let line = behaviour_lines(g, e)[i];
            &&& line->Check_action is Some
            &&& match line->Check_action->0 {
                UiAction::Autostart => line->on == g.autostart,
                UiAction::SoundOnCorrect => line->on == g.sound_on_correct,
                UiAction::ShowNotifications => line->on == g.show_notifications,
                UiAction::SuppressInIdentifiers => line->on == e.suppress_in_identifiers,
                _ => false,
            }
        }),
{
}

/// While suggestions are off, nothing but the switch that turns them on can
/// be used; while they are on, everything can.
pub proof fn law_what_is_off_cannot_be_used(s: SuggestionSettings, i: int)
    requires
        0 <= i < tooltip_card_lines(s).len(),
    ensures
        ({
            let line = tooltip_card_lines(s)[i];
            &&& line is Check ==> line->on == s.enabled && line->Check_action == Some(
                UiAction::SuggestionsEnabled,
            )
            &&& line is Stepper ==> (line->down_action is Some <==> s.enabled) && (line->up_action
                is Some <==> s.enabled)
            &&& line is Input ==> (line->Input_action is Some <==> s.enabled)
                && line->Input_value == s.accept_modifiers@
        }),
{
}

/// A stepper shows its own number, and its two buttons are each other's
/// opposites.
pub proof fn law_a_stepper_counts_both_ways(
    g: GeneralSettings,
    e: EngineSettings,
    s: SuggestionSettings,
    i: int,
    j: int,
)
    requires
        0 <= i < behaviour_lines(g, e).len(),
        0 <= j < tooltip_card_lines(s).len(),
    ensures
        behaviour_lines(g, e)[i] is Stepper ==> {
            let line = behaviour_lines(g, e)[i];
            &&& line->down_action matches Some(UiAction::IdleTimeout(d)) && line->up_action
                matches Some(UiAction::IdleTimeout(u)) && u > 0 && d == -u
            &&& trimmed(line->Stepper_value) == decimal(e.idle_timeout_ms as nat)
        },
        tooltip_card_lines(s)[j] is Stepper && s.enabled ==> {
            let line = tooltip_card_lines(s)[j];
            ||| line->down_action matches Some(UiAction::SuggestionMax(d)) && line->up_action
                matches Some(UiAction::SuggestionMax(u)) && u > 0 && d == -u && trimmed(
                line->Stepper_value,
            ) == decimal(s.max_suggestions as nat)
            ||| line->down_action matches Some(UiAction::SuggestionTimeout(d)) && line->up_action
                matches Some(UiAction::SuggestionTimeout(u)) && u > 0 && d == -u && trimmed(
                line->Stepper_value,
            ) == decimal(s.tooltip_timeout_secs as nat)
        },
{
    law_padding_keeps_the_number(e.idle_timeout_ms as nat, 5);
    law_padding_keeps_the_number(s.max_suggestions as nat, 2);
    law_padding_keeps_the_number(s.tooltip_timeout_secs as nat, 3);
}

/// A padded number is as wide as it is to be, and still the number.
pub proof fn law_padding_keeps_the_number(n: nat, width: nat)
    ensures
        padded(decimal(n), width).len() >= width,
        padded(decimal(n), width).len() == width || padded(decimal(n), width) == decimal(n),
        trimmed(padded(decimal(n), width)) == decimal(n),
{
    let s = decimal(n);
    law_trimming_leaves_a_number_alone(n);
    if s.len() < width {
        lemma_spaces_are_trimmed(s, (width - s.len()) as nat);
    }
}

proof fn lemma_spaces_are_trimmed(s: Seq<char>, n: nat)
    ensures
        trim_start(Seq::new(n, |i: int| ' ') + s) == trim_start(s),
    decreases n,
{
    let front = Seq::new(n, |i: int| ' ');
    let t = front + s;
    if n == 0 {
        assert(t =~= s);
    } else {
        assert(t[0] == ' ');
        assert(is_space(' '));
        assert(t.drop_first() =~= Seq::new((n - 1) as nat, |i: int| ' ') + s);
        lemma_spaces_are_trimmed(s, (n - 1) as nat);
    }
}

/// Selections can be converted exactly where the session supports it; the
/// tick is off where it does not.
pub proof fn law_selections_need_support(app: SettingsApp)
    ensures
        ({
            let line = selection_lines(app)[0];
            &&& line is Check
            &&& line->Check_action is Some <==> app.selection_support is Ok
            &&& line->Check_action is Some ==> line->Check_action->0 == UiAction::SelectionEnabled
                && line->on == app.settings.selection.enabled
            &&& line->Check_action is None ==> !line->on
        }),
{
}

/// A hotkey shows its chord, key by key, and the button that rebinds it;
/// while it is being rebound it shows the prompt and the button that cancels
/// that. The other hotkey is not touched by it.
pub proof fn law_a_hotkey_shows_its_chord(
    app: SettingsApp,
    label: Seq<char>,
    e: EffectiveHotkey,
    kind: HotkeyKind,
    tap_name: Seq<char>,
)
    ensures
        ({
            let lines = hotkey_row_lines(app, label, e, kind, tap_name);
            let line = lines[0];
            let rebound = app.capturing is Some && app.capturing->0 == kind;
            &&& line is Hotkey
            &&& line->prompt is Some <==> rebound
            &&& !rebound ==> joined(line->keys, seq!['+']) == e.chord@ && line->button.action
                == UiAction::RebindStart(kind)
            &&& rebound ==> line->keys.len() == 0 && line->button.action == UiAction::RebindCancel
            &&& lines.len() == 2 <==> hotkey_note(e) is Some
            &&& e.substitution is Some ==> lines.len() == 2
        }),
{
    law_the_pieces_make_up_the_text(e.chord@, '+');
}

/// A banner is shown as it is, and nothing where there is none.
pub proof fn law_a_banner_is_shown_as_it_is(banner: Option<SaveBanner>)
    ensures
        status_lines(banner).len() == if banner is Some {
            1int
        } else {
            0
        },
        banner is Some ==> status_lines(banner)[0]->Status_text == banner->0.text@
            && status_lines(banner)[0]->is_error == banner->0.is_error,
{
}

/// A button does what it says, and every folder, link and way back is there
/// to be had.
pub proof fn law_a_button_does_what_it_says(version: Seq<char>, config: Seq<char>, i: int)
    ensures
        ({
            let folders = folders_lines()[2]->Buttons_0;
            let links = about_body_lines(version, config)[4]->Buttons_0;
            let ways_back = about_body_lines(version, config)[8]->Buttons_0;
            let footer = footer_buttons_lines()[0]->Buttons_0;
            &&& folders.len() == 4 && links.len() == 3 && ways_back.len() == 2 && footer.len() == 2
            &&& 0 <= i < 4 ==> match folders[i].action {
                UiAction::OpenConfigFile => folders[i].label.text == "Open config.toml"@,
                UiAction::OpenLogsDir => folders[i].label.text == "Logs"@,
                UiAction::OpenWordlistsDir => folders[i].label.text == "User wordlists"@,
                UiAction::OpenLayoutsDir => folders[i].label.text == "User layouts"@,
                _ => false,
            }
            &&& 0 <= i < 3 ==> match links[i].action {
                UiAction::OpenLink(Link::Site) => links[i].label.text == "poltertype.com"@,
                UiAction::OpenLink(Link::Repository) => links[i].label.text == "GitHub"@,
                UiAction::OpenLink(Link::Issues) => links[i].label.text == "Report an issue"@,
                _ => false,
            }
            &&& 0 <= i < 2 ==> match ways_back[i].action {
                UiAction::ResetDefaults => ways_back[i].label.text == "Reset to defaults"@,
                UiAction::Reload => ways_back[i].label.text == "Reload from disk"@,
                _ => false,
            }
            &&& 0 <= i < 2 ==> match footer[i].action {
                UiAction::Reload => footer[i].label.text == "Reload"@,
                UiAction::Save => footer[i].label.text == "Save"@,
                _ => false,
            }
            &&& forall|j: int, k: int|
                0 <= j < k < 4 ==> (#[trigger] folders[j]).action != (#[trigger] folders[k]).action
            &&& forall|j: int, k: int|
                0 <= j < k < 3 ==> (#[trigger] links[j]).action != (#[trigger] links[k]).action
            &&& ways_back[0].action != ways_back[1].action
            &&& footer[0].action != footer[1].action
            &&& about_body_lines(version, config)[2]->Hint_0.text == version
            &&& about_body_lines(version, config)[9]->Mono_0.text == config
        }),
{
}

/// The form for a new command holds what is being typed, box by box, and its
/// last box and its button add the command.
pub proof fn law_the_form_holds_what_is_typed(
    name: Seq<char>,
    trigger: Seq<char>,
    kind: CommandActionKind,
    param: Seq<char>,
    apps: Seq<char>,
    i: int,
)
    requires
        0 <= i < command_form_lines(name, trigger, kind, param, apps).len(),
        command_form_lines(name, trigger, kind, param, apps)[i] is Input,
    ensures
        ({
            let line = command_form_lines(name, trigger, kind, param, apps)[i];
            match line->Input_action {
                Some(UiAction::CommandName) => line->Input_value == name,
                Some(UiAction::CommandTrigger) => line->Input_value == trigger,
                Some(UiAction::CommandParam) => line->Input_value == param,
                Some(UiAction::CommandApps) => line->Input_value == apps && line->submit == Some(
                    UiAction::CommandAdd,
                ),
                _ => false,
            }
        }),
{
}

/// The Setup pane is marked exactly while something is unresolved, and the
/// mark only adds to its name.
pub proof fn law_setup_is_marked_while_it_needs_attention()
    ensures
        setup_label(true) != setup_label(false),
        setup_label(true).len() > setup_label(false).len(),
        setup_label(true).take(setup_label(false).len() as int) == setup_label(false),
{
    reveal_strlit("Setup  (!)");
    reveal_strlit("Setup");
    assert(setup_label(true).take(5) =~= setup_label(false));
}

// ─── Texts ───────────────────────────────────────────────────────────

/// Each `{}` of a text takes the next of the arguments, and all else stays:
/// up to the first brace the text is kept, and from behind the `{}` on it
/// goes on with the rest of the arguments; without arguments, or without a
/// brace, the text is kept whole.
pub proof fn law_a_text_takes_its_arguments_in_order(
    front: Seq<char>,
    rest: Seq<char>,
    args: Seq<Seq<char>>,
)
    requires
        forall|i: int| 0 <= i < front.len() ==> #[trigger] front[i] != '{',
    ensures
        filled(front, args) == front,
        filled(rest, Seq::empty()) == rest,
        args.len() > 0 ==> filled(front + seq!['{', '}'] + rest, args) == front + args[0] + filled(
            rest,
            args.skip(1),
        ),
    decreases front.len(),
{
    let whole = front + seq!['{', '}'] + rest;
    if front.len() > 0 {
        let tail = front.skip(1);
        assert forall|i: int| 0 <= i < tail.len() implies #[trigger] tail[i] != '{' by {
            assert(tail[i] == front[i + 1]);
        }
        assert(front[0] != '{');
        law_a_text_takes_its_arguments_in_order(tail, rest, args);
        assert(seq![front[0]] + tail =~= front);
        if args.len() > 0 {
            assert(whole.skip(1) =~= tail + seq!['{', '}'] + rest);
            assert(whole[0] == front[0]);
            assert(seq![front[0]] + (tail + args[0] + filled(rest, args.skip(1))) =~= front
                + args[0] + filled(rest, args.skip(1)));
        }
    } else if args.len() > 0 {
        assert(whole[0] == '{' && whole[1] == '}');
        assert(whole.skip(2) =~= rest);
        assert(front + args[0] + filled(rest, args.skip(1)) =~= args[0] + filled(
            rest,
            args.skip(1),
        ));
    }
}

} // verus!
