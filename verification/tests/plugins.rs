use poltertype::assoc::AssocMap;
use poltertype::plugins::menu::{
    count_label, look_of, parse_rows, routes_of, MenuClick, MenuEntry, PluginMenu,
};
use poltertype::plugins::supervisor::{
    read_report, read_rows, read_state, run_command, run_command_for_row,
    run_command_for_row_waiting, Supervisor,
};
use poltertype::plugins::types::{
    ControlKind, Decimal, DiscoveredExtension, Manifest, PaneControl, PaneField, PaneOption,
    SettingValue, TrayAction, TrayItem, TrayItemKind, TrayList,
};
use poltertype::settings_ui::plugin_edits::{
    config_file_name, load_all, ConfigSnapshot, Edit, EditOutcome,
};
use poltertype::settings_ui::plugin_pane::{
    parse_list_rows, CommandOutput, PluginPane, Slot, Typing,
};

fn control(kind: ControlKind, key: &str, command: &str) -> PaneControl {
    PaneControl {
        kind,
        key: key.to_owned(),
        command: command.to_owned(),
        options: Vec::new(),
        fields: Vec::new(),
        id_field: String::new(),
    }
}

fn field(kind: ControlKind, key: &str, command: &str) -> PaneField {
    PaneField { kind, key: key.to_owned(), command: command.to_owned(), options: Vec::new() }
}

fn extension(pane: Vec<PaneControl>) -> DiscoveredExtension {
    DiscoveredExtension {
        id: "ext".to_owned(),
        manifest: Manifest {
            pane,
            tray_items: Vec::new(),
            tray_lists: Vec::new(),
            attention_state_key: String::new(),
            config_file: String::new(),
        },
    }
}

fn snapshot(pane: &[PaneControl]) -> ConfigSnapshot {
    ConfigSnapshot {
        settings: pane.iter().map(|_| None).collect(),
        arrays: pane.iter().map(|_| Vec::new()).collect(),
        records: pane.iter().map(|_| Vec::new()).collect(),
    }
}

fn text(s: &str) -> SettingValue {
    SettingValue::Text(s.to_owned())
}

fn as_text(v: &SettingValue) -> String {
    v.as_display()
}

// ─── The tray menu ───────────────────────────────────────────────────

#[test]
fn rows_are_read_line_by_line() {
    let rows = parse_rows("a\tFirst\t one \t\ttwo\r\n\n b \n\tno id\n");
    assert_eq!(rows.len(), 2);
    assert_eq!((rows[0].id.as_str(), rows[0].label.as_str()), ("a", "First"));
    assert_eq!(rows[0].details, vec!["one", "two"]);
    assert_eq!((rows[1].id.as_str(), rows[1].label.as_str()), ("b", "b"));
    assert!(parse_rows("").is_empty());
}

#[test]
fn the_count_takes_the_place_of_the_placeholder() {
    assert_eq!(count_label("{} waiting {}", 3), "3 waiting {}");
    assert_eq!(count_label("Drafts", 12), "Drafts (12)");
    assert_eq!(count_label("", 0), " (0)");
}

fn list(label: &str, command: &str, empty: &str) -> TrayList {
    TrayList {
        label: label.to_owned(),
        command: command.to_owned(),
        empty_label: empty.to_owned(),
        actions: vec![
            TrayAction { label: "Open".to_owned(), command: "open".to_owned() },
            TrayAction { label: "Drop".to_owned(), command: "drop".to_owned() },
        ],
        bulk: vec![TrayAction { label: "Clear".to_owned(), command: "clear".to_owned() }],
    }
}

#[test]
fn an_empty_list_cannot_be_opened() {
    let look = look_of(&list("Drafts", "ls", " Nothing here "), 0);
    assert_eq!((look.title.as_str(), look.enabled), ("Nothing here", false));
    let look = look_of(&list("Drafts", "ls", "  "), 0);
    assert_eq!((look.title.as_str(), look.enabled), ("Drafts (0)", false));
    let look = look_of(&list("Drafts {}", "ls", "none"), 2);
    assert_eq!((look.title.as_str(), look.enabled), ("Drafts 2", true));
}

#[test]
fn every_action_of_every_row_has_a_route() {
    let routes = routes_of(4, &list("Drafts", "ls", ""), &parse_rows("a\nb"));
    let seen: Vec<(&str, &str)> =
        routes.iter().map(|r| (r.command.as_str(), r.row.as_str())).collect();
    assert_eq!(
        seen,
        vec![("open", "a"), ("drop", "a"), ("open", "b"), ("drop", "b"), ("clear", "")]
    );
    assert!(routes.iter().all(|r| r.ext == 4));
    assert!(routes_of(4, &list("Drafts", "ls", ""), &Vec::new()).is_empty());
}

fn with_menu() -> DiscoveredExtension {
    let mut e = extension(Vec::new());
    e.manifest.tray_items = vec![
        TrayItem { label: "S".to_owned(), command: "s".to_owned(), kind: TrayItemKind::Status },
        TrayItem { label: "C".to_owned(), command: "c".to_owned(), kind: TrayItemKind::Check },
        TrayItem { label: "P".to_owned(), command: "p".to_owned(), kind: TrayItemKind::Plain },
    ];
    e.manifest.tray_lists = vec![list("A", " ", ""), list("B", "ls", "none")];
    e.manifest.attention_state_key = " waiting ".to_owned();
    e
}

#[test]
fn a_menu_has_a_section_for_each_plug_in_that_declares_entries() {
    let mut menu = PluginMenu::build(vec![extension(Vec::new()), with_menu()]);
    assert_eq!(
        menu.entries,
        vec![
            MenuEntry::Separator,
            MenuEntry::Status { ext: 1, item: 0 },
            MenuEntry::Check { ext: 1, item: 1 },
            MenuEntry::Plain { ext: 1, item: 2 },
            MenuEntry::List { ext: 1, list: 1 },
        ]
    );
    assert!(menu.reports_state());
    assert_eq!(menu.attention(), 0);
    assert_eq!(menu.lists[0].look.title, "none");
    menu.refresh();
    assert_eq!(menu.lists.len(), 1);
    assert_eq!(menu.lists[0].look.title, "none");
    assert!(menu.row_routes.is_empty());
    assert!(!PluginMenu::build(vec![extension(Vec::new())]).reports_state());
}

#[test]
fn a_click_on_an_entry_is_answered_by_the_plug_in() {
    let menu = PluginMenu::build(vec![with_menu()]);
    assert!(menu.handle(MenuClick::Entry(0)).is_none());
    assert!(menu.handle(MenuClick::Entry(1)).is_none());
    let refused = menu.handle(MenuClick::Entry(3)).unwrap().unwrap_err();
    assert!(refused.contains("disabled"));
    assert!(menu.handle(MenuClick::Entry(2)).is_some());
    assert!(menu.handle(MenuClick::Entry(99)).is_none());
    assert!(menu.handle(MenuClick::Row(0)).is_none());
}

#[test]
fn a_click_runs_its_own_command_on_its_own_row() {
    let mut menu = PluginMenu::build(vec![extension(Vec::new()), with_menu()]);
    let own = |c: &str, r: &str| Some((1, c.to_owned(), r.to_owned()));
    assert_eq!(menu.target(MenuClick::Entry(0)), None, "a separator runs nothing");
    assert_eq!(menu.target(MenuClick::Entry(1)), None, "a status line runs nothing");
    assert_eq!(menu.target(MenuClick::Entry(2)), own("c", ""));
    assert_eq!(menu.target(MenuClick::Entry(3)), own("p", ""));
    assert_eq!(menu.target(MenuClick::Entry(4)), None, "a list opens, it runs nothing");
    menu.row_routes = routes_of(1, &list("B", "ls", ""), &parse_rows("a\nb"));
    assert_eq!(menu.target(MenuClick::Row(3)), own("drop", "b"));
    assert_eq!(menu.target(MenuClick::Row(4)), own("clear", ""));
    assert_eq!(menu.target(MenuClick::Row(5)), None);
    menu.row_routes[0].ext = 9;
    assert_eq!(menu.target(MenuClick::Row(0)), None);
    assert!(menu.handle(MenuClick::Row(0)).is_none());
    assert!(menu.handle(MenuClick::Row(1)).is_some());
}

#[test]
fn what_waits_is_added_up() {
    let mut menu = PluginMenu::build(vec![with_menu(), with_menu(), extension(Vec::new())]);
    let state = |v: &str| {
        let mut m: AssocMap<String, String> = AssocMap::new();
        m.insert("waiting".to_owned(), v.to_owned());
        Some(m)
    };
    menu.count_attention(&vec![state(" 3 "), state("4"), state("5")]);
    assert_eq!(menu.attention(), 7);
    menu.count_attention(&vec![state("many"), None, None]);
    assert_eq!(menu.attention(), 0);
}

#[test]
fn no_plug_in_runs() {
    let e = with_menu();
    let mut s = Supervisor::new();
    assert!(s.reap().is_empty() && !s.has_services());
    s.stop_all();
    assert!(run_command(&e, "c").is_err());
    assert!(run_command_for_row(&e, "c", "r").is_err());
    assert!(run_command_for_row_waiting(&e, "c", "r").is_err());
    assert!(read_report(&e, "c").is_err());
    assert!(read_rows(&e, "c").is_empty());
    assert!(read_state(&e).is_none());
}

// ─── The pane ────────────────────────────────────────────────────────

#[test]
fn list_rows_have_an_id_a_label_and_a_detail() {
    let rows = parse_list_rows("a\tAlpha\tfirst\nb\n\n");
    assert_eq!(rows.len(), 2);
    assert_eq!(
        (rows[0].id.as_str(), rows[0].label.as_str(), rows[0].detail.as_str()),
        ("a", "Alpha", "first")
    );
    assert_eq!((rows[1].id.as_str(), rows[1].label.as_str()), ("b", "b"));
}

fn pane_with_everything() -> PluginPane {
    let mut records = control(ControlKind::Records, "people", "");
    records.fields = vec![
        field(ControlKind::Text, "name", ""),
        field(ControlKind::Suggest, "model", "models"),
    ];
    records.id_field = "name".to_owned();
    let pane = vec![
        control(ControlKind::Toggle, "on", ""),
        control(ControlKind::Section, "", ""),
        control(ControlKind::Report, "", "status"),
        control(ControlKind::List, "members", "ls"),
        control(ControlKind::Section, "", ""),
        control(ControlKind::Strings, "tags", ""),
        control(ControlKind::Number, "limit", ""),
        records,
    ];
    let mut snap = snapshot(&pane);
    snap.settings[0] = Some(SettingValue::Bool(true));
    snap.arrays[3] = vec!["a".to_owned()];
    snap.arrays[5] = vec!["x".to_owned(), "y".to_owned()];
    snap.settings[6] = Some(SettingValue::Int(-4));
    snap.records[7] = vec![vec![Some(text("Ann")), None], vec![None, Some(text("m2"))]];
    PluginPane::load(extension(pane), "/etc/ext.toml".to_owned(), &snap)
}

#[test]
fn a_pane_opens_with_what_the_file_holds() {
    let p = pane_with_everything();
    assert_eq!(p.display_of(0).as_deref(), Some("true"));
    assert_eq!(p.display_of(5).as_deref(), Some("x, y"));
    assert_eq!(p.display_of(6).as_deref(), Some("-4"));
    assert_eq!(p.display_of(1), None);
    assert!(p.in_array(3, "a") && !p.in_array(3, "b"));
    assert_eq!(p.record_rows(7).len(), 2);
    assert_eq!(p.record_display(7, 0, "name").as_deref(), Some("Ann"));
    assert_eq!(p.record_id(7, 0).as_deref(), Some("Ann"));
    assert_eq!(p.record_id(7, 1), None);
    assert_eq!(config_file_name(&p.ext), "config.toml");
}

#[test]
fn one_section_is_on_screen_at_a_time() {
    let mut p = pane_with_everything();
    assert_eq!(p.sections(), vec![1, 4]);
    assert_eq!(p.selected_section(), Some(1));
    assert!(p.is_visible(0), "what stands before the first section is always there");
    assert!(p.is_visible(2) && p.is_visible(3));
    assert!(!p.is_visible(5) && !p.is_visible(7));
    let snap = snapshot(&p.ext.manifest.pane);
    p.select_section(4, &snap);
    assert_eq!(p.selected_section(), Some(4));
    assert!(!p.is_visible(2) && p.is_visible(7));
    assert!(p.is_visible(0));
}

#[test]
fn commands_are_asked_once() {
    let mut p = pane_with_everything();
    let slots = p.command_slots();
    assert!(slots.contains(&Slot::control(2)));
    assert!(slots.contains(&Slot::control(3)));
    assert_eq!(p.command_id(Slot::control(2)), Some("status"));
    assert_eq!(p.unasked_commands().len(), slots.len());
    p.set_output(Slot::control(2), CommandOutput::Loading);
    assert_eq!(p.unasked_commands().len(), slots.len() - 1);
    p.set_output(Slot::control(3), CommandOutput::Ready("a\tAlpha\nb".to_owned()));
    assert_eq!(p.list_rows(Slot::control(3)).len(), 2);
    assert!(matches!(p.output(Slot::control(2)), Some(CommandOutput::Loading)));
    p.set_output(Slot::control(3), CommandOutput::Failed("no".to_owned()));
    assert!(p.list_rows(Slot::control(3)).is_empty());
    assert!(p.unasked_by_command().is_empty(), "the other section is not on screen");
    let snap = snapshot(&p.ext.manifest.pane);
    p.select_section(4, &snap);
    let slot = Slot { control: 7, field: Some(1), row: None };
    assert_eq!(p.unasked_by_command(), vec![vec![slot]]);
    assert_eq!(p.sharing_command(slot), vec![slot]);
}

#[test]
fn suggestions_do_not_repeat_themselves() {
    let mut c = control(ControlKind::Suggest, "model", "models");
    c.options = vec![
        PaneOption { value: "gamma".to_owned(), detail: "declared".to_owned() },
        PaneOption { value: "alpha".to_owned(), detail: "declared".to_owned() },
    ];
    let pane = vec![c];
    let snap = snapshot(&pane);
    let mut p = PluginPane::load(extension(pane), String::new(), &snap);
    let slot = Slot::control(0);
    p.set_output(slot, CommandOutput::Ready("alpha\tAlpha\tprinted\nbeta".to_owned()));
    let all: Vec<String> = p.suggestions(slot).into_iter().map(|(v, _)| v).collect();
    let mut unique = all.clone();
    unique.sort();
    unique.dedup();
    assert_eq!(all.len(), unique.len());
    assert_eq!(unique, vec!["alpha", "beta", "gamma"]);
    p.set_text(0, " \t".to_owned());
    assert_eq!(p.suggestions_matching(slot), p.suggestions(slot), "blanks narrow nothing");
    p.set_text(0, "ALPH".to_owned());
    let narrowed: Vec<String> =
        p.suggestions_matching(slot).into_iter().map(|(v, _)| v).collect();
    assert_eq!(narrowed, vec!["alpha"]);
    assert!(p.suggest_open(slot));
}

#[test]
fn a_choice_named_twice_is_offered_once() {
    let mut c = control(ControlKind::Suggest, "model", "models");
    c.options = vec![
        PaneOption { value: "alpha".to_owned(), detail: "first".to_owned() },
        PaneOption { value: "beta".to_owned(), detail: "second".to_owned() },
        PaneOption { value: "alpha".to_owned(), detail: "third".to_owned() },
    ];
    let pane = vec![c];
    let snap = snapshot(&pane);
    let mut p = PluginPane::load(extension(pane), String::new(), &snap);
    let slot = Slot::control(0);
    p.set_output(slot, CommandOutput::Ready("gamma\nbeta\ngamma".to_owned()));
    let offer = p.suggestions(slot);
    let seen: Vec<(&str, &str)> = offer.iter().map(|(v, d)| (v.as_str(), d.as_str())).collect();
    assert_eq!(seen, vec![("alpha", "first"), ("beta", "second"), ("gamma", "")]);
    assert_eq!(p.suggestions_matching(slot), offer, "nothing is typed");
}

#[test]
fn toggling_the_suggestions_twice_changes_nothing() {
    let mut p = pane_with_everything();
    let slot = Slot::field(7, 0, 1);
    p.toggle_suggest(slot);
    assert!(p.suggest_open(slot));
    p.toggle_suggest(slot);
    assert!(!p.suggest_open(slot));
    p.toggle_suggest(slot);
    p.close_suggest();
    assert!(p.open_suggest.is_none());
}

#[test]
fn one_action_runs_at_a_time() {
    let mut p = pane_with_everything();
    assert!(!p.any_action_running());
    p.set_action_running(Some((7, 1)));
    assert!(p.action_running(7, 1) && !p.action_running(7, 0));
    assert!(p.any_action_running());
}

#[test]
fn an_edit_names_the_key_it_writes() {
    let mut p = pane_with_everything();
    match p.set(0, SettingValue::Bool(false)) {
        Some(Edit::Setting { index: 0, key, value: SettingValue::Bool(false) }) => {
            assert_eq!(key, "on");
        }
        _ => panic!("no edit"),
    }
    assert!(p.set(1, SettingValue::Bool(false)).is_none());
    match p.set_strings(5, " a, ,b ") {
        Some(Edit::Strings { key, members, .. }) => {
            assert_eq!(key, "tags");
            assert_eq!(members, vec!["a", "b"]);
        }
        _ => panic!("no edit"),
    }
    match p.set_array_member(3, "b", true) {
        Some(Edit::ArrayMember { key, member, present: true }) => {
            assert_eq!((key.as_str(), member.as_str()), ("members", "b"));
        }
        _ => panic!("no edit"),
    }
    assert!(p.set_array_all(3, true).is_none(), "nothing is listed yet");
    p.set_output(Slot::control(3), CommandOutput::Ready("a\nb".to_owned()));
    match p.set_array_all(3, true) {
        Some(Edit::ArrayMembers { members, present: true, .. }) => {
            assert_eq!(members, vec!["a", "b"]);
        }
        _ => panic!("no edit"),
    }
    assert!(matches!(p.add_record(7), Some(Edit::AddRecord { index: 7, .. })));
    assert!(matches!(p.remove_record(7, 1), Some(Edit::RemoveRecord { index: 7, row: 1, .. })));
    match p.set_record(7, 0, "name", text("Bob")) {
        Some(Edit::RecordField { row: 0, field, value, .. }) => {
            assert_eq!((field.as_str(), as_text(&value).as_str()), ("name", "Bob"));
        }
        _ => panic!("no edit"),
    }
}

#[test]
fn a_failed_edit_says_why() {
    let mut p = pane_with_everything();
    let snap = snapshot(&p.ext.manifest.pane);
    let edit = p.set(0, SettingValue::Bool(false)).unwrap();
    p.edit_done(edit, EditOutcome::NotWritten { error: "disk full".to_owned() }, &snap);
    assert!(p.status.as_ref().unwrap().contains("disk full"));
    let edit = p.set(0, SettingValue::Bool(false)).unwrap();
    p.edit_done(edit, EditOutcome::Refused { error: "not a table".to_owned() }, &snap);
    assert!(p.status.as_ref().unwrap().contains("not a table"));
    let edit = p.set(0, SettingValue::Bool(false)).unwrap();
    let gone = EditOutcome::NoDirectory { dir: "/etc".to_owned(), error: "denied".to_owned() };
    p.edit_done(edit, gone, &snap);
    assert!(p.status.as_ref().unwrap().contains("denied"));
    let edit = p.set(0, SettingValue::Bool(false)).unwrap();
    p.edit_done(edit, EditOutcome::Saved, &snap);
    assert_eq!(p.display_of(0).as_deref(), Some("false"));
}

#[test]
fn the_box_being_typed_into_keeps_its_text() {
    let mut p = pane_with_everything();
    p.set_text(6, " 12 ".to_owned());
    assert_eq!(p.display_of(6).as_deref(), Some(" 12 "));
    let numbers: Vec<(String, Decimal)> = Vec::new();
    assert!(p.flush_edits(Some(&Typing::Control(6)), &numbers).is_empty());
    assert_eq!(p.display_of(6).as_deref(), Some(" 12 "));
    let edits = p.flush_edits(None, &numbers);
    assert_eq!(edits.len(), 1);
    match &edits[0] {
        Edit::Setting { index: 6, value: SettingValue::Int(12), .. } => {}
        _ => panic!("the number was not read"),
    }
}

#[test]
fn a_record_field_is_flushed_like_any_other() {
    let mut p = pane_with_everything();
    p.set_record_text(7, 1, "name", "Eve".to_owned());
    assert_eq!(p.record_display(7, 1, "name").as_deref(), Some("Eve"));
    assert_eq!(p.typed_texts(), vec!["Eve"]);
    let numbers: Vec<(String, Decimal)> = Vec::new();
    let edits = p.flush_edits(None, &numbers);
    assert_eq!(edits.len(), 1);
    assert!(matches!(&edits[0], Edit::RecordField { index: 7, row: 1, .. }));
}

#[test]
fn a_value_that_is_not_set_shows_the_neutral_one() {
    let p = pane_with_everything();
    assert!(matches!(p.value_of(0), SettingValue::Bool(true)));
    assert!(matches!(p.value_of(6), SettingValue::Int(-4)));
    let pane = vec![
        control(ControlKind::Toggle, "a", ""),
        control(ControlKind::Number, "b", ""),
        control(ControlKind::Decimal, "c", ""),
        control(ControlKind::Text, "d", ""),
    ];
    let snap = snapshot(&pane);
    let bare = PluginPane::load(extension(pane), String::new(), &snap);
    assert!(matches!(bare.value_of(0), SettingValue::Bool(false)));
    assert!(matches!(bare.value_of(1), SettingValue::Int(0)));
    match bare.value_of(2) {
        SettingValue::Float(d) => assert_eq!(f64::from_bits(d.bits), 0.0),
        _ => panic!("not a decimal"),
    }
    assert!(matches!(bare.value_of(3), SettingValue::Text(t) if t.is_empty()));
    assert!(matches!(bare.value_of(9), SettingValue::Text(t) if t.is_empty()));
}

#[test]
fn a_picked_suggestion_is_written_where_its_box_is() {
    let mut p = pane_with_everything();
    p.set_record_text(7, 1, "model", "half".to_owned());
    let slot = Slot { control: 7, row: Some(1), field: Some(1) };
    match p.set_suggestion(slot, "m9") {
        Some(Edit::RecordField { index: 7, row: 1, field, value, key }) => {
            assert_eq!((key.as_str(), field.as_str()), ("people", "model"));
            assert_eq!(as_text(&value), "m9");
        }
        _ => panic!("no edit"),
    }
    assert_eq!(p.record_display(7, 1, "model").as_deref(), Some("m2"), "what was typed is gone");
    assert!(p.set_suggestion(Slot { control: 7, row: Some(1), field: Some(5) }, "m9").is_none());
    match p.set_suggestion(Slot::control(6), "7") {
        Some(Edit::Setting { index: 6, value, .. }) => assert_eq!(as_text(&value), "7"),
        _ => panic!("no edit"),
    }
}

#[test]
fn only_reports_on_screen_are_asked_again() {
    let mut p = pane_with_everything();
    let snap = snapshot(&p.ext.manifest.pane);
    let shown: Vec<usize> = p.reports_on_screen().iter().map(|s| s.control).collect();
    assert_eq!(shown, vec![2]);
    p.select_section(4, &snap);
    assert!(p.reports_on_screen().is_empty());
}

#[test]
fn a_plug_in_without_controls_has_no_pane() {
    let with = vec![control(ControlKind::Toggle, "on", "")];
    let snap = snapshot(&with);
    let panes = load_all(vec![
        (extension(Vec::new()), "/a".to_owned(), snapshot(&[])),
        (extension(with), "/b".to_owned(), snap),
    ]);
    assert_eq!(panes.len(), 1);
    assert_eq!(panes[0].config_path, "/b");
}

#[test]
fn a_saved_edit_says_where() {
    let mut p = pane_with_everything();
    let snap = snapshot(&p.ext.manifest.pane);
    let edit = p.set_strings(5, "a,b").unwrap();
    p.edit_done(edit, EditOutcome::Saved, &snap);
    assert_eq!(p.status.as_deref(), Some("Saved to /etc/ext.toml"));
    assert_eq!(p.display_of(5).as_deref(), Some("a, b"));
    let edit = p.set_strings(5, "a").unwrap();
    p.edit_done(edit, EditOutcome::Refused { error: "no".to_owned() }, &snap);
    assert_eq!(p.status.as_deref(), Some("Could not change tags: no"));
}

#[test]
fn only_the_newest_text_of_a_box_is_written() {
    let numbers: Vec<(String, Decimal)> = Vec::new();
    let mut p = pane_with_everything();
    p.set_text(6, "1".to_owned());
    p.set_text(6, "12".to_owned());
    let edits = p.flush_edits(None, &numbers);
    assert_eq!(edits.len(), 1);
    assert!(matches!(&edits[0], Edit::Setting { index: 6, value: SettingValue::Int(12), .. }));
    assert!(p.typed_texts().is_empty());

    p.set_text(6, "1".to_owned());
    p.set_text(6, "1x".to_owned());
    assert!(p.flush_edits(None, &numbers).is_empty(), "not a number yet");
    assert_eq!(p.display_of(6).as_deref(), Some("1x"));
    assert_eq!(p.typed_texts(), vec!["1x"]);

    p.set_record_text(7, 0, "name", "A".to_owned());
    p.set_record_text(7, 1, "name", "E".to_owned());
    p.set_record_text(7, 0, "name", "An".to_owned());
    let edits = p.flush_edits(None, &numbers);
    let seen: Vec<(usize, String)> = edits
        .iter()
        .map(|e| match e {
            Edit::RecordField { row, value, .. } => (*row, as_text(value)),
            _ => panic!("not a card's edit"),
        })
        .collect();
    assert_eq!(seen, vec![(1, "E".to_owned()), (0, "An".to_owned())]);
}

#[test]
fn a_flush_drops_what_no_field_declares_and_keeps_what_is_no_value_yet() {
    let numbers: Vec<(String, Decimal)> = Vec::new();
    let mut card = control(ControlKind::Records, "people", "");
    card.fields =
        vec![field(ControlKind::Number, "age", ""), field(ControlKind::Decimal, "score", "")];
    let pane = vec![card];
    let snap = snapshot(&pane);
    let mut p = PluginPane::load(extension(pane), String::new(), &snap);
    p.set_record_text(0, 0, "age", "old".to_owned());
    p.set_record_text(0, 0, "score", "inf".to_owned());
    p.set_record_text(0, 0, "shoe", "44".to_owned());
    p.set_text(9, "nobody's".to_owned());
    assert!(p.flush_edits(None, &numbers).is_empty());
    assert_eq!(p.record_display(0, 0, "age").as_deref(), Some("old"));
    assert_eq!(p.record_display(0, 0, "score").as_deref(), Some("inf"));
    assert_eq!(p.record_display(0, 0, "shoe"), None, "declared nowhere, dropped");
    assert_eq!(p.display_of(9).as_deref(), Some("nobody's"));
}
