use poltertype::assoc::AssocMap;
use poltertype::commands::shell::{check, run, ShellCommand, ShellRefusal};
use poltertype::consts::{
    APP_ID, APP_NAME, DEFAULT_PAUSE_TOGGLE, DEFAULT_SWITCH_LAST, DEFERRED_MENU_EMPTY,
    DEFERRED_MENU_LABEL,
};
use poltertype::detectors::{
    add_word_to_user_overlay, build_full_profile_cache, build_profile_dictionary_cache,
    build_suggester, watch_profile, WatchStep,
};
use poltertype::engine::run_loop::blocks_sensitive_input;
use poltertype::input::clipboard::{clipboard, selection_support, ClipboardGap};
use poltertype::input::focus::{
    caret_hint_from, native_password_field, sensitivity, window_geometry, FocusTracker, Point,
    Rect, SensitiveInput,
};
use poltertype::layouts::{KeyLevel, LayoutDb, LayoutId, LayoutMapping};
use poltertype::logsafe;
use poltertype::order::sort_ids;
use poltertype::settings::{
    Settings, SuggestionSettings, UpdateSettings, WordlistProfile, MIN_UPDATE_INTERVAL_HOURS,
};
use poltertype::text;
use poltertype::time::{Duration, Instant};

// ─── Shell commands ──────────────────────────────────────────────────

fn cmd(program: &str) -> ShellCommand {
    ShellCommand {
        program: program.to_owned(),
        args: vec!["ignored".to_owned()],
        insert_output: true,
    }
}

#[test]
fn work_build_refuses_run_shell_even_when_legacy_flag_is_true() {
    assert_eq!(check(&cmd("echo"), true), Err(ShellRefusal::DisabledInWorkBuild));
    assert_eq!(run(&cmd("echo")), None);
}

#[test]
fn empty_program_is_still_reported_cleanly() {
    assert_eq!(check(&cmd("   "), true), Err(ShellRefusal::EmptyProgram));
}

#[test]
fn a_refusal_reads_as_a_sentence() {
    assert_eq!(
        ShellRefusal::DisabledInWorkBuild.to_string(),
        "`run_shell` is disabled in the privacy-first Work build"
    );
    assert_eq!(
        ShellRefusal::EmptyProgram.to_string(),
        "`run_shell` needs a non-empty `program`"
    );
    assert_eq!(check(&cmd("\u{2003}"), false), Err(ShellRefusal::EmptyProgram));
}

// ─── Redaction ───────────────────────────────────────────────────────

#[test]
fn redaction_hides_the_word_and_keeps_its_length() {
    assert_eq!(logsafe::render("mañana"), "<6 chars>");
    assert_eq!(logsafe::render("привіт"), "<6 chars>");
    assert_eq!(logsafe::render(""), "<0 chars>");
}

#[test]
fn redaction_has_no_plaintext_escape_hatch() {
    assert_eq!(logsafe::redact_word("work-secret"), "<11 chars>");
}

// ─── Sensitive fields ────────────────────────────────────────────────

#[test]
fn sensitive_input_guard_fails_closed() {
    assert!(!blocks_sensitive_input(false, SensitiveInput::Sensitive));
    assert!(!blocks_sensitive_input(false, SensitiveInput::Unknown));
    assert!(!blocks_sensitive_input(true, SensitiveInput::NotSensitive));
    assert!(blocks_sensitive_input(true, SensitiveInput::Sensitive));
    assert!(blocks_sensitive_input(true, SensitiveInput::Unknown));
}

#[test]
fn no_answer_is_not_a_safe_field() {
    assert_eq!(sensitivity(None, None), SensitiveInput::Unknown);
    assert_eq!(sensitivity(Some(true), Some(false)), SensitiveInput::Sensitive);
    assert_eq!(sensitivity(Some(false), Some(true)), SensitiveInput::NotSensitive);
    assert_eq!(sensitivity(None, Some(true)), SensitiveInput::Sensitive);
    assert_eq!(sensitivity(None, Some(false)), SensitiveInput::NotSensitive);
}

#[test]
fn a_native_edit_control_tells_by_its_style() {
    assert_eq!(native_password_field("Edit", 0x0020), Some(true));
    assert_eq!(native_password_field("EDIT", 0x0004), Some(false));
    assert_eq!(native_password_field("RichEdit20W", 0x0024), Some(true));
    assert_eq!(native_password_field("Editor", 0x0020), None);
    assert_eq!(native_password_field("Button", 0x0020), None);
}

struct NothingKnown;

impl FocusTracker for NothingKnown {
    fn focused_exe(&self) -> Option<String> {
        None
    }

    fn backend_name(&self) -> &'static str {
        "none"
    }
}

#[test]
fn a_tracker_that_knows_nothing_says_so() {
    let t = NothingKnown;
    assert_eq!(t.focused_window_geometry(), None);
    assert_eq!(t.caret_hint(), None);
    assert_eq!(t.sensitive_input(), SensitiveInput::NotSensitive);
}

#[test]
fn a_window_is_measured_by_its_edges() {
    let g = window_geometry(Rect { left: -10, top: 5, right: 90, bottom: 25 }).unwrap();
    assert_eq!((g.x, g.y, g.width, g.height, g.pid), (-10, 5, 100, 20, None));
    assert_eq!(window_geometry(Rect { left: 1, top: 0, right: 0, bottom: 5 }), None);
    let widest = Rect { left: i32::MIN, top: 0, right: i32::MAX, bottom: 0 };
    assert_eq!(window_geometry(widest).unwrap().width, i32::MAX as u32);
}

#[test]
fn a_caret_is_placed_within_its_window() {
    let window = Rect { left: 100, top: 200, right: 900, bottom: 800 };
    let caret = Rect { left: 0, top: 3, right: 1, bottom: 21 };
    let h = caret_hint_from(Point { x: 150, y: 260 }, caret, window).unwrap();
    assert_eq!((h.x, h.y, h.height), (50, 60, 18));
    assert_eq!(h.age, Duration { nanos: 0 });
    let collapsed = Rect { bottom: 3, ..caret };
    assert_eq!(caret_hint_from(Point { x: 150, y: 260 }, collapsed, window), None);
}

#[test]
fn the_clipboard_is_out_of_reach() {
    assert!(matches!(clipboard(), Err(ClipboardGap::DisabledInWorkBuild)));
    let gap = selection_support().unwrap_err();
    assert_eq!(
        gap.to_string(),
        "selection conversion is disabled in the privacy-first Work build"
    );
}

// ─── Settings ────────────────────────────────────────────────────────

#[test]
fn a_sane_check_interval_is_honoured() {
    let s = UpdateSettings { enabled: true, check_interval_hours: 12 };
    assert_eq!(s.interval(), Duration::from_secs(12 * 3600));
}

#[test]
fn a_zero_check_interval_is_clamped_not_obeyed() {
    let s = UpdateSettings { enabled: true, check_interval_hours: 0 };
    assert_eq!(s.interval(), Duration::from_secs(MIN_UPDATE_INTERVAL_HOURS * 3600));
}

#[test]
fn default_disabled_apps_is_empty() {
    assert!(Settings::default().exceptions.disabled_apps.is_empty());
}

#[test]
fn defaults_keep_everything_on_the_machine() {
    let s = Settings::default();
    assert!(!s.updates.enabled);
    assert_eq!(s.updates.check_interval_hours, 24);
    assert!(!s.ai.enabled);
    assert!(!s.ai.allow_remote);
    assert!(s.ai.plugins.is_empty());
    assert!(!s.selection.enabled);
    assert!(!s.general.paused);
    assert!(s.engine.ignore_in_password_fields);
    assert!(s.commands.is_empty());
    assert_eq!(s.hotkeys.pause_toggle, DEFAULT_PAUSE_TOGGLE);
    assert_eq!(s.hotkeys.manual_switch_last, DEFAULT_SWITCH_LAST);
    assert_eq!(s.schema_version, 1);
}

#[test]
fn a_confidence_of_a_half_is_kept_as_its_bits() {
    let s = Settings::default();
    assert_eq!(f32::from_bits(s.engine.confidence_threshold_bits), 0.55);
}

#[test]
fn suggestion_limits_are_kept() {
    let mut s: SuggestionSettings = Settings::default().suggestions;
    s.max_suggestions = 0;
    assert_eq!(s.max_clamped(), 1);
    s.max_suggestions = 40;
    assert_eq!(s.max_clamped(), 9);
    s.max_suggestions = 4;
    assert_eq!(s.max_clamped(), 4);
    s.tooltip_timeout_secs = 1;
    assert_eq!(s.timeout(), Duration::from_secs(3));
    s.tooltip_timeout_secs = 1_000;
    assert_eq!(s.timeout(), Duration::from_secs(600));
    s.tooltip_timeout_secs = 20;
    assert_eq!(s.timeout(), Duration::from_secs(20));
}

#[test]
fn the_whitelist_compares_letters_in_lower_case() {
    let mut s = Settings::default();
    s.exceptions.word_whitelist = vec!["Just-Code.NET".to_owned(), "ПРИВІТ".to_owned()];
    assert!(s.exceptions.is_whitelisted("justcodenet"));
    assert!(s.exceptions.is_whitelisted("привіт"));
    assert!(!s.exceptions.is_whitelisted("justcode"));
}

#[test]
fn the_application_has_its_names() {
    assert_eq!(APP_NAME, "PolterType");
    assert_eq!(APP_ID, "dev.opensource.poltertype");
    assert!(!DEFERRED_MENU_LABEL.is_empty() && !DEFERRED_MENU_EMPTY.is_empty());
}

// ─── Word lists ──────────────────────────────────────────────────────

fn profile(id: &str) -> WordlistProfile {
    WordlistProfile { id: id.to_owned(), name: String::new(), apps: Vec::new() }
}

#[test]
fn the_global_set_is_kept_beside_the_profiles() {
    let profiles = vec![profile("code"), profile("chat"), profile("law")];
    let dirs = vec![Some("/w/code".to_owned()), None, Some("/w/law".to_owned())];
    let own = build_profile_dictionary_cache(&profiles, &dirs);
    let names: Vec<&str> = own.iter().map(|e| e.profile.as_str()).collect();
    assert_eq!(names, vec!["code", "law"]);
    let full = build_full_profile_cache(&profiles, &dirs, Some("/w".to_owned()));
    assert_eq!(full.len(), 3);
    assert_eq!((full[2].profile.as_str(), full[2].dir.as_str()), ("", "/w"));
    let none = build_full_profile_cache(&Vec::new(), &Vec::new(), Some("/w".to_owned()));
    assert!(none.is_empty());
    let nowhere = build_full_profile_cache(&profiles, &dirs, None);
    assert_eq!(nowhere[2].dir, "");
}

#[test]
fn the_set_is_swapped_when_the_profile_changes() {
    let mut active = String::new();
    let step = watch_profile(&mut active, String::new(), false, true);
    assert_eq!(step, WatchStep::Nothing);
    assert_eq!(watch_profile(&mut active, "code".to_owned(), false, true), WatchStep::Apply);
    assert_eq!(active, "code");
    assert_eq!(watch_profile(&mut active, "code".to_owned(), false, true), WatchStep::Nothing);
    assert_eq!(watch_profile(&mut active, "code".to_owned(), true, true), WatchStep::Apply);
    assert_eq!(watch_profile(&mut active, "gone".to_owned(), false, false), WatchStep::Missing);
    assert_eq!(active, "gone");
}

#[test]
fn suggestions_are_ranked_by_where_the_characters_lie() {
    let cell = |shift: bool, caps: bool, ch: char| KeyLevel { scancode: 0x1E, shift, caps, ch };
    let levels = vec![
        cell(false, false, 'a'),
        cell(true, false, 'A'),
        cell(false, true, 'A'),
        cell(false, false, 'x'),
    ];
    let db = LayoutDb {
        layouts: vec![
            (LayoutId::from("en-US"), LayoutMapping { levels, chars: Vec::new() }),
            (LayoutId::from("bare"), LayoutMapping { levels: Vec::new(), chars: Vec::new() }),
        ],
    };
    let geometry = build_suggester(&db);
    assert_eq!(geometry.len(), 2);
    assert_eq!(geometry[0].0.as_str(), "en-US");
    assert_eq!(geometry[0].1, vec![(0x1E, 'a'), (0x1E, 'A')]);
    assert_eq!(geometry[1].0.as_str(), "bare");
    assert!(geometry[1].1.is_empty());
}

#[test]
fn an_added_word_has_one_shape_on_disk() {
    let (file, line) = add_word_to_user_overlay(&LayoutId::from("uk-UA"), "Just-Code.NET");
    assert_eq!(file, "uk_ua.txt");
    assert_eq!(line, "justcodenet");
    let (_, line) = add_word_to_user_overlay(&LayoutId::from("uk-UA"), "Їжак'2");
    assert_eq!(line, "їжак");
}

// ─── Text, maps, time, order ─────────────────────────────────────────

#[test]
fn numbers_are_written_and_read_in_decimal() {
    assert_eq!(text::decimal_text(0), "0");
    assert_eq!(text::decimal_text(u64::MAX), u64::MAX.to_string());
    assert_eq!(text::parse_u32("4294967295"), Some(u32::MAX));
    assert_eq!(text::parse_u32("4294967296"), None);
    assert_eq!(text::parse_u32("-1"), None);
    assert_eq!(text::parse_u32("+7"), Some(7));
    assert_eq!(text::parse_u32(""), None);
    assert_eq!(text::parse_i64("-9223372036854775808"), Some(i64::MIN));
    assert_eq!(text::parse_i64("9223372036854775808"), None);
    assert_eq!(text::parse_i64("12x"), None);
}

#[test]
fn trimming_takes_every_kind_of_white_space() {
    assert_eq!(text::trim("\u{00a0} a b\t\n"), "a b");
    assert!(text::is_blank_text(" \u{3000}"));
    assert!(!text::is_blank_text(" \u{200b}"));
}

#[test]
fn only_ascii_letters_are_folded() {
    assert!(text::eq_ignore_ascii_case("CapsLock", "capslock"));
    assert!(!text::eq_ignore_ascii_case("Ї", "ї"));
    assert!(!text::eq_ignore_ascii_case("ab", "abc"));
}

#[test]
fn splitting_and_joining() {
    assert_eq!(text::split_on("a,,b", ','), vec!["a", "", "b"]);
    assert_eq!(text::split_on("", ','), vec![""]);
    assert_eq!(text::join(&vec!["a".to_owned(), "b".to_owned()], ", "), "a, b");
}

#[test]
fn a_map_keeps_the_last_value_of_a_key() {
    let mut m: AssocMap<String, u32> = AssocMap::new();
    m.insert("a".to_owned(), 1);
    m.insert("b".to_owned(), 2);
    m.insert("a".to_owned(), 3);
    assert_eq!(m.get(&"a".to_owned()), Some(&3));
    assert!(m.contains_key(&"b".to_owned()));
    m.remove(&"a".to_owned());
    assert_eq!(m.get(&"a".to_owned()), None);
    assert_eq!(m.get(&"b".to_owned()), Some(&2));
}

#[test]
fn a_clock_that_runs_back_measures_nothing() {
    let early = Instant { nanos: 5 };
    let late = early.plus(Duration::from_millis(2));
    assert_eq!(late.saturating_duration_since(early), Duration { nanos: 2_000_000 });
    assert_eq!(early.saturating_duration_since(late), Duration { nanos: 0 });
}

#[test]
fn layouts_have_one_order_whatever_order_they_came_in() {
    let names = |ids: &Vec<LayoutId>| -> Vec<String> {
        sort_ids(ids).iter().map(|id| id.as_str().to_owned()).collect()
    };
    let a = vec![LayoutId::from("uk-UA"), LayoutId::from("de-DE"), LayoutId::from("en-US")];
    let b = vec![LayoutId::from("en-US"), LayoutId::from("uk-UA"), LayoutId::from("de-DE")];
    assert_eq!(names(&a), vec!["de-DE", "en-US", "uk-UA"]);
    assert_eq!(names(&a), names(&b));
}
