use poltertype::engine::consts::{force_switch_rearm, MOD_DOUBLE_TAP_GAP, MOD_TAP_MAX};
use poltertype::engine::heuristics::{
    app_is_disabled, boundary_char_in_layout, boundary_key_for, is_layout_eligible,
    is_modifier_scancode, is_paste_shortcut, is_sentence_punctuation, is_structural_boundary,
    is_submission_boundary, is_submission_scancode, looks_like_all_caps, match_binding,
    match_chord, match_mod_chord, modifier_role, render_for_code_check,
};
use poltertype::engine::types::{
    Binding, BindingState, Chord, ModChord, ModRole, ModSet, ModTapState,
};
use poltertype::keys::{
    KeyDirection, KeyEvent, Modifiers, WordKey, SC_INSERT, SC_POINTER_BUTTON, SC_V,
};
use poltertype::layouts::{CharKey, KeyLevel, LayoutDb, LayoutId, LayoutMapping};
use poltertype::time::{Duration, Instant};

fn row(scancode: u32, chars: &str, shifted: &str) -> Vec<(u32, char, char)> {
    chars
        .chars()
        .zip(shifted.chars())
        .enumerate()
        .map(|(i, (a, b))| (scancode + i as u32, a, b))
        .collect()
}

fn mapping(rows: &[(u32, &str, &str)]) -> LayoutMapping {
    let mut levels = Vec::new();
    let mut chars = Vec::new();
    for (first, plain, shifted) in rows {
        for (scancode, a, b) in row(*first, plain, shifted) {
            let swap = a.is_alphabetic() && b.is_alphabetic();
            for (shift, caps, ch) in [
                (false, false, a),
                (true, false, b),
                (false, true, if swap { b } else { a }),
                (true, true, if swap { a } else { b }),
            ] {
                levels.push(KeyLevel { scancode, shift, caps, ch });
            }
            chars.push(CharKey { ch: a, scancode, shift: false });
            chars.push(CharKey { ch: b, scancode, shift: true });
        }
    }
    LayoutMapping { levels, chars }
}

/// The two layouts the examples are typed on.
fn layouts() -> LayoutDb {
    LayoutDb {
        layouts: vec![
            (
                LayoutId::from("en-US"),
                mapping(&[
                    (0x02, "1234567890-=", "!@#$%^&*()_+"),
                    (0x10, "qwertyuiop[]", "QWERTYUIOP{}"),
                    (0x1E, "asdfghjkl;'`", "ASDFGHJKL:\"~"),
                    (0x2B, "\\zxcvbnm,./", "|ZXCVBNM<>?"),
                ]),
            ),
            (
                LayoutId::from("uk-UA"),
                mapping(&[
                    (0x02, "1234567890-=", "!\"№;%:?*()_+"),
                    (0x10, "йцукенгшщзхї", "ЙЦУКЕНГШЩЗХЇ"),
                    (0x1E, "фівапролджє'", "ФІВАПРОЛДЖЄ₴"),
                    (0x2B, "\\ячсмитьбю.", "/ЯЧСМИТЬБЮ,"),
                ]),
            ),
        ],
    }
}

fn id(s: &str) -> LayoutId {
    LayoutId::from(s)
}

fn event(scancode: u32, direction: KeyDirection, modifiers: Modifiers) -> KeyEvent {
    KeyEvent { vk: scancode, scancode, direction, modifiers, injected: false, timestamp_ms: 0 }
}

// ─── Boundaries ──────────────────────────────────────────────────────

#[test]
fn flags_url_path_email_chars() {
    for c in [':', '/', '\\', '@', '=', '#', '&'] {
        assert!(is_structural_boundary(c), "expected {c:?} structural");
    }
}

#[test]
fn ignores_natural_prose_punctuation() {
    for c in [' ', '\t', '\n', '.', ',', ';', '!', '?', '(', ')', '"', '\''] {
        assert!(!is_structural_boundary(c), "expected {c:?} natural-prose punctuation");
    }
}

#[test]
fn submission_boundary_flags_enter_and_tab() {
    for c in ['\n', '\r', '\t'] {
        assert!(is_submission_boundary(c), "expected {c:?} submission");
    }
}

#[test]
fn submission_boundary_ignores_space_and_punctuation() {
    for c in [' ', '.', ',', ';', '!', '?', ':', '/'] {
        assert!(!is_submission_boundary(c), "expected {c:?} not a submission boundary");
    }
}

#[test]
fn all_caps_flags_latin_and_cyrillic_abbreviations() {
    for w in ["URL", "HTTP", "API", "OK", "IP", "ССЫЛКА", "АПІ"] {
        assert!(looks_like_all_caps(w), "expected `{w}` to look ALL CAPS");
    }
}

#[test]
fn all_caps_ignores_single_uppercase_letter() {
    for w in ["I", "A", "Я", "Є"] {
        assert!(!looks_like_all_caps(w), "single-letter `{w}` is ambiguous");
    }
}

#[test]
fn all_caps_rejects_mixed_and_lowercase() {
    for w in ["hello", "Hello", "Привіт", "iPhone", "IPv4", "PostgreSQL", "ім'я"] {
        assert!(!looks_like_all_caps(w), "mixed-case / lowercase `{w}` must not be flagged");
    }
}

#[test]
fn all_caps_treats_digits_and_apostrophe_as_neutral() {
    assert!(looks_like_all_caps("URL2"));
    assert!(looks_like_all_caps("DON'T"));
    assert!(!looks_like_all_caps("1234"));
    assert!(!looks_like_all_caps("'"));
}

#[test]
fn all_caps_rejects_empty_string() {
    assert!(!looks_like_all_caps(""));
}

#[test]
fn sentence_punctuation_is_four_characters() {
    for c in ['.', ',', '!', '?'] {
        assert!(is_sentence_punctuation(c));
    }
    for c in [';', ':', '&', ' ', '…'] {
        assert!(!is_sentence_punctuation(c));
    }
}

#[test]
fn submission_keys_are_enter_tab_and_numpad_enter() {
    for sc in [0x1C, 0x0F, 0x60] {
        assert!(is_submission_scancode(sc));
    }
    assert!(!is_submission_scancode(0x39));
}

#[test]
fn caps_lock_is_a_bare_modifier_without_a_role() {
    assert!(is_modifier_scancode(0x3A));
    assert_eq!(modifier_role(0x3A), None);
    assert_eq!(modifier_role(0x61), Some(ModRole::Ctrl));
    assert_eq!(modifier_role(0x36), Some(ModRole::Shift));
    assert_eq!(modifier_role(0x64), Some(ModRole::Alt));
    assert_eq!(modifier_role(0x5B), Some(ModRole::Meta));
    assert!(!is_modifier_scancode(0x1E));
    for sc in 0..0x100 {
        assert_eq!(is_modifier_scancode(sc), modifier_role(sc).is_some() || sc == 0x3A);
    }
    for sc in [0x5B, 0x5C, 0x7D, 0x7E] {
        assert!(is_modifier_scancode(sc), "{sc:#x} is a Meta key");
    }
}

// ─── The re-arm window ───────────────────────────────────────────────

#[test]
fn the_rearm_window_separates_an_echo_from_a_second_press() {
    assert!(
        force_switch_rearm() >= Duration::from_millis(100),
        "too narrow to cover the echo our own Backspaces provoke"
    );
    assert!(
        force_switch_rearm() <= Duration::from_millis(250),
        "wide enough to swallow a deliberate second press"
    );
}

// ─── The rendering for the identifier check ──────────────────────────

fn k(scancode: u32, shift: bool) -> WordKey {
    WordKey { scancode, shift, caps: false, timestamp_ms: 0 }
}

#[test]
fn strips_cross_layout_punct_from_render() {
    let db = layouts();
    let keys = vec![k(0x26, true), k(0x23, false), k(0x12, false), k(0x27, false), k(0x14, false)];
    assert_eq!(render_for_code_check(&keys, &id("en-US"), &db, "Lhe;t"), "Lhet");
}

#[test]
fn keeps_genuine_underscore() {
    let db = layouts();
    let keys = vec![
        k(0x21, false),
        k(0x18, false),
        k(0x18, false),
        k(0x0C, true),
        k(0x30, false),
        k(0x1E, false),
        k(0x13, false),
    ];
    assert_eq!(render_for_code_check(&keys, &id("en-US"), &db, "foo_bar"), "foo_bar");
}

#[test]
fn cyrillic_render_unchanged() {
    let db = layouts();
    let keys = vec![k(0x26, true), k(0x23, false), k(0x12, false), k(0x27, false), k(0x14, false)];
    assert_eq!(render_for_code_check(&keys, &id("uk-UA"), &db, "Друже"), "Друже");
}

#[test]
fn falls_back_when_layout_missing() {
    let db = layouts();
    assert_eq!(render_for_code_check(&[], &id("xx-YY"), &db, "fallback"), "fallback");
}

// ─── The key that puts a separator back ──────────────────────────────

#[test]
fn comma_moves_to_the_targets_own_key() {
    let db = layouts();
    assert_eq!(boundary_key_for(&db, &id("en-US"), 0x35, true, ','), (0x33, false));
    assert_eq!(boundary_key_for(&db, &id("uk-UA"), 0x33, false, ','), (0x35, true));
}

#[test]
fn dot_moves_too() {
    let db = layouts();
    assert_eq!(boundary_key_for(&db, &id("en-US"), 0x35, false, '.'), (0x34, false));
}

#[test]
fn key_is_kept_when_the_target_agrees() {
    let db = layouts();
    assert_eq!(boundary_key_for(&db, &id("en-US"), 0x35, true, '?'), (0x35, true));
}

#[test]
fn layout_independent_keys_pass_through() {
    let db = layouts();
    let en = id("en-US");
    assert_eq!(boundary_key_for(&db, &en, 0x39, false, ' '), (0x39, false));
    assert_eq!(boundary_key_for(&db, &en, 0x1C, false, '\n'), (0x1C, false));
    assert_eq!(boundary_key_for(&db, &en, 0x0F, false, '\t'), (0x0F, false));
}

#[test]
fn falls_back_to_the_typed_key() {
    let db = layouts();
    assert_eq!(boundary_key_for(&db, &id("xx-YY"), 0x35, true, ','), (0x35, true));
    assert_eq!(boundary_key_for(&db, &id("en-US"), 0x35, true, 'ї'), (0x35, true));
}

#[test]
fn the_replayed_separator_reads_the_same_in_the_target() {
    let db = layouts();
    let en = id("en-US");
    let (scancode, shift) = boundary_key_for(&db, &en, 0x35, true, ',');
    assert_eq!(boundary_char_in_layout(&db, &en, scancode, shift), Some(','));
    assert_eq!(boundary_char_in_layout(&db, &en, 0x35, true), Some('?'));
    assert_eq!(boundary_char_in_layout(&db, &id("xx-YY"), 0x35, true), None);
}

// ─── Candidates ──────────────────────────────────────────────────────

#[test]
fn os_inactive_layout_is_dropped_from_candidates() {
    let current = id("uk-UA");
    let os_active = vec![id("en-US"), id("ru-RU"), id("uk-UA")];
    let settings_active: Vec<LayoutId> = vec![];
    let settings_ignored: Vec<LayoutId> = vec![];
    assert!(
        !is_layout_eligible(
            &id("fr-FR"),
            &current,
            &settings_active,
            &settings_ignored,
            Some(&os_active),
        ),
        "fr-FR must be filtered out — user can't switch to a layout they don't have"
    );
    assert!(is_layout_eligible(
        &id("en-US"),
        &current,
        &settings_active,
        &settings_ignored,
        Some(&os_active),
    ));
}

#[test]
fn current_layout_always_passes() {
    let current = id("uk-UA");
    let os_active = vec![id("en-US")];
    assert!(is_layout_eligible(&current, &current, &[], &[], Some(&os_active)));
}

#[test]
fn fail_open_when_os_query_unavailable() {
    let current = id("uk-UA");
    assert!(is_layout_eligible(&id("fr-FR"), &current, &[], &[], None));
}

#[test]
fn ignored_wins_over_os_active() {
    let current = id("uk-UA");
    let os_active = vec![id("en-US"), id("uk-UA"), id("ru-RU")];
    let ignored = vec![id("ru-RU")];
    assert!(!is_layout_eligible(&id("ru-RU"), &current, &[], &ignored, Some(&os_active)));
}

#[test]
fn allow_list_narrows_os_active() {
    let current = id("uk-UA");
    let os_active = vec![id("en-US"), id("uk-UA"), id("ru-RU")];
    let allow = vec![id("en-US"), id("uk-UA")];
    assert!(!is_layout_eligible(&id("ru-RU"), &current, &allow, &[], Some(&os_active)));
    assert!(is_layout_eligible(&id("en-US"), &current, &allow, &[], Some(&os_active)));
}

#[test]
fn an_ignored_current_layout_is_no_candidate() {
    let current = id("uk-UA");
    let ignored = vec![id("uk-UA")];
    assert!(!is_layout_eligible(&current, &current, &[], &ignored, None));
}

// ─── Applications ────────────────────────────────────────────────────

#[test]
fn matches_case_insensitively() {
    let list: Vec<String> = ["Code.exe", "alacritty"].iter().map(|s| (*s).to_owned()).collect();
    assert!(app_is_disabled("CODE.EXE", &list));
    assert!(app_is_disabled("code.exe", &list));
    assert!(app_is_disabled("Alacritty", &list));
}

#[test]
fn ignores_unrelated_apps() {
    let list: Vec<String> = ["Code.exe"].iter().map(|s| (*s).to_owned()).collect();
    assert!(!app_is_disabled("notepad.exe", &list));
}

// ─── Chords ──────────────────────────────────────────────────────────

const SPACE: u32 = 0x39;
const CTRL_SHIFT_SPACE: Chord =
    Chord { ctrl: true, shift: true, alt: false, meta: false, scancode: SPACE };

fn ctrl_shift() -> Modifiers {
    Modifiers { control: true, shift: true, ..Modifiers::none() }
}

#[test]
fn fires_once_per_press_ignoring_autorepeat() {
    let mut down = false;
    assert!(match_chord(
        &event(SPACE, KeyDirection::Press, ctrl_shift()),
        CTRL_SHIFT_SPACE,
        &mut down
    ));
    assert!(!match_chord(
        &event(SPACE, KeyDirection::Press, ctrl_shift()),
        CTRL_SHIFT_SPACE,
        &mut down
    ));
}

#[test]
fn release_rearms_for_next_press() {
    let mut down = false;
    assert!(match_chord(
        &event(SPACE, KeyDirection::Press, ctrl_shift()),
        CTRL_SHIFT_SPACE,
        &mut down
    ));
    assert!(!match_chord(
        &event(SPACE, KeyDirection::Release, ctrl_shift()),
        CTRL_SHIFT_SPACE,
        &mut down
    ));
    assert!(match_chord(
        &event(SPACE, KeyDirection::Press, ctrl_shift()),
        CTRL_SHIFT_SPACE,
        &mut down
    ));
}

#[test]
fn requires_exact_modifiers() {
    let mut down = false;
    let with_alt = Modifiers { control: true, shift: true, alt: true, ..Modifiers::none() };
    assert!(!match_chord(
        &event(SPACE, KeyDirection::Press, with_alt),
        CTRL_SHIFT_SPACE,
        &mut down
    ));
    let mut down2 = false;
    let ctrl_only = Modifiers { control: true, ..Modifiers::none() };
    assert!(!match_chord(
        &event(SPACE, KeyDirection::Press, ctrl_only),
        CTRL_SHIFT_SPACE,
        &mut down2
    ));
}

#[test]
fn other_keys_do_not_disturb_latch() {
    let mut down = false;
    assert!(!match_chord(
        &event(0x1E, KeyDirection::Press, ctrl_shift()),
        CTRL_SHIFT_SPACE,
        &mut down
    ));
    assert!(!down);
    assert!(match_chord(
        &event(SPACE, KeyDirection::Press, ctrl_shift()),
        CTRL_SHIFT_SPACE,
        &mut down
    ));
}

#[test]
fn a_binding_matches_by_its_own_kind() {
    let now = Instant { nanos: 0 };
    let mut state = BindingState::new();
    let press = event(SPACE, KeyDirection::Press, ctrl_shift());
    assert!(match_binding(&press, Binding::Key(CTRL_SHIFT_SPACE), &mut state, now));
    assert!(state.key_down);
    let mut state = BindingState::new();
    assert!(!match_binding(&press, Binding::Mods(CTRL_SHIFT), &mut state, now));
    assert!(!state.key_down);
}

// ─── Modifier-only chords ────────────────────────────────────────────

const L_CTRL: u32 = 0x1D;
const L_SHIFT: u32 = 0x2A;
const R_SHIFT: u32 = 0x36;
const L_ALT: u32 = 0x38;
const KEY_C: u32 = 0x2E;

const CTRL_SHIFT: ModChord = ModChord {
    mods: ModSet { ctrl: true, shift: true, alt: false, meta: false },
    double_tap: false,
};
const DOUBLE_SHIFT: ModChord = ModChord {
    mods: ModSet { ctrl: false, shift: true, alt: false, meta: false },
    double_tap: true,
};

/// Feed a gesture, one `(scancode, direction, offset-ms)` at a time, and
/// report which steps fired.
fn run(chord: ModChord, steps: &[(u32, KeyDirection, u64)]) -> Vec<usize> {
    let mut st = ModTapState::new();
    let base = Instant { nanos: 1_000_000_000 };
    steps
        .iter()
        .enumerate()
        .filter(|(_, (sc, dir, at))| {
            match_mod_chord(
                &event(*sc, *dir, Modifiers::none()),
                chord,
                &mut st,
                base.plus(Duration::from_millis(*at)),
            )
        })
        .map(|(i, _)| i)
        .collect()
}

#[test]
fn fires_when_the_modifiers_come_back_up_and_nothing_else_was_pressed() {
    let fired = run(
        CTRL_SHIFT,
        &[
            (L_CTRL, KeyDirection::Press, 0),
            (L_SHIFT, KeyDirection::Press, 40),
            (L_SHIFT, KeyDirection::Release, 120),
            (L_CTRL, KeyDirection::Release, 140),
        ],
    );
    assert_eq!(fired, vec![3], "only the last release may fire");
}

#[test]
fn a_key_pressed_during_the_hold_makes_it_a_shortcut_not_a_tap() {
    for interloper in [KEY_C, SC_POINTER_BUTTON] {
        let fired = run(
            CTRL_SHIFT,
            &[
                (L_CTRL, KeyDirection::Press, 0),
                (L_SHIFT, KeyDirection::Press, 20),
                (interloper, KeyDirection::Press, 60),
                (interloper, KeyDirection::Release, 90),
                (L_SHIFT, KeyDirection::Release, 120),
                (L_CTRL, KeyDirection::Release, 130),
            ],
        );
        assert!(fired.is_empty(), "fired on {interloper:#x}");
    }
}

#[test]
fn a_modifier_outside_the_chord_does_not_fire_it() {
    let fired = run(
        CTRL_SHIFT,
        &[
            (L_CTRL, KeyDirection::Press, 0),
            (L_SHIFT, KeyDirection::Press, 20),
            (L_ALT, KeyDirection::Press, 40),
            (L_ALT, KeyDirection::Release, 60),
            (L_SHIFT, KeyDirection::Release, 80),
            (L_CTRL, KeyDirection::Release, 100),
        ],
    );
    assert!(fired.is_empty());
}

#[test]
fn a_long_hold_is_not_a_tap() {
    let late = (MOD_TAP_MAX / 1_000_000) as u64 + 50;
    let fired = run(
        CTRL_SHIFT,
        &[
            (L_CTRL, KeyDirection::Press, 0),
            (L_SHIFT, KeyDirection::Press, 10),
            (L_SHIFT, KeyDirection::Release, late),
            (L_CTRL, KeyDirection::Release, late + 10),
        ],
    );
    assert!(fired.is_empty());
}

#[test]
fn a_double_tap_needs_both_taps_inside_the_window() {
    let quick = run(
        DOUBLE_SHIFT,
        &[
            (L_SHIFT, KeyDirection::Press, 0),
            (L_SHIFT, KeyDirection::Release, 60),
            (R_SHIFT, KeyDirection::Press, 200),
            (R_SHIFT, KeyDirection::Release, 260),
        ],
    );
    assert_eq!(quick, vec![3], "left and right Shift are one modifier");

    let slow = run(
        DOUBLE_SHIFT,
        &[
            (L_SHIFT, KeyDirection::Press, 0),
            (L_SHIFT, KeyDirection::Release, 60),
            (L_SHIFT, KeyDirection::Press, 2_000),
            (L_SHIFT, KeyDirection::Release, 2_060),
        ],
    );
    assert!(slow.is_empty(), "the second tap came too late to pair");
}

#[test]
fn typing_capitals_never_fires_a_double_shift_binding() {
    let fired = run(
        DOUBLE_SHIFT,
        &[
            (L_SHIFT, KeyDirection::Press, 0),
            (KEY_C, KeyDirection::Press, 30),
            (L_SHIFT, KeyDirection::Release, 60),
            (KEY_C, KeyDirection::Release, 80),
            (L_SHIFT, KeyDirection::Press, 200),
            (KEY_C, KeyDirection::Press, 230),
            (L_SHIFT, KeyDirection::Release, 260),
            (KEY_C, KeyDirection::Release, 280),
        ],
    );
    assert!(fired.is_empty());
}

#[test]
fn a_third_tap_starts_a_pair_of_its_own() {
    let gap = (MOD_DOUBLE_TAP_GAP / 1_000_000) as u64 / 4;
    let fired = run(
        DOUBLE_SHIFT,
        &[
            (L_SHIFT, KeyDirection::Press, 0),
            (L_SHIFT, KeyDirection::Release, 10),
            (L_SHIFT, KeyDirection::Press, gap),
            (L_SHIFT, KeyDirection::Release, gap + 10),
            (L_SHIFT, KeyDirection::Press, 2 * gap),
            (L_SHIFT, KeyDirection::Release, 2 * gap + 10),
            (L_SHIFT, KeyDirection::Press, 3 * gap),
            (L_SHIFT, KeyDirection::Release, 3 * gap + 10),
        ],
    );
    assert_eq!(fired, vec![3, 7]);
}

// ─── Pasting ─────────────────────────────────────────────────────────

fn ctrl() -> Modifiers {
    Modifiers { control: true, ..Modifiers::none() }
}

#[test]
fn detects_ctrl_v_and_ctrl_shift_v() {
    assert!(is_paste_shortcut(&event(SC_V, KeyDirection::Press, ctrl())));
    assert!(is_paste_shortcut(&event(SC_V, KeyDirection::Press, ctrl_shift())));
}

#[test]
fn detects_shift_insert() {
    let shift = Modifiers { shift: true, ..Modifiers::none() };
    assert!(is_paste_shortcut(&event(SC_INSERT, KeyDirection::Press, shift)));
}

#[test]
fn ignores_release_edge() {
    assert!(!is_paste_shortcut(&event(SC_V, KeyDirection::Release, ctrl())));
}

#[test]
fn ignores_plain_v_and_other_ctrl_combos() {
    assert!(!is_paste_shortcut(&event(SC_V, KeyDirection::Press, Modifiers::none())));
    let ctrl_c = 0x2E;
    assert!(!is_paste_shortcut(&event(ctrl_c, KeyDirection::Press, ctrl())));
}

#[test]
fn ctrl_alt_v_is_not_paste() {
    let ctrl_alt = Modifiers { control: true, alt: true, ..Modifiers::none() };
    assert!(!is_paste_shortcut(&event(SC_V, KeyDirection::Press, ctrl_alt)));
}
