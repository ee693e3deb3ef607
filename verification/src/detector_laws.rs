//! What holds of the dictionary sets, the keyboard geometry and the other
//! things that are read off names and texts.

use vstd::prelude::*;
use vstd::string::*;

use crate::detectors::{full_entries, profile_entries, struck_keys, underscored};
use crate::engine::types::{ModRole, ModSet};
use crate::input::focus::{
    caret_hint_from, clamped, is_edit_class, sensitivity, window_geometry, CaretHint,
    FocusedWindowGeometry, Point, Rect, SensitiveInput,
};
use crate::layouts::{char_of_key, KeyLevel};
use crate::keys::plain_key;
use crate::logsafe::redacted;
use crate::plugins::types::DiscoveredExtension;
use crate::settings::{Settings, WordlistProfile};
use crate::settings_ui::enums::{
    law_theme_survives_the_config, theme_of, ThemeChoice, WordlistKind,
};
use crate::settings_ui::plugin_edits::config_file_text;
use crate::settings_ui::state::{Capture, SettingsApp};
use crate::text::{ascii_fold, decimal, trimmed};
use crate::text_laws::law_a_written_number_is_read_back;

verus! {

broadcast use vstd::string::group_string_axioms;

// ─── Dictionary sets ─────────────────────────────────────────────────

/// There is a set for each profile whose directory is known, and for no
/// other.
pub proof fn law_every_profile_has_its_set(
    profiles: Seq<WordlistProfile>,
    dirs: Seq<Option<String>>,
    n: nat,
    set: (Seq<char>, Seq<char>),
)
    requires
        n <= profiles.len(),
        n <= dirs.len(),
    ensures
        profile_entries(profiles, dirs, n).contains(set) <==> exists|i: int|
            0 <= i < n && #[trigger] dirs[i] is Some && profiles[i].id@ == set.0 && dirs[i]->0@
                == set.1,
    decreases n,
{
    if n > 0 {
        let m = (n - 1) as nat;
        let init = profile_entries(profiles, dirs, m);
        let all = profile_entries(profiles, dirs, n);
        law_every_profile_has_its_set(profiles, dirs, m, set);
        if all.contains(set) {
            let k = choose|k: int| 0 <= k < all.len() && all[k] == set;
            if k < init.len() {
                assert(init[k] == set);
                assert(init.contains(set));
                let i = choose|i: int|
                    0 <= i < m && #[trigger] dirs[i] is Some && profiles[i].id@ == set.0
                        && dirs[i]->0@ == set.1;
                assert(dirs[i] is Some);
            } else {
                assert(dirs[m as int] is Some);
            }
        }
        if exists|i: int|
            0 <= i < n && #[trigger] dirs[i] is Some && profiles[i].id@ == set.0 && dirs[i]->0@
                == set.1 {
            let i = choose|i: int|
                0 <= i < n && #[trigger] dirs[i] is Some && profiles[i].id@ == set.0 && dirs[i]->0@
                    == set.1;
            if i < m {
                assert(init.contains(set));
                let k = choose|k: int| 0 <= k < init.len() && init[k] == set;
                assert(all[k] == set);
            } else {
                assert(all[init.len() as int] == set);
            }
        }
    }
}

/// The global set stands behind those of the profiles, and only where there
/// are any.
pub proof fn law_the_global_set_comes_last(
    profiles: Seq<WordlistProfile>,
    dirs: Seq<Option<String>>,
    global_dir: Option<String>,
)
    ensures
        ({
            let own = profile_entries(profiles, dirs, profiles.len());
            let all = full_entries(profiles, dirs, global_dir);
            &&& own.len() == 0 ==> all.len() == 0
            &&& own.len() > 0 ==> all.len() == own.len() + 1 && all.drop_last() == own
                && all.last().0.len() == 0
            &&& own.len() > 0 && global_dir is Some ==> all.last().1 == global_dir->0@
        }),
{
    let own = profile_entries(profiles, dirs, profiles.len());
    let all = full_entries(profiles, dirs, global_dir);
    if own.len() > 0 {
        assert(all.drop_last() =~= own);
    }
}

/// A file name keeps the length of the layout's and every character but the
/// hyphens, which become underscores.
pub proof fn law_only_hyphens_are_replaced(s: Seq<char>, i: int)
    requires
        0 <= i < s.len(),
    ensures
        underscored(s).len() == s.len(),
        !underscored(s).contains('-'),
        s[i] != '-' ==> underscored(s)[i] == s[i],
        s[i] == '-' ==> underscored(s)[i] == '_',
{
    if underscored(s).contains('-') {
        let k = choose|k: int| 0 <= k < s.len() && underscored(s)[k] == '-';
    }
}

/// The geometry holds a character under a key exactly where that key types
/// it, with Caps Lock off, on one of its levels.
pub proof fn law_the_geometry_is_what_the_keys_type(levels: Seq<KeyLevel>, sc: u32, ch: char)
    ensures
        struck_keys(levels).contains((sc, ch)) <==> char_of_key(levels, plain_key(sc, false))
            == Some(ch) || char_of_key(levels, plain_key(sc, true)) == Some(ch),
{
    let struck = |l: KeyLevel| crate::detectors::is_struck(levels, l);
    let kept = levels.filter(struck);
    let all = struck_keys(levels);
    if all.contains((sc, ch)) {
        let k = choose|k: int| 0 <= k < all.len() && all[k] == (sc, ch);
        levels.lemma_filter_pred(struck, k);
        assert(struck(kept[k]));
    }
    if char_of_key(levels, plain_key(sc, false)) == Some(ch) {
        lemma_struck(levels, sc, false, ch);
    }
    if char_of_key(levels, plain_key(sc, true)) == Some(ch) {
        lemma_struck(levels, sc, true, ch);
    }
}

proof fn lemma_cell(levels: Seq<KeyLevel>, sc: u32, shift: bool, ch: char) -> (i: int)
    requires
        char_of_key(levels, plain_key(sc, shift)) == Some(ch),
    ensures
        0 <= i < levels.len(),
        levels[i] == (KeyLevel { scancode: sc, shift, caps: false, ch }),
    decreases levels.len(),
{
    let l = levels[0];
    if l.scancode == sc && l.shift == shift && !l.caps {
        0
    } else {
        let j = lemma_cell(levels.drop_first(), sc, shift, ch);
        assert(levels.drop_first()[j] == levels[j + 1]);
        j + 1
    }
}

proof fn lemma_struck(levels: Seq<KeyLevel>, sc: u32, shift: bool, ch: char)
    requires
        char_of_key(levels, plain_key(sc, shift)) == Some(ch),
    ensures
        struck_keys(levels).contains((sc, ch)),
{
    let struck = |l: KeyLevel| crate::detectors::is_struck(levels, l);
    let i = lemma_cell(levels, sc, shift, ch);
    assert(struck(levels[i]));
    levels.lemma_filter_contains(struck, i);
    let kept = levels.filter(struck);
    let k = choose|k: int| 0 <= k < kept.len() && kept[k] == levels[i];
    assert(struck_keys(levels)[k] == (sc, ch));
}

// ─── Names and numbers ───────────────────────────────────────────────

/// A clamped number is the number where it fits, and the nearest that does
/// where it does not.
pub proof fn law_clamping_goes_to_the_nearest(n: int, m: int)
    ensures
        i32::MIN <= n <= i32::MAX ==> clamped(n) == n,
        n <= m ==> clamped(n) <= clamped(m),
        n > i32::MAX ==> clamped(n) == i32::MAX,
        n < i32::MIN ==> clamped(n) == i32::MIN,
{
}

/// The case of a class name does not matter.
pub proof fn law_the_case_of_a_class_does_not_matter(a: Seq<char>, b: Seq<char>)
    requires
        ascii_fold(a) == ascii_fold(b),
    ensures
        is_edit_class(a) == is_edit_class(b),
{
}

/// A rich edit control is one whatever version its class name ends with; of
/// the plain one's name nothing may be added.
pub proof fn law_rich_edit_controls_have_versions(version: Seq<char>)
    ensures
        is_edit_class("richedit"@ + version),
        is_edit_class("edit"@),
        version.len() > 0 ==> !is_edit_class("edit"@ + version),
{
    reveal_strlit("richedit");
    reveal_strlit("edit");
    let s = "richedit"@ + version;
    assert(ascii_fold(s).take(8) =~= ascii_fold("richedit"@));
    let plain = "edit"@ + version;
    assert(ascii_fold(plain).len() == 4 + version.len());
    assert(ascii_fold("edit"@).len() == 4);
    if ascii_fold(plain).len() >= 8 {
        assert(ascii_fold(plain).take(8)[0] == 'e');
        assert(ascii_fold("richedit"@)[0] == 'r');
    }
}

/// White space and case aside, a theme is one of the two names, and
/// everything else follows the system.
pub proof fn law_a_theme_is_read_by_its_name(a: Seq<char>, b: Seq<char>)
    ensures
        ascii_fold(trimmed(a)) == ascii_fold(trimmed(b)) ==> theme_of(a) == theme_of(b),
        theme_of(a) == ThemeChoice::Light ==> trimmed(a).len() == 5,
        theme_of(a) == ThemeChoice::Dark ==> trimmed(a).len() == 4,
        theme_of(a) == theme_of(b) && theme_of(a) != ThemeChoice::System ==> ascii_fold(trimmed(a))
            == ascii_fold(trimmed(b)),
{
    reveal_strlit("light");
    reveal_strlit("dark");
    assert(ascii_fold("light"@).len() == 5);
    assert(ascii_fold("dark"@).len() == 4);
    assert(ascii_fold(trimmed(a)).len() == trimmed(a).len());
}

/// Only the System theme asks the system.
pub proof fn law_only_the_system_theme_follows_the_system(t: ThemeChoice)
    ensures
        t.dark(true) != t.dark(false) <==> t == ThemeChoice::System,
        t.dark(true) || t.dark(false) || t == ThemeChoice::Light,
        !t.dark(true) || !t.dark(false) || t == ThemeChoice::Dark,
        t == ThemeChoice::System ==> t.dark(true),
{
}

/// What stands in for a word tells its length: words of different lengths
/// have different ones.
pub proof fn law_a_stand_in_tells_the_length(a: nat, b: nat)
    requires
        redacted(a) == redacted(b),
    ensures
        a == b,
{
    reveal_strlit("<");
    reveal_strlit(" chars>");
    let x = redacted(a);
    assert(x.subrange(1, x.len() - 7) =~= decimal(a));
    assert(x.subrange(1, x.len() - 7) =~= decimal(b));
    law_a_written_number_is_read_back(a as int);
    law_a_written_number_is_read_back(b as int);
}

// ─── Settings ────────────────────────────────────────────────────────

/// A new profile works as it is: every layout is considered, corrections
/// chime, words of three letters and up are judged, identifiers and
/// abbreviations are left alone, an offer has as many entries as there are
/// digits for, and the two hotkeys differ.
pub proof fn law_defaults_work(s: Settings)
    requires
        call_ensures(Settings::default, (), s),
    ensures
        s.languages.active@.len() == 0 && s.languages.ignored@.len() == 0,
        s.general.sound_on_correct && !s.general.autostart && !s.general.show_notifications,
        s.engine.min_word_length == 3 && s.engine.idle_timeout_ms == 2000,
        s.engine.suppress_in_identifiers && s.engine.suppress_for_all_caps,
        s.suggestions.enabled && s.suggestions.max_suggestions == 5
            && s.suggestions.tooltip_timeout_secs == 30,
        s.updates.check_interval_hours == 24,
        s.exceptions.word_whitelist@.len() == 0,
        s.ai.plugins@.len() == 0,
        s.hotkeys.pause_toggle@ != s.hotkeys.manual_switch_last@,
        theme_of(s.general.ui_theme@) == ThemeChoice::System,
{
    reveal_strlit("Ctrl+Shift+Space");
    reveal_strlit("Ctrl+Shift+Backspace");
    assert("Ctrl+Shift+Space"@.len() == 16 && "Ctrl+Shift+Backspace"@.len() == 20);
    law_theme_survives_the_config(ThemeChoice::System);
}

/// A plug-in's settings always have a file: the one that it names, and where
/// it names none the usual one.
pub proof fn law_settings_have_a_file(ext: DiscoveredExtension)
    ensures
        config_file_text(ext).len() > 0,
        ext.manifest.config_file@.len() > 0 ==> config_file_text(ext) == ext.manifest.config_file@,
{
    reveal_strlit("config.toml");
}

/// The two lists of a layout are kept apart: one has a suffix, the other
/// none.
pub proof fn law_the_two_lists_are_kept_apart(a: WordlistKind, b: WordlistKind)
    ensures
        a.suffix_text() == b.suffix_text() ==> a == b,
        WordlistKind::Extras.suffix_text().len() == 0,
{
    reveal_strlit("");
    reveal_strlit("-stop");
    assert(WordlistKind::Stop.suffix_text().len() == 5);
}

// ─── Windows ─────────────────────────────────────────────────────────

/// A window lies where its edges are: from its corner its size leads to the
/// opposite one, as far as the size can be told; edges the wrong way round
/// are no window.
pub proof fn law_a_window_lies_between_its_edges(rect: Rect, g: Option<FocusedWindowGeometry>)
    requires
        call_ensures(window_geometry, (rect,), g),
    ensures
        g is Some <==> rect.left <= rect.right && rect.top <= rect.bottom,
        g is Some ==> g->0.x == rect.left && g->0.y == rect.top,
        g is Some && rect.right - rect.left <= i32::MAX ==> g->0.x + g->0.width == rect.right,
        g is Some && rect.bottom - rect.top <= i32::MAX ==> g->0.y + g->0.height == rect.bottom,
{
}

/// A caret is told relative to its window: added to the window's corner it
/// is where it was on screen, as far as that can be told; a caret without
/// height is none.
pub proof fn law_a_caret_is_told_relative_to_its_window(
    origin: Point,
    caret: Rect,
    window: Rect,
    h: Option<CaretHint>,
)
    requires
        call_ensures(caret_hint_from, (origin, caret, window), h),
    ensures
        h is Some <==> caret.top < caret.bottom,
        h is Some && i32::MIN <= origin.x - window.left <= i32::MAX ==> h->0.x + window.left
            == origin.x,
        h is Some && i32::MIN <= origin.y - window.top <= i32::MAX ==> h->0.y + window.top
            == origin.y,
        h is Some && caret.bottom - caret.top <= i32::MAX ==> h->0.height == caret.bottom
            - caret.top,
{
}

/// A field is taken for safe only where it was said to be: no answer at all
/// is not one, and an answer of the first source is not overruled.
pub proof fn law_a_field_is_safe_only_where_it_was_said_to_be(
    accessibility: Option<bool>,
    native: Option<bool>,
    s: SensitiveInput,
)
    requires
        call_ensures(sensitivity, (accessibility, native), s),
    ensures
        s is NotSensitive ==> accessibility == Some(false) || accessibility is None && native
            == Some(false),
        s is Unknown <==> accessibility is None && native is None,
        accessibility == Some(true) ==> s is Sensitive,
        accessibility == Some(false) ==> s is NotSensitive,
        accessibility is None && native == Some(true) ==> s is Sensitive,
        accessibility is None && native == Some(false) ==> s is NotSensitive,
{
}

/// Two drawings in a row have different shades.
pub proof fn law_the_backdrop_changes_with_every_drawing(
    a: SettingsApp,
    b: SettingsApp,
    c: SettingsApp,
    first: u32,
    second: u32,
)
    requires
        exists|m: &mut SettingsApp|
            *m == a && *final(m) == b && #[trigger] call_ensures(
                SettingsApp::backdrop_step,
                (m,),
                first,
            ),
        exists|m: &mut SettingsApp|
            *m == b && *final(m) == c && #[trigger] call_ensures(
                SettingsApp::backdrop_step,
                (m,),
                second,
            ),
    ensures
        first != second,
        first < 251,
{
}

/// While a hotkey is being captured Escape always cancels, a modifier is
/// never a combination, and a bare key binds nothing, Caps Lock aside.
pub proof fn law_a_bare_key_binds_nothing(
    is_escape: bool,
    role: Option<ModRole>,
    held: ModSet,
    no_modifiers: bool,
    is_capslock: bool,
    combo: String,
    usable: bool,
    physical: Option<String>,
    c: Option<Capture>,
)
    requires
        call_ensures(
            SettingsApp::capture_press,
            (is_escape, role, held, no_modifiers, is_capslock, combo, usable, physical),
            c,
        ),
    ensures
        is_escape ==> c is Some && c->0 is Cancel,
        c is Some && c->0 is Cancel ==> is_escape,
        c is Some && c->0 is Modifier ==> role == Some(c->0->role) && c->0->held == held,
        c is Some && c->0 is Combo ==> role is None && (!no_modifiers || is_capslock),
        c is Some && c->0 is Combo && usable ==> c->0->Combo_0 == combo,
        c is Some && c->0 is Combo && !usable && physical is Some ==> c->0->Combo_0
            == physical->0,
        c is None ==> no_modifiers && !is_capslock && role is None,
{
}

} // verus!
