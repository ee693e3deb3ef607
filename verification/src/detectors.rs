//! Which word lists are loaded, and when the loaded set is swapped.

use vstd::prelude::*;

use crate::keys::{plain_key, separator_key};
use crate::layouts::{char_of_key, KeyLevel, LayoutDb, LayoutId, LayoutMapping};
use crate::settings::WordlistProfile;
use crate::text::{chars_of, letters_lower, letters_only_lower, lowercase, push_char, str_eq};
use crate::text::to_lowercase;

verus! {

broadcast use vstd::string::group_string_axioms;

/// A dictionary set to build: the profile it is kept under, empty for the
/// global one, and the directory of its overlay.
pub struct CacheEntry {
    pub profile: String,
    pub dir: String,
}

/// A profile and a directory, as text.
pub open spec fn entry_view(e: CacheEntry) -> (Seq<char>, Seq<char>) {
    (e.profile@, e.dir@)
}

pub open spec fn entry_views(entries: Seq<CacheEntry>) -> Seq<(Seq<char>, Seq<char>)> {
    entries.map_values(|e: CacheEntry| entry_view(e))
}

/// One set for each of the first `n` profiles whose directory is known.
pub open spec fn profile_entries(
    profiles: Seq<WordlistProfile>,
    dirs: Seq<Option<String>>,
    n: nat,
) -> Seq<(Seq<char>, Seq<char>)>
    decreases n,
{
    if n == 0 {
        Seq::empty()
    } else {
        let init = profile_entries(profiles, dirs, (n - 1) as nat);
        match dirs[n - 1] {
            Some(d) => init.push((profiles[n - 1].id@, d@)),
            None => init,
        }
    }
}

/// The dictionary sets to build for the configured profiles. A profile whose
/// directory cannot be told is left out.
pub fn build_profile_dictionary_cache(
    profiles: &Vec<WordlistProfile>,
    dirs: &Vec<Option<String>>,
) -> (entries: Vec<CacheEntry>)
    requires
        profiles@.len() == dirs@.len(),
    ensures
        entry_views(entries@) == profile_entries(profiles@, dirs@, profiles@.len()),
{
    let mut entries: Vec<CacheEntry> = Vec::new();
    let mut i: usize = 0;
    assert(entry_views(entries@) =~= profile_entries(profiles@, dirs@, 0));
    while i < profiles.len()
        invariant
            i <= profiles.len() == dirs.len(),
            entry_views(entries@) == profile_entries(profiles@, dirs@, i as nat),
        decreases profiles.len() - i,
    {
        if let Some(dir) = &dirs[i] {
            let ghost before = entry_views(entries@);
            entries.push(CacheEntry { profile: profiles[i].id.clone(), dir: dir.clone() });
            assert(entry_views(entries@) =~= before.push((profiles@[i as int].id@, dir@)));
        }
        i += 1;
    }
    entries
}

/// Every dictionary set to build: those of the profiles and, where there are
/// any, the global one, which is what is swapped back in when the focus
/// leaves an app with a profile.
pub open spec fn full_entries(
    profiles: Seq<WordlistProfile>,
    dirs: Seq<Option<String>>,
    global_dir: Option<String>,
) -> Seq<(Seq<char>, Seq<char>)> {
    let entries = profile_entries(profiles, dirs, profiles.len());
    if entries.len() == 0 {
        entries
    } else {
        entries.push(
            (
                Seq::empty(),
                match global_dir {
                    Some(d) => d@,
                    None => Seq::empty(),
                },
            ),
        )
    }
}

pub fn build_full_profile_cache(
    profiles: &Vec<WordlistProfile>,
    dirs: &Vec<Option<String>>,
    global_dir: Option<String>,
) -> (entries: Vec<CacheEntry>)
    requires
        profiles@.len() == dirs@.len(),
    ensures
        entry_views(entries@) == full_entries(profiles@, dirs@, global_dir),
{
    let mut entries = build_profile_dictionary_cache(profiles, dirs);
    let ghost before = entry_views(entries@);
    if entries.len() > 0 {
        let dir = match global_dir {
            Some(d) => d,
            None => String::new(),
        };
        entries.push(CacheEntry { profile: String::new(), dir });
        assert(dir@ == match global_dir {
            Some(d) => d@,
            None => Seq::empty(),
        });
        assert(entry_views(entries@) =~= before.push((Seq::empty(), dir@)));
    }
    entries
}

/// What the profile watcher does after a look at the focused app.
#[derive(Clone, Copy, PartialEq, Eq, Structural, Debug)]
pub enum WatchStep {
    /// The right set is loaded.
    Nothing,
    /// Load the set of the profile that is active now.
    Apply,
    /// There is no set for that profile; what is loaded stays.
    Missing,
}

/// One look at the focused app. `resolved` is the profile it belongs to,
/// empty for none; `forced` says that the sets were rebuilt since; `cached`,
/// that there is one for the profile.
pub fn watch_profile(active: &mut String, resolved: String, forced: bool, cached: bool) -> (step:
    WatchStep)
    ensures
        final(active)@ == resolved@,
        step == if resolved@ == old(active)@ && !forced {
            WatchStep::Nothing
        } else if cached {
            WatchStep::Apply
        } else {
            WatchStep::Missing
        },
{
    if str_eq(resolved.as_str(), active.as_str()) && !forced {
        return WatchStep::Nothing;
    }
    *active = resolved;
    if cached {
        WatchStep::Apply
    } else {
        WatchStep::Missing
    }
}

/// The cell is the one its key types with, Caps Lock off.
pub open spec fn is_struck(levels: Seq<KeyLevel>, l: KeyLevel) -> bool {
    !l.caps && char_of_key(levels, plain_key(l.scancode, l.shift)) == Some(l.ch)
}

/// Each character of a layout with the key it is struck with, whatever the
/// Shift level.
pub open spec fn struck_keys(levels: Seq<KeyLevel>) -> Seq<(u32, char)> {
    levels.filter(|l: KeyLevel| is_struck(levels, l)).map_values(
        |l: KeyLevel| (l.scancode, l.ch),
    )
}

fn key_chars(m: &LayoutMapping) -> (pairs: Vec<(u32, char)>)
    ensures
        pairs@ == struck_keys(m.levels@),
{
    let mut pairs: Vec<(u32, char)> = Vec::new();
    let mut i: usize = 0;
    let ghost struck = |l: KeyLevel| is_struck(m.levels@, l);
    let ghost pair = |l: KeyLevel| (l.scancode, l.ch);
    proof {
        reveal(Seq::filter);
        assert(pairs@ =~= m.levels@.take(0).filter(struck).map_values(pair));
    }
    while i < m.levels.len()
        invariant
            i <= m.levels.len(),
            struck == (|l: KeyLevel| is_struck(m.levels@, l)),
            pair == (|l: KeyLevel| (l.scancode, l.ch)),
            pairs@ == m.levels@.take(i as int).filter(struck).map_values(pair),
        decreases m.levels.len() - i,
    {
        let l = m.levels[i];
        let ghost before = pairs@;
        let key = separator_key(l.scancode, l.shift);
        let own = match m.translate_key(key) {
            Some(c) => !l.caps && c == l.ch,
            None => false,
        };
        if own {
            pairs.push((l.scancode, l.ch));
        }
        proof {
            reveal(Seq::filter);
            assert(m.levels@.take(i + 1).drop_last() =~= m.levels@.take(i as int));
            assert(own == is_struck(m.levels@, l));
            assert(pairs@ =~= m.levels@.take(i + 1).filter(struck).map_values(pair));
        }
        i += 1;
    }
    assert(m.levels@.take(m.levels@.len() as int) =~= m.levels@);
    pairs
}

/// What the spelling suggestions are ranked by: for each layout where its
/// characters lie on the keyboard.
pub fn build_suggester(layouts: &LayoutDb) -> (geometry: Vec<(LayoutId, Vec<(u32, char)>)>)
    ensures
        geometry@.len() == layouts.layouts@.len(),
        forall|i: int|
            0 <= i < geometry@.len() ==> (#[trigger] geometry@[i]).0@ == layouts.layouts@[i].0@
                && geometry@[i].1@ == struck_keys(layouts.layouts@[i].1.levels@),
{
    let mut geometry: Vec<(LayoutId, Vec<(u32, char)>)> = Vec::new();
    let mut i: usize = 0;
    while i < layouts.layouts.len()
        invariant
            i <= layouts.layouts.len(),
            geometry@.len() == i,
            forall|j: int|
                0 <= j < i ==> (#[trigger] geometry@[j]).0@ == layouts.layouts@[j].0@
                    && geometry@[j].1@ == struck_keys(layouts.layouts@[j].1.levels@),
        decreases layouts.layouts.len() - i,
    {
        let row = &layouts.layouts[i];
        geometry.push((row.0.copy(), key_chars(&row.1)));
        i += 1;
    }
    geometry
}

/// `s` with an underscore for every hyphen.
pub open spec fn underscored(s: Seq<char>) -> Seq<char> {
    s.map_values(
        |c: char|
            if c == '-' {
                '_'
            } else {
                c
            },
    )
}

/// The file a layout's overlay is kept in: its name in lower case, with
/// underscores, and the extension.
pub fn overlay_file(layout: &LayoutId) -> (name: String)
    ensures
        name@ == underscored(lowercase(layout@)) + ".txt"@,
{
    let v = chars_of(to_lowercase(layout.as_str()).as_str());
    let mut name = String::new();
    let mut i: usize = 0;
    while i < v.len()
        invariant
            i <= v.len(),
            name@ == underscored(v@.take(i as int)),
        decreases v.len() - i,
    {
        let c: char = if v[i] == '-' {
            '_'
        } else {
            v[i]
        };
        let ghost before = name@;
        push_char(&mut name, c);
        assert(name@ =~= before.push(c));
        i += 1;
        assert(name@ =~= underscored(v@.take(i as int)));
    }
    assert(v@.take(v@.len() as int) =~= v@);
    name.append(".txt");
    name
}

/// What adding a word to a layout's overlay writes: the file, and the line,
/// in the one shape that words have on disk and in memory.
pub fn add_word_to_user_overlay(layout: &LayoutId, word: &str) -> (r: (String, String))
    ensures
        r.0@ == underscored(lowercase(layout@)) + ".txt"@,
        r.1@ == letters_lower(word@),
{
    (overlay_file(layout), letters_only_lower(word))
}

} // verus!
