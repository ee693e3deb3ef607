//! What holds of every decision about a completed word, in terms of the
//! user's settings, the desktop and the keys that were typed.

use vstd::prelude::*;

use crate::engine::decide::{
    act_on_verdict, candidate_text, candidate_views, candidates_of, filter_applies, filter_order,
    first_opinion, first_said, is_first_filter, keep_message, opt_list, stashes, tables_agree, word_candidates,
    word_facts, word_text, CompletedWord, Filter, Judgement, Surroundings, SwitchAction, Verdict,
    WordFacts,
};
use crate::engine::force_switch::is_switch_of;
use crate::engine::heuristics::{eligible, upper_count};
use crate::engine::types::{Correction, LastWord};
use crate::keys::{plain_key, replay_of, ReplayKey, WordKey};
use crate::layouts::{
    char_of_key, key_of_char, names, reading, row_names, LayoutDb, LayoutId, LayoutMapping,
};
use crate::logsafe::redacted;
use crate::settings::Settings;
use crate::text::{
    ascii_fold, char_is_lowercase, char_is_uppercase, contains_text, letters_lower,
};
use crate::text_laws::law_what_contains_a_text_is_built_round_it;

verus! {

// ─── Candidates ──────────────────────────────────────────────────────

/// The layout may be switched to: the engine knows it, the user does not
/// ignore it, and it is the current one, or is on the user's list where
/// there is one and on the system's list where the system was asked.
pub open spec fn may_switch_to(
    layouts: LayoutDb,
    settings: Settings,
    around: Surroundings,
    name: Seq<char>,
) -> bool {
    let current = around.current_layout->0@;
    &&& exists|r: int| 0 <= r < layouts.layouts@.len() && (#[trigger] layouts.layouts@[r]).0@ == name
    &&& forall|i: int|
        0 <= i < settings.languages.ignored@.len() ==> (
        #[trigger] settings.languages.ignored@[i])@ != name
    &&& name == current || settings.languages.active@.len() == 0 || exists|i: int|
        0 <= i < settings.languages.active@.len() && (
        #[trigger] settings.languages.active@[i])@ == name
    &&& name == current || match around.os_active {
        Some(list) => exists|i: int| 0 <= i < list@.len() && (#[trigger] list@[i])@ == name,
        None => true,
    }
}

/// The name is on a list of layouts.
proof fn lemma_named(ids: Seq<LayoutId>, name: Seq<char>)
    ensures
        names(ids).contains(name) == exists|i: int|
            0 <= i < ids.len() && (#[trigger] ids[i])@ == name,
{
    if names(ids).contains(name) {
        let i = choose|i: int| 0 <= i < names(ids).len() && names(ids)[i] == name;
        assert(ids[i]@ == name);
    }
    if exists|i: int| 0 <= i < ids.len() && (#[trigger] ids[i])@ == name {
        let i = choose|i: int| 0 <= i < ids.len() && (#[trigger] ids[i])@ == name;
        assert(names(ids)[i] == name);
    }
}

proof fn lemma_candidates(
    rows: Seq<(LayoutId, LayoutMapping)>,
    keys: Seq<WordKey>,
    current: Seq<char>,
    active: Seq<Seq<char>>,
    ignored: Seq<Seq<char>>,
    os_active: Option<Seq<Seq<char>>>,
)
    ensures
        ({
            let cs = candidates_of(rows, keys, current, active, ignored, os_active);
            &&& forall|i: int|
                0 <= i < cs.len() ==> eligible((#[trigger] cs[i]).0, current, active, ignored, os_active)
                    && exists|r: int|
                    0 <= r < rows.len() && (#[trigger] rows[r]).0@ == cs[i].0 && cs[i].1 == reading(
                        rows[r].1.levels@,
                        keys,
                    )
            &&& forall|r: int|
                0 <= r < rows.len() && eligible(
                    (#[trigger] rows[r]).0@,
                    current,
                    active,
                    ignored,
                    os_active,
                ) ==> exists|i: int| 0 <= i < cs.len() && (#[trigger] cs[i]).0 == rows[r].0@
        }),
    decreases rows.len(),
{
    if rows.len() > 0 {
        let init = rows.drop_last();
        let before = candidates_of(init, keys, current, active, ignored, os_active);
        let cs = candidates_of(rows, keys, current, active, ignored, os_active);
        lemma_candidates(init, keys, current, active, ignored, os_active);
        assert forall|i: int| 0 <= i < cs.len() implies eligible(
            (#[trigger] cs[i]).0,
            current,
            active,
            ignored,
            os_active,
        ) && exists|r: int|
            0 <= r < rows.len() && (#[trigger] rows[r]).0@ == cs[i].0 && cs[i].1 == reading(
                rows[r].1.levels@,
                keys,
            ) by {
            if i < before.len() {
                assert(cs[i] == before[i]);
                let r = choose|r: int|
                    0 <= r < init.len() && (#[trigger] init[r]).0@ == before[i].0 && before[i].1
                        == reading(init[r].1.levels@, keys);
                assert(rows[r] == init[r]);
            } else {
                assert(rows[rows.len() - 1].0@ == cs[i].0);
            }
        }
        assert forall|r: int|
            0 <= r < rows.len() && eligible(
                (#[trigger] rows[r]).0@,
                current,
                active,
                ignored,
                os_active,
            ) implies exists|i: int| 0 <= i < cs.len() && (#[trigger] cs[i]).0 == rows[r].0@ by {
            if r < init.len() {
                assert(init[r] == rows[r]);
                let i = choose|i: int| 0 <= i < before.len() && (#[trigger] before[i]).0 == init[r].0@;
                assert(cs[i].0 == rows[r].0@);
            } else {
                assert(cs[before.len() as int].0 == rows[r].0@);
            }
        }
    }
}

/// The candidates a word is judged against are exactly the layouts it may
/// be switched to, each with what the word's keys read as in it: a layout
/// the user ignores, or did not list, or the system has not enabled, is
/// never among them, and no other is left out.
pub proof fn law_candidates_are_the_layouts_the_user_allows(
    layouts: LayoutDb,
    settings: Settings,
    word: CompletedWord,
    around: Surroundings,
    name: Seq<char>,
)
    requires
        around.current_layout is Some,
    ensures
        ({
            let cs = word_candidates(layouts, settings, word, around);
            &&& (exists|i: int| 0 <= i < cs.len() && (#[trigger] cs[i]).0 == name)
                == may_switch_to(layouts, settings, around, name)
            &&& forall|i: int|
                0 <= i < cs.len() ==> exists|r: int|
                    0 <= r < layouts.layouts@.len() && (#[trigger] layouts.layouts@[r]).0@ == (
                    #[trigger] cs[i]).0 && cs[i].1 == reading(
                        layouts.layouts@[r].1.levels@,
                        word.keys@,
                    )
        }),
{
    let rows = layouts.layouts@;
    let current = around.current_layout->0@;
    let active = names(settings.languages.active@);
    let ignored = names(settings.languages.ignored@);
    let os = opt_list(around.os_active);
    let cs = word_candidates(layouts, settings, word, around);
    lemma_candidates(rows, word.keys@, current, active, ignored, os);
    lemma_named(settings.languages.active@, name);
    lemma_named(settings.languages.ignored@, name);
    if let Some(list) = around.os_active {
        lemma_named(list@, name);
    }
    if exists|i: int| 0 <= i < cs.len() && (#[trigger] cs[i]).0 == name {
        let i = choose|i: int| 0 <= i < cs.len() && (#[trigger] cs[i]).0 == name;
        assert(eligible(cs[i].0, current, active, ignored, os));
    }
    if may_switch_to(layouts, settings, around, name) {
        let r = choose|r: int| 0 <= r < rows.len() && (#[trigger] rows[r]).0@ == name;
        assert(eligible(rows[r].0@, current, active, ignored, os));
    }
}

/// The candidates are the layouts that may be switched to, all of them and
/// no other.
pub open spec fn are_the_allowed(
    layouts: LayoutDb,
    settings: Settings,
    around: Surroundings,
    candidates: Seq<(LayoutId, String)>,
) -> bool {
    &&& forall|i: int|
        0 <= i < candidates.len() ==> may_switch_to(
            layouts,
            settings,
            around,
            (#[trigger] candidates[i]).0@,
        )
    &&& forall|name: Seq<char>| #[trigger]
        may_switch_to(layouts, settings, around, name) ==> exists|i: int|
            0 <= i < candidates.len() && (#[trigger] candidates[i]).0@ == name
}

/// The same of the candidates of a judgement.
pub proof fn lemma_judged_candidates(
    layouts: LayoutDb,
    settings: Settings,
    word: CompletedWord,
    around: Surroundings,
    candidates: Seq<(LayoutId, String)>,
)
    requires
        around.current_layout is Some,
        candidate_views(candidates) == word_candidates(layouts, settings, word, around),
    ensures
        are_the_allowed(layouts, settings, around, candidates),
{
    let cs = candidate_views(candidates);
    assert forall|i: int| 0 <= i < candidates.len() implies may_switch_to(
        layouts,
        settings,
        around,
        (#[trigger] candidates[i]).0@,
    ) by {
        assert(cs[i].0 == candidates[i].0@);
        law_candidates_are_the_layouts_the_user_allows(layouts, settings, word, around, cs[i].0);
    }
    assert forall|name: Seq<char>| #[trigger]
        may_switch_to(layouts, settings, around, name) implies exists|i: int|
        0 <= i < candidates.len() && (#[trigger] candidates[i]).0@ == name by {
        law_candidates_are_the_layouts_the_user_allows(layouts, settings, word, around, name);
        let i = choose|i: int| 0 <= i < cs.len() && (#[trigger] cs[i]).0 == name;
        assert(candidates[i].0@ == name);
    }
}

// ─── Filters ─────────────────────────────────────────────────────────

/// A character that means an address, a path or code.
pub open spec fn joins_addresses(c: char) -> bool {
    seq![':', '/', '\\', '@', '=', '#', '&'].contains(c)
}

/// A character that may end a sentence.
pub open spec fn closes_a_sentence(c: char) -> bool {
    seq!['.', ',', '!', '?'].contains(c)
}

/// A word in capitals: no small letter, and two capitals at least.
pub open spec fn in_capitals(text: Seq<char>) -> bool {
    &&& forall|i: int| 0 <= i < text.len() ==> !char_is_lowercase(#[trigger] text[i])
    &&& exists|i: int, j: int|
        0 <= i < j < text.len() && char_is_uppercase(#[trigger] text[i]) && char_is_uppercase(
            #[trigger] text[j],
        )
}

/// What stands behind the word: what the layout gives for the closing key;
/// where it gives nothing, Enter ends the line, Tab is a tab, and any other
/// key is a space.
pub open spec fn ends_at(layouts: LayoutDb, current: Seq<char>, scancode: u32, shift: bool) -> char {
    match layouts.renders(current, plain_key(scancode, shift)) {
        Some(c) => c,
        None => if scancode == 0x0F {
            '\t'
        } else if scancode == 0x1C || scancode == 0x60 {
            '\n'
        } else {
            ' '
        },
    }
}

/// There is a reason to leave the word alone without asking anybody.
pub open spec fn has_reason_to_stay(
    stamp: Option<LayoutId>,
    layouts: LayoutDb,
    settings: Settings,
    word: CompletedWord,
    around: Surroundings,
) -> bool {
    let current = around.current_layout->0@;
    let typed = match stamp {
        Some(id) => id@,
        None => current,
    };
    let text = layouts.reads(typed, word.keys@);
    let closing = plain_key(word.boundary_scancode, word.boundary_shift);
    let end = ends_at(layouts, current, word.boundary_scancode, word.boundary_shift);
    // The layout was changed by hand under the word.
    ||| typed != current
    // The user asked for it.
    ||| exists|i: int|
        0 <= i < settings.exceptions.word_whitelist@.len() && letters_lower(
            (#[trigger] settings.exceptions.word_whitelist@[i])@,
        ) == letters_lower(text)
    // A line was sent, or the focus moved.
    ||| end == '\n' || end == '\r' || end == '\t'
    // An address, a path or code goes on, in every layout.
    ||| joins_addresses(end) && !exists|name: Seq<char>|
        may_switch_to(layouts, settings, around, name) && (#[trigger] layouts.renders(name, closing)
            matches Some(c) && closes_a_sentence(c))
    // It went before.
    ||| word.lead matches Some(k) && (layouts.renders(current, plain_key(k.0, k.1)) matches Some(c)
        && joins_addresses(c))
    // A command-line flag.
    ||| text.len() > 0 && text[0] == '-'
    // An abbreviation.
    ||| settings.engine.suppress_for_all_caps && in_capitals(text)
    // The application is excepted.
    ||| around.focused_exe matches Some(exe) && exists|i: int|
        0 <= i < settings.exceptions.disabled_apps@.len() && ascii_fold(
            (#[trigger] settings.exceptions.disabled_apps@[i])@,
        ) == ascii_fold(exe@)
    // An identifier.
    ||| settings.engine.suppress_in_identifiers && around.code_token
}

proof fn lemma_one_capital(s: Seq<char>)
    ensures
        (upper_count(s) >= 1) == exists|i: int| 0 <= i < s.len() && char_is_uppercase(#[trigger] s[i]),
    decreases s.len(),
{
    reveal(Seq::filter);
    if s.len() > 0 {
        let init = s.drop_last();
        lemma_one_capital(init);
        if upper_count(init) >= 1 {
            let i = choose|i: int| 0 <= i < init.len() && char_is_uppercase(#[trigger] init[i]);
            assert(char_is_uppercase(s[i]));
        }
        if char_is_uppercase(s.last()) {
            assert(char_is_uppercase(s[s.len() - 1]));
        }
        if exists|i: int| 0 <= i < s.len() && char_is_uppercase(#[trigger] s[i]) {
            let i = choose|i: int| 0 <= i < s.len() && char_is_uppercase(#[trigger] s[i]);
            if i < init.len() {
                assert(char_is_uppercase(init[i]));
            }
        }
    }
}

proof fn lemma_two_capitals(s: Seq<char>)
    ensures
        (upper_count(s) >= 2) == exists|i: int, j: int|
            0 <= i < j < s.len() && char_is_uppercase(#[trigger] s[i]) && char_is_uppercase(
                #[trigger] s[j],
            ),
    decreases s.len(),
{
    reveal(Seq::filter);
    if s.len() > 0 {
        let init = s.drop_last();
        let n = s.len() - 1;
        lemma_two_capitals(init);
        lemma_one_capital(init);
        if upper_count(init) >= 2 {
            let (i, j) = choose|i: int, j: int|
                0 <= i < j < init.len() && char_is_uppercase(#[trigger] init[i])
                    && char_is_uppercase(#[trigger] init[j]);
            assert(char_is_uppercase(s[i]) && char_is_uppercase(s[j]));
        } else if upper_count(s) >= 2 {
            let i = choose|i: int| 0 <= i < init.len() && char_is_uppercase(#[trigger] init[i]);
            assert(char_is_uppercase(s[i]) && char_is_uppercase(s[n]));
        }
        if exists|i: int, j: int|
            0 <= i < j < s.len() && char_is_uppercase(#[trigger] s[i]) && char_is_uppercase(
                #[trigger] s[j],
            ) {
            let (i, j) = choose|i: int, j: int|
                0 <= i < j < s.len() && char_is_uppercase(#[trigger] s[i]) && char_is_uppercase(
                    #[trigger] s[j],
                );
            assert(char_is_uppercase(init[i]));
            if j < n {
                assert(char_is_uppercase(init[j]));
            }
        }
    }
}

/// A word is kept without asking a detector exactly when there is a reason
/// to: the reasons are those listed, each in terms of what the user set,
/// what was typed and what the desktop said.
pub proof fn law_a_word_is_kept_for_a_reason(
    stamp: Option<LayoutId>,
    layouts: LayoutDb,
    settings: Settings,
    word: CompletedWord,
    around: Surroundings,
)
    requires
        around.current_layout is Some,
    ensures
        (exists|f: Filter|
            filter_applies(f, word_facts(stamp, layouts, settings, word, around)))
            == has_reason_to_stay(stamp, layouts, settings, word, around),
{
    let facts = word_facts(stamp, layouts, settings, word, around);
    let current = around.current_layout->0@;
    let text = word_text(stamp, layouts, word, around);
    let closing = plain_key(word.boundary_scancode, word.boundary_shift);
    let cs = word_candidates(layouts, settings, word, around);
    let address = seq![':', '/', '\\', '@', '=', '#', '&'];
    let sentence = seq!['.', ',', '!', '?'];
    assert forall|c: char| #[trigger] joins_addresses(c) == crate::engine::heuristics::is_structural(
        c,
    ) by {
        assert(address[0] == ':' && address[1] == '/' && address[2] == '\\' && address[3] == '@'
            && address[4] == '=' && address[5] == '#' && address[6] == '&');
        if address.contains(c) {
            let i = choose|i: int| 0 <= i < address.len() && address[i] == c;
        }
    }
    assert forall|c: char| #[trigger] closes_a_sentence(c)
        == crate::engine::heuristics::ends_sentence(c) by {
        assert(sentence[0] == '.' && sentence[1] == ',' && sentence[2] == '!' && sentence[3]
            == '?');
        if sentence.contains(c) {
            let i = choose|i: int| 0 <= i < sentence.len() && sentence[i] == c;
        }
    }
    lemma_two_capitals(text);
    let elsewhere = exists|name: Seq<char>|
        may_switch_to(layouts, settings, around, name) && (#[trigger] layouts.renders(name, closing)
            matches Some(c) && closes_a_sentence(c));
    if facts.punctuation_elsewhere {
        let i = choose|i: int|
            0 <= i < cs.len() && (layouts.renders((#[trigger] cs[i]).0, closing) matches Some(c)
                && crate::engine::heuristics::ends_sentence(c));
        law_candidates_are_the_layouts_the_user_allows(layouts, settings, word, around, cs[i].0);
        assert(may_switch_to(layouts, settings, around, cs[i].0));
        assert(elsewhere);
    }
    if elsewhere {
        let name = choose|name: Seq<char>|
            may_switch_to(layouts, settings, around, name) && (#[trigger] layouts.renders(
                name,
                closing,
            ) matches Some(c) && closes_a_sentence(c));
        law_candidates_are_the_layouts_the_user_allows(layouts, settings, word, around, name);
        let i = choose|i: int| 0 <= i < cs.len() && (#[trigger] cs[i]).0 == name;
        assert(cs[i].0 == name);
        assert(facts.punctuation_elsewhere);
    }
    assert(facts.boundary == ends_at(
        layouts,
        current,
        word.boundary_scancode,
        word.boundary_shift,
    ));
    if has_reason_to_stay(stamp, layouts, settings, word, around) {
        let f = if facts.layout_changed {
            Filter::LayoutChanged
        } else if facts.whitelisted {
            Filter::Whitelisted
        } else if filter_applies(Filter::SubmissionBoundary, facts) {
            Filter::SubmissionBoundary
        } else if filter_applies(Filter::StructuralSuffix, facts) {
            Filter::StructuralSuffix
        } else if filter_applies(Filter::StructuralPrefix, facts) {
            Filter::StructuralPrefix
        } else if facts.opens_with_hyphen {
            Filter::LeadingHyphen
        } else if facts.all_caps {
            Filter::AllCaps
        } else if facts.app_disabled {
            Filter::DisabledApp
        } else {
            Filter::CodeToken
        };
        assert(filter_applies(f, facts));
    }
}

/// Of several reasons the first is given, in this order: a changed layout,
/// the user's own list, a line that was sent, code behind or before the
/// word, a flag, an abbreviation, the application, an identifier. So the one
/// that is given applies, and none that comes before it does.
pub proof fn law_the_first_reason_is_given(f: Filter, g: Filter, facts: WordFacts)
    requires
        is_first_filter(f, facts),
    ensures
        filter_applies(f, facts),
        filter_applies(g, facts) ==> rank(f) <= rank(g),
        is_first_filter(g, facts) ==> f == g,
{
    assert forall|x: Filter| 0 <= rank(x) < 9 && filter_order()[rank(x)] == x by {}
    let i = choose|i: int|
        0 <= i < 9 && #[trigger] filter_order()[i] == f && filter_applies(f, facts) && forall|
            j: int,
        |
            0 <= j < i ==> !filter_applies(#[trigger] filter_order()[j], facts);
    assert(rank(f) == i);
    assert(filter_order()[rank(g)] == g);
}

/// The place of a reason in the order they are given in.
pub open spec fn rank(f: Filter) -> int {
    match f {
        Filter::LayoutChanged => 0,
        Filter::Whitelisted => 1,
        Filter::SubmissionBoundary => 2,
        Filter::StructuralSuffix => 3,
        Filter::StructuralPrefix => 4,
        Filter::LeadingHyphen => 5,
        Filter::AllCaps => 6,
        Filter::DisabledApp => 7,
        Filter::CodeToken => 8,
    }
}

// ─── The verdict ─────────────────────────────────────────────────────

/// The verdict that counts is the first one in the order of the detectors
/// that says anything: nobody before it did, and where nobody did there is
/// none.
pub proof fn law_the_first_opinion_counts(verdicts: Vec<Verdict>, v: Verdict)
    requires
        call_ensures(first_opinion, (verdicts,), v),
    ensures
        (v is NoOpinion) == forall|i: int|
            0 <= i < verdicts@.len() ==> (#[trigger] verdicts@[i]) is NoOpinion,
        !(v is NoOpinion) ==> exists|i: int|
            0 <= i < verdicts@.len() && #[trigger] verdicts@[i] == v && forall|j: int|
                0 <= j < i ==> (#[trigger] verdicts@[j]) is NoOpinion,
{
    lemma_first_said(verdicts@);
}

proof fn lemma_first_said(s: Seq<Verdict>)
    ensures
        (first_said(s) is NoOpinion) == forall|i: int|
            0 <= i < s.len() ==> (#[trigger] s[i]) is NoOpinion,
        !(first_said(s) is NoOpinion) ==> exists|i: int|
            0 <= i < s.len() && #[trigger] s[i] == first_said(s) && forall|j: int|
                0 <= j < i ==> (#[trigger] s[j]) is NoOpinion,
    decreases s.len(),
{
    if s.len() > 0 {
        let rest = s.drop_first();
        lemma_first_said(rest);
        if s[0] is NoOpinion {
            if first_said(s) is NoOpinion {
                assert forall|i: int| 0 <= i < s.len() implies (#[trigger] s[i]) is NoOpinion by {
                    if i > 0 {
                        assert(rest[i - 1] == s[i]);
                    }
                }
            } else {
                let i = choose|i: int|
                    0 <= i < rest.len() && #[trigger] rest[i] == first_said(rest) && forall|j: int|
                        0 <= j < i ==> (#[trigger] rest[j]) is NoOpinion;
                assert(s[i + 1] == first_said(s));
                assert forall|j: int| 0 <= j < i + 1 implies (#[trigger] s[j]) is NoOpinion by {
                    if j > 0 {
                        assert(rest[j - 1] == s[j]);
                    }
                }
            }
        } else {
            assert(s[0] == first_said(s));
        }
    }
}

/// What keys type in a layout, without a lock.
pub open spec fn typed_by(layouts: LayoutDb, to: Seq<char>, keys: Seq<ReplayKey>) -> Seq<char> {
    layouts.reads(
        to,
        Seq::new(keys.len(), |i: int| plain_key(keys[i].scancode, keys[i].shift)),
    )
}

/// The keys are the word's own, each on the level it was typed on.
pub open spec fn repeats_the_word(keys: Seq<ReplayKey>, word: Seq<WordKey>) -> bool {
    &&& keys.len() >= word.len()
    &&& forall|i: int|
        0 <= i < word.len() ==> (#[trigger] keys[i]).scancode == word[i].scancode && keys[i].shift
            == word[i].shift
}

/// Keys that repeat a word typed without a lock type what the word reads as.
pub proof fn lemma_repeated_keys_read_the_same(
    layouts: LayoutDb,
    to: Seq<char>,
    keys: Seq<ReplayKey>,
    word: Seq<WordKey>,
)
    requires
        repeats_the_word(keys, word),
        keys.len() == word.len(),
        forall|i: int| 0 <= i < word.len() ==> !(#[trigger] word[i]).caps,
    ensures
        typed_by(layouts, to, keys) == layouts.reads(to, word),
    decreases word.len(),
{
    let levels = layouts.levels(to);
    let plain = Seq::new(keys.len(), |i: int| plain_key(keys[i].scancode, keys[i].shift));
    if word.len() > 0 {
        let n = word.len() - 1;
        lemma_repeated_keys_read_the_same(layouts, to, keys.drop_last(), word.drop_last());
        assert(Seq::new(
            keys.drop_last().len(),
            |i: int| plain_key(keys.drop_last()[i].scancode, keys.drop_last()[i].shift),
        ) =~= plain.drop_last());
        assert(!word[n].caps);
        assert(keys[n].scancode == word[n].scancode);
        lemma_time_does_not_matter(levels, plain.last(), word.last());
    } else {
        assert(plain =~= Seq::empty());
        assert(word =~= Seq::empty());
    }
}

/// What a key gives does not depend on when it was pressed.
proof fn lemma_time_does_not_matter(
    levels: Seq<crate::layouts::KeyLevel>,
    a: WordKey,
    b: WordKey,
)
    requires
        a.scancode == b.scancode,
        a.shift == b.shift,
        a.caps == b.caps,
    ensures
        char_of_key(levels, a) == char_of_key(levels, b),
    decreases levels.len(),
{
    if levels.len() > 0 {
        lemma_time_does_not_matter(levels.drop_first(), a, b);
    }
}

/// The replay types the corrected text: its keys are the word's own, on
/// their own levels, and one more for the separator; it erases as many
/// characters as it types; and for a word typed without a lock those keys
/// type, in the target, the very text that is announced, up to the separator
/// that ends it.
pub proof fn law_the_replay_types_the_corrected_text(
    layouts: &LayoutDb,
    word: &CompletedWord,
    j: &Judgement,
    verdict: Verdict,
    play_sound: bool,
    c: Correction,
)
    requires
        word.keys.len() < usize::MAX,
        call_ensures(
            act_on_verdict,
            (layouts, word, j, verdict, play_sound),
            SwitchAction::SwitchAndReplay(c),
        ),
    ensures
        verdict matches Verdict::Switch { best_layout, confident, .. } && confident && c.to@
            == best_layout@,
        c.from@ == j.current_layout@,
        c.reason@ == verdict->Switch_reason@,
        c.play_sound == play_sound,
        c.pointer_click_allowance == 0,
        c.replay_keys is Some,
        repeats_the_word(c.replay_keys->0@, word.keys@),
        c.replay_keys->0@.len() == word.keys@.len() + 1,
        c.backspaces == c.replay_keys->0@.len(),
        c.original@ == j.current_text@,
        candidate_text(candidate_views(j.candidates@), c.to@) == Some(
            layouts.reads(c.to@, word.keys@),
        ) && (forall|i: int| 0 <= i < word.keys@.len() ==> !(#[trigger] word.keys@[i]).caps)
            ==> c.corrected@ == typed_by(
            *layouts,
            c.to@,
            c.replay_keys->0@.drop_last(),
        ).push(c.corrected@.last()),
{
    let rk = c.replay_keys->0@;
    let keys = word.keys@;
    assert(rk.drop_last() =~= replay_of(keys));
    assert forall|i: int| 0 <= i < keys.len() implies (#[trigger] rk[i]).scancode
        == keys[i].scancode && rk[i].shift == keys[i].shift by {
        assert(rk[i] == rk.drop_last()[i]);
    }
    assert forall|i: int| 0 <= i < keys.len() implies (
    #[trigger] rk.drop_last()[i]).scancode == keys[i].scancode && rk.drop_last()[i].shift
        == keys[i].shift by {
        assert(rk[i] == rk.drop_last()[i]);
    }
    if forall|i: int| 0 <= i < keys.len() ==> !(#[trigger] keys[i]).caps {
        lemma_repeated_keys_read_the_same(*layouts, c.to@, rk.drop_last(), keys);
    }
}

proof fn lemma_text_of_one_more(
    cs: Seq<(Seq<char>, Seq<char>)>,
    x: (Seq<char>, Seq<char>),
    id: Seq<char>,
)
    ensures
        candidate_text(cs.push(x), id) == if candidate_text(cs, id) is Some {
            candidate_text(cs, id)
        } else if x.0 == id {
            Some(x.1)
        } else {
            None
        },
    decreases cs.len(),
{
    let all = cs.push(x);
    if cs.len() == 0 {
        assert(all[0] == x);
        assert(all.drop_first() =~= Seq::empty());
        assert(candidate_text(all.drop_first(), id) is None);
    } else {
        assert(all[0] == cs[0]);
        assert(all.drop_first() =~= cs.drop_first().push(x));
        lemma_text_of_one_more(cs.drop_first(), x, id);
    }
}

proof fn lemma_candidate_text(
    rows: Seq<(LayoutId, LayoutMapping)>,
    keys: Seq<WordKey>,
    current: Seq<char>,
    active: Seq<Seq<char>>,
    ignored: Seq<Seq<char>>,
    os_active: Option<Seq<Seq<char>>>,
    id: Seq<char>,
    i: int,
)
    requires
        0 <= i < rows.len() ==> rows[i].0@ == id && forall|j: int|
            0 <= j < i ==> (#[trigger] rows[j]).0@ != id,
        !(0 <= i < rows.len()) ==> forall|j: int|
            0 <= j < rows.len() ==> (#[trigger] rows[j]).0@ != id,
    ensures
        candidate_text(candidates_of(rows, keys, current, active, ignored, os_active), id) == if 0
            <= i < rows.len() && eligible(id, current, active, ignored, os_active) {
            Some(reading(rows[i].1.levels@, keys))
        } else {
            None
        },
    decreases rows.len(),
{
    if rows.len() > 0 {
        let init = rows.drop_last();
        let n = rows.len() - 1;
        assert(forall|j: int| 0 <= j < n ==> #[trigger] init[j] == rows[j]);
        assert(rows[n] == rows.last());
        lemma_candidate_text(init, keys, current, active, ignored, os_active, id, i);
        let before = candidates_of(init, keys, current, active, ignored, os_active);
        lemma_text_of_one_more(before, (rows[n].0@, reading(rows[n].1.levels@, keys)), id);
    }
}

/// What a word is corrected to is what its keys read as in the target: the
/// detectors are handed, for every layout that may be switched to, just
/// that, and nothing for any other.
pub proof fn law_a_candidates_text_is_its_reading(
    layouts: LayoutDb,
    settings: Settings,
    word: CompletedWord,
    around: Surroundings,
    name: Seq<char>,
)
    requires
        around.current_layout is Some,
    ensures
        candidate_text(word_candidates(layouts, settings, word, around), name) == if may_switch_to(
            layouts,
            settings,
            around,
            name,
        ) {
            Some(layouts.reads(name, word.keys@))
        } else {
            None
        },
{
    let rows = layouts.layouts@;
    let current = around.current_layout->0@;
    let active = names(settings.languages.active@);
    let ignored = names(settings.languages.ignored@);
    let os = opt_list(around.os_active);
    lemma_named(settings.languages.active@, name);
    lemma_named(settings.languages.ignored@, name);
    if let Some(list) = around.os_active {
        lemma_named(list@, name);
    }
    let ns = row_names(rows);
    ns.index_of_first_ensures(name);
    let i = if layouts.known(name) {
        ns.index_of_first(name)->0
    } else {
        -1
    };
    assert forall|j: int| 0 <= j < rows.len() && (i < 0 || j < i) implies (
    #[trigger] rows[j]).0@ != name by {
        assert(ns[j] == rows[j].0@);
    }
    if i >= 0 {
        assert(ns[i] == rows[i].0@);
    }
    lemma_candidate_text(rows, word.keys@, current, active, ignored, os, name, i);
}

/// The separator behind a corrected word is the one that was typed, and the
/// key that is replayed for it types it in the target. The one exception is
/// a key that means code in the old layout and punctuation in the new: it is
/// replayed as it is, and reads as the punctuation. A separator that means
/// code in both keeps the word as it is.
pub proof fn law_the_separator_is_typed_again(
    layouts: &LayoutDb,
    word: &CompletedWord,
    j: &Judgement,
    verdict: Verdict,
    play_sound: bool,
    action: SwitchAction,
)
    requires
        word.keys.len() < usize::MAX,
        verdict is Switch && verdict->confident,
        call_ensures(act_on_verdict, (layouts, word, j, verdict, play_sound), action),
    ensures
        ({
            let to = verdict->best_layout@;
            let read = layouts.renders(to, plain_key(word.boundary_scancode, word.boundary_shift));
            let turned = joins_addresses(j.boundary_char) && read is Some && closes_a_sentence(
                read->0,
            );
            &&& action is KeepCurrent <==> joins_addresses(j.boundary_char) && !turned
            &&& action matches SwitchAction::SwitchAndReplay(c) ==> {
                let key = c.replay_keys->0@.last();
                &&& c.corrected@.len() > 0
                &&& turned ==> c.corrected@.last() == read->0 && key.scancode
                    == word.boundary_scancode && key.shift == word.boundary_shift
                &&& !turned ==> c.corrected@.last() == j.boundary_char
                &&& tables_agree(*layouts, to) && (turned || key_of_char(
                    layouts.chars(to),
                    j.boundary_char,
                ) is Some) ==> layouts.renders(to, plain_key(key.scancode, key.shift)) == Some(
                    c.corrected@.last(),
                )
            }
        }),
{
    let address = seq![':', '/', '\\', '@', '=', '#', '&'];
    let sentence = seq!['.', ',', '!', '?'];
    assert(address[0] == ':' && address[1] == '/' && address[2] == '\\' && address[3] == '@'
        && address[4] == '=' && address[5] == '#' && address[6] == '&');
    assert(sentence[0] == '.' && sentence[1] == ',' && sentence[2] == '!' && sentence[3] == '?');
    let ch = j.boundary_char;
    if address.contains(ch) {
        let i = choose|i: int| 0 <= i < address.len() && address[i] == ch;
    }
    assert(joins_addresses(ch) == crate::engine::heuristics::is_structural(ch));
    assert forall|c: char| #[trigger] closes_a_sentence(c)
        == crate::engine::heuristics::ends_sentence(c) by {
        if sentence.contains(c) {
            let i = choose|i: int| 0 <= i < sentence.len() && sentence[i] == c;
        }
    }
}

/// Without a confident verdict nothing is switched: the word is kept when
/// nobody has an opinion, on a veto, and when the confidence falls short;
/// and a suggestion may be offered only for a word that began after a
/// separator that was seen.
pub proof fn law_only_a_confident_verdict_switches(
    layouts: &LayoutDb,
    word: &CompletedWord,
    j: &Judgement,
    verdict: Verdict,
    play_sound: bool,
    action: SwitchAction,
)
    requires
        word.keys.len() < usize::MAX,
        call_ensures(act_on_verdict, (layouts, word, j, verdict, play_sound), action),
        match verdict {
            Verdict::Switch { confident, .. } => !confident,
            _ => true,
        },
    ensures
        action matches SwitchAction::KeepCurrent { offer_suggestions, low_conf_alt, .. }
            && offer_suggestions == word.started_clean && (low_conf_alt is Some ==> verdict is Switch),
{
}

/// A word that was stashed when it was closed is what the manual hotkey then
/// moves: what it takes off the screen is what the word read as where it was
/// typed, with the one separator behind it.
pub proof fn law_the_stash_is_what_is_on_screen(
    w: LastWord,
    stamp: Option<LayoutId>,
    layouts: LayoutDb,
    word: CompletedWord,
    around: Surroundings,
    c: Correction,
    target: Seq<char>,
    play_sound: bool,
)
    requires
        around.current_layout is Some,
        stashes(w, stamp, layouts, word, around),
        is_switch_of(c, layouts, w, target, play_sound),
    ensures
        ({
            let typed = match stamp {
                Some(id) => id@,
                None => around.current_layout->0@,
            };
            &&& c.from@ == typed
            &&& !(w.corrected_to is Some) && !w.user_placed
            &&& w.keys@ == word.keys@
            &&& c.original@ == layouts.reads(typed, word.keys@)
            &&& c.backspaces == word.keys@.len() + 1
            &&& c.corrected@.len() > 0 && c.corrected@.last() == ends_at(
                layouts,
                around.current_layout->0@,
                word.boundary_scancode,
                word.boundary_shift,
            )
        }),
{
}

// ─── Reasons ─────────────────────────────────────────────────────────

/// A reason names what it is about: both layouts where the layout changed,
/// the character where there is one, the application where that is it; and
/// the word only by its length.
pub proof fn law_a_reason_names_what_it_is_about(
    n: nat,
    typed: Seq<char>,
    current: Seq<char>,
    boundary: char,
    lead: char,
    exe: Seq<char>,
    filter: Filter,
)
    ensures
        ({
            let said = keep_message(filter, n, typed, current, boundary, lead, exe);
            &&& filter == Filter::LayoutChanged ==> contains_text(said, typed) && contains_text(
                said,
                current,
            )
            &&& filter == Filter::StructuralSuffix ==> contains_text(said, seq![boundary])
            &&& filter == Filter::StructuralPrefix ==> contains_text(said, seq![lead])
            &&& filter == Filter::DisabledApp ==> contains_text(said, exe)
            &&& filter != Filter::DisabledApp ==> contains_text(said, redacted(n))
        }),
{
    let said = keep_message(filter, n, typed, current, boundary, lead, exe);
    let red = redacted(n);
    match filter {
        Filter::LayoutChanged => {
            let a = "layout changed from "@;
            let b = " to "@ + current + " while "@ + red + " was being typed"@;
            lemma_said(said, a, typed, b);
            let a = "layout changed from "@ + typed + " to "@;
            let b = " while "@ + red + " was being typed"@;
            lemma_said(said, a, current, b);
            let a = "layout changed from "@ + typed + " to "@ + current + " while "@;
            lemma_said(said, a, red, " was being typed"@);
        },
        Filter::Whitelisted => {
            lemma_said(said, Seq::empty(), red, " is on the word whitelist"@);
        },
        Filter::SubmissionBoundary => {
            lemma_said(
                said,
                "submission boundary after "@,
                red,
                " — not re-emitting Enter/Tab"@,
            );
        },
        Filter::StructuralSuffix => {
            let a = "structural boundary `"@;
            let b = "` after "@ + red + " — likely URL / path / email / code"@;
            lemma_said(said, a, seq![boundary], b);
            let a = "structural boundary `"@ + seq![boundary] + "` after "@;
            lemma_said(said, a, red, " — likely URL / path / email / code"@);
        },
        Filter::StructuralPrefix => {
            let a = "structural prefix `"@;
            let b = "` before "@ + red + " — likely URL / path / email / code"@;
            lemma_said(said, a, seq![lead], b);
            let a = "structural prefix `"@ + seq![lead] + "` before "@;
            lemma_said(said, a, red, " — likely URL / path / email / code"@);
        },
        Filter::LeadingHyphen => {
            lemma_said(
                said,
                Seq::empty(),
                red,
                " opens with a hyphen — likely a command-line flag"@,
            );
        },
        Filter::AllCaps => {
            lemma_said(
                said,
                Seq::empty(),
                red,
                " is ALL CAPS — likely an abbreviation, not a wrong-layout word"@,
            );
        },
        Filter::DisabledApp => {
            lemma_said(said, "app `"@, exe, "` on disabled_apps list"@);
        },
        Filter::CodeToken => {
            lemma_said(said, "token "@, red, " looks like an identifier"@);
        },
    }
}

proof fn lemma_said(said: Seq<char>, a: Seq<char>, x: Seq<char>, b: Seq<char>)
    requires
        said =~= a + x + b,
    ensures
        contains_text(said, x),
{
    law_what_contains_a_text_is_built_round_it(said, x, a, b);
}

} // verus!
